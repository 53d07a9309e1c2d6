//! The record shapes, their in-memory views, and the three transition handlers.

use vstd::prelude::*;

verus! {

/// A participant's 32-byte public identity key; a record's address has the same form.
#[derive(Clone, Copy, Debug)]
pub struct Key {
    pub bytes: [u8; 32],
}

impl Key {
    pub open spec fn is_zero(&self) -> bool {
        forall|i: int| 0 <= i < 32 ==> #[trigger] self.bytes@[i] == 0
    }

    /// The all-zero key, the default value of an unset key field.
    pub fn zeroed() -> (r: Key)
        ensures
            r.is_zero(),
    {
        Key { bytes: [0u8; 32] }
    }
}

/// Two keys with the same bytes are the same key.
pub proof fn lemma_key_bytes(a: Key, b: Key)
    requires
        a.bytes@ == b.bytes@,
    ensures
        a == b,
{
    assert(a.bytes =~= b.bytes);
}

impl PartialEq for Key {
    fn eq(&self, other: &Key) -> (r: bool) {
        let mut i: usize = 0;
        while i < 32
            invariant
                0 <= i <= 32,
                forall|j: int| 0 <= j < i ==> self.bytes@[j] == other.bytes@[j],
            decreases 32 - i,
        {
            if self.bytes[i] != other.bytes[i] {
                return false;
            }
            i += 1;
        }
        proof {
            assert(self.bytes =~= other.bytes);
        }
        true
    }
}

impl Eq for Key {
}

impl vstd::std_specs::cmp::PartialEqSpecImpl for Key {
    open spec fn obeys_eq_spec() -> bool {
        true
    }

    open spec fn eq_spec(&self, other: &Key) -> bool {
        *self == *other
    }
}

/// A registered candidate: its owner and its tally.
#[derive(Clone, Copy, Debug)]
pub struct Candidate {
    pub owner: Key,
    pub num_votes: u64,
}

/// A registered voter: its owner, the digest of its identity credential, and
/// whether and for whom it has voted.
#[derive(Clone, Copy, Debug)]
pub struct Voter {
    pub owner: Key,
    pub cccd_sha256: [u8; 32],
    pub vote_who: Key,
    pub voted: bool,
}

/// A stored record together with the address that locates it.
#[derive(Clone, Copy, Debug)]
pub struct Account<T> {
    pub key: Key,
    pub data: T,
}

/// The in-memory view of a candidate record during one operation.
#[derive(Clone, Copy, Debug)]
pub struct LoadedCandidate {
    pub address: Key,
    pub owner: Key,
    pub num_votes: u64,
}

/// The in-memory view of a voter record during one operation.
#[derive(Clone, Copy, Debug)]
pub struct LoadedVoter {
    pub address: Key,
    pub owner: Key,
    pub cccd_sha256: [u8; 32],
    pub vote_who: Key,
    pub voted: bool,
}

/// A record whose storage was allocated by the current operation, with the
/// bump seed that its address was found with.
#[derive(Clone, Copy, Debug)]
pub struct Empty<T> {
    pub account: T,
    pub bump: Option<u8>,
}

/// Why an operation was refused. No refused operation changes any record.
#[derive(Clone, Copy, Debug, PartialEq, Eq, Structural)]
pub enum VoteError {
    /// A record already occupies the address derived for this owner.
    AlreadyExists,
    /// The voter record has already cast its vote.
    AlreadyVoted,
    /// The signer is not the voter record's owner.
    NotOwner,
    /// No record is stored at a named address.
    AccountNotFound,
    /// No valid program address could be derived for this owner.
    NoAddress,
}

impl LoadedCandidate {
    pub open spec fn record(&self) -> Candidate {
        Candidate { owner: self.owner, num_votes: self.num_votes }
    }
}

impl LoadedVoter {
    pub open spec fn record(&self) -> Voter {
        Voter {
            owner: self.owner,
            cccd_sha256: self.cccd_sha256,
            vote_who: self.vote_who,
            voted: self.voted,
        }
    }
}

impl Candidate {
    /// The record at creation, before its owner is set: every field zero.
    pub open spec fn is_blank(&self) -> bool {
        self.owner.is_zero() && self.num_votes == 0
    }

    pub fn blank() -> (r: Candidate)
        ensures
            r.is_blank(),
    {
        Candidate { owner: Key::zeroed(), num_votes: 0 }
    }

    /// Copies a stored candidate into its in-memory view.
    pub fn load(account: &Account<Candidate>) -> (r: LoadedCandidate)
        ensures
            r.address == account.key,
            r.record() == account.data,
    {
        let owner = account.data.owner;
        let num_votes = account.data.num_votes;
        LoadedCandidate { address: account.key, owner, num_votes }
    }

    /// Writes an in-memory view back over the stored record.
    pub fn store(loaded: &LoadedCandidate, account: &mut Account<Candidate>)
        ensures
            final(account).key == old(account).key,
            final(account).data == loaded.record(),
    {
        account.data.owner = loaded.owner;
        account.data.num_votes = loaded.num_votes;
    }
}

impl Voter {
    /// The record at creation, before its owner is set: every field zero.
    pub open spec fn is_blank(&self) -> bool {
        &&& self.owner.is_zero()
        &&& forall|i: int| 0 <= i < 32 ==> #[trigger] self.cccd_sha256@[i] == 0
        &&& self.vote_who.is_zero()
        &&& !self.voted
    }

    pub fn blank() -> (r: Voter)
        ensures
            r.is_blank(),
    {
        Voter {
            owner: Key::zeroed(),
            cccd_sha256: [0u8; 32],
            vote_who: Key::zeroed(),
            voted: false,
        }
    }

    /// Copies a stored voter into its in-memory view.
    pub fn load(account: &Account<Voter>) -> (r: LoadedVoter)
        ensures
            r.address == account.key,
            r.record() == account.data,
    {
        let owner = account.data.owner;
        let cccd_sha256 = account.data.cccd_sha256;
        let vote_who = account.data.vote_who;
        let voted = account.data.voted;
        LoadedVoter { address: account.key, owner, cccd_sha256, vote_who, voted }
    }

    /// Writes an in-memory view back over the stored record.
    pub fn store(loaded: &LoadedVoter, account: &mut Account<Voter>)
        ensures
            final(account).key == old(account).key,
            final(account).data == loaded.record(),
    {
        account.data.owner = loaded.owner;
        account.data.cccd_sha256 = loaded.cccd_sha256;
        account.data.vote_who = loaded.vote_who;
        account.data.voted = loaded.voted;
    }
}

/// Sets up a freshly allocated candidate: owned by `owner`, with no votes.
/// The payer only funds the allocation.
pub fn init_candidate_handler(payer: Key, owner: Key, candidate: &mut Empty<LoadedCandidate>)
    ensures
        final(candidate).bump == old(candidate).bump,
        final(candidate).account.address == old(candidate).account.address,
        final(candidate).account.record() == (Candidate { owner, num_votes: 0 }),
{
    candidate.account.owner = owner;
    candidate.account.num_votes = 0;
}

/// Sets up a freshly allocated voter: owned by `owner`, holding the digest
/// unchanged. Its other fields keep the values it was allocated with.
pub fn init_voter_handler(
    payer: Key,
    owner: Key,
    voter: &mut Empty<LoadedVoter>,
    cccd_sha256: [u8; 32],
)
    ensures
        final(voter).bump == old(voter).bump,
        final(voter).account == (LoadedVoter { owner, cccd_sha256, ..old(voter).account }),
{
    voter.account.owner = owner;
    voter.account.cccd_sha256 = cccd_sha256;
}

/// Casts `voter`'s single vote for `candidate`. Refused with `AlreadyVoted`
/// if the voter has voted, else with `NotOwner` if `voter_signer` does not
/// own the voter record; a refusal changes nothing. On success the tally
/// grows by one and the voter records the candidate's address.
pub fn vote_handler(
    payer: Key,
    voter_signer: Key,
    voter: &mut LoadedVoter,
    candidate: &mut LoadedCandidate,
) -> (r: Result<(), VoteError>)
    requires
        !old(voter).voted && voter_signer == old(voter).owner ==> old(candidate).num_votes
            < u64::MAX,
    ensures
        old(voter).voted ==> r == Err::<(), VoteError>(VoteError::AlreadyVoted),
        !old(voter).voted && voter_signer != old(voter).owner ==> r == Err::<(), VoteError>(
            VoteError::NotOwner,
        ),
        !old(voter).voted && voter_signer == old(voter).owner ==> r == Ok::<(), VoteError>(()),
        r is Err ==> *final(voter) == *old(voter) && *final(candidate) == *old(candidate),
        r is Ok ==> *final(candidate) == (LoadedCandidate {
            num_votes: (old(candidate).num_votes + 1) as u64,
            ..*old(candidate)
        }),
        r is Ok ==> *final(voter) == (LoadedVoter {
            voted: true,
            vote_who: old(candidate).address,
            ..*old(voter)
        }),
{
    if voter.voted {
        return Err(VoteError::AlreadyVoted);
    }
    if !(voter_signer == voter.owner) {
        return Err(VoteError::NotOwner);
    }
    candidate.num_votes = candidate.num_votes + 1;
    voter.voted = true;
    voter.vote_who = candidate.address;
    Ok(())
}

} // verus!
