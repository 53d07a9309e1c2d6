//! The record store and the three operations on it: create-candidate,
//! create-voter and cast-vote, each all-or-nothing.

use vstd::prelude::*;

use crate::address::{program_address, seeds_view, try_find_program_address};
use crate::program::{
    init_candidate_handler, init_voter_handler, lemma_key_bytes, vote_handler, Account, Candidate,
    Empty, Key, VoteError, Voter,
};

verus! {

/// The type tag in the seeds of a candidate record's address: the ASCII
/// bytes of "candidate".
pub open spec fn candidate_tag() -> Seq<u8> {
    seq![99u8, 97, 110, 100, 105, 100, 97, 116, 101]
}

/// The type tag in the seeds of a voter record's address: the ASCII bytes
/// of "voter".
pub open spec fn voter_tag() -> Seq<u8> {
    seq![118u8, 111, 116, 101, 114]
}

/// The seeds that locate `owner`'s record of the kind that `tag` names.
pub open spec fn record_seeds(owner: Key, tag: Seq<u8>) -> Seq<Seq<u8>> {
    seq![owner.bytes@, tag]
}

/// The address (and bump seed) of `owner`'s record of the kind `tag`.
pub open spec fn derived(program_id: Key, owner: Key, tag: Seq<u8>) -> Option<(Seq<u8>, u8)> {
    program_address(record_seeds(owner, tag), program_id.bytes@)
}

pub open spec fn refused(e: VoteError) -> Result<(), VoteError> {
    Err(e)
}

/// The store's contents as sequences of records, in order of creation.
pub struct LedgerState {
    pub program_id: Key,
    pub candidates: Seq<Account<Candidate>>,
    pub voters: Seq<Account<Voter>>,
}

/// 1 where `v` has voted for the record at address `a`, else 0.
pub open spec fn contribution(v: Account<Voter>, a: Key) -> nat {
    if v.data.voted && v.data.vote_who == a {
        1
    } else {
        0
    }
}

/// The number of voter records that have voted for the record at address `a`.
pub open spec fn votes_for(voters: Seq<Account<Voter>>, a: Key) -> nat
    decreases voters.len(),
{
    if voters.len() == 0 {
        0
    } else {
        votes_for(voters.drop_last(), a) + contribution(voters.last(), a)
    }
}

pub open spec fn keys_unique<T>(accounts: Seq<Account<T>>) -> bool {
    forall|i: int, j: int|
        0 <= i < accounts.len() && 0 <= j < accounts.len() && i != j ==> accounts[i].key
            != accounts[j].key
}

pub open spec fn has_key<T>(accounts: Seq<Account<T>>, k: Key) -> bool {
    exists|i: int| 0 <= i < accounts.len() && accounts[i].key == k
}

pub open spec fn has_address<T>(accounts: Seq<Account<T>>, a: Seq<u8>) -> bool {
    exists|i: int| 0 <= i < accounts.len() && accounts[i].key.bytes@ == a
}

/// The position of the record stored at `k`.
pub open spec fn index_of<T>(accounts: Seq<Account<T>>, k: Key) -> int {
    choose|i: int| 0 <= i < accounts.len() && accounts[i].key == k
}

impl LedgerState {
    /// At most one record of each kind per address; every tally counts
    /// exactly the voters that voted for it; every vote names a candidate.
    pub open spec fn wf(&self) -> bool {
        &&& self.voters.len() <= usize::MAX
        &&& keys_unique(self.candidates)
        &&& keys_unique(self.voters)
        &&& forall|i: int|
            0 <= i < self.candidates.len() ==> #[trigger] self.candidates[i].data.num_votes
                == votes_for(self.voters, self.candidates[i].key)
        &&& forall|j: int|
            0 <= j < self.voters.len() && #[trigger] self.voters[j].data.voted ==> has_key(
                self.candidates,
                self.voters[j].data.vote_who,
            )
    }
}

proof fn lemma_votes_push(voters: Seq<Account<Voter>>, v: Account<Voter>, a: Key)
    ensures
        votes_for(voters.push(v), a) == votes_for(voters, a) + contribution(v, a),
{
    assert(voters.push(v).drop_last() =~= voters);
}

proof fn lemma_votes_update(voters: Seq<Account<Voter>>, i: int, v: Account<Voter>, a: Key)
    requires
        0 <= i < voters.len(),
    ensures
        votes_for(voters.update(i, v), a) + contribution(voters[i], a) == votes_for(voters, a)
            + contribution(v, a),
    decreases voters.len(),
{
    let u = voters.update(i, v);
    if i == voters.len() - 1 {
        assert(u.drop_last() =~= voters.drop_last());
    } else {
        assert(u.drop_last() =~= voters.drop_last().update(i, v));
        lemma_votes_update(voters.drop_last(), i, v, a);
    }
}

proof fn lemma_votes_at_most_len(voters: Seq<Account<Voter>>, a: Key)
    ensures
        votes_for(voters, a) <= voters.len(),
    decreases voters.len(),
{
    if voters.len() > 0 {
        lemma_votes_at_most_len(voters.drop_last(), a);
    }
}

proof fn lemma_votes_below_len(voters: Seq<Account<Voter>>, a: Key, i: int)
    requires
        0 <= i < voters.len(),
        !voters[i].data.voted,
    ensures
        votes_for(voters, a) < voters.len(),
    decreases voters.len(),
{
    if i == voters.len() - 1 {
        lemma_votes_at_most_len(voters.drop_last(), a);
    } else {
        lemma_votes_below_len(voters.drop_last(), a, i);
    }
}

proof fn lemma_votes_none(voters: Seq<Account<Voter>>, a: Key)
    requires
        forall|j: int|
            0 <= j < voters.len() && #[trigger] voters[j].data.voted ==> voters[j].data.vote_who
                != a,
    ensures
        votes_for(voters, a) == 0,
    decreases voters.len(),
{
    if voters.len() > 0 {
        let d = voters.drop_last();
        assert forall|j: int| 0 <= j < d.len() && #[trigger] d[j].data.voted implies d[j].data.vote_who
            != a by {
            assert(d[j] == voters[j]);
            assert(voters[j].data.voted);
        }
        lemma_votes_none(d, a);
    }
}

/// The outcome of create-candidate for `owner` on `s`: refused with
/// `AlreadyExists` where a candidate record occupies the derived address,
/// else a new record `{owner, num_votes: 0}` is appended at that address.
pub open spec fn init_candidate_post(
    s: LedgerState,
    owner: Key,
    s2: LedgerState,
    r: Result<(), VoteError>,
) -> bool {
    match derived(s.program_id, owner, candidate_tag()) {
        None => r == refused(VoteError::NoAddress) && s2 == s,
        Some(found) => if has_address(s.candidates, found.0) {
            r == refused(VoteError::AlreadyExists) && s2 == s
        } else {
            &&& r == Ok::<(), VoteError>(())
            &&& s2.program_id == s.program_id
            &&& s2.voters == s.voters
            &&& s2.candidates.len() == s.candidates.len() + 1
            &&& s2.candidates.drop_last() == s.candidates
            &&& s2.candidates.last().key.bytes@ == found.0
            &&& s2.candidates.last().data == (Candidate { owner, num_votes: 0 })
        },
    }
}

/// The outcome of create-voter for `owner` on `s`: refused with
/// `AlreadyExists` where a voter record occupies the derived address, else a
/// new record is appended there holding `owner` and the digest unchanged,
/// with a zero `vote_who` and `voted` false.
pub open spec fn init_voter_post(
    s: LedgerState,
    owner: Key,
    cccd_sha256: [u8; 32],
    s2: LedgerState,
    r: Result<(), VoteError>,
) -> bool {
    match derived(s.program_id, owner, voter_tag()) {
        None => r == refused(VoteError::NoAddress) && s2 == s,
        Some(found) => if has_address(s.voters, found.0) {
            r == refused(VoteError::AlreadyExists) && s2 == s
        } else {
            &&& r == Ok::<(), VoteError>(())
            &&& s2.program_id == s.program_id
            &&& s2.candidates == s.candidates
            &&& s2.voters.len() == s.voters.len() + 1
            &&& s2.voters.drop_last() == s.voters
            &&& s2.voters.last().key.bytes@ == found.0
            &&& s2.voters.last().data.owner == owner
            &&& s2.voters.last().data.cccd_sha256 == cccd_sha256
            &&& s2.voters.last().data.vote_who.is_zero()
            &&& !s2.voters.last().data.voted
        },
    }
}

/// The outcome of cast-vote by `voter_signer` with the voter record at
/// `voter` and the candidate record at `candidate`. Refusals, in order:
/// `AccountNotFound` where either record is missing, `AlreadyVoted`,
/// `NotOwner`. On success the candidate's tally grows by one and the voter
/// is marked as having voted for `candidate`.
pub open spec fn vote_post(
    s: LedgerState,
    voter_signer: Key,
    voter: Key,
    candidate: Key,
    s2: LedgerState,
    r: Result<(), VoteError>,
) -> bool {
    if !has_key(s.voters, voter) || !has_key(s.candidates, candidate) {
        r == refused(VoteError::AccountNotFound) && s2 == s
    } else {
        let vi = index_of(s.voters, voter);
        let ci = index_of(s.candidates, candidate);
        let v = s.voters[vi].data;
        let c = s.candidates[ci].data;
        if v.voted {
            r == refused(VoteError::AlreadyVoted) && s2 == s
        } else if voter_signer != v.owner {
            r == refused(VoteError::NotOwner) && s2 == s
        } else {
            &&& r == Ok::<(), VoteError>(())
            &&& s2 == LedgerState {
                program_id: s.program_id,
                candidates: s.candidates.update(
                    ci,
                    Account { key: candidate, data: Candidate { num_votes: (c.num_votes + 1) as u64, ..c } },
                ),
                voters: s.voters.update(
                    vi,
                    Account { key: voter, data: Voter { voted: true, vote_who: candidate, ..v } },
                ),
            }
        }
    }
}

proof fn lemma_init_candidate_wf(s: LedgerState, owner: Key, s2: LedgerState, r: Result<(), VoteError>)
    requires
        s.wf(),
        init_candidate_post(s, owner, s2, r),
    ensures
        s2.wf(),
{
    if r is Ok {
        let n = s.candidates.len();
        let k = s2.candidates.last().key;
        assert forall|i: int| 0 <= i < n implies s2.candidates[i] == s.candidates[i]
            && s.candidates[i].key != k by {
            assert(s2.candidates.drop_last()[i] == s2.candidates[i]);
        }
        assert forall|j: int|
            0 <= j < s.voters.len() && #[trigger] s.voters[j].data.voted implies s.voters[j].data.vote_who
            != k by {
            let i = choose|i: int| 0 <= i < n && s.candidates[i].key == s.voters[j].data.vote_who;
            assert(s.candidates[i].key != k);
        }
        lemma_votes_none(s.voters, k);
        assert forall|j: int|
            0 <= j < s2.voters.len() && #[trigger] s2.voters[j].data.voted implies has_key(
            s2.candidates,
            s2.voters[j].data.vote_who,
        ) by {
            let i = choose|i: int| 0 <= i < n && s.candidates[i].key == s.voters[j].data.vote_who;
            assert(s2.candidates[i] == s.candidates[i]);
        }
        assert forall|i: int| 0 <= i < s2.candidates.len() implies #[trigger] s2.candidates[i].data.num_votes
            == votes_for(s2.voters, s2.candidates[i].key) by {
            if i < n {
                assert(s2.candidates[i] == s.candidates[i]);
            }
        }
    }
}

proof fn lemma_init_voter_wf(
    s: LedgerState,
    owner: Key,
    cccd_sha256: [u8; 32],
    s2: LedgerState,
    r: Result<(), VoteError>,
)
    requires
        s.wf(),
        init_voter_post(s, owner, cccd_sha256, s2, r),
        s2.voters.len() <= usize::MAX,
    ensures
        s2.wf(),
{
    if r is Ok {
        let n = s.voters.len();
        let nv = s2.voters.last();
        assert(s2.voters =~= s.voters.push(nv));
        assert forall|i: int| 0 <= i < n implies s2.voters[i] == s.voters[i] && s.voters[i].key
            != nv.key by {
            assert(s2.voters.drop_last()[i] == s2.voters[i]);
        }
        assert forall|i: int| 0 <= i < s2.candidates.len() implies #[trigger] s2.candidates[i].data.num_votes
            == votes_for(s2.voters, s2.candidates[i].key) by {
            lemma_votes_push(s.voters, nv, s2.candidates[i].key);
        }
        assert forall|j: int|
            0 <= j < s2.voters.len() && #[trigger] s2.voters[j].data.voted implies has_key(
            s2.candidates,
            s2.voters[j].data.vote_who,
        ) by {
            assert(s2.voters[j] == s.voters[j]);
        }
    }
}

proof fn lemma_index_of<T>(accounts: Seq<Account<T>>, k: Key, i: int)
    requires
        keys_unique(accounts),
        0 <= i < accounts.len(),
        accounts[i].key == k,
    ensures
        index_of(accounts, k) == i,
{
}

proof fn lemma_vote_wf(
    s: LedgerState,
    voter_signer: Key,
    voter: Key,
    candidate: Key,
    s2: LedgerState,
    r: Result<(), VoteError>,
)
    requires
        s.wf(),
        vote_post(s, voter_signer, voter, candidate, s2, r),
    ensures
        s2.wf(),
        r is Ok ==> s.candidates[index_of(s.candidates, candidate)].data.num_votes < u64::MAX,
{
    if r is Ok {
        let vi = index_of(s.voters, voter);
        let ci = index_of(s.candidates, candidate);
        let v = s.voters[vi];
        let nv = s2.voters[vi];
        lemma_votes_below_len(s.voters, candidate, vi);
        assert(s.voters.len() <= u64::MAX);
        assert forall|i: int| 0 <= i < s2.candidates.len() implies #[trigger] s2.candidates[i].data.num_votes
            == votes_for(s2.voters, s2.candidates[i].key) by {
            lemma_votes_update(s.voters, vi, nv, s2.candidates[i].key);
            assert(s2.candidates[i].key == s.candidates[i].key);
        }
        assert forall|i: int, j: int|
            0 <= i < s2.candidates.len() && 0 <= j < s2.candidates.len() && i != j implies s2.candidates[i].key
            != s2.candidates[j].key by {
            assert(s2.candidates[i].key == s.candidates[i].key);
            assert(s2.candidates[j].key == s.candidates[j].key);
        }
        assert forall|i: int, j: int|
            0 <= i < s2.voters.len() && 0 <= j < s2.voters.len() && i != j implies s2.voters[i].key
            != s2.voters[j].key by {
            assert(s2.voters[i].key == s.voters[i].key);
            assert(s2.voters[j].key == s.voters[j].key);
        }
        assert forall|j: int|
            0 <= j < s2.voters.len() && #[trigger] s2.voters[j].data.voted implies has_key(
            s2.candidates,
            s2.voters[j].data.vote_who,
        ) by {
            if j == vi {
                assert(s2.candidates[ci].key == candidate);
            } else {
                assert(s2.voters[j] == s.voters[j]);
                let i = choose|i: int|
                    0 <= i < s.candidates.len() && s.candidates[i].key == s.voters[j].data.vote_who;
                assert(s2.candidates[i].key == s.candidates[i].key);
            }
        }
    }
}

/// One request to the program.
#[derive(Clone, Copy, Debug)]
pub enum Op {
    CreateCandidate { owner: Key },
    CreateVoter { owner: Key, cccd_sha256: [u8; 32] },
    CastVote { voter_signer: Key, voter: Key, candidate: Key },
}

/// The outcome of `op` on `s`, whichever operation it is.
pub open spec fn step_post(s: LedgerState, op: Op, s2: LedgerState, r: Result<(), VoteError>) -> bool {
    match op {
        Op::CreateCandidate { owner } => init_candidate_post(s, owner, s2, r),
        Op::CreateVoter { owner, cccd_sha256 } => init_voter_post(s, owner, cccd_sha256, s2, r),
        Op::CastVote { voter_signer, voter, candidate } => vote_post(
            s,
            voter_signer,
            voter,
            candidate,
            s2,
            r,
        ),
    }
}

/// `states[i + 1]` and `results[i]` are what `ops[i]` made of `states[i]`,
/// and every state fits in memory.
pub open spec fn is_run(
    states: Seq<LedgerState>,
    ops: Seq<Op>,
    results: Seq<Result<(), VoteError>>,
) -> bool {
    &&& states.len() == ops.len() + 1
    &&& results.len() == ops.len()
    &&& forall|i: int|
        0 <= i < ops.len() ==> step_post(states[i], #[trigger] ops[i], states[i + 1], results[i])
    &&& forall|i: int| 0 <= i < states.len() ==> #[trigger] states[i].voters.len() <= usize::MAX
}

proof fn lemma_step_wf(s: LedgerState, op: Op, s2: LedgerState, r: Result<(), VoteError>)
    requires
        s.wf(),
        step_post(s, op, s2, r),
        s2.voters.len() <= usize::MAX,
    ensures
        s2.wf(),
{
    match op {
        Op::CreateCandidate { owner } => lemma_init_candidate_wf(s, owner, s2, r),
        Op::CreateVoter { owner, cccd_sha256 } => lemma_init_voter_wf(s, owner, cccd_sha256, s2, r),
        Op::CastVote { voter_signer, voter, candidate } => lemma_vote_wf(
            s,
            voter_signer,
            voter,
            candidate,
            s2,
            r,
        ),
    }
}

proof fn lemma_step_keeps_votes(s: LedgerState, op: Op, s2: LedgerState, r: Result<(), VoteError>)
    requires
        step_post(s, op, s2, r),
    ensures
        s2.voters.len() >= s.voters.len(),
        forall|v: int|
            0 <= v < s.voters.len() && #[trigger] s.voters[v].data.voted ==> s2.voters[v]
                == s.voters[v],
{
    if r is Ok {
        match op {
            Op::CreateVoter { .. } => {
                assert forall|v: int| 0 <= v < s.voters.len() implies s2.voters[v] == s.voters[v] by {
                    assert(s2.voters.drop_last()[v] == s2.voters[v]);
                }
            },
            _ => {},
        }
    }
}

proof fn lemma_run_wf(
    states: Seq<LedgerState>,
    ops: Seq<Op>,
    results: Seq<Result<(), VoteError>>,
    k: int,
)
    requires
        is_run(states, ops, results),
        states[0].wf(),
        0 <= k < states.len(),
    ensures
        states[k].wf(),
    decreases k,
{
    if k > 0 {
        lemma_run_wf(states, ops, results, k - 1);
        assert(step_post(states[k - 1], ops[k - 1], states[k], results[k - 1]));
        assert(states[k].voters.len() <= usize::MAX);
        lemma_step_wf(states[k - 1], ops[k - 1], states[k], results[k - 1]);
    }
}

/// Tally correctness: starting from a well-formed store (such as a new
/// one), after any sequence of operations each candidate's `num_votes`
/// equals the number of voter records that voted for its address.
pub proof fn lemma_tally_correct(
    states: Seq<LedgerState>,
    ops: Seq<Op>,
    results: Seq<Result<(), VoteError>>,
)
    requires
        is_run(states, ops, results),
        states[0].wf(),
    ensures
        forall|k: int, c: int|
            0 <= k < states.len() && 0 <= c < states[k].candidates.len() ==> (
            #[trigger] states[k].candidates[c]).data.num_votes == votes_for(
                states[k].voters,
                states[k].candidates[c].key,
            ),
{
    assert forall|k: int, c: int|
        0 <= k < states.len() && 0 <= c < states[k].candidates.len() implies (
        #[trigger] states[k].candidates[c]).data.num_votes == votes_for(
            states[k].voters,
            states[k].candidates[c].key,
        ) by {
        lemma_run_wf(states, ops, results, k);
    }
}

/// Single vote: once a voter record has voted, no later operation changes
/// it, so its `voted` flag turns from false to true at most once.
pub proof fn lemma_single_vote(
    states: Seq<LedgerState>,
    ops: Seq<Op>,
    results: Seq<Result<(), VoteError>>,
    v: int,
    i: int,
    j: int,
)
    requires
        is_run(states, ops, results),
        0 <= i <= j < states.len(),
        0 <= v < states[i].voters.len(),
        states[i].voters[v].data.voted,
    ensures
        v < states[j].voters.len(),
        states[j].voters[v] == states[i].voters[v],
    decreases j - i,
{
    if i < j {
        assert(step_post(states[i], ops[i], states[i + 1], results[i]));
        lemma_step_keeps_votes(states[i], ops[i], states[i + 1], results[i]);
        lemma_single_vote(states, ops, results, v, i + 1, j);
    }
}

/// Authorization: cast-vote by a signer other than the voter record's owner
/// fails and changes nothing; where the voter has not voted yet and the
/// candidate record exists, it fails with `NotOwner`.
pub proof fn lemma_not_owner(
    s: LedgerState,
    voter_signer: Key,
    voter: Key,
    candidate: Key,
    s2: LedgerState,
    r: Result<(), VoteError>,
    vi: int,
)
    requires
        s.wf(),
        vote_post(s, voter_signer, voter, candidate, s2, r),
        0 <= vi < s.voters.len(),
        s.voters[vi].key == voter,
        voter_signer != s.voters[vi].data.owner,
    ensures
        r is Err,
        s2 == s,
        !s.voters[vi].data.voted && has_key(s.candidates, candidate) ==> r == refused(
            VoteError::NotOwner,
        ),
{
    lemma_index_of(s.voters, voter, vi);
}

/// No double allocation: after create-candidate for `owner` succeeded, a
/// second create-candidate for the same owner fails with `AlreadyExists`
/// and leaves the store, the first record included, unchanged.
pub proof fn lemma_no_double_candidate(
    s0: LedgerState,
    s1: LedgerState,
    s2: LedgerState,
    owner: Key,
    r1: Result<(), VoteError>,
    r2: Result<(), VoteError>,
)
    requires
        init_candidate_post(s0, owner, s1, r1),
        r1 is Ok,
        init_candidate_post(s1, owner, s2, r2),
    ensures
        r2 == refused(VoteError::AlreadyExists),
        s2 == s1,
{
    let last = s1.candidates.len() - 1;
    assert(s1.candidates[last] == s1.candidates.last());
}

/// No double allocation: after create-voter for `owner` succeeded, a second
/// create-voter for the same owner (with any digest) fails with
/// `AlreadyExists` and leaves the store, the first record included,
/// unchanged.
pub proof fn lemma_no_double_voter(
    s0: LedgerState,
    s1: LedgerState,
    s2: LedgerState,
    owner: Key,
    first_hash: [u8; 32],
    second_hash: [u8; 32],
    r1: Result<(), VoteError>,
    r2: Result<(), VoteError>,
)
    requires
        init_voter_post(s0, owner, first_hash, s1, r1),
        r1 is Ok,
        init_voter_post(s1, owner, second_hash, s2, r2),
    ensures
        r2 == refused(VoteError::AlreadyExists),
        s2 == s1,
{
    let last = s1.voters.len() - 1;
    assert(s1.voters[last] == s1.voters.last());
}

/// A vote is final: after a successful cast-vote for `first`, the voter
/// record holds `voted` and `first`; a second cast-vote for the same voter,
/// by any signer and for any candidate, fails and changes nothing (neither
/// `vote_who` nor any tally), with `AlreadyVoted` where its candidate exists.
pub proof fn lemma_second_vote_refused(
    s0: LedgerState,
    s1: LedgerState,
    s2: LedgerState,
    first_signer: Key,
    second_signer: Key,
    voter: Key,
    first: Key,
    second: Key,
    r1: Result<(), VoteError>,
    r2: Result<(), VoteError>,
)
    requires
        s0.wf(),
        vote_post(s0, first_signer, voter, first, s1, r1),
        r1 is Ok,
        vote_post(s1, second_signer, voter, second, s2, r2),
    ensures
        has_key(s1.voters, voter),
        s1.voters[index_of(s1.voters, voter)].data.voted,
        s1.voters[index_of(s1.voters, voter)].data.vote_who == first,
        r2 is Err,
        s2 == s1,
        has_key(s1.candidates, second) ==> r2 == refused(VoteError::AlreadyVoted),
{
    lemma_vote_wf(s0, first_signer, voter, first, s1, r1);
    let vi = index_of(s0.voters, voter);
    assert(s1.voters[vi].key == voter);
    lemma_index_of(s1.voters, voter, vi);
}

/// The records of one program, each stored at its address.
pub struct Ledger {
    pub program_id: Key,
    pub candidates: Vec<Account<Candidate>>,
    pub voters: Vec<Account<Voter>>,
}

impl View for Ledger {
    type V = LedgerState;

    open spec fn view(&self) -> LedgerState {
        LedgerState { program_id: self.program_id, candidates: self.candidates@, voters: self.voters@ }
    }
}

impl Ledger {
    /// An empty store for the program `program_id`.
    pub fn new(program_id: Key) -> (r: Ledger)
        ensures
            r@.program_id == program_id,
            r@.candidates.len() == 0,
            r@.voters.len() == 0,
            r@.wf(),
    {
        Ledger { program_id, candidates: Vec::new(), voters: Vec::new() }
    }
}

fn key_bytes(k: &Key) -> (r: Vec<u8>)
    ensures
        r@ == k.bytes@,
{
    let mut r: Vec<u8> = Vec::new();
    let mut i: usize = 0;
    while i < 32
        invariant
            0 <= i <= 32,
            r@ == k.bytes@.take(i as int),
        decreases 32 - i,
    {
        r.push(k.bytes[i]);
        i += 1;
        assert(r@ =~= k.bytes@.take(i as int));
    }
    assert(k.bytes@.take(32) =~= k.bytes@);
    r
}

fn seeds_of(owner: &Key, tag: Vec<u8>) -> (r: Vec<Vec<u8>>)
    ensures
        seeds_view(r@) == record_seeds(*owner, tag@),
{
    let mut r: Vec<Vec<u8>> = Vec::new();
    r.push(key_bytes(owner));
    r.push(tag);
    assert(seeds_view(r@) =~= record_seeds(*owner, tag@));
    r
}

fn candidate_tag_bytes() -> (r: Vec<u8>)
    ensures
        r@ == candidate_tag(),
{
    let r: Vec<u8> = vec![99u8, 97, 110, 100, 105, 100, 97, 116, 101];
    assert(r@ =~= candidate_tag());
    r
}

fn voter_tag_bytes() -> (r: Vec<u8>)
    ensures
        r@ == voter_tag(),
{
    let r: Vec<u8> = vec![118u8, 111, 116, 101, 114];
    assert(r@ =~= voter_tag());
    r
}

/// The position of the record stored at `k`, if there is one.
fn find_account<T>(accounts: &Vec<Account<T>>, k: &Key) -> (r: Option<usize>)
    ensures
        match r {
            Some(i) => i < accounts@.len() && accounts@[i as int].key == *k,
            None => !has_key(accounts@, *k),
        },
{
    let mut i: usize = 0;
    while i < accounts.len()
        invariant
            0 <= i <= accounts@.len(),
            forall|j: int| 0 <= j < i ==> accounts@[j].key != *k,
        decreases accounts@.len() - i,
    {
        if accounts[i].key == *k {
            return Some(i);
        }
        i += 1;
    }
    None
}

proof fn lemma_no_key_no_address<T>(accounts: Seq<Account<T>>, k: Key)
    requires
        !has_key(accounts, k),
    ensures
        !has_address(accounts, k.bytes@),
{
    assert forall|i: int| 0 <= i < accounts.len() implies accounts[i].key.bytes@ != k.bytes@ by {
        if accounts[i].key.bytes@ == k.bytes@ {
            lemma_key_bytes(accounts[i].key, k);
        }
    }
}

/// create-candidate: allocates `owner`'s candidate record at its derived
/// address, with no votes. The payer only funds the allocation.
pub fn init_candidate(ledger: &mut Ledger, payer: Key, owner: Key) -> (r: Result<(), VoteError>)
    requires
        old(ledger)@.wf(),
    ensures
        init_candidate_post(old(ledger)@, owner, final(ledger)@, r),
        final(ledger)@.wf(),
{
    let seeds = seeds_of(&owner, candidate_tag_bytes());
    let found = try_find_program_address(&seeds, &ledger.program_id);
    match found {
        None => Err(VoteError::NoAddress),
        Some((address, bump)) => {
            match find_account(&ledger.candidates, &address) {
                Some(_) => Err(VoteError::AlreadyExists),
                None => {
                    proof {
                        lemma_no_key_no_address(ledger.candidates@, address);
                    }
                    let mut account = Account { key: address, data: Candidate::blank() };
                    let mut candidate = Empty { account: Candidate::load(&account), bump: Some(bump) };
                    init_candidate_handler(payer, owner, &mut candidate);
                    Candidate::store(&candidate.account, &mut account);
                    let ghost before = ledger@;
                    ledger.candidates.push(account);
                    proof {
                        assert(ledger@.candidates.drop_last() =~= before.candidates);
                        lemma_init_candidate_wf(before, owner, ledger@, Ok(()));
                    }
                    Ok(())
                },
            }
        },
    }
}

/// create-voter: allocates `owner`'s voter record at its derived address,
/// holding `cccd_sha256` unchanged, not yet voted. The digest is not checked.
pub fn init_voter(ledger: &mut Ledger, payer: Key, owner: Key, cccd_sha256: [u8; 32]) -> (r: Result<(), VoteError>)
    requires
        old(ledger)@.wf(),
    ensures
        init_voter_post(old(ledger)@, owner, cccd_sha256, final(ledger)@, r),
        final(ledger)@.wf(),
{
    let seeds = seeds_of(&owner, voter_tag_bytes());
    let found = try_find_program_address(&seeds, &ledger.program_id);
    match found {
        None => Err(VoteError::NoAddress),
        Some((address, bump)) => {
            match find_account(&ledger.voters, &address) {
                Some(_) => Err(VoteError::AlreadyExists),
                None => {
                    proof {
                        lemma_no_key_no_address(ledger.voters@, address);
                    }
                    let mut account = Account { key: address, data: Voter::blank() };
                    let mut voter = Empty { account: Voter::load(&account), bump: Some(bump) };
                    init_voter_handler(payer, owner, &mut voter, cccd_sha256);
                    Voter::store(&voter.account, &mut account);
                    let ghost before = ledger@;
                    ledger.voters.push(account);
                    let _ = ledger.voters.len();
                    proof {
                        assert(ledger@.voters.drop_last() =~= before.voters);
                        lemma_init_voter_wf(before, owner, cccd_sha256, ledger@, Ok(()));
                    }
                    Ok(())
                },
            }
        },
    }
}

/// cast-vote: `voter_signer` casts the single vote of the voter record at
/// `voter` for the candidate record at `candidate`. See `vote_post` for the
/// refusals and their order; a refusal changes nothing.
pub fn vote(ledger: &mut Ledger, payer: Key, voter_signer: Key, voter: Key, candidate: Key) -> (r: Result<(), VoteError>)
    requires
        old(ledger)@.wf(),
    ensures
        vote_post(old(ledger)@, voter_signer, voter, candidate, final(ledger)@, r),
        final(ledger)@.wf(),
{
    let vi = match find_account(&ledger.voters, &voter) {
        Some(i) => i,
        None => {
            return Err(VoteError::AccountNotFound);
        },
    };
    let ci = match find_account(&ledger.candidates, &candidate) {
        Some(i) => i,
        None => {
            return Err(VoteError::AccountNotFound);
        },
    };
    let ghost before = ledger@;
    proof {
        lemma_index_of(before.voters, voter, vi as int);
        lemma_index_of(before.candidates, candidate, ci as int);
        assert(before.candidates[ci as int].data.num_votes == votes_for(before.voters, candidate));
        if !before.voters[vi as int].data.voted {
            lemma_votes_below_len(before.voters, candidate, vi as int);
        }
    }
    let mut voter_account = ledger.voters[vi];
    let mut candidate_account = ledger.candidates[ci];
    let mut loaded_voter = Voter::load(&voter_account);
    let mut loaded_candidate = Candidate::load(&candidate_account);
    let r = vote_handler(payer, voter_signer, &mut loaded_voter, &mut loaded_candidate);
    if r.is_err() {
        return r;
    }
    Voter::store(&loaded_voter, &mut voter_account);
    Candidate::store(&loaded_candidate, &mut candidate_account);
    ledger.voters.set(vi, voter_account);
    ledger.candidates.set(ci, candidate_account);
    proof {
        let v = before.voters[vi as int].data;
        let c = before.candidates[ci as int].data;
        assert(ledger@.voters =~= before.voters.update(
            vi as int,
            Account { key: voter, data: Voter { voted: true, vote_who: candidate, ..v } },
        ));
        assert(ledger@.candidates =~= before.candidates.update(
            ci as int,
            Account { key: candidate, data: Candidate { num_votes: (c.num_votes + 1) as u64, ..c } },
        ));
        lemma_vote_wf(before, voter_signer, voter, candidate, ledger@, Ok(()));
    }
    Ok(())
}

} // verus!
