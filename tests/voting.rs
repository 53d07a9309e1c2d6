use anchor_lang::prelude::Pubkey;
use voting::ledger::{init_candidate, init_voter, vote, Ledger};
use voting::program::{
    init_candidate_handler, init_voter_handler, vote_handler, Account, Candidate, Empty, Key,
    LoadedCandidate, LoadedVoter, VoteError, Voter,
};

fn key(b: u8) -> Key {
    Key { bytes: [b; 32] }
}

fn program_id() -> Key {
    key(200)
}

fn address_of(owner: Key, tag: &[u8]) -> Key {
    let program = Pubkey::new_from_array(program_id().bytes);
    let (found, _) = Pubkey::find_program_address(&[&owner.bytes[..], tag], &program);
    Key { bytes: found.to_bytes() }
}

fn candidate_of(ledger: &Ledger, owner: Key) -> Account<Candidate> {
    let address = address_of(owner, b"candidate");
    *ledger.candidates.iter().find(|a| a.key == address).unwrap()
}

fn voter_of(ledger: &Ledger, owner: Key) -> Account<Voter> {
    let address = address_of(owner, b"voter");
    *ledger.voters.iter().find(|a| a.key == address).unwrap()
}

#[test]
fn example_scenario() {
    let c1 = key(1);
    let v1 = key(2);
    let h = [7u8; 32];
    let payer = key(9);
    let mut ledger = Ledger::new(program_id());

    assert_eq!(init_candidate(&mut ledger, payer, c1), Ok(()));
    let c = candidate_of(&ledger, c1);
    assert!(c.data.owner == c1);
    assert_eq!(c.data.num_votes, 0);

    assert_eq!(init_voter(&mut ledger, payer, v1, h), Ok(()));
    let v = voter_of(&ledger, v1);
    assert!(v.data.owner == v1);
    assert_eq!(v.data.cccd_sha256, h);
    assert!(v.data.vote_who == Key { bytes: [0; 32] });
    assert!(!v.data.voted);

    let va = address_of(v1, b"voter");
    let ca = address_of(c1, b"candidate");
    assert_eq!(vote(&mut ledger, payer, v1, va, ca), Ok(()));
    assert_eq!(candidate_of(&ledger, c1).data.num_votes, 1);
    let v = voter_of(&ledger, v1);
    assert!(v.data.voted);
    assert!(v.data.vote_who == ca);

    assert_eq!(vote(&mut ledger, payer, v1, va, ca), Err(VoteError::AlreadyVoted));
    assert_eq!(candidate_of(&ledger, c1).data.num_votes, 1);
}

#[test]
fn records_sit_at_derived_addresses() {
    let owner = key(3);
    let mut ledger = Ledger::new(program_id());
    assert_eq!(init_candidate(&mut ledger, key(9), owner), Ok(()));
    assert_eq!(init_voter(&mut ledger, key(9), owner, [1; 32]), Ok(()));
    let ca = ledger.candidates[0].key;
    let va = ledger.voters[0].key;
    assert!(ca == address_of(owner, b"candidate"));
    assert!(va == address_of(owner, b"voter"));
    assert!(ca != owner);
    assert!(ca != va);
}

#[test]
fn second_candidate_for_same_owner_is_refused() {
    let owner = key(4);
    let mut ledger = Ledger::new(program_id());
    assert_eq!(init_candidate(&mut ledger, key(9), owner), Ok(()));
    assert_eq!(
        init_candidate(&mut ledger, key(10), owner),
        Err(VoteError::AlreadyExists)
    );
    assert_eq!(ledger.candidates.len(), 1);
    assert!(ledger.candidates[0].data.owner == owner);
    assert_eq!(ledger.candidates[0].data.num_votes, 0);
}

#[test]
fn second_voter_for_same_owner_is_refused() {
    let owner = key(5);
    let mut ledger = Ledger::new(program_id());
    assert_eq!(init_voter(&mut ledger, key(9), owner, [1; 32]), Ok(()));
    assert_eq!(
        init_voter(&mut ledger, key(9), owner, [2; 32]),
        Err(VoteError::AlreadyExists)
    );
    assert_eq!(ledger.voters.len(), 1);
    assert_eq!(ledger.voters[0].data.cccd_sha256, [1; 32]);
}

#[test]
fn voters_may_share_a_digest() {
    let mut ledger = Ledger::new(program_id());
    assert_eq!(init_voter(&mut ledger, key(9), key(5), [0; 32]), Ok(()));
    assert_eq!(init_voter(&mut ledger, key(9), key(6), [0; 32]), Ok(()));
    assert_eq!(ledger.voters.len(), 2);
}

#[test]
fn vote_by_stranger_is_refused() {
    let mut ledger = Ledger::new(program_id());
    let (c1, v1, stranger) = (key(1), key(2), key(3));
    init_candidate(&mut ledger, key(9), c1).unwrap();
    init_voter(&mut ledger, key(9), v1, [5; 32]).unwrap();
    let va = address_of(v1, b"voter");
    let ca = address_of(c1, b"candidate");
    assert_eq!(vote(&mut ledger, key(9), stranger, va, ca), Err(VoteError::NotOwner));
    assert_eq!(candidate_of(&ledger, c1).data.num_votes, 0);
    assert!(!voter_of(&ledger, v1).data.voted);
}

#[test]
fn vote_with_missing_record_is_refused() {
    let mut ledger = Ledger::new(program_id());
    let (c1, v1) = (key(1), key(2));
    init_candidate(&mut ledger, key(9), c1).unwrap();
    init_voter(&mut ledger, key(9), v1, [5; 32]).unwrap();
    let va = address_of(v1, b"voter");
    let ca = address_of(c1, b"candidate");
    assert_eq!(vote(&mut ledger, key(9), v1, ca, ca), Err(VoteError::AccountNotFound));
    assert_eq!(vote(&mut ledger, key(9), v1, va, va), Err(VoteError::AccountNotFound));
    assert_eq!(candidate_of(&ledger, c1).data.num_votes, 0);
    assert!(!voter_of(&ledger, v1).data.voted);
}

#[test]
fn second_vote_for_other_candidate_changes_nothing() {
    let mut ledger = Ledger::new(program_id());
    let (ca_owner, cb_owner, v1) = (key(1), key(2), key(3));
    init_candidate(&mut ledger, key(9), ca_owner).unwrap();
    init_candidate(&mut ledger, key(9), cb_owner).unwrap();
    init_voter(&mut ledger, key(9), v1, [5; 32]).unwrap();
    let va = address_of(v1, b"voter");
    let ca = address_of(ca_owner, b"candidate");
    let cb = address_of(cb_owner, b"candidate");
    assert_eq!(vote(&mut ledger, key(9), v1, va, ca), Ok(()));
    assert_eq!(vote(&mut ledger, key(9), v1, va, cb), Err(VoteError::AlreadyVoted));
    assert_eq!(candidate_of(&ledger, ca_owner).data.num_votes, 1);
    assert_eq!(candidate_of(&ledger, cb_owner).data.num_votes, 0);
    assert!(voter_of(&ledger, v1).data.vote_who == ca);
}

#[test]
fn tally_counts_the_voters() {
    let mut ledger = Ledger::new(program_id());
    let (ca_owner, cb_owner) = (key(1), key(2));
    init_candidate(&mut ledger, key(9), ca_owner).unwrap();
    init_candidate(&mut ledger, key(9), cb_owner).unwrap();
    let ca = address_of(ca_owner, b"candidate");
    let cb = address_of(cb_owner, b"candidate");
    for b in 10u8..15 {
        init_voter(&mut ledger, key(9), key(b), [b; 32]).unwrap();
        let target = if b % 2 == 0 { ca } else { cb };
        assert_eq!(vote(&mut ledger, key(9), key(b), address_of(key(b), b"voter"), target), Ok(()));
    }
    assert_eq!(candidate_of(&ledger, ca_owner).data.num_votes, 3);
    assert_eq!(candidate_of(&ledger, cb_owner).data.num_votes, 2);
    let for_a = ledger.voters.iter().filter(|v| v.data.voted && v.data.vote_who == ca).count();
    assert_eq!(for_a, 3);
}

#[test]
fn handlers_set_the_fields() {
    let mut c = Empty {
        account: Candidate::load(&Account { key: key(50), data: Candidate::blank() }),
        bump: Some(254),
    };
    init_candidate_handler(key(9), key(1), &mut c);
    assert!(c.account.owner == key(1));
    assert!(c.account.address == key(50));
    assert_eq!(c.bump, Some(254));

    let mut v = Empty {
        account: Voter::load(&Account { key: key(51), data: Voter::blank() }),
        bump: None,
    };
    init_voter_handler(key(9), key(2), &mut v, [3; 32]);
    assert!(v.account.owner == key(2));
    assert_eq!(v.account.cccd_sha256, [3; 32]);
    assert!(!v.account.voted);
}

#[test]
fn vote_handler_checks_in_order() {
    let mut voter = LoadedVoter {
        address: key(51),
        owner: key(2),
        cccd_sha256: [0; 32],
        vote_who: key(0),
        voted: true,
    };
    let mut candidate = LoadedCandidate { address: key(50), owner: key(1), num_votes: 4 };
    assert_eq!(
        vote_handler(key(9), key(3), &mut voter, &mut candidate),
        Err(VoteError::AlreadyVoted)
    );
    voter.voted = false;
    assert_eq!(
        vote_handler(key(9), key(3), &mut voter, &mut candidate),
        Err(VoteError::NotOwner)
    );
    assert_eq!(candidate.num_votes, 4);
    assert_eq!(vote_handler(key(9), key(2), &mut voter, &mut candidate), Ok(()));
    assert_eq!(candidate.num_votes, 5);
    assert!(voter.voted);
    assert!(voter.vote_who == key(50));
}

#[test]
fn load_and_store_round_trip() {
    let stored = Account {
        key: key(60),
        data: Voter { owner: key(1), cccd_sha256: [8; 32], vote_who: key(2), voted: true },
    };
    let loaded = Voter::load(&stored);
    let mut target = Account { key: key(60), data: Voter::blank() };
    Voter::store(&loaded, &mut target);
    assert!(target.data.owner == key(1));
    assert_eq!(target.data.cccd_sha256, [8; 32]);
    assert!(target.data.vote_who == key(2));
    assert!(target.data.voted);

    let c = Account { key: key(61), data: Candidate { owner: key(3), num_votes: 12 } };
    let mut t = Account { key: key(61), data: Candidate::blank() };
    Candidate::store(&Candidate::load(&c), &mut t);
    assert!(t.data.owner == key(3));
    assert_eq!(t.data.num_votes, 12);
}
