use retroquest::board_ops::SessionConfig;
use retroquest::error::RetroError;
use retroquest::ledger::Ledger;
use retroquest::session_keys::Authority;
use retroquest::state::{BoardId, BoardStage};

const SERVICE: u64 = 7;
const FACILITATOR: u64 = 100;
const P1: u64 = 1;
const P2: u64 = 2;

fn direct(signer: u64) -> Authority {
    Authority::Direct { signer }
}

fn voting_board(credits: Option<u8>) -> (Ledger, BoardId, u64, u64) {
    let mut l = Ledger::new(SERVICE);
    let f = direct(FACILITATOR);
    l.init_team_registry(&f, 0).unwrap();
    let cfg = SessionConfig {
        categories: vec!["Went well".to_string(), "Improve".to_string()],
        allowlist: vec![P1, P2],
        max_notes_per_participant: None,
        voting_credits_per_participant: credits,
        open_join: false,
    };
    let id = l.create_session(&f, cfg, 0).unwrap();
    l.advance_stage(&f, id, BoardStage::WriteNotes, 1).unwrap();
    l.advance_stage(&f, id, BoardStage::GroupDuplicates, 2).unwrap();
    let g0 = l.create_group(&direct(P1), id, "one".to_string(), 3).unwrap();
    let g1 = l.create_group(&direct(P2), id, "two".to_string(), 3).unwrap();
    l.advance_stage(&f, id, BoardStage::Vote, 4).unwrap();
    (l, id, g0, g1)
}

#[test]
fn full_run_exhausts_the_default_budget() {
    // Creating a board with categories and a two-participant allow-list,
    // then walking every stage in order, a participant can spend three
    // credits once but not twice: six would exceed the default budget of
    // five.
    let (mut l, id, g0, _) = voting_board(None);
    assert_eq!(l.cast_vote(&direct(P1), id, g0, 3, 5), Ok(()));
    assert_eq!(
        l.cast_vote(&direct(P1), id, g0, 3, 6),
        Err(RetroError::InsufficientCredits)
    );
    assert_eq!(l.get_membership(id, P1).unwrap().credits_spent, 3);
    assert_eq!(l.get_group(id, g0).unwrap().vote_tally, 3);

    // The walk finishes in the final stage, having taken every step once.
    l.advance_stage(&direct(FACILITATOR), id, BoardStage::Discuss, 7).unwrap();
    assert_eq!(l.get_board(id).unwrap().stage, BoardStage::Discuss);
}

#[test]
fn tally_equals_the_sum_of_vote_records() {
    let (mut l, id, g0, g1) = voting_board(None);
    l.cast_vote(&direct(P1), id, g0, 2, 5).unwrap();
    l.cast_vote(&direct(P2), id, g0, 1, 6).unwrap();
    l.cast_vote(&direct(P1), id, g0, 1, 7).unwrap();
    l.cast_vote(&direct(P2), id, g1, 4, 8).unwrap();

    let r10 = l.get_vote_record(id, P1, g0).unwrap().credits_spent;
    let r20 = l.get_vote_record(id, P2, g0).unwrap().credits_spent;
    assert_eq!(r10, 3);
    assert_eq!(r20, 1);
    assert_eq!(l.get_group(id, g0).unwrap().vote_tally, (r10 + r20) as u64);
    assert_eq!(l.get_group(id, g1).unwrap().vote_tally, 4);

    assert_eq!(l.get_membership(id, P1).unwrap().credits_spent, 3);
    assert_eq!(l.get_membership(id, P2).unwrap().credits_spent, 5);
}

#[test]
fn votes_accumulate_and_never_decrease() {
    let (mut l, id, g0, _) = voting_board(Some(10));
    l.cast_vote(&direct(P1), id, g0, 1, 5).unwrap();
    let after_one = l.get_membership(id, P1).unwrap().credits_spent;
    l.cast_vote(&direct(P1), id, g0, 2, 6).unwrap();
    let after_two = l.get_membership(id, P1).unwrap().credits_spent;
    assert!(after_two >= after_one);
    assert_eq!(after_two, 3);
    assert_eq!(l.get_vote_record(id, P1, g0).unwrap().credits_spent, 3);

    assert_eq!(l.cast_vote(&direct(P1), id, g0, 0, 7), Err(RetroError::CannotDecreaseVotes));
}

#[test]
fn voting_is_gated_by_stage_allowlist_and_existence() {
    let (mut l, id, g0, _) = voting_board(None);
    assert_eq!(l.cast_vote(&direct(9), id, g0, 1, 5), Err(RetroError::NotOnAllowlist));
    assert_eq!(
        l.cast_vote(&direct(P1), id, 99, 1, 5),
        Err(RetroError::AccountNotInitialized)
    );

    let f = direct(FACILITATOR);
    l.advance_stage(&f, id, BoardStage::Discuss, 6).unwrap();
    assert_eq!(l.cast_vote(&direct(P1), id, g0, 1, 7), Err(RetroError::InvalidStage));
}

#[test]
fn budget_binds_across_groups() {
    let (mut l, id, g0, g1) = voting_board(Some(4));
    assert_eq!(l.cast_vote(&direct(P1), id, g0, 3, 5), Ok(()));
    assert_eq!(
        l.cast_vote(&direct(P1), id, g1, 2, 6),
        Err(RetroError::InsufficientCredits)
    );
    assert_eq!(l.cast_vote(&direct(P1), id, g1, 1, 7), Ok(()));
    assert_eq!(l.get_membership(id, P1).unwrap().credits_spent, 4);
    // The rejected call changed nothing.
    assert_eq!(l.get_group(id, g1).unwrap().vote_tally, 1);
}

#[test]
fn lazy_membership_is_created_on_first_vote() {
    // A participant allow-listed after board creation has no membership
    // until they act; the first vote creates it in the same call.
    let mut l = Ledger::new(SERVICE);
    let f = direct(FACILITATOR);
    l.init_team_registry(&f, 0).unwrap();
    let cfg = SessionConfig {
        categories: vec!["c".to_string()],
        allowlist: vec![],
        max_notes_per_participant: None,
        voting_credits_per_participant: None,
        open_join: false,
    };
    let id = l.create_session(&f, cfg, 0).unwrap();
    l.add_to_allowlist(&f, id, 5, 1).unwrap();
    l.advance_stage(&f, id, BoardStage::WriteNotes, 2).unwrap();
    l.advance_stage(&f, id, BoardStage::GroupDuplicates, 3).unwrap();
    let g0 = l.create_group(&direct(5), id, "g".to_string(), 4).unwrap();
    l.advance_stage(&f, id, BoardStage::Vote, 5).unwrap();

    assert!(l.get_membership(id, 5).is_none());
    assert_eq!(l.cast_vote(&direct(5), id, g0, 2, 6), Ok(()));
    let m = l.get_membership(id, 5).unwrap();
    assert_eq!(m.credits_spent, 2);
    assert_eq!(m.notes_submitted, 0);
}
