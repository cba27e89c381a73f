use retroquest::board_ops::SessionConfig;
use retroquest::error::RetroError;
use retroquest::ledger::Ledger;
use retroquest::session_keys::{Authority, TokenStore};
use retroquest::state::{BoardId, BoardMembership, BoardStage, FacilitatorRegistry, RetroBoard};

const SERVICE: u64 = 7;
const FACILITATOR: u64 = 100;

fn direct(signer: u64) -> Authority {
    Authority::Direct { signer }
}

fn config(allowlist: Vec<u64>) -> SessionConfig {
    SessionConfig {
        categories: vec!["Went well".to_string(), "Improve".to_string()],
        allowlist,
        max_notes_per_participant: None,
        voting_credits_per_participant: None,
        open_join: false,
    }
}

fn fresh_board(allowlist: Vec<u64>) -> (Ledger, BoardId) {
    let mut l = Ledger::new(SERVICE);
    l.init_team_registry(&direct(FACILITATOR), 0).unwrap();
    let id = l.create_session(&direct(FACILITATOR), config(allowlist), 0).unwrap();
    (l, id)
}

#[test]
fn registry_counts_boards_and_is_not_idempotent() {
    let mut l = Ledger::new(SERVICE);
    let f = direct(FACILITATOR);
    assert_eq!(l.init_team_registry(&f, 0), Ok(()));
    assert_eq!(l.get_registry(FACILITATOR).unwrap().board_count, 0);
    assert_eq!(
        l.init_team_registry(&f, 0),
        Err(RetroError::AccountAlreadyInitialized)
    );

    let id0 = l.create_session(&f, config(vec![1]), 0).unwrap();
    let id1 = l.create_session(&f, config(vec![1]), 0).unwrap();
    assert_eq!(id0, BoardId { facilitator: FACILITATOR, board_index: 0 });
    assert_eq!(id1, BoardId { facilitator: FACILITATOR, board_index: 1 });
    assert_eq!(l.get_registry(FACILITATOR).unwrap().board_count, 2);
}

#[test]
fn create_session_requires_registry_and_valid_config() {
    let mut l = Ledger::new(SERVICE);
    let f = direct(FACILITATOR);
    assert_eq!(
        l.create_session(&f, config(vec![1]), 0),
        Err(RetroError::AccountNotInitialized)
    );
    l.init_team_registry(&f, 0).unwrap();

    let mut empty_cats = config(vec![1]);
    empty_cats.categories = vec![];
    assert_eq!(
        l.create_session(&f, empty_cats, 0),
        Err(RetroError::NoCategoriesSpecified)
    );

    let mut many_cats = config(vec![1]);
    many_cats.categories = vec!["a".to_string(); 6];
    assert_eq!(l.create_session(&f, many_cats, 0), Err(RetroError::TooManyCategories));

    let mut long_cat = config(vec![1]);
    long_cat.categories = vec!["x".repeat(33)];
    assert_eq!(l.create_session(&f, long_cat, 0), Err(RetroError::CategoryNameTooLong));

    let crowd: Vec<u64> = (1..=31).collect();
    assert_eq!(
        l.create_session(&f, config(crowd), 0),
        Err(RetroError::MaxParticipantsReached)
    );

    assert_eq!(
        l.create_session(&f, config(vec![1, 1]), 0),
        Err(RetroError::AccountAlreadyInitialized)
    );

    // The failed attempts left nothing behind.
    assert_eq!(l.get_registry(FACILITATOR).unwrap().board_count, 0);
}

#[test]
fn create_session_stores_defaults_and_eager_memberships() {
    let (l, id) = fresh_board(vec![1, 2]);
    let b = l.get_board(id).unwrap();
    assert_eq!(b.stage, BoardStage::Setup);
    assert!(!b.closed);
    assert_eq!(b.voting_credits_per_participant, 5);
    assert_eq!(b.max_notes_per_participant, 10);
    assert_eq!(b.participant_count, 2);
    assert_eq!(b.note_count, 0);
    assert_eq!(b.group_count, 0);

    let m1 = l.get_membership(id, 1).unwrap();
    assert_eq!(m1.credits_spent, 0);
    assert_eq!(m1.notes_submitted, 0);
    assert_eq!(m1.score, 0);
    assert!(l.get_membership(id, 2).is_some());
    assert!(l.get_membership(id, 3).is_none());
}

#[test]
fn stage_advances_only_one_step_forward() {
    let (mut l, id) = fresh_board(vec![1]);
    let f = direct(FACILITATOR);

    // Skipping ahead and standing still are both rejected.
    assert_eq!(
        l.advance_stage(&f, id, BoardStage::Vote, 1),
        Err(RetroError::InvalidStageTransition)
    );
    assert_eq!(
        l.advance_stage(&f, id, BoardStage::Setup, 1),
        Err(RetroError::InvalidStageTransition)
    );

    assert_eq!(l.advance_stage(&f, id, BoardStage::WriteNotes, 1), Ok(()));
    assert_eq!(l.get_board(id).unwrap().stage, BoardStage::WriteNotes);
    assert_eq!(l.get_board(id).unwrap().stage_changed_at, 1);

    // Regressing is rejected.
    assert_eq!(
        l.advance_stage(&f, id, BoardStage::Setup, 2),
        Err(RetroError::InvalidStageTransition)
    );

    assert_eq!(l.advance_stage(&f, id, BoardStage::GroupDuplicates, 2), Ok(()));
    assert_eq!(l.advance_stage(&f, id, BoardStage::Vote, 3), Ok(()));
    assert_eq!(l.advance_stage(&f, id, BoardStage::Discuss, 4), Ok(()));
    assert_eq!(l.get_board(id).unwrap().stage, BoardStage::Discuss);
}

#[test]
fn only_the_facilitator_advances_and_closes() {
    let (mut l, id) = fresh_board(vec![1]);
    assert_eq!(
        l.advance_stage(&direct(1), id, BoardStage::WriteNotes, 1),
        Err(RetroError::UnauthorizedFacilitator)
    );
    assert_eq!(l.close_session(&direct(1), id, 1), Err(RetroError::UnauthorizedFacilitator));
    assert_eq!(
        l.advance_stage(&direct(FACILITATOR), BoardId { facilitator: 9, board_index: 0 },
            BoardStage::WriteNotes, 1),
        Err(RetroError::AccountNotInitialized)
    );
}

#[test]
fn close_requires_final_stage_and_freezes_the_board() {
    let (mut l, id) = fresh_board(vec![1]);
    let f = direct(FACILITATOR);
    assert_eq!(l.close_session(&f, id, 1), Err(RetroError::InvalidStage));

    l.advance_stage(&f, id, BoardStage::WriteNotes, 1).unwrap();
    l.advance_stage(&f, id, BoardStage::GroupDuplicates, 2).unwrap();
    l.advance_stage(&f, id, BoardStage::Vote, 3).unwrap();
    l.advance_stage(&f, id, BoardStage::Discuss, 4).unwrap();
    assert_eq!(l.close_session(&f, id, 5), Ok(()));
    assert!(l.get_board(id).unwrap().closed);
    assert_eq!(l.get_board(id).unwrap().stage, BoardStage::Discuss);

    // Nothing moves a closed board.
    assert_eq!(l.close_session(&f, id, 6), Err(RetroError::BoardClosed));
    assert_eq!(
        l.advance_stage(&f, id, BoardStage::Discuss, 6),
        Err(RetroError::BoardClosed)
    );
    assert_eq!(l.get_board(id).unwrap().stage, BoardStage::Discuss);
}

#[test]
fn allowlist_entries_are_managed_only_during_setup() {
    let (mut l, id) = fresh_board(vec![1]);
    let f = direct(FACILITATOR);

    assert_eq!(l.add_to_allowlist(&f, id, 2, 1), Ok(()));
    assert_eq!(
        l.add_to_allowlist(&f, id, 2, 1),
        Err(RetroError::AccountAlreadyInitialized)
    );
    assert_eq!(l.add_to_allowlist(&direct(1), id, 3, 1), Err(RetroError::UnauthorizedFacilitator));

    assert_eq!(l.remove_from_allowlist(&f, id, 2, 2), Ok(()));
    assert_eq!(l.remove_from_allowlist(&f, id, 2, 2), Err(RetroError::AccountNotInitialized));

    l.advance_stage(&f, id, BoardStage::WriteNotes, 3).unwrap();
    assert_eq!(l.add_to_allowlist(&f, id, 3, 4), Err(RetroError::InvalidStage));
    assert_eq!(l.remove_from_allowlist(&f, id, 1, 4), Err(RetroError::InvalidStage));
}

#[test]
fn allowlist_cap_is_enforced_on_additions() {
    let initial: Vec<u64> = (1..=30).collect();
    let (mut l, id) = fresh_board(initial);
    assert_eq!(
        l.add_to_allowlist(&direct(FACILITATOR), id, 31, 1),
        Err(RetroError::MaxParticipantsReached)
    );
}

#[test]
fn joining_requires_the_allowlist_or_open_join() {
    let (mut l, id) = fresh_board(vec![]);
    let f = direct(FACILITATOR);
    l.add_to_allowlist(&f, id, 5, 0).unwrap();

    assert_eq!(l.join_session_with_allowlist(&direct(6), id, 1), Err(RetroError::NotOnAllowlist));
    assert_eq!(l.join_session_open(&direct(6), id, 1), Err(RetroError::OpenJoinDisabled));

    assert_eq!(l.join_session_with_allowlist(&direct(5), id, 1), Ok(()));
    assert_eq!(
        l.join_session_with_allowlist(&direct(5), id, 1),
        Err(RetroError::AccountAlreadyInitialized)
    );
    let m = l.get_membership(id, 5).unwrap();
    assert_eq!(m.credits_spent, 0);
    assert_eq!(l.get_board(id).unwrap().participant_count, 1);
}

#[test]
fn exhausted_counters_are_rejected_before_any_mutation() {
    // A registry whose counter sits at the ceiling rejects board creation.
    let mut at_ceiling = Ledger {
        service_id: SERVICE,
        registries: vec![FacilitatorRegistry { facilitator: FACILITATOR, board_count: u64::MAX }],
        boards: vec![],
        memberships: vec![],
        notes: vec![],
        groups: vec![],
        votes: vec![],
        action_items: vec![],
        verification_votes: vec![],
        tokens: TokenStore { tokens: vec![] },
    };
    assert_eq!(
        at_ceiling.create_session(&direct(FACILITATOR), config(vec![]), 0),
        Err(RetroError::CounterOverflow)
    );

    // A board whose note counter sits at the ceiling rejects new notes.
    let id = BoardId { facilitator: FACILITATOR, board_index: 0 };
    let board = RetroBoard {
        facilitator: FACILITATOR,
        board_index: 0,
        stage: BoardStage::WriteNotes,
        closed: false,
        categories: vec!["c".to_string()],
        allowlist: vec![1],
        open_join: false,
        voting_credits_per_participant: 5,
        max_notes_per_participant: 10,
        participant_count: 1,
        note_count: u64::MAX,
        group_count: 0,
        action_item_count: 0,
        created_at: 0,
        stage_changed_at: 0,
    };
    let membership = BoardMembership {
        board: id,
        participant: 1,
        notes_submitted: 0,
        credits_spent: 0,
        score: 0,
    };
    let mut full_board = Ledger {
        service_id: SERVICE,
        registries: vec![FacilitatorRegistry { facilitator: FACILITATOR, board_count: 1 }],
        boards: vec![board],
        memberships: vec![membership],
        notes: vec![],
        groups: vec![],
        votes: vec![],
        action_items: vec![],
        verification_votes: vec![],
        tokens: TokenStore { tokens: vec![] },
    };
    assert_eq!(
        full_board.create_note(&direct(1), id, 0, "one too many".to_string(), 0),
        Err(RetroError::CounterOverflow)
    );
}

#[test]
fn open_join_admits_anyone_until_the_cap() {
    let mut l = Ledger::new(SERVICE);
    let f = direct(FACILITATOR);
    l.init_team_registry(&f, 0).unwrap();
    let mut cfg = config(vec![]);
    cfg.open_join = true;
    let id = l.create_session(&f, cfg, 0).unwrap();

    for p in 1..=30u64 {
        assert_eq!(l.join_session_open(&direct(p), id, 1), Ok(()));
    }
    assert_eq!(
        l.join_session_open(&direct(31), id, 1),
        Err(RetroError::MaxParticipantsReached)
    );
}
