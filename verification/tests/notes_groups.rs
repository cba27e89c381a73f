use retroquest::board_ops::SessionConfig;
use retroquest::error::RetroError;
use retroquest::ledger::Ledger;
use retroquest::session_keys::Authority;
use retroquest::state::{BoardId, BoardStage};

const SERVICE: u64 = 7;
const FACILITATOR: u64 = 100;
const P1: u64 = 1;
const P2: u64 = 2;

fn direct(signer: u64) -> Authority {
    Authority::Direct { signer }
}

fn board_at(stage: BoardStage, max_notes: Option<u8>) -> (Ledger, BoardId) {
    let mut l = Ledger::new(SERVICE);
    let f = direct(FACILITATOR);
    l.init_team_registry(&f, 0).unwrap();
    let cfg = SessionConfig {
        categories: vec!["Went well".to_string(), "Improve".to_string()],
        allowlist: vec![P1, P2],
        max_notes_per_participant: max_notes,
        voting_credits_per_participant: None,
        open_join: false,
    };
    let id = l.create_session(&f, cfg, 0).unwrap();
    let order = [
        BoardStage::WriteNotes,
        BoardStage::GroupDuplicates,
        BoardStage::Vote,
        BoardStage::Discuss,
    ];
    for next in order {
        if l.get_board(id).unwrap().stage == stage {
            break;
        }
        l.advance_stage(&f, id, next, 1).unwrap();
    }
    (l, id)
}

#[test]
fn notes_are_appended_sequentially_with_their_fields() {
    let (mut l, id) = board_at(BoardStage::WriteNotes, None);
    let n0 = l.create_note(&direct(P1), id, 0, "keep pairing".to_string(), 10).unwrap();
    let n1 = l.create_note(&direct(P2), id, 1, "too many meetings".to_string(), 11).unwrap();
    assert_eq!(n0, 0);
    assert_eq!(n1, 1);
    assert_eq!(l.get_board(id).unwrap().note_count, 2);

    let note = l.get_note(id, 0).unwrap();
    assert_eq!(note.author, P1);
    assert_eq!(note.category_id, 0);
    assert_eq!(note.content, "keep pairing");
    assert_eq!(note.created_at, 10);
    assert_eq!(note.group_id, None);
    assert_eq!(l.get_membership(id, P1).unwrap().notes_submitted, 1);
}

#[test]
fn note_validation_rejects_each_bad_input() {
    let (mut l, id) = board_at(BoardStage::WriteNotes, Some(1));
    assert_eq!(
        l.create_note(&direct(9), id, 0, "hi".to_string(), 1),
        Err(RetroError::NotOnAllowlist)
    );
    assert_eq!(
        l.create_note(&direct(P1), id, 0, "x".repeat(281), 1),
        Err(RetroError::NoteTooLong)
    );
    assert_eq!(
        l.create_note(&direct(P1), id, 2, "hi".to_string(), 1),
        Err(RetroError::InvalidCategoryId)
    );
    assert_eq!(l.create_note(&direct(P1), id, 0, "x".repeat(280), 1), Ok(0));
    assert_eq!(
        l.create_note(&direct(P1), id, 0, "hi".to_string(), 1),
        Err(RetroError::MaxNotesReached)
    );
}

#[test]
fn notes_require_the_writing_stage_and_a_membership() {
    let (mut l, id) = board_at(BoardStage::Setup, None);
    assert_eq!(
        l.create_note(&direct(P1), id, 0, "early".to_string(), 1),
        Err(RetroError::InvalidStage)
    );

    let f = direct(FACILITATOR);
    l.add_to_allowlist(&f, id, 5, 1).unwrap();
    l.advance_stage(&f, id, BoardStage::WriteNotes, 2).unwrap();
    // Allow-listed after creation, but never joined: no membership record.
    assert_eq!(
        l.create_note(&direct(5), id, 0, "who am I".to_string(), 3),
        Err(RetroError::NotJoined)
    );
}

#[test]
fn groups_are_created_and_retitled_during_grouping() {
    let (mut l, id) = board_at(BoardStage::GroupDuplicates, None);
    let g0 = l.create_group(&direct(P1), id, "process".to_string(), 5).unwrap();
    assert_eq!(g0, 0);
    let g = l.get_group(id, 0).unwrap();
    assert_eq!(g.title, "process");
    assert_eq!(g.created_by, P1);
    assert_eq!(g.vote_tally, 0);

    assert_eq!(
        l.create_group(&direct(P1), id, "y".repeat(81), 5),
        Err(RetroError::GroupTitleTooLong)
    );
    assert_eq!(
        l.set_group_title(&direct(P2), id, 0, "z".repeat(81), 6),
        Err(RetroError::GroupTitleTooLong)
    );
    assert_eq!(
        l.set_group_title(&direct(P2), id, 1, "tools".to_string(), 6),
        Err(RetroError::AccountNotInitialized)
    );
    assert_eq!(l.set_group_title(&direct(P2), id, 0, "tools".to_string(), 6), Ok(()));
    assert_eq!(l.get_group(id, 0).unwrap().title, "tools");
}

#[test]
fn a_note_holds_at_most_one_group_with_explicit_moves() {
    let (mut l, id) = board_at(BoardStage::WriteNotes, None);
    let f = direct(FACILITATOR);
    l.create_note(&direct(P1), id, 0, "dup one".to_string(), 1).unwrap();
    l.advance_stage(&f, id, BoardStage::GroupDuplicates, 2).unwrap();
    let g0 = l.create_group(&direct(P1), id, "first".to_string(), 3).unwrap();
    let g1 = l.create_group(&direct(P2), id, "second".to_string(), 3).unwrap();

    // Unassigning an unassigned note fails.
    assert_eq!(l.unassign_note(&direct(P1), id, 0, 4), Err(RetroError::NoteNotGrouped));

    assert_eq!(l.assign_note_to_group(&direct(P1), id, 0, g0, 4), Ok(()));
    assert_eq!(l.get_note(id, 0).unwrap().group_id, Some(g0));

    // A second assignment without an intervening unassign fails.
    assert_eq!(
        l.assign_note_to_group(&direct(P2), id, 0, g1, 5),
        Err(RetroError::NoteAlreadyGrouped)
    );
    assert_eq!(l.get_note(id, 0).unwrap().group_id, Some(g0));

    // The explicit move: unassign, then assign.
    assert_eq!(l.unassign_note(&direct(P2), id, 0, 6), Ok(()));
    assert_eq!(l.get_note(id, 0).unwrap().group_id, None);
    assert_eq!(l.assign_note_to_group(&direct(P2), id, 0, g1, 7), Ok(()));
    assert_eq!(l.get_note(id, 0).unwrap().group_id, Some(g1));
}

#[test]
fn grouping_moves_are_stage_gated_and_checked() {
    let (mut l, id) = board_at(BoardStage::WriteNotes, None);
    let f = direct(FACILITATOR);
    l.create_note(&direct(P1), id, 0, "dup".to_string(), 1).unwrap();
    assert_eq!(
        l.create_group(&direct(P1), id, "early".to_string(), 1),
        Err(RetroError::InvalidStage)
    );
    l.advance_stage(&f, id, BoardStage::GroupDuplicates, 2).unwrap();
    let g0 = l.create_group(&direct(P1), id, "g".to_string(), 3).unwrap();

    assert_eq!(
        l.assign_note_to_group(&direct(9), id, 0, g0, 4),
        Err(RetroError::NotOnAllowlist)
    );
    assert_eq!(
        l.assign_note_to_group(&direct(P1), id, 0, g0 + 1, 4),
        Err(RetroError::AccountNotInitialized)
    );
    assert_eq!(
        l.assign_note_to_group(&direct(P1), id, 7, g0, 4),
        Err(RetroError::AccountNotInitialized)
    );

    l.advance_stage(&f, id, BoardStage::Vote, 5).unwrap();
    assert_eq!(
        l.assign_note_to_group(&direct(P1), id, 0, g0, 6),
        Err(RetroError::InvalidStage)
    );
    assert_eq!(l.unassign_note(&direct(P1), id, 0, 6), Err(RetroError::InvalidStage));
}
