use retroquest::board_ops::SessionConfig;
use retroquest::error::RetroError;
use retroquest::ledger::Ledger;
use retroquest::session_keys::Authority;
use retroquest::state::{ActionStatus, BoardId, BoardStage};

const SERVICE: u64 = 7;
const FACILITATOR: u64 = 100;
const OWNER: u64 = 1;
const V1: u64 = 2;
const V2: u64 = 3;
const V3: u64 = 4;

fn direct(signer: u64) -> Authority {
    Authority::Direct { signer }
}

fn closed_board() -> (Ledger, BoardId) {
    let mut l = Ledger::new(SERVICE);
    let f = direct(FACILITATOR);
    l.init_team_registry(&f, 0).unwrap();
    let cfg = SessionConfig {
        categories: vec!["c".to_string()],
        allowlist: vec![OWNER, V1, V2, V3],
        max_notes_per_participant: None,
        voting_credits_per_participant: None,
        open_join: false,
    };
    let id = l.create_session(&f, cfg, 0).unwrap();
    l.advance_stage(&f, id, BoardStage::WriteNotes, 1).unwrap();
    l.advance_stage(&f, id, BoardStage::GroupDuplicates, 2).unwrap();
    l.advance_stage(&f, id, BoardStage::Vote, 3).unwrap();
    l.advance_stage(&f, id, BoardStage::Discuss, 4).unwrap();
    l.close_session(&f, id, 5).unwrap();
    (l, id)
}

#[test]
fn threshold_consensus_completes_the_item_exactly_once() {
    // A facilitator creates an item with three verifiers and threshold
    // two. The first approval leaves it pending; the second completes it
    // and raises the owner's score; the third vote is rejected outright.
    let (mut l, id) = closed_board();
    let f = direct(FACILITATOR);
    let aid = l
        .create_action_item(&f, id, "write the runbook".to_string(), OWNER, vec![V1, V2, V3], 2, 6)
        .unwrap();
    assert_eq!(aid, 0);
    let a = l.get_action_item(id, aid).unwrap();
    assert_eq!(a.approvals, 0);
    assert_eq!(a.status, ActionStatus::Pending);
    assert_eq!(a.threshold, 2);

    assert_eq!(l.cast_verification_vote(&direct(V1), id, aid, true, 7), Ok(()));
    let a = l.get_action_item(id, aid).unwrap();
    assert_eq!(a.approvals, 1);
    assert_eq!(a.status, ActionStatus::Pending);

    assert_eq!(l.cast_verification_vote(&direct(V2), id, aid, true, 8), Ok(()));
    let a = l.get_action_item(id, aid).unwrap();
    assert_eq!(a.approvals, 2);
    assert_eq!(a.status, ActionStatus::Completed);
    assert_eq!(l.get_membership(id, OWNER).unwrap().score, 1);

    assert_eq!(
        l.cast_verification_vote(&direct(V3), id, aid, true, 9),
        Err(RetroError::ItemNotPending)
    );
    let a = l.get_action_item(id, aid).unwrap();
    assert_eq!(a.approvals, 2);
    assert_eq!(l.get_membership(id, OWNER).unwrap().score, 1);
}

#[test]
fn item_creation_requires_closure_and_the_facilitator() {
    let mut l = Ledger::new(SERVICE);
    let f = direct(FACILITATOR);
    l.init_team_registry(&f, 0).unwrap();
    let cfg = SessionConfig {
        categories: vec!["c".to_string()],
        allowlist: vec![OWNER, V1],
        max_notes_per_participant: None,
        voting_credits_per_participant: None,
        open_join: false,
    };
    let id = l.create_session(&f, cfg, 0).unwrap();
    assert_eq!(
        l.create_action_item(&f, id, "too early".to_string(), OWNER, vec![V1], 1, 1),
        Err(RetroError::BoardNotClosed)
    );

    let (mut l, id) = closed_board();
    assert_eq!(
        l.create_action_item(&direct(OWNER), id, "not mine".to_string(), OWNER, vec![V1], 1, 6),
        Err(RetroError::UnauthorizedFacilitator)
    );
}

#[test]
fn item_creation_validates_the_verifier_set() {
    let (mut l, id) = closed_board();
    let f = direct(FACILITATOR);

    assert_eq!(
        l.create_action_item(&f, id, "d".repeat(281), OWNER, vec![V1], 1, 6),
        Err(RetroError::DescriptionTooLong)
    );
    let crowd: Vec<u64> = (2..=12).collect();
    assert_eq!(
        l.create_action_item(&f, id, "d".to_string(), OWNER, crowd, 1, 6),
        Err(RetroError::TooManyVerifiers)
    );
    assert_eq!(
        l.create_action_item(&f, id, "d".to_string(), OWNER, vec![V1, V2], 0, 6),
        Err(RetroError::InvalidThreshold)
    );
    assert_eq!(
        l.create_action_item(&f, id, "d".to_string(), OWNER, vec![V1, V2], 3, 6),
        Err(RetroError::InvalidThreshold)
    );
    assert_eq!(
        l.create_action_item(&f, id, "d".to_string(), OWNER, vec![V1, V1], 2, 6),
        Err(RetroError::DuplicateVerifier)
    );
    assert_eq!(
        l.create_action_item(&f, id, "d".to_string(), OWNER, vec![V1, OWNER], 2, 6),
        Err(RetroError::SelfVerificationForbidden)
    );
    assert_eq!(
        l.create_action_item(&f, id, "d".to_string(), 9, vec![V1], 1, 6),
        Err(RetroError::NotOnAllowlist)
    );
    assert_eq!(
        l.create_action_item(&f, id, "d".to_string(), OWNER, vec![V1, 9], 2, 6),
        Err(RetroError::NotOnAllowlist)
    );
}

#[test]
fn each_verifier_votes_at_most_once_and_must_be_designated() {
    let (mut l, id) = closed_board();
    let f = direct(FACILITATOR);
    let aid = l
        .create_action_item(&f, id, "d".to_string(), OWNER, vec![V1, V2, V3], 3, 6)
        .unwrap();

    assert_eq!(
        l.cast_verification_vote(&direct(OWNER), id, aid, true, 7),
        Err(RetroError::NotAVerifier)
    );
    assert_eq!(l.cast_verification_vote(&direct(V1), id, aid, false, 7), Ok(()));
    assert_eq!(
        l.cast_verification_vote(&direct(V1), id, aid, true, 8),
        Err(RetroError::DuplicateVerificationVote)
    );
    assert_eq!(
        l.cast_verification_vote(&direct(V2), id, 5, true, 8),
        Err(RetroError::AccountNotInitialized)
    );

    // A non-approving vote is recorded but never advances the item.
    let a = l.get_action_item(id, aid).unwrap();
    assert_eq!(a.approvals, 0);
    assert_eq!(a.status, ActionStatus::Pending);
    let vv = l.get_verification_vote(id, aid, V1).unwrap();
    assert!(!vv.approved);
    assert_eq!(vv.voted_at, 7);
}

#[test]
fn completion_creates_the_owner_score_lazily() {
    // The owner was allow-listed after creation and never joined, so no
    // membership exists; the completing vote creates it with the score.
    let mut l = Ledger::new(SERVICE);
    let f = direct(FACILITATOR);
    l.init_team_registry(&f, 0).unwrap();
    let cfg = SessionConfig {
        categories: vec!["c".to_string()],
        allowlist: vec![],
        max_notes_per_participant: None,
        voting_credits_per_participant: None,
        open_join: false,
    };
    let id = l.create_session(&f, cfg, 0).unwrap();
    l.add_to_allowlist(&f, id, OWNER, 1).unwrap();
    l.add_to_allowlist(&f, id, V1, 1).unwrap();
    l.advance_stage(&f, id, BoardStage::WriteNotes, 2).unwrap();
    l.advance_stage(&f, id, BoardStage::GroupDuplicates, 3).unwrap();
    l.advance_stage(&f, id, BoardStage::Vote, 4).unwrap();
    l.advance_stage(&f, id, BoardStage::Discuss, 5).unwrap();
    l.close_session(&f, id, 6).unwrap();

    let aid = l
        .create_action_item(&f, id, "single sign-off".to_string(), OWNER, vec![V1], 1, 7)
        .unwrap();
    assert!(l.get_membership(id, OWNER).is_none());
    assert_eq!(l.cast_verification_vote(&direct(V1), id, aid, true, 8), Ok(()));
    let m = l.get_membership(id, OWNER).unwrap();
    assert_eq!(m.score, 1);
    assert_eq!(m.credits_spent, 0);
    assert_eq!(
        l.get_action_item(id, aid).unwrap().status,
        ActionStatus::Completed
    );
}

#[test]
fn items_are_numbered_sequentially_per_board() {
    let (mut l, id) = closed_board();
    let f = direct(FACILITATOR);
    let a0 = l.create_action_item(&f, id, "a".to_string(), OWNER, vec![V1], 1, 6).unwrap();
    let a1 = l.create_action_item(&f, id, "b".to_string(), OWNER, vec![V2, V3], 2, 7).unwrap();
    assert_eq!(a0, 0);
    assert_eq!(a1, 1);
    assert_eq!(l.get_board(id).unwrap().action_item_count, 2);
}
