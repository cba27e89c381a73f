use retroquest::board_ops::SessionConfig;
use retroquest::error::RetroError;
use retroquest::ledger::Ledger;
use retroquest::session_keys::{Authority, SessionError};
use retroquest::state::{BoardId, BoardStage};

const SERVICE: u64 = 7;
const FACILITATOR: u64 = 100;
const PRINCIPAL: u64 = 1;
const DELEGATE: u64 = 55;

fn direct(signer: u64) -> Authority {
    Authority::Direct { signer }
}

fn delegated(session_signer: u64, authority: u64) -> Authority {
    Authority::Delegated { session_signer, authority }
}

fn writing_board() -> (Ledger, BoardId) {
    let mut l = Ledger::new(SERVICE);
    let f = direct(FACILITATOR);
    l.init_team_registry(&f, 0).unwrap();
    let cfg = SessionConfig {
        categories: vec!["Went well".to_string()],
        allowlist: vec![PRINCIPAL],
        max_notes_per_participant: None,
        voting_credits_per_participant: None,
        open_join: false,
    };
    let id = l.create_session(&f, cfg, 0).unwrap();
    l.advance_stage(&f, id, BoardStage::WriteNotes, 1).unwrap();
    (l, id)
}

#[test]
fn delegate_acts_as_the_principal_until_revocation() {
    // The principal authorizes a delegate for an hour; the delegate's note
    // is recorded under the principal, not the delegate; after revocation
    // the same call fails with a delegation error.
    let (mut l, id) = writing_board();
    let now = 1000;
    assert_eq!(
        l.create_session_token(PRINCIPAL, DELEGATE, Some(3600), now),
        Ok(now + 3600)
    );

    let auth = delegated(DELEGATE, PRINCIPAL);
    let nid = l.create_note(&auth, id, 0, "from the session".to_string(), now + 10).unwrap();
    let note = l.get_note(id, nid).unwrap();
    assert_eq!(note.author, PRINCIPAL);
    assert_ne!(note.author, DELEGATE);

    assert_eq!(l.revoke_session_token(PRINCIPAL, DELEGATE), Ok(()));
    assert_eq!(
        l.create_note(&auth, id, 0, "after revocation".to_string(), now + 20),
        Err(RetroError::Session(SessionError::InvalidToken))
    );
}

#[test]
fn expired_delegation_is_rejected_but_the_boundary_second_works() {
    let (mut l, id) = writing_board();
    let valid_until = l.create_session_token(PRINCIPAL, DELEGATE, Some(3600), 0).unwrap();
    assert_eq!(valid_until, 3600);
    let auth = delegated(DELEGATE, PRINCIPAL);

    assert!(l.create_note(&auth, id, 0, "just in time".to_string(), valid_until).is_ok());
    assert_eq!(
        l.create_note(&auth, id, 0, "too late".to_string(), valid_until + 1),
        Err(RetroError::Session(SessionError::SessionExpired))
    );
}

#[test]
fn delegation_without_a_token_is_rejected() {
    let (mut l, id) = writing_board();
    let auth = delegated(DELEGATE, PRINCIPAL);
    assert_eq!(
        l.create_note(&auth, id, 0, "no token".to_string(), 5),
        Err(RetroError::Session(SessionError::InvalidToken))
    );
}

#[test]
fn delegation_is_scoped_to_the_named_principal() {
    let (mut l, id) = writing_board();
    l.create_session_token(PRINCIPAL, DELEGATE, None, 0).unwrap();
    // The token names PRINCIPAL; claiming another authority finds no token
    // under that scope.
    let other = delegated(DELEGATE, FACILITATOR);
    assert_eq!(
        l.advance_stage(&other, id, BoardStage::GroupDuplicates, 5),
        Err(RetroError::Session(SessionError::InvalidToken))
    );
}

#[test]
fn facilitator_calls_work_through_a_delegate_too() {
    let (mut l, id) = writing_board();
    l.create_session_token(FACILITATOR, DELEGATE, Some(600), 0).unwrap();
    let auth = delegated(DELEGATE, FACILITATOR);
    assert_eq!(l.advance_stage(&auth, id, BoardStage::GroupDuplicates, 5), Ok(()));
    assert_eq!(l.get_board(id).unwrap().stage, BoardStage::GroupDuplicates);
}

#[test]
fn token_store_is_visible_through_the_ledger() {
    let (mut l, _) = writing_board();
    assert!(l.get_session_token(PRINCIPAL, DELEGATE).is_none());
    l.create_session_token(PRINCIPAL, DELEGATE, Some(60), 100).unwrap();
    let t = l.get_session_token(PRINCIPAL, DELEGATE).unwrap();
    assert_eq!(t.authority, PRINCIPAL);
    assert_eq!(t.session_signer, DELEGATE);
    assert_eq!(t.target_program, SERVICE);
    assert_eq!(t.valid_until, 160);
}
