use retroquest::constants::{DEFAULT_VALIDITY_SECONDS, MAX_VALIDITY_SECONDS};
use retroquest::session_keys::{
    calculate_valid_until, SessionError, SessionToken, TokenKey, TokenStore,
};

#[test]
fn test_is_expired() {
    let session = SessionToken {
        authority: 1,
        target_program: 2,
        session_signer: 3,
        valid_until: 1000,
    };

    assert!(!session.is_expired(999));
    assert!(!session.is_expired(1000));
    assert!(session.is_expired(1001));
}

#[test]
fn test_find_address_deterministic() {
    let authority = 10;
    let target_program = 20;
    let session_signer = 30;

    let addr1 = SessionToken::find_address(target_program, session_signer, authority);
    let addr2 = SessionToken::find_address(target_program, session_signer, authority);

    assert_eq!(addr1, addr2);
}

#[test]
fn test_different_inputs_different_addresses() {
    let authority1 = 11;
    let authority2 = 12;
    let target_program = 20;
    let session_signer = 30;

    let addr1 = SessionToken::find_address(target_program, session_signer, authority1);
    let addr2 = SessionToken::find_address(target_program, session_signer, authority2);

    assert_ne!(addr1, addr2);
}

#[test]
fn test_session_error_codes() {
    // Error codes stay clear of the ranges other components use.
    assert!(SessionError::InvalidToken.code() >= 6000);
}

#[test]
fn validate_checks_every_field_of_the_scope() {
    let token = SessionToken {
        authority: 1,
        target_program: 2,
        session_signer: 3,
        valid_until: 100,
    };
    let key = SessionToken::find_address(2, 3, 1);

    assert_eq!(token.validate(key, 1, 2, 3, 100), Ok(()));
    let wrong_key = TokenKey { target_program: 2, session_signer: 3, authority: 9 };
    assert_eq!(token.validate(wrong_key, 1, 2, 3, 100), Err(SessionError::InvalidToken));
    assert_eq!(token.validate(key, 9, 2, 3, 100), Err(SessionError::InvalidAuthority));
    assert_eq!(token.validate(key, 1, 9, 3, 100), Err(SessionError::InvalidTargetProgram));
    assert_eq!(token.validate(key, 1, 2, 9, 100), Err(SessionError::InvalidSessionSigner));
    assert_eq!(token.validate(key, 1, 2, 3, 101), Err(SessionError::SessionExpired));
}

#[test]
fn calculate_valid_until_applies_default_and_maximum() {
    assert_eq!(calculate_valid_until(1000, None), Ok(1000 + DEFAULT_VALIDITY_SECONDS));
    assert_eq!(calculate_valid_until(0, Some(MAX_VALIDITY_SECONDS)), Ok(604800));
    assert_eq!(
        calculate_valid_until(0, Some(MAX_VALIDITY_SECONDS + 1)),
        Err(SessionError::ValidityTooLong)
    );
    assert_eq!(calculate_valid_until(0, Some(0)), Err(SessionError::ValidityNotPositive));
    assert_eq!(calculate_valid_until(0, Some(-5)), Err(SessionError::ValidityNotPositive));
    assert_eq!(
        calculate_valid_until(i64::MAX - 10, Some(3600)),
        Err(SessionError::ValidityTooLong)
    );
}

#[test]
fn token_usable_through_expiry_second_and_not_after() {
    let mut store = TokenStore::new();
    let principal = 1;
    let delegate = 3;
    let service = 7;
    assert_eq!(store.create_session_token(principal, delegate, service, Some(5), 0), Ok(5));

    assert_eq!(store.validate_session(delegate, principal, service, 5), Ok(()));
    assert_eq!(
        store.validate_session(delegate, principal, service, 6),
        Err(SessionError::SessionExpired)
    );
}

#[test]
fn revoked_token_fails_even_before_expiry() {
    let mut store = TokenStore::new();
    let principal = 1;
    let delegate = 3;
    let service = 7;
    assert_eq!(store.create_session_token(principal, delegate, service, Some(1000), 0), Ok(1000));
    assert_eq!(store.validate_session(delegate, principal, service, 10), Ok(()));

    assert_eq!(store.revoke_session_token(principal, delegate, service), Ok(()));
    assert_eq!(
        store.validate_session(delegate, principal, service, 10),
        Err(SessionError::InvalidToken)
    );
    // Revoking again fails: the record is gone.
    assert_eq!(
        store.revoke_session_token(principal, delegate, service),
        Err(SessionError::InvalidToken)
    );
}

#[test]
fn direct_signature_needs_no_token() {
    let store = TokenStore::new();
    assert_eq!(store.validate_signer_or_session(5, 5, false, 7, 0), Ok(()));
    assert_eq!(
        store.validate_signer_or_session(5, 6, false, 7, 0),
        Err(SessionError::NoToken)
    );
    assert_eq!(
        store.validate_signer_or_session(5, 6, true, 7, 0),
        Err(SessionError::InvalidToken)
    );
}

#[test]
fn duplicate_token_scope_is_rejected() {
    let mut store = TokenStore::new();
    assert_eq!(store.create_session_token(1, 3, 7, Some(100), 0), Ok(100));
    assert_eq!(
        store.create_session_token(1, 3, 7, Some(200), 0),
        Err(SessionError::InvalidToken)
    );
}
