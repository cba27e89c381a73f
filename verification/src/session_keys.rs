//! The delegated-authority subsystem: time-bounded session tokens that let
//! an ephemeral identity sign on behalf of a principal for one target
//! service, with strict expiry, scope binding, and unconditional revocation.

use vstd::prelude::*;

use crate::constants::{DEFAULT_VALIDITY_SECONDS, MAX_VALIDITY_SECONDS};
use crate::keyed::{contains_key, find_by_key, find_in, unique_keys, Keyed};

verus! {

/// Delegation failures; each check of the authorization gate has its own
/// code so a caller can tell them apart.
#[derive(Clone, Copy, Debug, PartialEq, Eq, Structural)]
pub enum SessionError {
    /// No token exists at the derived address, or the supplied address does
    /// not match the one derived from the token's own fields.
    InvalidToken,
    /// The token's validity window has passed.
    SessionExpired,
    /// The token names a different principal.
    InvalidAuthority,
    /// The token is scoped to a different target service.
    InvalidTargetProgram,
    /// The token authorizes a different delegate.
    InvalidSessionSigner,
    /// The delegate did not sign the call.
    MissingSessionSignature,
    /// The token record is not owned by the token store's service.
    WrongOwner,
    /// The requested validity period exceeds the maximum.
    ValidityTooLong,
    /// No token was supplied where one is required.
    NoToken,
    /// The current time could not be read.
    ClockUnavailable,
    /// The requested validity period would end at or before creation.
    ValidityNotPositive,
}

impl SessionError {
    /// The code each variant is surfaced as; the range starts at 6000 to
    /// stay clear of codes other components use.
    pub open spec fn spec_code(self) -> u32 {
        match self {
            SessionError::InvalidToken => 6000,
            SessionError::SessionExpired => 6001,
            SessionError::InvalidAuthority => 6002,
            SessionError::InvalidTargetProgram => 6003,
            SessionError::InvalidSessionSigner => 6004,
            SessionError::MissingSessionSignature => 6005,
            SessionError::WrongOwner => 6006,
            SessionError::ValidityTooLong => 6007,
            SessionError::NoToken => 6008,
            SessionError::ClockUnavailable => 6009,
            SessionError::ValidityNotPositive => 6010,
        }
    }

    /// The error's enumerable code.
    pub fn code(&self) -> (c: u32)
        ensures
            c == self.spec_code(),
    {
        match self {
            SessionError::InvalidToken => 6000,
            SessionError::SessionExpired => 6001,
            SessionError::InvalidAuthority => 6002,
            SessionError::InvalidTargetProgram => 6003,
            SessionError::InvalidSessionSigner => 6004,
            SessionError::MissingSessionSignature => 6005,
            SessionError::WrongOwner => 6006,
            SessionError::ValidityTooLong => 6007,
            SessionError::NoToken => 6008,
            SessionError::ClockUnavailable => 6009,
            SessionError::ValidityNotPositive => 6010,
        }
    }
}

/// The deterministic address of a session token: the scope triple
/// (target service, delegate, principal). Derivation is injective, so a
/// token can never be substituted for one with a different scope.
#[derive(Clone, Copy, Debug, PartialEq, Eq, Structural)]
pub struct TokenKey {
    pub target_program: u64,
    pub session_signer: u64,
    pub authority: u64,
}

/// A delegation token: the principal, the target service, the delegate,
/// and the expiry timestamp (inclusive).
#[derive(Clone, Copy, Debug, PartialEq, Eq, Structural)]
pub struct SessionToken {
    /// The principal that created this session.
    pub authority: u64,
    /// The service this session is valid for.
    pub target_program: u64,
    /// The ephemeral identity authorized to sign on behalf of the principal.
    pub session_signer: u64,
    /// Timestamp (seconds) through which this session is usable.
    pub valid_until: i64,
}

impl Keyed for SessionToken {
    open spec fn key(&self) -> (u64, u64, u64, u64) {
        (self.target_program, self.session_signer, self.authority, 0)
    }

    fn key_of(&self) -> (k: (u64, u64, u64, u64)) {
        (self.target_program, self.session_signer, self.authority, 0)
    }
}

impl SessionToken {
    /// The address derived from the token's own scope fields.
    pub open spec fn spec_address(self) -> TokenKey {
        TokenKey {
            target_program: self.target_program,
            session_signer: self.session_signer,
            authority: self.authority,
        }
    }

    /// Derives the deterministic token address for a scope triple.
    pub fn find_address(target_program: u64, session_signer: u64, authority: u64) -> (k:
        TokenKey)
        ensures
            k == (TokenKey { target_program, session_signer, authority }),
    {
        TokenKey { target_program, session_signer, authority }
    }

    /// Whether the session has expired; the expiry second itself is usable.
    pub fn is_expired(&self, current_timestamp: i64) -> (r: bool)
        ensures
            r == (current_timestamp > self.valid_until),
    {
        current_timestamp > self.valid_until
    }

    /// The record-level checks of the authorization gate, in order:
    /// address, principal, target service, delegate, then expiry.
    pub open spec fn spec_validate(
        self,
        session_token_key: TokenKey,
        expected_authority: u64,
        expected_target_program: u64,
        session_signer_key: u64,
        now: i64,
    ) -> Result<(), SessionError> {
        if self.spec_address() != session_token_key {
            Err(SessionError::InvalidToken)
        } else if self.authority != expected_authority {
            Err(SessionError::InvalidAuthority)
        } else if self.target_program != expected_target_program {
            Err(SessionError::InvalidTargetProgram)
        } else if self.session_signer != session_signer_key {
            Err(SessionError::InvalidSessionSigner)
        } else if now > self.valid_until {
            Err(SessionError::SessionExpired)
        } else {
            Ok(())
        }
    }

    /// Validates the token against the address it was supplied under, the
    /// expected scope, and the current time.
    pub fn validate(
        &self,
        session_token_key: TokenKey,
        expected_authority: u64,
        expected_target_program: u64,
        session_signer_key: u64,
        now: i64,
    ) -> (r: Result<(), SessionError>)
        ensures
            r == self.spec_validate(
                session_token_key,
                expected_authority,
                expected_target_program,
                session_signer_key,
                now,
            ),
    {
        let expected = SessionToken::find_address(
            self.target_program,
            self.session_signer,
            self.authority,
        );
        if expected.target_program != session_token_key.target_program
            || expected.session_signer != session_token_key.session_signer
            || expected.authority != session_token_key.authority {
            return Err(SessionError::InvalidToken);
        }
        if self.authority != expected_authority {
            return Err(SessionError::InvalidAuthority);
        }
        if self.target_program != expected_target_program {
            return Err(SessionError::InvalidTargetProgram);
        }
        if self.session_signer != session_signer_key {
            return Err(SessionError::InvalidSessionSigner);
        }
        if self.is_expired(now) {
            return Err(SessionError::SessionExpired);
        }
        Ok(())
    }
}

/// How an expiry timestamp is computed from an optional duration: the
/// default is one hour, the maximum seven days, and the window must extend
/// strictly past the creation time. A window that would overflow the
/// timestamp range counts as too long.
pub open spec fn spec_calculate_valid_until(now: i64, valid_for_seconds: Option<i64>) -> Result<
    i64,
    SessionError,
> {
    let duration: int = match valid_for_seconds {
        Some(d) => d as int,
        None => DEFAULT_VALIDITY_SECONDS as int,
    };
    if duration > MAX_VALIDITY_SECONDS {
        Err(SessionError::ValidityTooLong)
    } else if duration <= 0 {
        Err(SessionError::ValidityNotPositive)
    } else if now + duration > i64::MAX {
        Err(SessionError::ValidityTooLong)
    } else {
        Ok((now + duration) as i64)
    }
}

/// Computes the expiry timestamp for a requested validity duration.
pub fn calculate_valid_until(now: i64, valid_for_seconds: Option<i64>) -> (r: Result<
    i64,
    SessionError,
>)
    ensures
        r == spec_calculate_valid_until(now, valid_for_seconds),
{
    let duration: i64 = match valid_for_seconds {
        Some(d) => d,
        None => DEFAULT_VALIDITY_SECONDS,
    };
    if duration > MAX_VALIDITY_SECONDS {
        return Err(SessionError::ValidityTooLong);
    }
    if duration <= 0 {
        return Err(SessionError::ValidityNotPositive);
    }
    match now.checked_add(duration) {
        Some(valid_until) => Ok(valid_until),
        None => Err(SessionError::ValidityTooLong),
    }
}

/// The caller of an operation: either the principal signing directly, or a
/// delegate signing under a session token created by the principal.
#[derive(Clone, Copy, Debug, PartialEq, Eq, Structural)]
pub enum Authority {
    Direct { signer: u64 },
    Delegated { session_signer: u64, authority: u64 },
}

impl Authority {
    /// The principal the caller claims to act as.
    pub open spec fn principal(self) -> u64 {
        match self {
            Authority::Direct { signer } => signer,
            Authority::Delegated { session_signer, authority } => authority,
        }
    }
}

/// The delegation token store: every live token, addressed by its scope
/// triple. Revocation removes the record outright.
pub struct TokenStore {
    pub tokens: Vec<SessionToken>,
}

impl TokenStore {
    /// At most one token per scope triple.
    pub open spec fn wf(self) -> bool {
        unique_keys(self.tokens@)
    }

    /// An empty store.
    pub fn new() -> (s: TokenStore)
        ensures
            s.tokens@ == Seq::<SessionToken>::empty(),
            s.wf(),
    {
        TokenStore { tokens: Vec::new() }
    }

    /// The index of the token for a scope triple, if one is live.
    pub open spec fn spec_find_token(
        self,
        target_program: u64,
        session_signer: u64,
        authority: u64,
    ) -> Option<int> {
        find_by_key(self.tokens@, (target_program, session_signer, authority, 0))
    }

    /// Whether a token for the scope triple is live.
    pub open spec fn has_token(
        self,
        target_program: u64,
        session_signer: u64,
        authority: u64,
    ) -> bool {
        contains_key(self.tokens@, (target_program, session_signer, authority, 0))
    }

    /// When token creation succeeds and with what expiry: the duration must
    /// be acceptable and no token may already occupy the derived address.
    pub open spec fn spec_create_check(
        self,
        authority: u64,
        session_signer: u64,
        target_program: u64,
        valid_for_seconds: Option<i64>,
        now: i64,
    ) -> Result<i64, SessionError> {
        match spec_calculate_valid_until(now, valid_for_seconds) {
            Err(e) => Err(e),
            Ok(valid_until) => if self.has_token(target_program, session_signer, authority) {
                Err(SessionError::InvalidToken)
            } else {
                Ok(valid_until)
            },
        }
    }

    /// Creates a token binding (principal, delegate, target service) with
    /// the computed expiry. Both the principal and the delegate must have
    /// signed the call; the runtime establishes that before calling in.
    pub fn create_session_token(
        &mut self,
        authority: u64,
        session_signer: u64,
        target_program: u64,
        valid_for_seconds: Option<i64>,
        now: i64,
    ) -> (r: Result<i64, SessionError>)
        requires
            old(self).wf(),
        ensures
            final(self).wf(),
            r == old(self).spec_create_check(
                authority,
                session_signer,
                target_program,
                valid_for_seconds,
                now,
            ),
            (r matches Ok(valid_until) ==> final(self).tokens@ == old(self).tokens@.push(
                SessionToken { authority, target_program, session_signer, valid_until },
            )),
            r is Err ==> *final(self) == *old(self),
    {
        let valid_until = match calculate_valid_until(now, valid_for_seconds) {
            Ok(v) => v,
            Err(e) => {
                return Err(e);
            },
        };
        match find_in(&self.tokens, (target_program, session_signer, authority, 0)) {
            Some(_) => {
                proof {
                    crate::keyed::lemma_find_by_key_props(
                        self.tokens@,
                        (target_program, session_signer, authority, 0),
                    );
                }
                Err(SessionError::InvalidToken)
            },
            None => {
                proof {
                    crate::keyed::lemma_find_by_key_props(
                        self.tokens@,
                        (target_program, session_signer, authority, 0),
                    );
                }
                let token = SessionToken { authority, target_program, session_signer, valid_until };
                self.tokens.push(token);
                Ok(valid_until)
            },
        }
    }

    /// Revokes the caller's token for a scope triple: the stored principal
    /// is the caller by key derivation, and the record is removed outright.
    /// The principal must have signed the call.
    pub fn revoke_session_token(
        &mut self,
        authority: u64,
        session_signer: u64,
        target_program: u64,
    ) -> (r: Result<(), SessionError>)
        requires
            old(self).wf(),
        ensures
            final(self).wf(),
            match old(self).spec_find_token(target_program, session_signer, authority) {
                Some(i) => r == Ok::<(), SessionError>(()) && final(self).tokens@ == old(
                    self,
                ).tokens@.remove(i),
                None => r == Err::<(), SessionError>(SessionError::InvalidToken) && *final(self)
                    == *old(self),
            },
    {
        match find_in(&self.tokens, (target_program, session_signer, authority, 0)) {
            Some(i) => {
                proof {
                    crate::keyed::lemma_find_by_key_props(
                        self.tokens@,
                        (target_program, session_signer, authority, 0),
                    );
                }
                self.tokens.remove(i);
                proof {
                    let s0 = old(self).tokens@;
                    let i0 = i as int;
                    s0.remove_ensures(i0);
                    assert forall|p: int, q: int|
                        0 <= p < q < self.tokens@.len() implies (#[trigger] self.tokens@[p]).key()
                        != (#[trigger] self.tokens@[q]).key() by {
                        assert(self.tokens@[p] == if p < i0 {
                            s0[p]
                        } else {
                            s0[p + 1]
                        });
                        assert(self.tokens@[q] == if q < i0 {
                            s0[q]
                        } else {
                            s0[q + 1]
                        });
                    }
                }
                Ok(())
            },
            None => Err(SessionError::InvalidToken),
        }
    }

    /// The store-level check of the authorization gate: a token must be
    /// live under the key of (target service, delegate, principal) and
    /// must not have expired. A found token matches the expected scope,
    /// since the key is built from those fields.
    pub open spec fn spec_validate_session(
        self,
        session_signer: u64,
        expected_authority: u64,
        expected_target_program: u64,
        now: i64,
    ) -> Result<(), SessionError> {
        match self.spec_find_token(expected_target_program, session_signer, expected_authority) {
            None => Err(SessionError::InvalidToken),
            Some(i) => if now > self.tokens@[i].valid_until {
                Err(SessionError::SessionExpired)
            } else {
                Ok(())
            },
        }
    }

    /// Validates that the delegate may act as the principal for the target
    /// service at the current time. The delegate must have signed the call.
    pub fn validate_session(
        &self,
        session_signer: u64,
        expected_authority: u64,
        expected_target_program: u64,
        now: i64,
    ) -> (r: Result<(), SessionError>)
        ensures
            r == self.spec_validate_session(
                session_signer,
                expected_authority,
                expected_target_program,
                now,
            ),
    {
        match find_in(&self.tokens, (expected_target_program, session_signer, expected_authority, 0)) {
            None => Err(SessionError::InvalidToken),
            Some(i) => {
                proof {
                    crate::keyed::lemma_find_by_key_props(
                        self.tokens@,
                        (expected_target_program, session_signer, expected_authority, 0),
                    );
                }
                let key = SessionToken::find_address(
                    expected_target_program,
                    session_signer,
                    expected_authority,
                );
                self.tokens[i].validate(
                    key,
                    expected_authority,
                    expected_target_program,
                    session_signer,
                    now,
                )
            },
        }
    }

    /// Either the signer is the principal itself, or it must hold a live,
    /// correctly scoped, unexpired session token for it.
    pub open spec fn spec_validate_signer_or_session(
        self,
        signer: u64,
        authority: u64,
        use_session: bool,
        target_program: u64,
        now: i64,
    ) -> Result<(), SessionError> {
        if signer == authority {
            Ok(())
        } else if !use_session {
            Err(SessionError::NoToken)
        } else {
            self.spec_validate_session(signer, authority, target_program, now)
        }
    }

    /// Validates a direct signature or a session-based one. The signer must
    /// have signed the call; the runtime establishes that before calling in.
    pub fn validate_signer_or_session(
        &self,
        signer: u64,
        authority: u64,
        use_session: bool,
        target_program: u64,
        now: i64,
    ) -> (r: Result<(), SessionError>)
        ensures
            r == self.spec_validate_signer_or_session(
                signer,
                authority,
                use_session,
                target_program,
                now,
            ),
    {
        if signer == authority {
            return Ok(());
        }
        if !use_session {
            return Err(SessionError::NoToken);
        }
        self.validate_session(signer, authority, target_program, now)
    }

    /// The authorization gate: resolves a caller to the principal it may
    /// act as. A direct signer acts as itself; a delegate needs a live,
    /// correctly scoped, unexpired token for the claimed principal.
    pub open spec fn spec_resolve(self, auth: Authority, target_program: u64, now: i64) -> Result<
        u64,
        SessionError,
    > {
        match auth {
            Authority::Direct { signer } => Ok(signer),
            Authority::Delegated { session_signer, authority } => match self.spec_validate_session(
                session_signer,
                authority,
                target_program,
                now,
            ) {
                Ok(()) => Ok(authority),
                Err(e) => Err(e),
            },
        }
    }

    /// Resolves the effective acting principal for a call; never mutates
    /// state. Every signer named by `auth` must have signed the call.
    pub fn resolve_and_authorize(&self, auth: &Authority, target_program: u64, now: i64) -> (r:
        Result<u64, SessionError>)
        ensures
            r == self.spec_resolve(*auth, target_program, now),
            r matches Ok(p) ==> p == auth.principal(),
    {
        match auth {
            Authority::Direct { signer } => Ok(*signer),
            Authority::Delegated { session_signer, authority } => {
                match self.validate_session(*session_signer, *authority, target_program, now) {
                    Ok(()) => Ok(*authority),
                    Err(e) => Err(e),
                }
            },
        }
    }
}

} // verus!
