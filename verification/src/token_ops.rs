//! Ledger-level delegation calls: creating and revoking session tokens
//! scoped to this ledger's own service identity.

use vstd::prelude::*;

use crate::ledger::Ledger;
use crate::session_keys::{SessionError, SessionToken};

verus! {

impl Ledger {
    /// Creates a delegation token letting `session_signer` act as
    /// `authority` against this service. Both must have signed the call;
    /// the runtime establishes that before calling in.
    pub fn create_session_token(
        &mut self,
        authority: u64,
        session_signer: u64,
        valid_for_seconds: Option<i64>,
        now: i64,
    ) -> (r: Result<i64, SessionError>)
        requires
            old(self).wf(),
        ensures
            final(self).wf(),
            r == old(self).tokens.spec_create_check(
                authority,
                session_signer,
                old(self).service_id,
                valid_for_seconds,
                now,
            ),
            r matches Ok(valid_until) ==> final(self).tokens.tokens@ == old(
                self,
            ).tokens.tokens@.push(
                (SessionToken {
                    authority,
                    target_program: old(self).service_id,
                    session_signer,
                    valid_until,
                }),
            ),
            r is Err ==> *final(self) == *old(self),
            final(self).registries@ == old(self).registries@,
            final(self).boards@ == old(self).boards@,
            final(self).memberships@ == old(self).memberships@,
            final(self).notes@ == old(self).notes@,
            final(self).groups@ == old(self).groups@,
            final(self).votes@ == old(self).votes@,
            final(self).action_items@ == old(self).action_items@,
            final(self).verification_votes@ == old(self).verification_votes@,
            final(self).service_id == old(self).service_id,
    {
        let target_program = self.service_id;
        self.tokens.create_session_token(
            authority,
            session_signer,
            target_program,
            valid_for_seconds,
            now,
        )
    }

    /// Revokes the principal's token for a delegate against this service;
    /// the record is removed outright and every later use fails. The
    /// principal must have signed the call.
    pub fn revoke_session_token(&mut self, authority: u64, session_signer: u64) -> (r: Result<
        (),
        SessionError,
    >)
        requires
            old(self).wf(),
        ensures
            final(self).wf(),
            (match old(self).tokens.spec_find_token(
                old(self).service_id,
                session_signer,
                authority,
            ) {
                Some(i) => r == Ok::<(), SessionError>(()) && final(self).tokens.tokens@ == old(
                    self,
                ).tokens.tokens@.remove(i),
                None => r == Err::<(), SessionError>(SessionError::InvalidToken) && *final(self)
                    == *old(self),
            }),
            final(self).registries@ == old(self).registries@,
            final(self).boards@ == old(self).boards@,
            final(self).memberships@ == old(self).memberships@,
            final(self).notes@ == old(self).notes@,
            final(self).groups@ == old(self).groups@,
            final(self).votes@ == old(self).votes@,
            final(self).action_items@ == old(self).action_items@,
            final(self).verification_votes@ == old(self).verification_votes@,
            final(self).service_id == old(self).service_id,
    {
        let target_program = self.service_id;
        self.tokens.revoke_session_token(authority, session_signer, target_program)
    }
}

} // verus!
