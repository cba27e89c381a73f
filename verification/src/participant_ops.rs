//! Allow-list management during setup, and the two ways a participant
//! joins a board: through the allow-list, or openly where the board
//! permits it.

use vstd::prelude::*;

use crate::constants::MAX_PARTICIPANTS;
use crate::error::RetroError;
use crate::keyed::{
    contains_u64, elem_mut, find_in, index_of_u64, lemma_find_by_key_props, Keyed,
};
use crate::ledger::{lemma_board_benign_update, membership_ok, Ledger};
use crate::session_keys::Authority;
use crate::state::{BoardId, BoardMembership, BoardStage, RetroBoard};

verus! {

impl Ledger {
    /// Validation cascade for `add_to_allowlist`: board present,
    /// facilitator only, board open and still in setup, the participant
    /// not yet listed, and the list not full.
    pub open spec fn spec_add_to_allowlist_check(
        self,
        auth: Authority,
        id: BoardId,
        participant: u64,
        now: i64,
    ) -> Result<(), RetroError> {
        match self.tokens.spec_resolve(auth, self.service_id, now) {
            Err(e) => Err(RetroError::Session(e)),
            Ok(principal) => match self.spec_board_ix(id) {
                None => Err(RetroError::AccountNotInitialized),
                Some(i) => {
                    let b = self.boards@[i];
                    if b.facilitator != principal {
                        Err(RetroError::UnauthorizedFacilitator)
                    } else if b.closed {
                        Err(RetroError::BoardClosed)
                    } else if b.stage != BoardStage::Setup {
                        Err(RetroError::InvalidStage)
                    } else if b.allowlist@.contains(participant) {
                        Err(RetroError::AccountAlreadyInitialized)
                    } else if b.allowlist@.len() >= MAX_PARTICIPANTS {
                        Err(RetroError::MaxParticipantsReached)
                    } else {
                        Ok(())
                    }
                },
            },
        }
    }

    /// Adds a participant to the allow-list, facilitator-only and only
    /// during setup.
    pub fn add_to_allowlist(
        &mut self,
        auth: &Authority,
        id: BoardId,
        participant: u64,
        now: i64,
    ) -> (r: Result<(), RetroError>)
        requires
            old(self).wf(),
        ensures
            final(self).wf(),
            r == old(self).spec_add_to_allowlist_check(*auth, id, participant, now),
            r is Err ==> *final(self) == *old(self),
            r is Ok ==> ({
                let bix = old(self).spec_board_ix(id)->Some_0;
                let b0 = old(self).boards@[bix];
                let b2 = final(self).boards@[bix];
                &&& final(self).boards@ == old(self).boards@.update(bix, b2)
                &&& b2.allowlist@ == b0.allowlist@.push(participant)
                &&& b2 == (RetroBoard { allowlist: b2.allowlist, ..b0 })
            }),
            r is Ok ==> final(self).registries@ == old(self).registries@
                && final(self).memberships@ == old(self).memberships@
                && final(self).notes@ == old(self).notes@
                && final(self).groups@ == old(self).groups@
                && final(self).votes@ == old(self).votes@
                && final(self).action_items@ == old(self).action_items@
                && final(self).verification_votes@ == old(self).verification_votes@
                && final(self).tokens == old(self).tokens
                && final(self).service_id == old(self).service_id,
    {
        let principal = match self.tokens.resolve_and_authorize(auth, self.service_id, now) {
            Ok(p) => p,
            Err(e) => {
                return Err(RetroError::Session(e));
            },
        };
        let bix = match find_in(&self.boards, (id.facilitator, id.board_index, 0, 0)) {
            Some(i) => i,
            None => {
                return Err(RetroError::AccountNotInitialized);
            },
        };
        proof {
            lemma_find_by_key_props(self.boards@, (id.facilitator, id.board_index, 0, 0));
        }
        if self.boards[bix].facilitator != principal {
            return Err(RetroError::UnauthorizedFacilitator);
        }
        if self.boards[bix].closed {
            return Err(RetroError::BoardClosed);
        }
        match self.boards[bix].stage {
            BoardStage::Setup => {},
            _ => {
                return Err(RetroError::InvalidStage);
            },
        }
        if contains_u64(&self.boards[bix].allowlist, participant) {
            return Err(RetroError::AccountAlreadyInitialized);
        }
        if self.boards[bix].allowlist.len() >= MAX_PARTICIPANTS as usize {
            return Err(RetroError::MaxParticipantsReached);
        }
        let b = elem_mut(&mut self.boards, bix);
        b.allowlist.push(participant);
        proof {
            let b0 = old(self).boards@[bix as int];
            let b2 = self.boards@[bix as int];
            assert forall|p: int, q: int|
                0 <= p < q < b2.allowlist@.len() implies b2.allowlist@[p] != b2.allowlist@[q] by {
                if q == b2.allowlist@.len() - 1 {
                    assert(b2.allowlist@[p] == b0.allowlist@[p]);
                    assert(!b0.allowlist@.contains(participant));
                }
            }
            lemma_board_benign_update(
                old(self).registries@,
                old(self).boards@,
                old(self).memberships@,
                old(self).notes@,
                old(self).groups@,
                old(self).votes@,
                old(self).action_items@,
                old(self).verification_votes@,
                bix as int,
                b2,
            );
        }
        Ok(())
    }

    /// Validation cascade for `remove_from_allowlist`: board present,
    /// facilitator only, board open and still in setup, and the entry must
    /// exist.
    pub open spec fn spec_remove_from_allowlist_check(
        self,
        auth: Authority,
        id: BoardId,
        participant: u64,
        now: i64,
    ) -> Result<(), RetroError> {
        match self.tokens.spec_resolve(auth, self.service_id, now) {
            Err(e) => Err(RetroError::Session(e)),
            Ok(principal) => match self.spec_board_ix(id) {
                None => Err(RetroError::AccountNotInitialized),
                Some(i) => {
                    let b = self.boards@[i];
                    if b.facilitator != principal {
                        Err(RetroError::UnauthorizedFacilitator)
                    } else if b.closed {
                        Err(RetroError::BoardClosed)
                    } else if b.stage != BoardStage::Setup {
                        Err(RetroError::InvalidStage)
                    } else if !b.allowlist@.contains(participant) {
                        Err(RetroError::AccountNotInitialized)
                    } else {
                        Ok(())
                    }
                },
            },
        }
    }

    /// Removes a participant from the allow-list, facilitator-only and
    /// only during setup. The rest of the list is kept.
    pub fn remove_from_allowlist(
        &mut self,
        auth: &Authority,
        id: BoardId,
        participant: u64,
        now: i64,
    ) -> (r: Result<(), RetroError>)
        requires
            old(self).wf(),
        ensures
            final(self).wf(),
            r == old(self).spec_remove_from_allowlist_check(*auth, id, participant, now),
            r is Err ==> *final(self) == *old(self),
            r is Ok ==> ({
                let bix = old(self).spec_board_ix(id)->Some_0;
                let b0 = old(self).boards@[bix];
                let b2 = final(self).boards@[bix];
                &&& final(self).boards@ == old(self).boards@.update(bix, b2)
                &&& b2.allowlist@.len() == b0.allowlist@.len() - 1
                &&& !b2.allowlist@.contains(participant)
                &&& (forall|y: u64|
                    y != participant ==> (b2.allowlist@.contains(y) <==> b0.allowlist@.contains(
                        y,
                    )))
                &&& b2 == (RetroBoard { allowlist: b2.allowlist, ..b0 })
            }),
            r is Ok ==> final(self).registries@ == old(self).registries@
                && final(self).memberships@ == old(self).memberships@
                && final(self).notes@ == old(self).notes@
                && final(self).groups@ == old(self).groups@
                && final(self).votes@ == old(self).votes@
                && final(self).action_items@ == old(self).action_items@
                && final(self).verification_votes@ == old(self).verification_votes@
                && final(self).tokens == old(self).tokens
                && final(self).service_id == old(self).service_id,
    {
        let principal = match self.tokens.resolve_and_authorize(auth, self.service_id, now) {
            Ok(p) => p,
            Err(e) => {
                return Err(RetroError::Session(e));
            },
        };
        let bix = match find_in(&self.boards, (id.facilitator, id.board_index, 0, 0)) {
            Some(i) => i,
            None => {
                return Err(RetroError::AccountNotInitialized);
            },
        };
        proof {
            lemma_find_by_key_props(self.boards@, (id.facilitator, id.board_index, 0, 0));
        }
        if self.boards[bix].facilitator != principal {
            return Err(RetroError::UnauthorizedFacilitator);
        }
        if self.boards[bix].closed {
            return Err(RetroError::BoardClosed);
        }
        match self.boards[bix].stage {
            BoardStage::Setup => {},
            _ => {
                return Err(RetroError::InvalidStage);
            },
        }
        let ix = match index_of_u64(&self.boards[bix].allowlist, participant) {
            Some(i) => i,
            None => {
                return Err(RetroError::AccountNotInitialized);
            },
        };
        let b = elem_mut(&mut self.boards, bix);
        b.allowlist.remove(ix);
        proof {
            let b0 = old(self).boards@[bix as int];
            let b2 = self.boards@[bix as int];
            let a0 = b0.allowlist@;
            let a2 = b2.allowlist@;
            let i0 = ix as int;
            a0.remove_ensures(i0);
            assert(a0.contains(participant));
            assert forall|p: int, q: int| 0 <= p < q < a2.len() implies a2[p] != a2[q] by {
                assert(a2[p] == if p < i0 {
                    a0[p]
                } else {
                    a0[p + 1]
                });
                assert(a2[q] == if q < i0 {
                    a0[q]
                } else {
                    a0[q + 1]
                });
            }
            assert forall|j: int| 0 <= j < a2.len() implies a2[j] != participant by {
                assert(a2[j] == if j < i0 {
                    a0[j]
                } else {
                    a0[j + 1]
                });
            }
            assert(!a2.contains(participant));
            assert forall|y: u64| y != participant && a0.contains(y) implies a2.contains(y) by {
                let w = choose|w: int| 0 <= w < a0.len() && a0[w] == y;
                if w < i0 {
                    assert(a2[w] == y);
                } else {
                    assert(w != i0);
                    assert(a2[w - 1] == y);
                }
            }
            assert forall|y: u64| a2.contains(y) implies a0.contains(y) by {
                let w = choose|w: int| 0 <= w < a2.len() && a2[w] == y;
                assert(a2[w] == if w < i0 {
                    a0[w]
                } else {
                    a0[w + 1]
                });
            }
            lemma_board_benign_update(
                old(self).registries@,
                old(self).boards@,
                old(self).memberships@,
                old(self).notes@,
                old(self).groups@,
                old(self).votes@,
                old(self).action_items@,
                old(self).verification_votes@,
                bix as int,
                b2,
            );
        }
        Ok(())
    }

    /// Validation cascade for the allow-list join: board present and open,
    /// caller allow-listed, the participant cap not reached, and no
    /// membership existing yet.
    pub open spec fn spec_join_session_with_allowlist_check(
        self,
        auth: Authority,
        id: BoardId,
        now: i64,
    ) -> Result<(), RetroError> {
        match self.tokens.spec_resolve(auth, self.service_id, now) {
            Err(e) => Err(RetroError::Session(e)),
            Ok(participant) => match self.spec_board_ix(id) {
                None => Err(RetroError::AccountNotInitialized),
                Some(i) => {
                    let b = self.boards@[i];
                    if b.closed {
                        Err(RetroError::BoardClosed)
                    } else if !b.allowlist@.contains(participant) {
                        Err(RetroError::NotOnAllowlist)
                    } else if b.participant_count >= MAX_PARTICIPANTS {
                        Err(RetroError::MaxParticipantsReached)
                    } else if self.has_membership(id, participant) {
                        Err(RetroError::AccountAlreadyInitialized)
                    } else {
                        Ok(())
                    }
                },
            },
        }
    }

    /// Joins an open board through its allow-list, creating the caller's
    /// membership with nothing consumed yet.
    pub fn join_session_with_allowlist(&mut self, auth: &Authority, id: BoardId, now: i64) -> (r:
        Result<(), RetroError>)
        requires
            old(self).wf(),
        ensures
            final(self).wf(),
            r == old(self).spec_join_session_with_allowlist_check(*auth, id, now),
            r is Err ==> *final(self) == *old(self),
            r is Ok ==> ({
                let bix = old(self).spec_board_ix(id)->Some_0;
                let b0 = old(self).boards@[bix];
                &&& final(self).boards@ == old(self).boards@.update(
                    bix,
                    (RetroBoard { participant_count: (b0.participant_count + 1) as u32, ..b0 }),
                )
                &&& final(self).memberships@ == old(self).memberships@.push(
                    (BoardMembership {
                        board: id,
                        participant: auth.principal(),
                        notes_submitted: 0,
                        credits_spent: 0,
                        score: 0,
                    }),
                )
            }),
            r is Ok ==> final(self).registries@ == old(self).registries@
                && final(self).notes@ == old(self).notes@
                && final(self).groups@ == old(self).groups@
                && final(self).votes@ == old(self).votes@
                && final(self).action_items@ == old(self).action_items@
                && final(self).verification_votes@ == old(self).verification_votes@
                && final(self).tokens == old(self).tokens
                && final(self).service_id == old(self).service_id,
    {
        let participant = match self.tokens.resolve_and_authorize(auth, self.service_id, now) {
            Ok(p) => p,
            Err(e) => {
                return Err(RetroError::Session(e));
            },
        };
        let bix = match find_in(&self.boards, (id.facilitator, id.board_index, 0, 0)) {
            Some(i) => i,
            None => {
                return Err(RetroError::AccountNotInitialized);
            },
        };
        proof {
            lemma_find_by_key_props(self.boards@, (id.facilitator, id.board_index, 0, 0));
        }
        if self.boards[bix].closed {
            return Err(RetroError::BoardClosed);
        }
        if !contains_u64(&self.boards[bix].allowlist, participant) {
            return Err(RetroError::NotOnAllowlist);
        }
        if self.boards[bix].participant_count >= MAX_PARTICIPANTS {
            return Err(RetroError::MaxParticipantsReached);
        }
        proof {
            lemma_find_by_key_props(
                self.memberships@,
                (id.facilitator, id.board_index, participant, 0),
            );
        }
        match find_in(&self.memberships, (id.facilitator, id.board_index, participant, 0)) {
            Some(_) => {
                return Err(RetroError::AccountAlreadyInitialized);
            },
            None => {},
        }
        self.join_commit(bix, id, participant);
        Ok(())
    }

    /// Validation cascade for the open join: board present and open, open
    /// joining enabled, the participant cap not reached, and no membership
    /// existing yet.
    pub open spec fn spec_join_session_open_check(
        self,
        auth: Authority,
        id: BoardId,
        now: i64,
    ) -> Result<(), RetroError> {
        match self.tokens.spec_resolve(auth, self.service_id, now) {
            Err(e) => Err(RetroError::Session(e)),
            Ok(participant) => match self.spec_board_ix(id) {
                None => Err(RetroError::AccountNotInitialized),
                Some(i) => {
                    let b = self.boards@[i];
                    if !b.open_join {
                        Err(RetroError::OpenJoinDisabled)
                    } else if b.closed {
                        Err(RetroError::BoardClosed)
                    } else if b.participant_count >= MAX_PARTICIPANTS {
                        Err(RetroError::MaxParticipantsReached)
                    } else if self.has_membership(id, participant) {
                        Err(RetroError::AccountAlreadyInitialized)
                    } else {
                        Ok(())
                    }
                },
            },
        }
    }

    /// Joins a board that has open joining enabled, without consulting the
    /// allow-list.
    pub fn join_session_open(&mut self, auth: &Authority, id: BoardId, now: i64) -> (r: Result<
        (),
        RetroError,
    >)
        requires
            old(self).wf(),
        ensures
            final(self).wf(),
            r == old(self).spec_join_session_open_check(*auth, id, now),
            r is Err ==> *final(self) == *old(self),
            r is Ok ==> ({
                let bix = old(self).spec_board_ix(id)->Some_0;
                let b0 = old(self).boards@[bix];
                &&& final(self).boards@ == old(self).boards@.update(
                    bix,
                    (RetroBoard { participant_count: (b0.participant_count + 1) as u32, ..b0 }),
                )
                &&& final(self).memberships@ == old(self).memberships@.push(
                    (BoardMembership {
                        board: id,
                        participant: auth.principal(),
                        notes_submitted: 0,
                        credits_spent: 0,
                        score: 0,
                    }),
                )
            }),
            r is Ok ==> final(self).registries@ == old(self).registries@
                && final(self).notes@ == old(self).notes@
                && final(self).groups@ == old(self).groups@
                && final(self).votes@ == old(self).votes@
                && final(self).action_items@ == old(self).action_items@
                && final(self).verification_votes@ == old(self).verification_votes@
                && final(self).tokens == old(self).tokens
                && final(self).service_id == old(self).service_id,
    {
        let participant = match self.tokens.resolve_and_authorize(auth, self.service_id, now) {
            Ok(p) => p,
            Err(e) => {
                return Err(RetroError::Session(e));
            },
        };
        let bix = match find_in(&self.boards, (id.facilitator, id.board_index, 0, 0)) {
            Some(i) => i,
            None => {
                return Err(RetroError::AccountNotInitialized);
            },
        };
        proof {
            lemma_find_by_key_props(self.boards@, (id.facilitator, id.board_index, 0, 0));
        }
        if !self.boards[bix].open_join {
            return Err(RetroError::OpenJoinDisabled);
        }
        if self.boards[bix].closed {
            return Err(RetroError::BoardClosed);
        }
        if self.boards[bix].participant_count >= MAX_PARTICIPANTS {
            return Err(RetroError::MaxParticipantsReached);
        }
        proof {
            lemma_find_by_key_props(
                self.memberships@,
                (id.facilitator, id.board_index, participant, 0),
            );
        }
        match find_in(&self.memberships, (id.facilitator, id.board_index, participant, 0)) {
            Some(_) => {
                return Err(RetroError::AccountAlreadyInitialized);
            },
            None => {},
        }
        self.join_commit(bix, id, participant);
        Ok(())
    }

    /// The shared commit of both join paths: one fresh membership and a
    /// bumped participant counter.
    fn join_commit(&mut self, bix: usize, id: BoardId, participant: u64)
        requires
            old(self).wf(),
            bix < old(self).boards@.len(),
            old(self).boards@[bix as int].id() == id,
            old(self).boards@[bix as int].participant_count < MAX_PARTICIPANTS,
            !old(self).has_membership(id, participant),
        ensures
            final(self).wf(),
            final(self).boards@ == old(self).boards@.update(
                bix as int,
                (RetroBoard {
                    participant_count: (old(self).boards@[bix as int].participant_count + 1) as u32,
                    ..old(self).boards@[bix as int]
                }),
            ),
            final(self).memberships@ == old(self).memberships@.push(
                (BoardMembership {
                    board: id,
                    participant,
                    notes_submitted: 0,
                    credits_spent: 0,
                    score: 0,
                }),
            ),
            final(self).registries@ == old(self).registries@,
            final(self).notes@ == old(self).notes@,
            final(self).groups@ == old(self).groups@,
            final(self).votes@ == old(self).votes@,
            final(self).action_items@ == old(self).action_items@,
            final(self).verification_votes@ == old(self).verification_votes@,
            final(self).tokens == old(self).tokens,
            final(self).service_id == old(self).service_id,
    {
        let m = BoardMembership {
            board: id,
            participant,
            notes_submitted: 0,
            credits_spent: 0,
            score: 0,
        };
        self.memberships.push(m);
        let count = self.boards[bix].participant_count;
        let b = elem_mut(&mut self.boards, bix);
        b.participant_count = count + 1;
        proof {
            let ms0 = old(self).memberships@;
            let msf = self.memberships@;
            lemma_find_by_key_props(ms0, (id.facilitator, id.board_index, participant, 0));
            assert forall|p: int, q: int|
                0 <= p < q < msf.len() implies (#[trigger] msf[p]).key() != (
            #[trigger] msf[q]).key() by {
                if q < ms0.len() {
                    assert(ms0[p].key() != ms0[q].key());
                } else {
                    assert(msf[p] == ms0[p] && msf[q] == m);
                }
            }
            lemma_board_benign_update(
                old(self).registries@,
                old(self).boards@,
                ms0,
                old(self).notes@,
                old(self).groups@,
                old(self).votes@,
                old(self).action_items@,
                old(self).verification_votes@,
                bix as int,
                self.boards@[bix as int],
            );
            let boards2 = self.boards@;
            assert forall|i: int| 0 <= i < msf.len() implies membership_ok(#[trigger] msf[i], boards2) by {
                if i < ms0.len() {
                    assert(membership_ok(ms0[i], boards2));
                } else {
                    assert(boards2[bix as int].id() == id);
                }
            }
        }
    }
}

} // verus!
