//! Registry and board lifecycle: creating a facilitator registry, creating
//! a board from it, advancing the stage machine, and closing the board.

use vstd::prelude::*;

use crate::constants::{
    MAX_CATEGORIES, MAX_CATEGORY_NAME_LEN, MAX_NOTES_PER_PARTICIPANT, MAX_PARTICIPANTS,
    VOTING_CREDITS_DEFAULT,
};
use crate::error::RetroError;
use crate::keyed::{
    distinct_u64s, elem_mut, find_in, has_duplicate_u64, lemma_find_by_key_props, Keyed,
};
use crate::ledger::{
    board_ok, lemma_board_benign_update, lemma_board_push, lemma_registry_count_bump,
    lemma_registry_push, membership_ok, Ledger,
};
use crate::session_keys::Authority;
use crate::state::{BoardId, BoardMembership, BoardStage, FacilitatorRegistry, RetroBoard};

verus! {

/// What a facilitator asks for when creating a board.
pub struct SessionConfig {
    pub categories: Vec<String>,
    pub allowlist: Vec<u64>,
    pub max_notes_per_participant: Option<u8>,
    pub voting_credits_per_participant: Option<u8>,
    pub open_join: bool,
}

/// The board a successful creation stores: stage `Setup`, open, all
/// counters zero, defaults filled in for unspecified budgets.
pub open spec fn spec_new_board(
    principal: u64,
    board_index: u64,
    config: SessionConfig,
    now: i64,
) -> RetroBoard {
    RetroBoard {
        facilitator: principal,
        board_index,
        stage: BoardStage::Setup,
        closed: false,
        categories: config.categories,
        allowlist: config.allowlist,
        open_join: config.open_join,
        voting_credits_per_participant: (match config.voting_credits_per_participant {
            Some(c) => c,
            None => VOTING_CREDITS_DEFAULT,
        }),
        max_notes_per_participant: (match config.max_notes_per_participant {
            Some(c) => c,
            None => MAX_NOTES_PER_PARTICIPANT,
        }),
        participant_count: config.allowlist@.len() as u32,
        note_count: 0,
        group_count: 0,
        action_item_count: 0,
        created_at: now,
        stage_changed_at: now,
    }
}

/// Whether every category name stays within the character cap.
fn categories_within(cats: &Vec<String>) -> (r: bool)
    ensures
        r == (forall|i: int|
            0 <= i < cats@.len() ==> (#[trigger] cats@[i])@.len() <= MAX_CATEGORY_NAME_LEN),
{
    let mut i: usize = 0;
    while i < cats.len()
        invariant
            0 <= i <= cats@.len(),
            forall|j: int| 0 <= j < i ==> (#[trigger] cats@[j])@.len() <= MAX_CATEGORY_NAME_LEN,
        decreases cats@.len() - i,
    {
        if cats[i].as_str().unicode_len() > MAX_CATEGORY_NAME_LEN {
            return false;
        }
        i += 1;
    }
    true
}

impl Ledger {
    /// Validation cascade for `init_team_registry`: the caller must resolve
    /// to a principal, and no registry may exist for it yet.
    pub open spec fn spec_init_team_registry_check(self, auth: Authority, now: i64) -> Result<
        (),
        RetroError,
    > {
        match self.tokens.spec_resolve(auth, self.service_id, now) {
            Err(e) => Err(RetroError::Session(e)),
            Ok(principal) => if self.has_registry(principal) {
                Err(RetroError::AccountAlreadyInitialized)
            } else {
                Ok(())
            },
        }
    }

    /// Creates the caller's registry with its board counter at zero. The
    /// call is not idempotent: a second call fails.
    pub fn init_team_registry(&mut self, auth: &Authority, now: i64) -> (r: Result<
        (),
        RetroError,
    >)
        requires
            old(self).wf(),
        ensures
            final(self).wf(),
            r == old(self).spec_init_team_registry_check(*auth, now),
            r is Err ==> *final(self) == *old(self),
            r is Ok ==> final(self).registries@ == old(self).registries@.push(
                (FacilitatorRegistry { facilitator: auth.principal(), board_count: 0 }),
            ),
            r is Ok ==> final(self).boards@ == old(self).boards@
                && final(self).memberships@ == old(self).memberships@
                && final(self).notes@ == old(self).notes@
                && final(self).groups@ == old(self).groups@
                && final(self).votes@ == old(self).votes@
                && final(self).action_items@ == old(self).action_items@
                && final(self).verification_votes@ == old(self).verification_votes@
                && final(self).tokens == old(self).tokens
                && final(self).service_id == old(self).service_id,
    {
        let principal = match self.tokens.resolve_and_authorize(auth, self.service_id, now) {
            Ok(p) => p,
            Err(e) => {
                return Err(RetroError::Session(e));
            },
        };
        proof {
            lemma_find_by_key_props(self.registries@, (principal, 0, 0, 0));
        }
        match find_in(&self.registries, (principal, 0, 0, 0)) {
            Some(_) => Err(RetroError::AccountAlreadyInitialized),
            None => {
                let reg = FacilitatorRegistry { facilitator: principal, board_count: 0 };
                self.registries.push(reg);
                proof {
                    lemma_registry_push(old(self).registries@, old(self).boards@, reg);
                }
                Ok(())
            },
        }
    }

    /// Validation cascade for `create_session`: categories must be present,
    /// few enough and short enough; the allow-list capped and free of
    /// duplicates; the caller's registry must exist and its counter must
    /// not be exhausted.
    pub open spec fn spec_create_session_check(
        self,
        auth: Authority,
        config: SessionConfig,
        now: i64,
    ) -> Result<(), RetroError> {
        match self.tokens.spec_resolve(auth, self.service_id, now) {
            Err(e) => Err(RetroError::Session(e)),
            Ok(principal) => if config.categories@.len() == 0 {
                Err(RetroError::NoCategoriesSpecified)
            } else if config.categories@.len() > MAX_CATEGORIES {
                Err(RetroError::TooManyCategories)
            } else if !(forall|i: int|
                0 <= i < config.categories@.len() ==> (#[trigger] config.categories@[i])@.len()
                    <= MAX_CATEGORY_NAME_LEN) {
                Err(RetroError::CategoryNameTooLong)
            } else if config.allowlist@.len() > MAX_PARTICIPANTS {
                Err(RetroError::MaxParticipantsReached)
            } else if !distinct_u64s(config.allowlist@) {
                Err(RetroError::AccountAlreadyInitialized)
            } else {
                match self.spec_registry_ix(principal) {
                    None => Err(RetroError::AccountNotInitialized),
                    Some(rix) => if self.registries@[rix].board_count == u64::MAX {
                        Err(RetroError::CounterOverflow)
                    } else {
                        Ok(())
                    },
                }
            },
        }
    }

    /// Creates a board at the caller's next registry index, stores one
    /// membership per allow-listed participant, and bumps the registry
    /// counter. All of it commits together or not at all.
    pub fn create_session(&mut self, auth: &Authority, config: SessionConfig, now: i64) -> (r:
        Result<BoardId, RetroError>)
        requires
            old(self).wf(),
        ensures
            final(self).wf(),
            (match r {
                Ok(_) => old(self).spec_create_session_check(*auth, config, now) is Ok,
                Err(e) => old(self).spec_create_session_check(*auth, config, now) == Err::<
                    (),
                    RetroError,
                >(e),
            }),
            r is Err ==> *final(self) == *old(self),
            r matches Ok(id) ==> ({
                let principal = auth.principal();
                let rix = old(self).spec_registry_ix(principal)->Some_0;
                let bindex = old(self).registries@[rix].board_count;
                &&& id == (BoardId { facilitator: principal, board_index: bindex })
                &&& final(self).boards@ == old(self).boards@.push(
                    spec_new_board(principal, bindex, config, now),
                )
                &&& final(self).registries@ == old(self).registries@.update(
                    rix,
                    (FacilitatorRegistry {
                        facilitator: principal,
                        board_count: (bindex + 1) as u64,
                    }),
                )
                &&& final(self).memberships@.len() == old(self).memberships@.len()
                    + config.allowlist@.len()
                &&& (forall|i: int|
                    0 <= i < old(self).memberships@.len() ==> final(self).memberships@[i] == old(
                        self,
                    ).memberships@[i])
                &&& (forall|k: int|
                    0 <= k < config.allowlist@.len() ==> final(self).memberships@[old(
                        self,
                    ).memberships@.len() + k] == (BoardMembership {
                        board: id,
                        participant: config.allowlist@[k],
                        notes_submitted: 0,
                        credits_spent: 0,
                        score: 0,
                    }))
                &&& final(self).notes@ == old(self).notes@
                &&& final(self).groups@ == old(self).groups@
                &&& final(self).votes@ == old(self).votes@
                &&& final(self).action_items@ == old(self).action_items@
                &&& final(self).verification_votes@ == old(self).verification_votes@
                &&& final(self).tokens == old(self).tokens
                &&& final(self).service_id == old(self).service_id
            }),
    {
        let principal = match self.tokens.resolve_and_authorize(auth, self.service_id, now) {
            Ok(p) => p,
            Err(e) => {
                return Err(RetroError::Session(e));
            },
        };
        if config.categories.len() == 0 {
            return Err(RetroError::NoCategoriesSpecified);
        }
        if config.categories.len() > MAX_CATEGORIES {
            return Err(RetroError::TooManyCategories);
        }
        if !categories_within(&config.categories) {
            return Err(RetroError::CategoryNameTooLong);
        }
        if config.allowlist.len() > MAX_PARTICIPANTS as usize {
            return Err(RetroError::MaxParticipantsReached);
        }
        if has_duplicate_u64(&config.allowlist) {
            return Err(RetroError::AccountAlreadyInitialized);
        }
        proof {
            lemma_find_by_key_props(self.registries@, (principal, 0, 0, 0));
        }
        let rix = match find_in(&self.registries, (principal, 0, 0, 0)) {
            Some(i) => i,
            None => {
                return Err(RetroError::AccountNotInitialized);
            },
        };
        let bindex = self.registries[rix].board_count;
        let new_count = match bindex.checked_add(1) {
            Some(c) => c,
            None => {
                return Err(RetroError::CounterOverflow);
            },
        };
        let id = BoardId { facilitator: principal, board_index: bindex };

        let ghost ms0 = self.memberships@;
        let mut k: usize = 0;
        while k < config.allowlist.len()
            invariant
                0 <= k <= config.allowlist@.len(),
                self.memberships@.len() == ms0.len() + k,
                forall|i: int| 0 <= i < ms0.len() ==> self.memberships@[i] == ms0[i],
                forall|i: int|
                    ms0.len() <= i < self.memberships@.len() ==> self.memberships@[i] == (
                    BoardMembership {
                        board: id,
                        participant: config.allowlist@[i - ms0.len()],
                        notes_submitted: 0,
                        credits_spent: 0,
                        score: 0,
                    }),
                self.registries@ == old(self).registries@,
                self.boards@ == old(self).boards@,
                self.notes@ == old(self).notes@,
                self.groups@ == old(self).groups@,
                self.votes@ == old(self).votes@,
                self.action_items@ == old(self).action_items@,
                self.verification_votes@ == old(self).verification_votes@,
                self.tokens == old(self).tokens,
                self.service_id == old(self).service_id,
            decreases config.allowlist@.len() - k,
        {
            let m = BoardMembership {
                board: id,
                participant: config.allowlist[k],
                notes_submitted: 0,
                credits_spent: 0,
                score: 0,
            };
            self.memberships.push(m);
            k += 1;
        }

        let board = RetroBoard {
            facilitator: principal,
            board_index: bindex,
            stage: BoardStage::Setup,
            closed: false,
            voting_credits_per_participant: (match config.voting_credits_per_participant {
                Some(c) => c,
                None => VOTING_CREDITS_DEFAULT,
            }),
            max_notes_per_participant: (match config.max_notes_per_participant {
                Some(c) => c,
                None => MAX_NOTES_PER_PARTICIPANT,
            }),
            open_join: config.open_join,
            participant_count: config.allowlist.len() as u32,
            note_count: 0,
            group_count: 0,
            action_item_count: 0,
            created_at: now,
            stage_changed_at: now,
            categories: config.categories,
            allowlist: config.allowlist,
        };
        let ghost bval = board;
        self.boards.push(board);
        self.registries.set(rix, FacilitatorRegistry { facilitator: principal, board_count: new_count });

        proof {
            let regs0 = old(self).registries@;
            let boards0 = old(self).boards@;
            let r2 = FacilitatorRegistry { facilitator: principal, board_count: new_count };
            let regs2 = regs0.update(rix as int, r2);
            let boards2 = boards0.push(bval);

            lemma_registry_count_bump(regs0, boards0, rix as int, r2);

            // No stored board occupies the new index: every board of this
            // facilitator sits below the registry counter.
            assert forall|i: int|
                0 <= i < boards0.len() implies (#[trigger] boards0[i]).key() != bval.key() by {
                assert(board_ok(boards0[i], regs0));
                if boards0[i].facilitator == principal {
                    let rw = choose|rw: int|
                        0 <= rw < regs0.len() && (#[trigger] regs0[rw]).facilitator
                            == boards0[i].facilitator && boards0[i].board_index
                            < regs0[rw].board_count;
                    if rw != rix as int {
                        assert(regs0[rw].key() == regs0[rix as int].key());
                        assert(false);
                    }
                    assert(boards0[i].board_index < bindex);
                }
            }
            assert(board_ok(bval, regs2)) by {
                assert(regs2[rix as int].facilitator == principal && bval.board_index
                    < regs2[rix as int].board_count);
            }
            lemma_board_push(
                regs2,
                boards0,
                old(self).memberships@,
                old(self).notes@,
                old(self).groups@,
                old(self).votes@,
                old(self).action_items@,
                old(self).verification_votes@,
                bval,
            );

            // The new memberships: fresh keys, linked to the new board.
            let msf = self.memberships@;
            assert forall|p: int, q: int|
                0 <= p < q < msf.len() implies (#[trigger] msf[p]).key() != (
            #[trigger] msf[q]).key() by {
                if q < ms0.len() {
                    assert(ms0[p].key() != ms0[q].key());
                } else if p < ms0.len() {
                    assert(membership_ok(ms0[p], boards0));
                    let j = choose|j: int|
                        0 <= j < boards0.len() && (#[trigger] boards0[j]).id() == ms0[p].board
                            && ms0[p].credits_spent <= boards0[j].voting_credits_per_participant
                            && ms0[p].notes_submitted <= boards0[j].max_notes_per_participant;
                    assert(boards0[j].key() != bval.key());
                    assert(ms0[p].board != id);
                }
            }
            assert forall|i: int| 0 <= i < msf.len() implies membership_ok(#[trigger] msf[i], boards2) by {
                if i < ms0.len() {
                    assert(membership_ok(ms0[i], boards2));
                } else {
                    assert(boards2[boards0.len() as int].id() == id);
                }
            }
        }
        Ok(id)
    }

    /// Validation cascade for `advance_stage`: the board must exist, the
    /// resolved caller must be its facilitator, the board must be open,
    /// and the transition must be the single legal forward step.
    pub open spec fn spec_advance_stage_check(
        self,
        auth: Authority,
        id: BoardId,
        new_stage: BoardStage,
        now: i64,
    ) -> Result<(), RetroError> {
        match self.tokens.spec_resolve(auth, self.service_id, now) {
            Err(e) => Err(RetroError::Session(e)),
            Ok(principal) => match self.spec_board_ix(id) {
                None => Err(RetroError::AccountNotInitialized),
                Some(i) => {
                    let b = self.boards@[i];
                    if b.facilitator != principal {
                        Err(RetroError::UnauthorizedFacilitator)
                    } else if b.closed {
                        Err(RetroError::BoardClosed)
                    } else if new_stage.ordinal() != b.stage.ordinal() + 1 {
                        Err(RetroError::InvalidStageTransition)
                    } else {
                        Ok(())
                    }
                },
            },
        }
    }

    /// Advances the board exactly one stage forward and stamps the
    /// transition time. Skipping and regressing are rejected.
    pub fn advance_stage(
        &mut self,
        auth: &Authority,
        id: BoardId,
        new_stage: BoardStage,
        now: i64,
    ) -> (r: Result<(), RetroError>)
        requires
            old(self).wf(),
        ensures
            final(self).wf(),
            r == old(self).spec_advance_stage_check(*auth, id, new_stage, now),
            r is Err ==> *final(self) == *old(self),
            r is Ok ==> final(self).boards@ == old(self).boards@.update(
                old(self).spec_board_ix(id)->Some_0,
                (RetroBoard { stage: new_stage, stage_changed_at: now, ..old(self).spec_board(id) }),
            ),
            r is Ok ==> new_stage.ordinal() == old(self).spec_board(id).stage.ordinal() + 1,
            r is Ok ==> final(self).registries@ == old(self).registries@
                && final(self).memberships@ == old(self).memberships@
                && final(self).notes@ == old(self).notes@
                && final(self).groups@ == old(self).groups@
                && final(self).votes@ == old(self).votes@
                && final(self).action_items@ == old(self).action_items@
                && final(self).verification_votes@ == old(self).verification_votes@
                && final(self).tokens == old(self).tokens
                && final(self).service_id == old(self).service_id,
    {
        let principal = match self.tokens.resolve_and_authorize(auth, self.service_id, now) {
            Ok(p) => p,
            Err(e) => {
                return Err(RetroError::Session(e));
            },
        };
        let bix = match find_in(&self.boards, (id.facilitator, id.board_index, 0, 0)) {
            Some(i) => i,
            None => {
                return Err(RetroError::AccountNotInitialized);
            },
        };
        proof {
            lemma_find_by_key_props(self.boards@, (id.facilitator, id.board_index, 0, 0));
        }
        if self.boards[bix].facilitator != principal {
            return Err(RetroError::UnauthorizedFacilitator);
        }
        if self.boards[bix].closed {
            return Err(RetroError::BoardClosed);
        }
        let current = self.boards[bix].stage;
        if !current.can_advance_to(new_stage) {
            return Err(RetroError::InvalidStageTransition);
        }
        let b = elem_mut(&mut self.boards, bix);
        b.stage = new_stage;
        b.stage_changed_at = now;
        proof {
            lemma_board_benign_update(
                old(self).registries@,
                old(self).boards@,
                old(self).memberships@,
                old(self).notes@,
                old(self).groups@,
                old(self).votes@,
                old(self).action_items@,
                old(self).verification_votes@,
                bix as int,
                self.boards@[bix as int],
            );
        }
        Ok(())
    }

    /// Validation cascade for `close_session`: the board must exist, the
    /// resolved caller must be its facilitator, the board must still be
    /// open, and the stage must be the final one.
    pub open spec fn spec_close_session_check(self, auth: Authority, id: BoardId, now: i64) -> Result<
        (),
        RetroError,
    > {
        match self.tokens.spec_resolve(auth, self.service_id, now) {
            Err(e) => Err(RetroError::Session(e)),
            Ok(principal) => match self.spec_board_ix(id) {
                None => Err(RetroError::AccountNotInitialized),
                Some(i) => {
                    let b = self.boards@[i];
                    if b.facilitator != principal {
                        Err(RetroError::UnauthorizedFacilitator)
                    } else if b.closed {
                        Err(RetroError::BoardClosed)
                    } else if b.stage != BoardStage::Discuss {
                        Err(RetroError::InvalidStage)
                    } else {
                        Ok(())
                    }
                },
            },
        }
    }

    /// Closes the board one-way; closure freezes notes, groups and votes
    /// and is the precondition for action items.
    pub fn close_session(&mut self, auth: &Authority, id: BoardId, now: i64) -> (r: Result<
        (),
        RetroError,
    >)
        requires
            old(self).wf(),
        ensures
            final(self).wf(),
            r == old(self).spec_close_session_check(*auth, id, now),
            r is Err ==> *final(self) == *old(self),
            r is Ok ==> final(self).boards@ == old(self).boards@.update(
                old(self).spec_board_ix(id)->Some_0,
                (RetroBoard { closed: true, ..old(self).spec_board(id) }),
            ),
            r is Ok ==> final(self).registries@ == old(self).registries@
                && final(self).memberships@ == old(self).memberships@
                && final(self).notes@ == old(self).notes@
                && final(self).groups@ == old(self).groups@
                && final(self).votes@ == old(self).votes@
                && final(self).action_items@ == old(self).action_items@
                && final(self).verification_votes@ == old(self).verification_votes@
                && final(self).tokens == old(self).tokens
                && final(self).service_id == old(self).service_id,
    {
        let principal = match self.tokens.resolve_and_authorize(auth, self.service_id, now) {
            Ok(p) => p,
            Err(e) => {
                return Err(RetroError::Session(e));
            },
        };
        let bix = match find_in(&self.boards, (id.facilitator, id.board_index, 0, 0)) {
            Some(i) => i,
            None => {
                return Err(RetroError::AccountNotInitialized);
            },
        };
        proof {
            lemma_find_by_key_props(self.boards@, (id.facilitator, id.board_index, 0, 0));
        }
        if self.boards[bix].facilitator != principal {
            return Err(RetroError::UnauthorizedFacilitator);
        }
        if self.boards[bix].closed {
            return Err(RetroError::BoardClosed);
        }
        match self.boards[bix].stage {
            BoardStage::Discuss => {},
            _ => {
                return Err(RetroError::InvalidStage);
            },
        }
        let b = elem_mut(&mut self.boards, bix);
        b.closed = true;
        proof {
            lemma_board_benign_update(
                old(self).registries@,
                old(self).boards@,
                old(self).memberships@,
                old(self).notes@,
                old(self).groups@,
                old(self).votes@,
                old(self).action_items@,
                old(self).verification_votes@,
                bix as int,
                self.boards@[bix as int],
            );
        }
        Ok(())
    }
}

} // verus!
