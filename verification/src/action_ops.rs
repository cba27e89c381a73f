//! The action-item verification subsystem: post-closure items with an
//! owner, a verifier set and an approval threshold. Each verifier votes at
//! most once; the vote that reaches the threshold completes the item,
//! increments the owner's score, and no later vote is accepted.

use vstd::prelude::*;

use crate::constants::{MAX_ACTION_DESCRIPTION_CHARS, MAX_VERIFIERS};
use crate::error::RetroError;
use crate::keyed::{
    contains_u64, distinct_u64s, elem_mut, find_in, has_duplicate_u64, lemma_find_by_key_props,
    Keyed,
};
use crate::ledger::{
    action_item_ok, lemma_board_benign_update, membership_ok, vvote_ok, Ledger,
};
use crate::session_keys::Authority;
use crate::state::{
    ActionItem, ActionStatus, BoardId, BoardMembership, RetroBoard, VerificationVote,
};
use crate::tally::{
    approval_contrib, approval_count, lemma_approval_count_push, lemma_approval_count_zero,
};

verus! {

/// Whether every named verifier is on the allow-list.
fn all_on_allowlist(verifiers: &Vec<u64>, allowlist: &Vec<u64>) -> (r: bool)
    ensures
        r == (forall|i: int|
            0 <= i < verifiers@.len() ==> allowlist@.contains(#[trigger] verifiers@[i])),
{
    let mut i: usize = 0;
    while i < verifiers.len()
        invariant
            0 <= i <= verifiers@.len(),
            forall|j: int| 0 <= j < i ==> allowlist@.contains(#[trigger] verifiers@[j]),
        decreases verifiers@.len() - i,
    {
        if !contains_u64(allowlist, verifiers[i]) {
            return false;
        }
        i += 1;
    }
    true
}

impl Ledger {
    /// Validation cascade for `create_action_item`: board present,
    /// facilitator only, board closed; the description bounded; the
    /// verifier set bounded, duplicate-free, excluding the owner, with a
    /// threshold inside it; owner and verifiers allow-listed; and the
    /// item counter not exhausted.
    pub open spec fn spec_create_action_item_check(
        self,
        auth: Authority,
        id: BoardId,
        description: Seq<char>,
        owner: u64,
        verifiers: Seq<u64>,
        threshold: u8,
        now: i64,
    ) -> Result<(), RetroError> {
        match self.tokens.spec_resolve(auth, self.service_id, now) {
            Err(e) => Err(RetroError::Session(e)),
            Ok(principal) => match self.spec_board_ix(id) {
                None => Err(RetroError::AccountNotInitialized),
                Some(i) => {
                    let b = self.boards@[i];
                    if b.facilitator != principal {
                        Err(RetroError::UnauthorizedFacilitator)
                    } else if !b.closed {
                        Err(RetroError::BoardNotClosed)
                    } else if description.len() > MAX_ACTION_DESCRIPTION_CHARS {
                        Err(RetroError::DescriptionTooLong)
                    } else if verifiers.len() > MAX_VERIFIERS {
                        Err(RetroError::TooManyVerifiers)
                    } else if threshold == 0 || threshold > verifiers.len() {
                        Err(RetroError::InvalidThreshold)
                    } else if !distinct_u64s(verifiers) {
                        Err(RetroError::DuplicateVerifier)
                    } else if verifiers.contains(owner) {
                        Err(RetroError::SelfVerificationForbidden)
                    } else if !b.allowlist@.contains(owner) {
                        Err(RetroError::NotOnAllowlist)
                    } else if !(forall|k: int|
                        0 <= k < verifiers.len() ==> b.allowlist@.contains(
                            #[trigger] verifiers[k],
                        )) {
                        Err(RetroError::NotOnAllowlist)
                    } else if b.action_item_count == u64::MAX {
                        Err(RetroError::CounterOverflow)
                    } else {
                        Ok(())
                    }
                },
            },
        }
    }

    /// Creates a pending action item at the board's next sequential id and
    /// bumps the item counter. Returns the item's id.
    pub fn create_action_item(
        &mut self,
        auth: &Authority,
        id: BoardId,
        description: String,
        owner: u64,
        verifiers: Vec<u64>,
        threshold: u8,
        now: i64,
    ) -> (r: Result<u64, RetroError>)
        requires
            old(self).wf(),
        ensures
            final(self).wf(),
            (match r {
                Ok(_) => old(self).spec_create_action_item_check(
                    *auth,
                    id,
                    description@,
                    owner,
                    verifiers@,
                    threshold,
                    now,
                ) is Ok,
                Err(e) => old(self).spec_create_action_item_check(
                    *auth,
                    id,
                    description@,
                    owner,
                    verifiers@,
                    threshold,
                    now,
                ) == Err::<(), RetroError>(e),
            }),
            r is Err ==> *final(self) == *old(self),
            r matches Ok(aid) ==> ({
                let bix = old(self).spec_board_ix(id)->Some_0;
                let b0 = old(self).boards@[bix];
                &&& aid == b0.action_item_count
                &&& final(self).action_items@ == old(self).action_items@.push(
                    (ActionItem {
                        board: id,
                        item_id: b0.action_item_count,
                        description,
                        owner,
                        verifiers,
                        threshold,
                        approvals: 0,
                        status: ActionStatus::Pending,
                        created_at: now,
                    }),
                )
                &&& final(self).boards@ == old(self).boards@.update(
                    bix,
                    (RetroBoard {
                        action_item_count: (b0.action_item_count + 1) as u64,
                        ..b0
                    }),
                )
                &&& final(self).registries@ == old(self).registries@
                &&& final(self).memberships@ == old(self).memberships@
                &&& final(self).notes@ == old(self).notes@
                &&& final(self).groups@ == old(self).groups@
                &&& final(self).votes@ == old(self).votes@
                &&& final(self).verification_votes@ == old(self).verification_votes@
                &&& final(self).tokens == old(self).tokens
                &&& final(self).service_id == old(self).service_id
            }),
    {
        let principal = match self.tokens.resolve_and_authorize(auth, self.service_id, now) {
            Ok(p) => p,
            Err(e) => {
                return Err(RetroError::Session(e));
            },
        };
        let bix = match find_in(&self.boards, (id.facilitator, id.board_index, 0, 0)) {
            Some(i) => i,
            None => {
                return Err(RetroError::AccountNotInitialized);
            },
        };
        proof {
            lemma_find_by_key_props(self.boards@, (id.facilitator, id.board_index, 0, 0));
        }
        if self.boards[bix].facilitator != principal {
            return Err(RetroError::UnauthorizedFacilitator);
        }
        if !self.boards[bix].closed {
            return Err(RetroError::BoardNotClosed);
        }
        if description.as_str().unicode_len() > MAX_ACTION_DESCRIPTION_CHARS {
            return Err(RetroError::DescriptionTooLong);
        }
        if verifiers.len() > MAX_VERIFIERS {
            return Err(RetroError::TooManyVerifiers);
        }
        if threshold == 0 || (threshold as usize) > verifiers.len() {
            return Err(RetroError::InvalidThreshold);
        }
        if has_duplicate_u64(&verifiers) {
            return Err(RetroError::DuplicateVerifier);
        }
        if contains_u64(&verifiers, owner) {
            return Err(RetroError::SelfVerificationForbidden);
        }
        if !contains_u64(&self.boards[bix].allowlist, owner) {
            return Err(RetroError::NotOnAllowlist);
        }
        if !all_on_allowlist(&verifiers, &self.boards[bix].allowlist) {
            return Err(RetroError::NotOnAllowlist);
        }
        let aid = self.boards[bix].action_item_count;
        let new_count = match aid.checked_add(1) {
            Some(c) => c,
            None => {
                return Err(RetroError::CounterOverflow);
            },
        };
        let item = ActionItem {
            board: id,
            item_id: aid,
            description,
            owner,
            verifiers,
            threshold,
            approvals: 0,
            status: ActionStatus::Pending,
            created_at: now,
        };
        let ghost aval = item;
        self.action_items.push(item);
        let b = elem_mut(&mut self.boards, bix);
        b.action_item_count = new_count;
        proof {
            let boards0 = old(self).boards@;
            let items0 = old(self).action_items@;
            let vvs0 = old(self).verification_votes@;
            let boards2 = self.boards@;
            lemma_board_benign_update(
                old(self).registries@,
                boards0,
                old(self).memberships@,
                old(self).notes@,
                old(self).groups@,
                old(self).votes@,
                items0,
                vvs0,
                bix as int,
                boards2[bix as int],
            );
            // The fresh item key: items of this board sit below the old
            // counter; items of other boards differ in the board words.
            assert forall|i: int|
                0 <= i < items0.len() implies (#[trigger] items0[i]).key() != aval.key() by {
                assert(action_item_ok(items0[i], boards0));
                let j = choose|j: int|
                    0 <= j < boards0.len() && (#[trigger] boards0[j]).id() == items0[i].board
                        && items0[i].item_id < boards0[j].action_item_count && boards0[j].closed;
                if items0[i].board == id {
                    if j != bix as int {
                        assert(boards0[j].key() == boards0[bix as int].key());
                        assert(false);
                    }
                    assert(items0[i].item_id < aid);
                }
            }
            let itf = self.action_items@;
            assert forall|p: int, q: int|
                0 <= p < q < itf.len() implies (#[trigger] itf[p]).key() != (
            #[trigger] itf[q]).key() by {
                if q < items0.len() {
                    assert(items0[p].key() != items0[q].key());
                } else {
                    assert(itf[p] == items0[p] && itf[q] == aval);
                }
            }
            assert forall|i: int| 0 <= i < itf.len() implies action_item_ok(#[trigger] itf[i], boards2) by {
                if i < items0.len() {
                    assert(action_item_ok(items0[i], boards2));
                } else {
                    assert(boards2[bix as int].id() == id && boards2[bix as int].closed);
                }
            }
            // No stored verification vote can reference the fresh item, so
            // its approval counter starts at zero.
            assert forall|i: int|
                0 <= i < vvs0.len() implies approval_contrib(#[trigger] vvs0[i], id, aid) == 0 by {
                assert(vvote_ok(vvs0[i], boards0));
                let j = choose|j: int|
                    0 <= j < boards0.len() && (#[trigger] boards0[j]).id() == vvs0[i].board
                        && vvs0[i].item_id < boards0[j].action_item_count;
                if vvs0[i].board == id {
                    if j != bix as int {
                        assert(boards0[j].key() == boards0[bix as int].key());
                        assert(false);
                    }
                    assert(vvs0[i].item_id < aid);
                }
            }
            lemma_approval_count_zero(vvs0, id, aid);
            assert forall|i: int|
                0 <= i < itf.len() implies (#[trigger] itf[i]).approvals == approval_count(
                vvs0,
                itf[i].board,
                itf[i].item_id,
            ) by {
                if i < items0.len() {
                    assert(items0[i].approvals == approval_count(
                        vvs0,
                        items0[i].board,
                        items0[i].item_id,
                    ));
                }
            }
        }
        Ok(aid)
    }

    /// Validation cascade for `cast_verification_vote`: board present and
    /// closed; the item present and still pending; the caller one of its
    /// designated verifiers; the caller not yet voted; and, where this
    /// vote would complete the item, the owner's score not exhausted.
    pub open spec fn spec_cast_verification_vote_check(
        self,
        auth: Authority,
        id: BoardId,
        item_id: u64,
        approved: bool,
        now: i64,
    ) -> Result<(), RetroError> {
        match self.tokens.spec_resolve(auth, self.service_id, now) {
            Err(e) => Err(RetroError::Session(e)),
            Ok(verifier) => match self.spec_board_ix(id) {
                None => Err(RetroError::AccountNotInitialized),
                Some(i) => {
                    let b = self.boards@[i];
                    if !b.closed {
                        Err(RetroError::BoardNotClosed)
                    } else {
                        match self.spec_action_item_ix(id, item_id) {
                            None => Err(RetroError::AccountNotInitialized),
                            Some(ai) => {
                                let a = self.action_items@[ai];
                                if a.status != ActionStatus::Pending {
                                    Err(RetroError::ItemNotPending)
                                } else if !a.verifiers@.contains(verifier) {
                                    Err(RetroError::NotAVerifier)
                                } else if self.has_verification_vote(id, item_id, verifier) {
                                    Err(RetroError::DuplicateVerificationVote)
                                } else if approved && a.approvals + 1 >= a.threshold && (
                                match self.spec_membership_ix(id, a.owner) {
                                    Some(mi) => self.memberships@[mi].score == u64::MAX,
                                    None => false,
                                }) {
                                    Err(RetroError::CounterOverflow)
                                } else {
                                    Ok(())
                                }
                            },
                        }
                    }
                },
            },
        }
    }

    /// Records one immutable verification vote. An approval raises the
    /// item's counter; the approval that reaches the threshold completes
    /// the item for good and increments the owner's score.
    pub fn cast_verification_vote(
        &mut self,
        auth: &Authority,
        id: BoardId,
        item_id: u64,
        approved: bool,
        now: i64,
    ) -> (r: Result<(), RetroError>)
        requires
            old(self).wf(),
        ensures
            final(self).wf(),
            r == old(self).spec_cast_verification_vote_check(*auth, id, item_id, approved, now),
            r is Err ==> *final(self) == *old(self),
            r is Ok ==> ({
                let verifier = auth.principal();
                let aix = old(self).spec_action_item_ix(id, item_id)->Some_0;
                let a0 = old(self).action_items@[aix];
                let completed = approved && a0.approvals + 1 >= a0.threshold;
                &&& final(self).verification_votes@ == old(self).verification_votes@.push(
                    (VerificationVote { board: id, item_id, verifier, approved, voted_at: now }),
                )
                &&& (if approved {
                    final(self).action_items@ == old(self).action_items@.update(
                        aix,
                        (ActionItem {
                            approvals: (a0.approvals + 1) as u8,
                            status: (if a0.approvals + 1 >= a0.threshold {
                                ActionStatus::Completed
                            } else {
                                ActionStatus::Pending
                            }),
                            ..a0
                        }),
                    )
                } else {
                    final(self).action_items@ == old(self).action_items@
                })
                &&& (if completed {
                    match old(self).spec_membership_ix(id, a0.owner) {
                        Some(mi) => final(self).memberships@ == old(self).memberships@.update(
                            mi,
                            (BoardMembership {
                                score: (old(self).memberships@[mi].score + 1) as u64,
                                ..old(self).memberships@[mi]
                            }),
                        ),
                        None => final(self).memberships@ == old(self).memberships@.push(
                            (BoardMembership {
                                board: id,
                                participant: a0.owner,
                                notes_submitted: 0,
                                credits_spent: 0,
                                score: 1,
                            }),
                        ),
                    }
                } else {
                    final(self).memberships@ == old(self).memberships@
                })
                &&& final(self).boards@ == old(self).boards@
                &&& final(self).registries@ == old(self).registries@
                &&& final(self).notes@ == old(self).notes@
                &&& final(self).groups@ == old(self).groups@
                &&& final(self).votes@ == old(self).votes@
                &&& final(self).tokens == old(self).tokens
                &&& final(self).service_id == old(self).service_id
            }),
    {
        let verifier = match self.tokens.resolve_and_authorize(auth, self.service_id, now) {
            Ok(p) => p,
            Err(e) => {
                return Err(RetroError::Session(e));
            },
        };
        let bix = match find_in(&self.boards, (id.facilitator, id.board_index, 0, 0)) {
            Some(i) => i,
            None => {
                return Err(RetroError::AccountNotInitialized);
            },
        };
        proof {
            lemma_find_by_key_props(self.boards@, (id.facilitator, id.board_index, 0, 0));
        }
        if !self.boards[bix].closed {
            return Err(RetroError::BoardNotClosed);
        }
        let aix = match find_in(&self.action_items, (id.facilitator, id.board_index, item_id, 0)) {
            Some(i) => i,
            None => {
                return Err(RetroError::AccountNotInitialized);
            },
        };
        proof {
            lemma_find_by_key_props(
                self.action_items@,
                (id.facilitator, id.board_index, item_id, 0),
            );
        }
        match self.action_items[aix].status {
            ActionStatus::Pending => {},
            ActionStatus::Completed => {
                return Err(RetroError::ItemNotPending);
            },
        }
        if !contains_u64(&self.action_items[aix].verifiers, verifier) {
            return Err(RetroError::NotAVerifier);
        }
        proof {
            lemma_find_by_key_props(
                self.verification_votes@,
                (id.facilitator, id.board_index, item_id, verifier),
            );
        }
        match find_in(
            &self.verification_votes,
            (id.facilitator, id.board_index, item_id, verifier),
        ) {
            Some(_) => {
                return Err(RetroError::DuplicateVerificationVote);
            },
            None => {},
        }
        let owner = self.action_items[aix].owner;
        let approvals = self.action_items[aix].approvals;
        let threshold = self.action_items[aix].threshold;
        proof {
            assert(action_item_ok(old(self).action_items@[aix as int], old(self).boards@));
        }
        let completing = approved && approvals + 1 >= threshold;
        let mix_opt = find_in(&self.memberships, (id.facilitator, id.board_index, owner, 0));
        proof {
            lemma_find_by_key_props(self.memberships@, (id.facilitator, id.board_index, owner, 0));
        }
        if completing {
            match mix_opt {
                Some(mi) => {
                    if self.memberships[mi].score == u64::MAX {
                        return Err(RetroError::CounterOverflow);
                    }
                },
                None => {},
            }
        }

        // All checks passed; record the vote and apply its effect.
        let vv = VerificationVote { board: id, item_id, verifier, approved, voted_at: now };
        self.verification_votes.push(vv);
        if approved {
            let a = elem_mut(&mut self.action_items, aix);
            a.approvals = approvals + 1;
            if completing {
                a.status = ActionStatus::Completed;
            }
        }
        if completing {
            match mix_opt {
                Some(mi) => {
                    let score = self.memberships[mi].score;
                    let m = elem_mut(&mut self.memberships, mi);
                    m.score = score + 1;
                },
                None => {
                    self.memberships.push(
                        BoardMembership {
                            board: id,
                            participant: owner,
                            notes_submitted: 0,
                            credits_spent: 0,
                            score: 1,
                        },
                    );
                },
            }
        }

        proof {
            let boards0 = old(self).boards@;
            let ms0 = old(self).memberships@;
            let items0 = old(self).action_items@;
            let vvs0 = old(self).verification_votes@;
            let msf = self.memberships@;
            let itf = self.action_items@;
            let vvf = self.verification_votes@;

            // The new verification vote has a fresh key and references an
            // existing item below the board's counter.
            assert forall|p: int, q: int|
                0 <= p < q < vvf.len() implies (#[trigger] vvf[p]).key() != (
            #[trigger] vvf[q]).key() by {
                if q < vvs0.len() {
                    assert(vvs0[p].key() != vvs0[q].key());
                } else {
                    assert(vvf[p] == vvs0[p] && vvf[q] == vv);
                }
            }
            assert(action_item_ok(items0[aix as int], boards0));
            let jw = choose|j: int|
                0 <= j < boards0.len() && (#[trigger] boards0[j]).id() == items0[aix as int].board
                    && items0[aix as int].item_id < boards0[j].action_item_count
                    && boards0[j].closed;
            if jw != bix as int {
                assert(boards0[jw].key() == boards0[bix as int].key());
                assert(false);
            }
            assert forall|i: int| 0 <= i < vvf.len() implies vvote_ok(#[trigger] vvf[i], boards0) by {
                if i < vvs0.len() {
                    assert(vvf[i] == vvs0[i]);
                    assert(vvote_ok(vvs0[i], boards0));
                } else {
                    assert(boards0[bix as int].id() == id && item_id
                        < boards0[bix as int].action_item_count);
                }
            }

            // The item update keeps its key; its status tracks the
            // threshold exactly.
            assert forall|p: int, q: int|
                0 <= p < q < itf.len() implies (#[trigger] itf[p]).key() != (
            #[trigger] itf[q]).key() by {
                assert(items0[p].key() != items0[q].key());
            }
            assert forall|i: int| 0 <= i < itf.len() implies action_item_ok(#[trigger] itf[i], boards0) by {
                assert(action_item_ok(items0[i], boards0));
                if approved && i == aix as int {
                    let j = choose|j: int|
                        0 <= j < boards0.len() && (#[trigger] boards0[j]).id() == items0[i].board
                            && items0[i].item_id < boards0[j].action_item_count
                            && boards0[j].closed;
                    assert(boards0[j].id() == itf[i].board && itf[i].item_id
                        < boards0[j].action_item_count && boards0[j].closed);
                }
            }

            // Approval counters: the voted item gains the vote's
            // contribution; every other item's counter is untouched.
            assert forall|i: int|
                0 <= i < itf.len() implies (#[trigger] itf[i]).approvals == approval_count(
                vvf,
                itf[i].board,
                itf[i].item_id,
            ) by {
                let beta = itf[i].board;
                let gamma = itf[i].item_id;
                assert(items0[i].approvals == approval_count(
                    vvs0,
                    items0[i].board,
                    items0[i].item_id,
                ));
                lemma_approval_count_push(vvs0, vv, beta, gamma);
                if i != aix as int && beta == id && gamma == item_id {
                    assert(items0[i].key() == items0[aix as int].key());
                    assert(false);
                }
            }

            // The owner's membership: score raised or freshly created.
            assert forall|p: int, q: int|
                0 <= p < q < msf.len() implies (#[trigger] msf[p]).key() != (
            #[trigger] msf[q]).key() by {
                if q < ms0.len() {
                    assert(ms0[p].key() != ms0[q].key());
                } else {
                    assert(msf[p] == ms0[p]);
                }
            }
            assert forall|i: int| 0 <= i < msf.len() implies membership_ok(#[trigger] msf[i], boards0) by {
                if i < ms0.len() {
                    assert(membership_ok(ms0[i], boards0));
                    if msf[i] != ms0[i] {
                        let j = choose|j: int|
                            0 <= j < boards0.len() && (#[trigger] boards0[j]).id() == ms0[i].board
                                && ms0[i].credits_spent
                                <= boards0[j].voting_credits_per_participant
                                && ms0[i].notes_submitted
                                <= boards0[j].max_notes_per_participant;
                        assert(boards0[j].id() == msf[i].board && msf[i].credits_spent
                            <= boards0[j].voting_credits_per_participant && msf[i].notes_submitted
                            <= boards0[j].max_notes_per_participant);
                    }
                } else {
                    assert(boards0[bix as int].id() == id);
                }
            }
        }
        Ok(())
    }
}

} // verus!
