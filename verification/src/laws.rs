//! The system's standing guarantees, stated and proved once over the
//! ledger's invariant and the operations' contracts.

use vstd::prelude::*;

use crate::keyed::{lemma_find_by_key_props, Keyed};
use crate::ledger::{action_item_ok, board_key, membership_ok, Ledger};
use crate::session_keys::{Authority, SessionError, TokenStore};
use crate::state::{ActionStatus, BoardId, BoardStage};
use crate::tally::{approval_count, group_tally};

verus! {

/// A closed board is in the final stage; together with closure being
/// one-way and every mutating call rejecting a closed board, the stage
/// never changes after closure.
pub proof fn lemma_closed_board_in_final_stage(l: Ledger, bix: int)
    requires
        l.wf(),
        0 <= bix < l.boards@.len(),
        l.boards@[bix].closed,
    ensures
        l.boards@[bix].stage == BoardStage::Discuss,
{
}

/// A closed board rejects every stage advance: the validation cascade of
/// `advance_stage` can never reach its success arm.
pub proof fn lemma_closed_board_rejects_advance(
    l: Ledger,
    auth: Authority,
    id: BoardId,
    new_stage: BoardStage,
    now: i64,
)
    requires
        l.wf(),
        l.spec_board_ix(id) is Some,
        l.boards@[l.spec_board_ix(id)->Some_0].closed,
    ensures
        l.spec_advance_stage_check(auth, id, new_stage, now) is Err,
{
}

/// Every group's tally equals the sum of `credits_spent` across all vote
/// records referencing that group, at every observation point.
pub proof fn lemma_tally_is_sum_of_votes(l: Ledger, gix: int)
    requires
        l.wf(),
        0 <= gix < l.groups@.len(),
    ensures
        l.groups@[gix].vote_tally == group_tally(
            l.votes@,
            l.groups@[gix].board,
            l.groups@[gix].group_id,
        ),
{
}

/// No membership's spent credits ever exceed its board's per-participant
/// budget.
pub proof fn lemma_credits_within_budget(l: Ledger, mix: int)
    requires
        l.wf(),
        0 <= mix < l.memberships@.len(),
    ensures
        l.spec_board_ix(l.memberships@[mix].board) is Some,
        l.memberships@[mix].credits_spent <= l.spec_board(
            l.memberships@[mix].board,
        ).voting_credits_per_participant,
{
    let m = l.memberships@[mix];
    assert(membership_ok(m, l.boards@));
    let j = choose|j: int|
        0 <= j < l.boards@.len() && (#[trigger] l.boards@[j]).id() == m.board && m.credits_spent
            <= l.boards@[j].voting_credits_per_participant && m.notes_submitted
            <= l.boards@[j].max_notes_per_participant;
    assert(l.boards@[j].key() == board_key(m.board));
    lemma_find_by_key_props(l.boards@, board_key(m.board));
    let i = l.spec_board_ix(m.board)->Some_0;
    if i != j {
        assert(l.boards@[i].key() == l.boards@[j].key());
        assert(false);
    }
}

/// A note can only be assigned to a group while it has none: the
/// validation cascade of `assign_note_to_group` succeeds only on an
/// ungrouped note, so a second assignment needs an unassignment between.
pub proof fn lemma_assign_requires_ungrouped(
    l: Ledger,
    auth: Authority,
    id: BoardId,
    note_id: u64,
    group_id: u64,
    now: i64,
)
    requires
        l.spec_assign_note_to_group_check(auth, id, note_id, group_id, now) is Ok,
    ensures
        l.spec_note_ix(id, note_id) is Some,
        l.notes@[l.spec_note_ix(id, note_id)->Some_0].group_id is None,
{
}

/// A note can only be unassigned while it has a group: the validation
/// cascade of `unassign_note` rejects an already-unassigned note.
pub proof fn lemma_unassign_requires_grouped(
    l: Ledger,
    auth: Authority,
    id: BoardId,
    note_id: u64,
    now: i64,
)
    requires
        l.spec_unassign_note_check(auth, id, note_id, now) is Ok,
    ensures
        l.spec_note_ix(id, note_id) is Some,
        l.notes@[l.spec_note_ix(id, note_id)->Some_0].group_id is Some,
{
}

/// An action item is pending exactly while its approvals sit below its
/// threshold, and its approval counter always equals the number of
/// approving verification votes referencing it. So the call that first
/// reaches the threshold is the one that completes the item.
pub proof fn lemma_pending_iff_below_threshold(l: Ledger, aix: int)
    requires
        l.wf(),
        0 <= aix < l.action_items@.len(),
    ensures
        (l.action_items@[aix].status == ActionStatus::Pending <==> l.action_items@[aix].approvals
            < l.action_items@[aix].threshold),
        l.action_items@[aix].approvals == approval_count(
            l.verification_votes@,
            l.action_items@[aix].board,
            l.action_items@[aix].item_id,
        ),
{
    assert(action_item_ok(l.action_items@[aix], l.boards@));
}

/// A completed action item accepts no further verification votes: for a
/// directly resolved caller the cascade stops at `ItemNotPending`, and it
/// never reaches its success arm for any caller.
pub proof fn lemma_completed_item_rejects_vote(
    l: Ledger,
    auth: Authority,
    id: BoardId,
    item_id: u64,
    approved: bool,
    now: i64,
)
    requires
        l.wf(),
        l.spec_action_item_ix(id, item_id) is Some,
        l.action_items@[l.spec_action_item_ix(id, item_id)->Some_0].status
            == ActionStatus::Completed,
    ensures
        l.spec_cast_verification_vote_check(auth, id, item_id, approved, now) is Err,
        l.tokens.spec_resolve(auth, l.service_id, now) is Ok && l.spec_board_ix(id) is Some
            && l.boards@[l.spec_board_ix(id)->Some_0].closed
            ==> l.spec_cast_verification_vote_check(auth, id, item_id, approved, now) == Err::<
            (),
            crate::error::RetroError,
        >(crate::error::RetroError::ItemNotPending),
{
    lemma_find_by_key_props(l.action_items@, (id.facilitator, id.board_index, item_id, 0));
    let a = l.action_items@[l.spec_action_item_ix(id, item_id)->Some_0];
    assert(a.status != ActionStatus::Pending);
}

/// A token is usable through its expiry second and rejected from the
/// next second on.
pub proof fn lemma_token_expiry_boundary(
    store: TokenStore,
    session_signer: u64,
    authority: u64,
    target_program: u64,
    now: i64,
)
    requires
        store.spec_find_token(target_program, session_signer, authority) is Some,
    ensures
        ({
            let t = store.tokens@[store.spec_find_token(
                target_program,
                session_signer,
                authority,
            )->Some_0];
            &&& (t.valid_until >= now ==> store.spec_validate_session(
                session_signer,
                authority,
                target_program,
                now,
            ) is Ok)
            &&& (t.valid_until < now ==> store.spec_validate_session(
                session_signer,
                authority,
                target_program,
                now,
            ) == Err::<(), SessionError>(SessionError::SessionExpired))
        }),
{
}

/// Revoking a token makes every subsequent use fail, even before its
/// expiry: the store holds at most one token per scope, so removing the
/// found one leaves none.
pub proof fn lemma_revoked_token_unusable(
    pre: TokenStore,
    post: TokenStore,
    session_signer: u64,
    authority: u64,
    target_program: u64,
    now: i64,
)
    requires
        pre.wf(),
        pre.spec_find_token(target_program, session_signer, authority) is Some,
        post.tokens@ == pre.tokens@.remove(
            pre.spec_find_token(target_program, session_signer, authority)->Some_0,
        ),
    ensures
        post.spec_validate_session(session_signer, authority, target_program, now) == Err::<
            (),
            SessionError,
        >(SessionError::InvalidToken),
{
    let k = (target_program, session_signer, authority, 0u64);
    lemma_find_by_key_props(pre.tokens@, k);
    let i = pre.spec_find_token(target_program, session_signer, authority)->Some_0;
    pre.tokens@.remove_ensures(i);
    assert forall|j: int|
        0 <= j < post.tokens@.len() implies (#[trigger] post.tokens@[j]).key() != k by {
        assert(post.tokens@[j] == if j < i {
            pre.tokens@[j]
        } else {
            pre.tokens@[j + 1]
        });
    }
    lemma_find_by_key_props(post.tokens@, k);
    if post.spec_find_token(target_program, session_signer, authority) is Some {
        let w = post.spec_find_token(target_program, session_signer, authority)->Some_0;
        assert(post.tokens@[w].key() == k);
        assert(false);
    }
}

} // verus!
