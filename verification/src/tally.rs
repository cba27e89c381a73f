//! The two running sums the ledger keeps consistent: a group's vote tally
//! against the vote records that reference it, and an action item's
//! approval counter against its verification votes.

use vstd::prelude::*;

use crate::state::{BoardId, VerificationVote, VoteRecord};

verus! {

/// The credits a single vote record contributes to a group's tally.
pub open spec fn vote_contrib(v: VoteRecord, board: BoardId, group_id: u64) -> int {
    if v.board == board && v.group_id == group_id {
        v.credits_spent as int
    } else {
        0
    }
}

/// The sum of `credits_spent` across all vote records referencing the
/// group.
pub open spec fn group_tally(votes: Seq<VoteRecord>, board: BoardId, group_id: u64) -> int
    decreases votes.len(),
{
    if votes.len() == 0 {
        0
    } else {
        group_tally(votes.drop_last(), board, group_id) + vote_contrib(
            votes.last(),
            board,
            group_id,
        )
    }
}

/// Appending a vote record adds exactly its contribution to each tally.
pub proof fn lemma_group_tally_push(votes: Seq<VoteRecord>, v: VoteRecord, board: BoardId, group_id: u64)
    ensures
        group_tally(votes.push(v), board, group_id) == group_tally(votes, board, group_id)
            + vote_contrib(v, board, group_id),
{
    assert(votes.push(v).drop_last() =~= votes);
    assert(votes.push(v).last() == v);
}

/// Raising one vote record's spend, keys unchanged, moves each tally by
/// exactly the difference on the record's own group and leaves every other
/// tally alone.
pub proof fn lemma_group_tally_update(
    votes: Seq<VoteRecord>,
    i: int,
    v: VoteRecord,
    board: BoardId,
    group_id: u64,
)
    requires
        0 <= i < votes.len(),
        v.board == votes[i].board,
        v.group_id == votes[i].group_id,
    ensures
        group_tally(votes.update(i, v), board, group_id) == group_tally(votes, board, group_id)
            + vote_contrib(v, board, group_id) - vote_contrib(votes[i], board, group_id),
    decreases votes.len(),
{
    if i == votes.len() - 1 {
        assert(votes.update(i, v).drop_last() =~= votes.drop_last());
        assert(votes.update(i, v).last() == v);
    } else {
        lemma_group_tally_update(votes.drop_last(), i, v, board, group_id);
        assert(votes.update(i, v).drop_last() =~= votes.drop_last().update(i, v));
        assert(votes.update(i, v).last() == votes.last());
    }
}

/// A tally over vote records none of which reference the group is zero.
pub proof fn lemma_group_tally_zero(votes: Seq<VoteRecord>, board: BoardId, group_id: u64)
    requires
        forall|i: int| 0 <= i < votes.len() ==> vote_contrib(#[trigger] votes[i], board, group_id) == 0,
    ensures
        group_tally(votes, board, group_id) == 0,
    decreases votes.len(),
{
    if votes.len() > 0 {
        lemma_group_tally_zero(votes.drop_last(), board, group_id);
    }
}

/// What a single verification vote contributes to an approval counter.
pub open spec fn approval_contrib(v: VerificationVote, board: BoardId, item_id: u64) -> int {
    if v.board == board && v.item_id == item_id && v.approved {
        1
    } else {
        0
    }
}

/// The number of approving verification votes referencing the action item.
pub open spec fn approval_count(votes: Seq<VerificationVote>, board: BoardId, item_id: u64) -> int
    decreases votes.len(),
{
    if votes.len() == 0 {
        0
    } else {
        approval_count(votes.drop_last(), board, item_id) + approval_contrib(
            votes.last(),
            board,
            item_id,
        )
    }
}

/// A count over verification votes none of which reference the item is
/// zero.
pub proof fn lemma_approval_count_zero(votes: Seq<VerificationVote>, board: BoardId, item_id: u64)
    requires
        forall|i: int|
            0 <= i < votes.len() ==> approval_contrib(#[trigger] votes[i], board, item_id) == 0,
    ensures
        approval_count(votes, board, item_id) == 0,
    decreases votes.len(),
{
    if votes.len() > 0 {
        lemma_approval_count_zero(votes.drop_last(), board, item_id);
    }
}

/// Appending a verification vote adds exactly its contribution to each
/// approval counter.
pub proof fn lemma_approval_count_push(
    votes: Seq<VerificationVote>,
    v: VerificationVote,
    board: BoardId,
    item_id: u64,
)
    ensures
        approval_count(votes.push(v), board, item_id) == approval_count(votes, board, item_id)
            + approval_contrib(v, board, item_id),
{
    assert(votes.push(v).drop_last() =~= votes);
    assert(votes.push(v).last() == v);
}

} // verus!
