//! The ledger: every record family in one keyed store, with the
//! cross-record invariants that every operation preserves.
//!
//! The invariants carry the system's core guarantees: keys are unique, so
//! each derived address holds at most one record; every child record's
//! board exists and the child's index lies below the board's counter;
//! spent credits never exceed the board's budget; every group's tally
//! equals the sum of the vote records referencing it; and every action
//! item's approval counter equals the number of approving verification
//! votes, with the item pending exactly while approvals are below the
//! threshold.

use vstd::prelude::*;

use crate::keyed::{contains_key, find_by_key, unique_keys, Keyed};
use crate::session_keys::TokenStore;
use crate::state::{
    ActionItem, BoardId, BoardMembership, FacilitatorRegistry, Group, Note, RetroBoard,
    VerificationVote, VoteRecord,
};
use crate::tally::{approval_count, group_tally};

verus! {

/// The derived storage key of a board identity.
pub open spec fn board_key(id: BoardId) -> (u64, u64, u64, u64) {
    (id.facilitator, id.board_index, 0, 0)
}

/// A stored board is well-formed and its index lies below its
/// facilitator's registry counter.
pub open spec fn board_ok(b: RetroBoard, registries: Seq<FacilitatorRegistry>) -> bool {
    &&& b.valid()
    &&& exists|r: int|
        0 <= r < registries.len() && (#[trigger] registries[r]).facilitator == b.facilitator
            && b.board_index < registries[r].board_count
}

pub open spec fn boards_ok(boards: Seq<RetroBoard>, registries: Seq<FacilitatorRegistry>) -> bool {
    forall|i: int| 0 <= i < boards.len() ==> board_ok(#[trigger] boards[i], registries)
}

/// A stored membership's board exists, and its consumption stays within
/// the board's per-participant budgets.
pub open spec fn membership_ok(m: BoardMembership, boards: Seq<RetroBoard>) -> bool {
    exists|j: int|
        0 <= j < boards.len() && (#[trigger] boards[j]).id() == m.board && m.credits_spent
            <= boards[j].voting_credits_per_participant && m.notes_submitted
            <= boards[j].max_notes_per_participant
}

pub open spec fn memberships_ok(ms: Seq<BoardMembership>, boards: Seq<RetroBoard>) -> bool {
    forall|i: int| 0 <= i < ms.len() ==> membership_ok(#[trigger] ms[i], boards)
}

/// A stored note's board exists, its id lies below the board's note
/// counter, and its category indexes an existing category.
pub open spec fn note_ok(n: Note, boards: Seq<RetroBoard>) -> bool {
    &&& n.valid()
    &&& exists|j: int|
        0 <= j < boards.len() && (#[trigger] boards[j]).id() == n.board && n.note_id
            < boards[j].note_count && (n.category_id as int) < boards[j].categories@.len()
}

pub open spec fn notes_ok(ns: Seq<Note>, boards: Seq<RetroBoard>) -> bool {
    forall|i: int| 0 <= i < ns.len() ==> note_ok(#[trigger] ns[i], boards)
}

/// A stored group's board exists and its id lies below the board's group
/// counter.
pub open spec fn group_ok(g: Group, boards: Seq<RetroBoard>) -> bool {
    &&& g.valid()
    &&& exists|j: int|
        0 <= j < boards.len() && (#[trigger] boards[j]).id() == g.board && g.group_id
            < boards[j].group_count
}

pub open spec fn groups_ok(gs: Seq<Group>, boards: Seq<RetroBoard>) -> bool {
    forall|i: int| 0 <= i < gs.len() ==> group_ok(#[trigger] gs[i], boards)
}

/// A stored vote record's board exists and its group id lies below the
/// board's group counter, so a fresh group can never carry old votes.
pub open spec fn vote_ok(v: VoteRecord, boards: Seq<RetroBoard>) -> bool {
    exists|j: int|
        0 <= j < boards.len() && (#[trigger] boards[j]).id() == v.board && v.group_id
            < boards[j].group_count
}

pub open spec fn votes_ok(vs: Seq<VoteRecord>, boards: Seq<RetroBoard>) -> bool {
    forall|i: int| 0 <= i < vs.len() ==> vote_ok(#[trigger] vs[i], boards)
}

/// A stored verification vote's board exists and its item id lies below
/// the board's action-item counter, so a fresh item can never carry old
/// approvals.
pub open spec fn vvote_ok(v: VerificationVote, boards: Seq<RetroBoard>) -> bool {
    exists|j: int|
        0 <= j < boards.len() && (#[trigger] boards[j]).id() == v.board && v.item_id
            < boards[j].action_item_count
}

pub open spec fn vvotes_ok(vs: Seq<VerificationVote>, boards: Seq<RetroBoard>) -> bool {
    forall|i: int| 0 <= i < vs.len() ==> vvote_ok(#[trigger] vs[i], boards)
}

/// Every group's tally equals the sum of the vote records referencing it.
pub open spec fn tallies_ok(gs: Seq<Group>, votes: Seq<VoteRecord>) -> bool {
    forall|i: int|
        0 <= i < gs.len() ==> (#[trigger] gs[i]).vote_tally == group_tally(
            votes,
            gs[i].board,
            gs[i].group_id,
        )
}

/// A stored action item's board exists and is closed, and the item's id
/// lies below the board's action-item counter.
pub open spec fn action_item_ok(a: ActionItem, boards: Seq<RetroBoard>) -> bool {
    &&& a.valid()
    &&& a.approvals <= a.threshold
    &&& exists|j: int|
        0 <= j < boards.len() && (#[trigger] boards[j]).id() == a.board && a.item_id
            < boards[j].action_item_count && boards[j].closed
}

pub open spec fn action_items_ok(items: Seq<ActionItem>, boards: Seq<RetroBoard>) -> bool {
    forall|i: int| 0 <= i < items.len() ==> action_item_ok(#[trigger] items[i], boards)
}

/// Every action item's approval counter equals the number of approving
/// verification votes referencing it.
pub open spec fn approvals_ok(items: Seq<ActionItem>, vvotes: Seq<VerificationVote>) -> bool {
    forall|i: int|
        0 <= i < items.len() ==> (#[trigger] items[i]).approvals == approval_count(
            vvotes,
            items[i].board,
            items[i].item_id,
        )
}

/// The whole system state: one store per record family, plus the
/// delegation token store and the service identity delegation tokens for
/// this ledger must be scoped to.
pub struct Ledger {
    pub service_id: u64,
    pub registries: Vec<FacilitatorRegistry>,
    pub boards: Vec<RetroBoard>,
    pub memberships: Vec<BoardMembership>,
    pub notes: Vec<Note>,
    pub groups: Vec<Group>,
    pub votes: Vec<VoteRecord>,
    pub action_items: Vec<ActionItem>,
    pub verification_votes: Vec<VerificationVote>,
    pub tokens: TokenStore,
}

impl Ledger {
    /// Every record family is keyed uniquely.
    pub open spec fn keys_unique(self) -> bool {
        &&& unique_keys(self.registries@)
        &&& unique_keys(self.boards@)
        &&& unique_keys(self.memberships@)
        &&& unique_keys(self.notes@)
        &&& unique_keys(self.groups@)
        &&& unique_keys(self.votes@)
        &&& unique_keys(self.action_items@)
        &&& unique_keys(self.verification_votes@)
        &&& self.tokens.wf()
    }

    /// The ledger's invariant; established at creation and preserved by
    /// every operation.
    pub open spec fn wf(self) -> bool {
        &&& self.keys_unique()
        &&& boards_ok(self.boards@, self.registries@)
        &&& memberships_ok(self.memberships@, self.boards@)
        &&& notes_ok(self.notes@, self.boards@)
        &&& groups_ok(self.groups@, self.boards@)
        &&& votes_ok(self.votes@, self.boards@)
        &&& tallies_ok(self.groups@, self.votes@)
        &&& action_items_ok(self.action_items@, self.boards@)
        &&& vvotes_ok(self.verification_votes@, self.boards@)
        &&& approvals_ok(self.action_items@, self.verification_votes@)
    }

    /// An empty ledger scoped to a service identity.
    pub fn new(service_id: u64) -> (l: Ledger)
        ensures
            l.wf(),
            l.service_id == service_id,
            l.registries@ == Seq::<FacilitatorRegistry>::empty(),
            l.boards@ == Seq::<RetroBoard>::empty(),
            l.memberships@ == Seq::<BoardMembership>::empty(),
            l.notes@ == Seq::<Note>::empty(),
            l.groups@ == Seq::<Group>::empty(),
            l.votes@ == Seq::<VoteRecord>::empty(),
            l.action_items@ == Seq::<ActionItem>::empty(),
            l.verification_votes@ == Seq::<VerificationVote>::empty(),
            l.tokens.tokens@ == Seq::<crate::session_keys::SessionToken>::empty(),
    {
        Ledger {
            service_id,
            registries: Vec::new(),
            boards: Vec::new(),
            memberships: Vec::new(),
            notes: Vec::new(),
            groups: Vec::new(),
            votes: Vec::new(),
            action_items: Vec::new(),
            verification_votes: Vec::new(),
            tokens: TokenStore::new(),
        }
    }

    // ---- spec-level lookups ----

    pub open spec fn spec_registry_ix(self, facilitator: u64) -> Option<int> {
        find_by_key(self.registries@, (facilitator, 0, 0, 0))
    }

    pub open spec fn has_registry(self, facilitator: u64) -> bool {
        contains_key(self.registries@, (facilitator, 0, 0, 0))
    }

    pub open spec fn spec_board_ix(self, id: BoardId) -> Option<int> {
        find_by_key(self.boards@, board_key(id))
    }

    pub open spec fn has_board(self, id: BoardId) -> bool {
        contains_key(self.boards@, board_key(id))
    }

    /// The board stored under the identity; meaningful when it exists.
    pub open spec fn spec_board(self, id: BoardId) -> RetroBoard {
        self.boards@[self.spec_board_ix(id)->Some_0]
    }

    pub open spec fn spec_membership_ix(self, id: BoardId, participant: u64) -> Option<int> {
        find_by_key(self.memberships@, (id.facilitator, id.board_index, participant, 0))
    }

    pub open spec fn has_membership(self, id: BoardId, participant: u64) -> bool {
        contains_key(self.memberships@, (id.facilitator, id.board_index, participant, 0))
    }

    pub open spec fn spec_membership(self, id: BoardId, participant: u64) -> BoardMembership {
        self.memberships@[self.spec_membership_ix(id, participant)->Some_0]
    }

    pub open spec fn spec_note_ix(self, id: BoardId, note_id: u64) -> Option<int> {
        find_by_key(self.notes@, (id.facilitator, id.board_index, note_id, 0))
    }

    pub open spec fn has_note(self, id: BoardId, note_id: u64) -> bool {
        contains_key(self.notes@, (id.facilitator, id.board_index, note_id, 0))
    }

    pub open spec fn spec_note(self, id: BoardId, note_id: u64) -> Note {
        self.notes@[self.spec_note_ix(id, note_id)->Some_0]
    }

    pub open spec fn spec_group_ix(self, id: BoardId, group_id: u64) -> Option<int> {
        find_by_key(self.groups@, (id.facilitator, id.board_index, group_id, 0))
    }

    pub open spec fn has_group(self, id: BoardId, group_id: u64) -> bool {
        contains_key(self.groups@, (id.facilitator, id.board_index, group_id, 0))
    }

    pub open spec fn spec_group(self, id: BoardId, group_id: u64) -> Group {
        self.groups@[self.spec_group_ix(id, group_id)->Some_0]
    }

    pub open spec fn spec_vote_ix(self, id: BoardId, participant: u64, group_id: u64) -> Option<
        int,
    > {
        find_by_key(self.votes@, (id.facilitator, id.board_index, participant, group_id))
    }

    pub open spec fn has_vote(self, id: BoardId, participant: u64, group_id: u64) -> bool {
        contains_key(self.votes@, (id.facilitator, id.board_index, participant, group_id))
    }

    pub open spec fn spec_vote(self, id: BoardId, participant: u64, group_id: u64) -> VoteRecord {
        self.votes@[self.spec_vote_ix(id, participant, group_id)->Some_0]
    }

    pub open spec fn spec_action_item_ix(self, id: BoardId, item_id: u64) -> Option<int> {
        find_by_key(self.action_items@, (id.facilitator, id.board_index, item_id, 0))
    }

    pub open spec fn has_action_item(self, id: BoardId, item_id: u64) -> bool {
        contains_key(self.action_items@, (id.facilitator, id.board_index, item_id, 0))
    }

    pub open spec fn spec_action_item(self, id: BoardId, item_id: u64) -> ActionItem {
        self.action_items@[self.spec_action_item_ix(id, item_id)->Some_0]
    }

    pub open spec fn spec_verification_vote_ix(self, id: BoardId, item_id: u64, verifier: u64) -> Option<
        int,
    > {
        find_by_key(self.verification_votes@, (id.facilitator, id.board_index, item_id, verifier))
    }

    pub open spec fn has_verification_vote(self, id: BoardId, item_id: u64, verifier: u64) -> bool {
        contains_key(self.verification_votes@, (id.facilitator, id.board_index, item_id, verifier))
    }
}

/// Replacing a board with one that keeps its identity, stays valid, keeps
/// its budgets and categories, never lowers a counter, and never reopens,
/// preserves every invariant that mentions the board store.
pub proof fn lemma_board_benign_update(
    registries: Seq<FacilitatorRegistry>,
    boards: Seq<RetroBoard>,
    ms: Seq<BoardMembership>,
    ns: Seq<Note>,
    gs: Seq<Group>,
    vs: Seq<VoteRecord>,
    items: Seq<ActionItem>,
    vvs: Seq<VerificationVote>,
    ix: int,
    b2: RetroBoard,
)
    requires
        0 <= ix < boards.len(),
        unique_keys(boards),
        boards_ok(boards, registries),
        memberships_ok(ms, boards),
        notes_ok(ns, boards),
        groups_ok(gs, boards),
        votes_ok(vs, boards),
        action_items_ok(items, boards),
        vvotes_ok(vvs, boards),
        b2.id() == boards[ix].id(),
        b2.valid(),
        b2.voting_credits_per_participant == boards[ix].voting_credits_per_participant,
        b2.max_notes_per_participant == boards[ix].max_notes_per_participant,
        b2.note_count >= boards[ix].note_count,
        b2.group_count >= boards[ix].group_count,
        b2.action_item_count >= boards[ix].action_item_count,
        b2.categories@.len() >= boards[ix].categories@.len(),
        boards[ix].closed ==> b2.closed,
    ensures
        unique_keys(boards.update(ix, b2)),
        boards_ok(boards.update(ix, b2), registries),
        memberships_ok(ms, boards.update(ix, b2)),
        notes_ok(ns, boards.update(ix, b2)),
        groups_ok(gs, boards.update(ix, b2)),
        votes_ok(vs, boards.update(ix, b2)),
        action_items_ok(items, boards.update(ix, b2)),
        vvotes_ok(vvs, boards.update(ix, b2)),
{
    let boards2 = boards.update(ix, b2);
    assert(b2.key() == boards[ix].key());
    assert forall|p: int, q: int|
        0 <= p < q < boards2.len() implies (#[trigger] boards2[p]).key() != (
    #[trigger] boards2[q]).key() by {
        assert(boards[p].key() != boards[q].key());
    }
    assert forall|i: int| 0 <= i < boards2.len() implies board_ok(#[trigger] boards2[i], registries) by {
        if i == ix {
            let r = choose|r: int|
                0 <= r < registries.len() && (#[trigger] registries[r]).facilitator
                    == boards[ix].facilitator && boards[ix].board_index
                    < registries[r].board_count;
            assert(registries[r].facilitator == b2.facilitator && b2.board_index
                < registries[r].board_count);
        } else {
            assert(board_ok(boards[i], registries));
        }
    }
    assert forall|i: int| 0 <= i < ms.len() implies membership_ok(#[trigger] ms[i], boards2) by {
        assert(membership_ok(ms[i], boards));
        let j = choose|j: int|
            0 <= j < boards.len() && (#[trigger] boards[j]).id() == ms[i].board
                && ms[i].credits_spent <= boards[j].voting_credits_per_participant
                && ms[i].notes_submitted <= boards[j].max_notes_per_participant;
        assert(boards2[j].id() == ms[i].board && ms[i].credits_spent
            <= boards2[j].voting_credits_per_participant && ms[i].notes_submitted
            <= boards2[j].max_notes_per_participant);
    }
    assert forall|i: int| 0 <= i < ns.len() implies note_ok(#[trigger] ns[i], boards2) by {
        assert(note_ok(ns[i], boards));
        let j = choose|j: int|
            0 <= j < boards.len() && (#[trigger] boards[j]).id() == ns[i].board && ns[i].note_id
                < boards[j].note_count && (ns[i].category_id as int)
                < boards[j].categories@.len();
        assert(boards2[j].id() == ns[i].board && ns[i].note_id < boards2[j].note_count && (
        ns[i].category_id as int) < boards2[j].categories@.len());
    }
    assert forall|i: int| 0 <= i < gs.len() implies group_ok(#[trigger] gs[i], boards2) by {
        assert(group_ok(gs[i], boards));
        let j = choose|j: int|
            0 <= j < boards.len() && (#[trigger] boards[j]).id() == gs[i].board && gs[i].group_id
                < boards[j].group_count;
        assert(boards2[j].id() == gs[i].board && gs[i].group_id < boards2[j].group_count);
    }
    assert forall|i: int| 0 <= i < vs.len() implies vote_ok(#[trigger] vs[i], boards2) by {
        assert(vote_ok(vs[i], boards));
        let j = choose|j: int|
            0 <= j < boards.len() && (#[trigger] boards[j]).id() == vs[i].board && vs[i].group_id
                < boards[j].group_count;
        assert(boards2[j].id() == vs[i].board && vs[i].group_id < boards2[j].group_count);
    }
    assert forall|i: int| 0 <= i < items.len() implies action_item_ok(#[trigger] items[i], boards2) by {
        assert(action_item_ok(items[i], boards));
        let j = choose|j: int|
            0 <= j < boards.len() && (#[trigger] boards[j]).id() == items[i].board
                && items[i].item_id < boards[j].action_item_count && boards[j].closed;
        assert(boards2[j].id() == items[i].board && items[i].item_id
            < boards2[j].action_item_count && boards2[j].closed);
    }
    assert forall|i: int| 0 <= i < vvs.len() implies vvote_ok(#[trigger] vvs[i], boards2) by {
        assert(vvote_ok(vvs[i], boards));
        let j = choose|j: int|
            0 <= j < boards.len() && (#[trigger] boards[j]).id() == vvs[i].board && vvs[i].item_id
                < boards[j].action_item_count;
        assert(boards2[j].id() == vvs[i].board && vvs[i].item_id < boards2[j].action_item_count);
    }
}

/// Appending a fresh, well-linked board preserves every invariant that
/// mentions the board store.
pub proof fn lemma_board_push(
    registries: Seq<FacilitatorRegistry>,
    boards: Seq<RetroBoard>,
    ms: Seq<BoardMembership>,
    ns: Seq<Note>,
    gs: Seq<Group>,
    vs: Seq<VoteRecord>,
    items: Seq<ActionItem>,
    vvs: Seq<VerificationVote>,
    b2: RetroBoard,
)
    requires
        unique_keys(boards),
        boards_ok(boards, registries),
        memberships_ok(ms, boards),
        notes_ok(ns, boards),
        groups_ok(gs, boards),
        votes_ok(vs, boards),
        action_items_ok(items, boards),
        vvotes_ok(vvs, boards),
        board_ok(b2, registries),
        forall|i: int| 0 <= i < boards.len() ==> (#[trigger] boards[i]).key() != b2.key(),
    ensures
        unique_keys(boards.push(b2)),
        boards_ok(boards.push(b2), registries),
        memberships_ok(ms, boards.push(b2)),
        notes_ok(ns, boards.push(b2)),
        groups_ok(gs, boards.push(b2)),
        votes_ok(vs, boards.push(b2)),
        action_items_ok(items, boards.push(b2)),
        vvotes_ok(vvs, boards.push(b2)),
{
    let boards2 = boards.push(b2);
    assert forall|p: int, q: int|
        0 <= p < q < boards2.len() implies (#[trigger] boards2[p]).key() != (
    #[trigger] boards2[q]).key() by {
        if q < boards.len() {
            assert(boards[p].key() != boards[q].key());
        } else {
            assert(boards2[q] == b2 && boards2[p] == boards[p]);
        }
    }
    assert forall|i: int| 0 <= i < boards2.len() implies board_ok(#[trigger] boards2[i], registries) by {
        if i < boards.len() {
            assert(board_ok(boards[i], registries));
            assert(boards2[i] == boards[i]);
        } else {
            assert(boards2[i] == b2);
        }
    }
    assert forall|i: int| 0 <= i < ms.len() implies membership_ok(#[trigger] ms[i], boards2) by {
        assert(membership_ok(ms[i], boards));
        let j = choose|j: int|
            0 <= j < boards.len() && (#[trigger] boards[j]).id() == ms[i].board
                && ms[i].credits_spent <= boards[j].voting_credits_per_participant
                && ms[i].notes_submitted <= boards[j].max_notes_per_participant;
        assert(boards2[j] == boards[j]);
    }
    assert forall|i: int| 0 <= i < ns.len() implies note_ok(#[trigger] ns[i], boards2) by {
        assert(note_ok(ns[i], boards));
        let j = choose|j: int|
            0 <= j < boards.len() && (#[trigger] boards[j]).id() == ns[i].board && ns[i].note_id
                < boards[j].note_count && (ns[i].category_id as int)
                < boards[j].categories@.len();
        assert(boards2[j] == boards[j]);
    }
    assert forall|i: int| 0 <= i < gs.len() implies group_ok(#[trigger] gs[i], boards2) by {
        assert(group_ok(gs[i], boards));
        let j = choose|j: int|
            0 <= j < boards.len() && (#[trigger] boards[j]).id() == gs[i].board && gs[i].group_id
                < boards[j].group_count;
        assert(boards2[j] == boards[j]);
    }
    assert forall|i: int| 0 <= i < vs.len() implies vote_ok(#[trigger] vs[i], boards2) by {
        assert(vote_ok(vs[i], boards));
        let j = choose|j: int|
            0 <= j < boards.len() && (#[trigger] boards[j]).id() == vs[i].board && vs[i].group_id
                < boards[j].group_count;
        assert(boards2[j] == boards[j]);
    }
    assert forall|i: int| 0 <= i < items.len() implies action_item_ok(#[trigger] items[i], boards2) by {
        assert(action_item_ok(items[i], boards));
        let j = choose|j: int|
            0 <= j < boards.len() && (#[trigger] boards[j]).id() == items[i].board
                && items[i].item_id < boards[j].action_item_count && boards[j].closed;
        assert(boards2[j] == boards[j]);
    }
    assert forall|i: int| 0 <= i < vvs.len() implies vvote_ok(#[trigger] vvs[i], boards2) by {
        assert(vvote_ok(vvs[i], boards));
        let j = choose|j: int|
            0 <= j < boards.len() && (#[trigger] boards[j]).id() == vvs[i].board && vvs[i].item_id
                < boards[j].action_item_count;
        assert(boards2[j] == boards[j]);
    }
}

/// Replacing a note with one that keeps its key, its category, and its
/// content preserves the note store's invariants.
pub proof fn lemma_note_benign_update(ns: Seq<Note>, boards: Seq<RetroBoard>, ix: int, n2: Note)
    requires
        0 <= ix < ns.len(),
        unique_keys(ns),
        notes_ok(ns, boards),
        n2.board == ns[ix].board,
        n2.note_id == ns[ix].note_id,
        n2.category_id == ns[ix].category_id,
        n2.content == ns[ix].content,
    ensures
        unique_keys(ns.update(ix, n2)),
        notes_ok(ns.update(ix, n2), boards),
{
    let ns2 = ns.update(ix, n2);
    assert(n2.key() == ns[ix].key());
    assert forall|p: int, q: int|
        0 <= p < q < ns2.len() implies (#[trigger] ns2[p]).key() != (#[trigger] ns2[q]).key() by {
        assert(ns[p].key() != ns[q].key());
    }
    assert forall|i: int| 0 <= i < ns2.len() implies note_ok(#[trigger] ns2[i], boards) by {
        assert(note_ok(ns[i], boards));
        if i == ix {
            let j = choose|j: int|
                0 <= j < boards.len() && (#[trigger] boards[j]).id() == ns[ix].board
                    && ns[ix].note_id < boards[j].note_count && (ns[ix].category_id as int)
                    < boards[j].categories@.len();
            assert(boards[j].id() == n2.board && n2.note_id < boards[j].note_count && (
            n2.category_id as int) < boards[j].categories@.len());
        }
    }
}

/// Replacing a group with one that keeps its key and its tally preserves
/// the group store's invariants and every tally link.
pub proof fn lemma_group_benign_update(
    gs: Seq<Group>,
    boards: Seq<RetroBoard>,
    vs: Seq<VoteRecord>,
    ix: int,
    g2: Group,
)
    requires
        0 <= ix < gs.len(),
        unique_keys(gs),
        groups_ok(gs, boards),
        tallies_ok(gs, vs),
        g2.valid(),
        g2.board == gs[ix].board,
        g2.group_id == gs[ix].group_id,
        g2.vote_tally == gs[ix].vote_tally,
    ensures
        unique_keys(gs.update(ix, g2)),
        groups_ok(gs.update(ix, g2), boards),
        tallies_ok(gs.update(ix, g2), vs),
{
    let gs2 = gs.update(ix, g2);
    assert(g2.key() == gs[ix].key());
    assert forall|p: int, q: int|
        0 <= p < q < gs2.len() implies (#[trigger] gs2[p]).key() != (#[trigger] gs2[q]).key() by {
        assert(gs[p].key() != gs[q].key());
    }
    assert forall|i: int| 0 <= i < gs2.len() implies group_ok(#[trigger] gs2[i], boards) by {
        assert(group_ok(gs[i], boards));
        if i == ix {
            let j = choose|j: int|
                0 <= j < boards.len() && (#[trigger] boards[j]).id() == gs[ix].board
                    && gs[ix].group_id < boards[j].group_count;
            assert(boards[j].id() == g2.board && g2.group_id < boards[j].group_count);
        }
    }
    assert forall|i: int|
        0 <= i < gs2.len() implies (#[trigger] gs2[i]).vote_tally == group_tally(
        vs,
        gs2[i].board,
        gs2[i].group_id,
    ) by {
        assert(gs[i].vote_tally == group_tally(vs, gs[i].board, gs[i].group_id));
    }
}

/// Raising a registry's counter (or appending a fresh registry) keeps
/// every board's registry link intact.
pub proof fn lemma_registry_count_bump(
    registries: Seq<FacilitatorRegistry>,
    boards: Seq<RetroBoard>,
    rix: int,
    r2: FacilitatorRegistry,
)
    requires
        0 <= rix < registries.len(),
        unique_keys(registries),
        boards_ok(boards, registries),
        r2.facilitator == registries[rix].facilitator,
        r2.board_count >= registries[rix].board_count,
    ensures
        unique_keys(registries.update(rix, r2)),
        boards_ok(boards, registries.update(rix, r2)),
{
    let regs2 = registries.update(rix, r2);
    assert(r2.key() == registries[rix].key());
    assert forall|p: int, q: int|
        0 <= p < q < regs2.len() implies (#[trigger] regs2[p]).key() != (
    #[trigger] regs2[q]).key() by {
        assert(registries[p].key() != registries[q].key());
    }
    assert forall|i: int| 0 <= i < boards.len() implies board_ok(#[trigger] boards[i], regs2) by {
        assert(board_ok(boards[i], registries));
        let r = choose|r: int|
            0 <= r < registries.len() && (#[trigger] registries[r]).facilitator
                == boards[i].facilitator && boards[i].board_index < registries[r].board_count;
        assert(regs2[r].facilitator == boards[i].facilitator && boards[i].board_index
            < regs2[r].board_count);
    }
}

/// Appending a fresh registry keeps every board's registry link intact.
pub proof fn lemma_registry_push(
    registries: Seq<FacilitatorRegistry>,
    boards: Seq<RetroBoard>,
    r2: FacilitatorRegistry,
)
    requires
        unique_keys(registries),
        boards_ok(boards, registries),
        forall|i: int| 0 <= i < registries.len() ==> (#[trigger] registries[i]).key() != r2.key(),
    ensures
        unique_keys(registries.push(r2)),
        boards_ok(boards, registries.push(r2)),
{
    let regs2 = registries.push(r2);
    assert forall|p: int, q: int|
        0 <= p < q < regs2.len() implies (#[trigger] regs2[p]).key() != (
    #[trigger] regs2[q]).key() by {
        if q < registries.len() {
            assert(registries[p].key() != registries[q].key());
        } else {
            assert(regs2[q] == r2 && regs2[p] == registries[p]);
        }
    }
    assert forall|i: int| 0 <= i < boards.len() implies board_ok(#[trigger] boards[i], regs2) by {
        assert(board_ok(boards[i], registries));
        let r = choose|r: int|
            0 <= r < registries.len() && (#[trigger] registries[r]).facilitator
                == boards[i].facilitator && boards[i].board_index < registries[r].board_count;
        assert(regs2[r] == registries[r]);
    }
}

} // verus!
