//! The record types of the ledger: the facilitator registry, the board
//! (the workflow aggregate root), memberships, notes, groups, vote records,
//! and the action-item verification records.

use vstd::prelude::*;

use crate::constants::{
    MAX_ACTION_DESCRIPTION_CHARS, MAX_CATEGORIES, MAX_CATEGORY_NAME_LEN, MAX_GROUP_TITLE_CHARS,
    MAX_NOTE_CHARS, MAX_PARTICIPANTS, MAX_VERIFIERS,
};
use crate::keyed::Keyed;

verus! {

/// The five ordered phases of a retrospective board.
#[derive(Clone, Copy, Debug, PartialEq, Eq, Structural)]
pub enum BoardStage {
    Setup,
    WriteNotes,
    GroupDuplicates,
    Vote,
    Discuss,
}

impl BoardStage {
    /// The position of the stage in the fixed forward order.
    pub open spec fn ordinal(self) -> int {
        match self {
            BoardStage::Setup => 0,
            BoardStage::WriteNotes => 1,
            BoardStage::GroupDuplicates => 2,
            BoardStage::Vote => 3,
            BoardStage::Discuss => 4,
        }
    }

    /// A transition is legal exactly when it moves one step forward;
    /// the five legal edges are enumerated rather than computed.
    pub fn can_advance_to(&self, next: BoardStage) -> (r: bool)
        ensures
            r == (next.ordinal() == self.ordinal() + 1),
    {
        match (self, next) {
            (BoardStage::Setup, BoardStage::WriteNotes) => true,
            (BoardStage::WriteNotes, BoardStage::GroupDuplicates) => true,
            (BoardStage::GroupDuplicates, BoardStage::Vote) => true,
            (BoardStage::Vote, BoardStage::Discuss) => true,
            _ => false,
        }
    }
}

/// The deterministic identity of a board: the facilitator that created it
/// and its index in that facilitator's registry.
#[derive(Clone, Copy, Debug, PartialEq, Eq, Structural)]
pub struct BoardId {
    pub facilitator: u64,
    pub board_index: u64,
}

/// Tracks how many boards a facilitator has created; the counter only
/// increases and seeds each new board's deterministic identity.
#[derive(Clone, Copy, Debug, PartialEq, Eq, Structural)]
pub struct FacilitatorRegistry {
    pub facilitator: u64,
    pub board_count: u64,
}

/// The aggregate root: one retrospective instance with its stage machine,
/// category list, allow-list, credit policy, and child-record counters.
#[derive(Clone, Debug)]
pub struct RetroBoard {
    pub facilitator: u64,
    pub board_index: u64,
    pub stage: BoardStage,
    pub closed: bool,
    pub categories: Vec<String>,
    pub allowlist: Vec<u64>,
    pub open_join: bool,
    pub voting_credits_per_participant: u8,
    pub max_notes_per_participant: u8,
    pub participant_count: u32,
    pub note_count: u64,
    pub group_count: u64,
    pub action_item_count: u64,
    pub created_at: i64,
    pub stage_changed_at: i64,
}

impl RetroBoard {
    /// The board's deterministic identity.
    pub open spec fn id(self) -> BoardId {
        BoardId { facilitator: self.facilitator, board_index: self.board_index }
    }

    /// Field bounds every stored board satisfies: a non-empty, capped
    /// category list with capped names, a duplicate-free capped allow-list,
    /// and closure only out of the final stage.
    pub open spec fn valid(self) -> bool {
        &&& 1 <= self.categories@.len() <= MAX_CATEGORIES
        &&& forall|i: int|
            0 <= i < self.categories@.len() ==> (#[trigger] self.categories@[i])@.len()
                <= MAX_CATEGORY_NAME_LEN
        &&& self.allowlist@.len() <= MAX_PARTICIPANTS
        &&& forall|i: int, j: int|
            0 <= i < j < self.allowlist@.len() ==> self.allowlist@[i] != self.allowlist@[j]
        &&& self.participant_count <= MAX_PARTICIPANTS
        &&& (self.closed ==> self.stage == BoardStage::Discuss)
    }
}

/// One record per (board, participant): the credits the participant has
/// spent, the notes they have submitted, and their completion score.
#[derive(Clone, Copy, Debug, PartialEq, Eq, Structural)]
pub struct BoardMembership {
    pub board: BoardId,
    pub participant: u64,
    pub notes_submitted: u8,
    pub credits_spent: u8,
    pub score: u64,
}

/// An append-only note, optionally assigned to at most one group.
#[derive(Clone, Debug)]
pub struct Note {
    pub board: BoardId,
    pub note_id: u64,
    pub author: u64,
    pub category_id: u8,
    pub content: String,
    pub created_at: i64,
    pub group_id: Option<u64>,
}

impl Note {
    /// Content stays within the character cap.
    pub open spec fn valid(self) -> bool {
        self.content@.len() <= MAX_NOTE_CHARS
    }
}

/// A group of duplicate notes; its tally accumulates every credit spent on
/// it during the voting stage.
#[derive(Clone, Debug)]
pub struct Group {
    pub board: BoardId,
    pub group_id: u64,
    pub title: String,
    pub created_by: u64,
    pub vote_tally: u64,
}

impl Group {
    /// The title stays within the character cap.
    pub open spec fn valid(self) -> bool {
        self.title@.len() <= MAX_GROUP_TITLE_CHARS
    }
}

/// Per (board, participant, group) cumulative credit spend; created lazily
/// on the first vote and only ever increased.
#[derive(Clone, Copy, Debug, PartialEq, Eq, Structural)]
pub struct VoteRecord {
    pub board: BoardId,
    pub participant: u64,
    pub group_id: u64,
    pub credits_spent: u8,
}

/// Whether an action item is still collecting verification votes or has
/// reached its approval threshold.
#[derive(Clone, Copy, Debug, PartialEq, Eq, Structural)]
pub enum ActionStatus {
    Pending,
    Completed,
}

/// A post-closure action item: an owner, a verifier set that excludes the
/// owner, and an approval threshold that completes the item exactly once.
#[derive(Clone, Debug)]
pub struct ActionItem {
    pub board: BoardId,
    pub item_id: u64,
    pub description: String,
    pub owner: u64,
    pub verifiers: Vec<u64>,
    pub threshold: u8,
    pub approvals: u8,
    pub status: ActionStatus,
    pub created_at: i64,
}

impl ActionItem {
    /// Field bounds every stored action item satisfies: a bounded
    /// description, a duplicate-free bounded verifier set that excludes the
    /// owner, a threshold within the verifier count, and a status that is
    /// pending exactly while approvals are below the threshold.
    pub open spec fn valid(self) -> bool {
        &&& self.description@.len() <= MAX_ACTION_DESCRIPTION_CHARS
        &&& 1 <= self.verifiers@.len() <= MAX_VERIFIERS
        &&& forall|i: int, j: int|
            0 <= i < j < self.verifiers@.len() ==> self.verifiers@[i] != self.verifiers@[j]
        &&& !self.verifiers@.contains(self.owner)
        &&& 1 <= self.threshold <= self.verifiers@.len()
        &&& self.approvals <= self.verifiers@.len()
        &&& (self.status == ActionStatus::Pending <==> self.approvals < self.threshold)
    }
}

/// One immutable verification vote per (action item, verifier).
#[derive(Clone, Copy, Debug, PartialEq, Eq, Structural)]
pub struct VerificationVote {
    pub board: BoardId,
    pub item_id: u64,
    pub verifier: u64,
    pub approved: bool,
    pub voted_at: i64,
}

impl Keyed for FacilitatorRegistry {
    open spec fn key(&self) -> (u64, u64, u64, u64) {
        (self.facilitator, 0, 0, 0)
    }

    fn key_of(&self) -> (k: (u64, u64, u64, u64)) {
        (self.facilitator, 0, 0, 0)
    }
}

impl Keyed for RetroBoard {
    open spec fn key(&self) -> (u64, u64, u64, u64) {
        (self.facilitator, self.board_index, 0, 0)
    }

    fn key_of(&self) -> (k: (u64, u64, u64, u64)) {
        (self.facilitator, self.board_index, 0, 0)
    }
}

impl Keyed for BoardMembership {
    open spec fn key(&self) -> (u64, u64, u64, u64) {
        (self.board.facilitator, self.board.board_index, self.participant, 0)
    }

    fn key_of(&self) -> (k: (u64, u64, u64, u64)) {
        (self.board.facilitator, self.board.board_index, self.participant, 0)
    }
}

impl Keyed for Note {
    open spec fn key(&self) -> (u64, u64, u64, u64) {
        (self.board.facilitator, self.board.board_index, self.note_id, 0)
    }

    fn key_of(&self) -> (k: (u64, u64, u64, u64)) {
        (self.board.facilitator, self.board.board_index, self.note_id, 0)
    }
}

impl Keyed for Group {
    open spec fn key(&self) -> (u64, u64, u64, u64) {
        (self.board.facilitator, self.board.board_index, self.group_id, 0)
    }

    fn key_of(&self) -> (k: (u64, u64, u64, u64)) {
        (self.board.facilitator, self.board.board_index, self.group_id, 0)
    }
}

impl Keyed for VoteRecord {
    open spec fn key(&self) -> (u64, u64, u64, u64) {
        (self.board.facilitator, self.board.board_index, self.participant, self.group_id)
    }

    fn key_of(&self) -> (k: (u64, u64, u64, u64)) {
        (self.board.facilitator, self.board.board_index, self.participant, self.group_id)
    }
}

impl Keyed for ActionItem {
    open spec fn key(&self) -> (u64, u64, u64, u64) {
        (self.board.facilitator, self.board.board_index, self.item_id, 0)
    }

    fn key_of(&self) -> (k: (u64, u64, u64, u64)) {
        (self.board.facilitator, self.board.board_index, self.item_id, 0)
    }
}

impl Keyed for VerificationVote {
    open spec fn key(&self) -> (u64, u64, u64, u64) {
        (self.board.facilitator, self.board.board_index, self.item_id, self.verifier)
    }

    fn key_of(&self) -> (k: (u64, u64, u64, u64)) {
        (self.board.facilitator, self.board.board_index, self.item_id, self.verifier)
    }
}

} // verus!
