//! Ledger operation failures. Every validation failure aborts the call
//! before any mutation and is surfaced as one of these codes.

use vstd::prelude::*;

use crate::session_keys::SessionError;

verus! {

/// Why a ledger operation was rejected.
#[derive(Clone, Copy, Debug, PartialEq, Eq, Structural)]
pub enum RetroError {
    /// Only the facilitator can perform this action.
    UnauthorizedFacilitator,
    /// The board is closed and cannot be modified.
    BoardClosed,
    /// The operation is invalid for the board's current stage.
    InvalidStage,
    /// The requested stage transition is not the single legal forward step.
    InvalidStageTransition,
    /// The participant is not on the allow-list.
    NotOnAllowlist,
    /// The allow-list or participant cap is reached.
    MaxParticipantsReached,
    /// The category id does not index an existing category.
    InvalidCategoryId,
    /// The note content exceeds the maximum length.
    NoteTooLong,
    /// The group title exceeds the maximum length.
    GroupTitleTooLong,
    /// The note is already assigned to a group.
    NoteAlreadyGrouped,
    /// The note is not assigned to any group.
    NoteNotGrouped,
    /// The vote would exceed the participant's credit budget.
    InsufficientCredits,
    /// Vote credits can only be increased, never decreased or left as is.
    CannotDecreaseVotes,
    /// Too many categories were specified.
    TooManyCategories,
    /// A category name exceeds the maximum length.
    CategoryNameTooLong,
    /// At least one category is required.
    NoCategoriesSpecified,
    /// The referenced record does not exist.
    AccountNotInitialized,
    /// A record already exists at the derived address.
    AccountAlreadyInitialized,
    /// The caller has not joined the board.
    NotJoined,
    /// The participant's note cap is reached.
    MaxNotesReached,
    /// The board does not allow open joining.
    OpenJoinDisabled,
    /// The board must be closed before action items can be worked.
    BoardNotClosed,
    /// The action item description exceeds the maximum length.
    DescriptionTooLong,
    /// Too many verifiers were specified.
    TooManyVerifiers,
    /// The threshold must be between one and the number of verifiers.
    InvalidThreshold,
    /// The owner may not appear among the verifiers.
    SelfVerificationForbidden,
    /// The same verifier was named twice.
    DuplicateVerifier,
    /// The caller is not a designated verifier of the action item.
    NotAVerifier,
    /// The verifier has already voted on the action item.
    DuplicateVerificationVote,
    /// The action item is no longer pending.
    ItemNotPending,
    /// A counter would overflow its representation.
    CounterOverflow,
    /// The delegation gate rejected the caller.
    Session(SessionError),
}

impl RetroError {
    /// The code each variant is surfaced as; delegation failures keep their
    /// own 6000-range codes.
    pub open spec fn spec_code(self) -> u32 {
        match self {
            RetroError::UnauthorizedFacilitator => 0,
            RetroError::BoardClosed => 1,
            RetroError::InvalidStage => 2,
            RetroError::InvalidStageTransition => 3,
            RetroError::NotOnAllowlist => 4,
            RetroError::MaxParticipantsReached => 5,
            RetroError::InvalidCategoryId => 6,
            RetroError::NoteTooLong => 7,
            RetroError::GroupTitleTooLong => 8,
            RetroError::NoteAlreadyGrouped => 9,
            RetroError::NoteNotGrouped => 10,
            RetroError::InsufficientCredits => 11,
            RetroError::CannotDecreaseVotes => 12,
            RetroError::TooManyCategories => 13,
            RetroError::CategoryNameTooLong => 14,
            RetroError::NoCategoriesSpecified => 15,
            RetroError::AccountNotInitialized => 17,
            RetroError::AccountAlreadyInitialized => 18,
            RetroError::NotJoined => 20,
            RetroError::MaxNotesReached => 21,
            RetroError::OpenJoinDisabled => 22,
            RetroError::BoardNotClosed => 23,
            RetroError::DescriptionTooLong => 24,
            RetroError::TooManyVerifiers => 25,
            RetroError::InvalidThreshold => 26,
            RetroError::SelfVerificationForbidden => 27,
            RetroError::DuplicateVerifier => 28,
            RetroError::NotAVerifier => 29,
            RetroError::DuplicateVerificationVote => 30,
            RetroError::ItemNotPending => 31,
            RetroError::CounterOverflow => 32,
            RetroError::Session(e) => e.spec_code(),
        }
    }

    /// The error's enumerable code.
    pub fn code(&self) -> (c: u32)
        ensures
            c == self.spec_code(),
    {
        match self {
            RetroError::UnauthorizedFacilitator => 0,
            RetroError::BoardClosed => 1,
            RetroError::InvalidStage => 2,
            RetroError::InvalidStageTransition => 3,
            RetroError::NotOnAllowlist => 4,
            RetroError::MaxParticipantsReached => 5,
            RetroError::InvalidCategoryId => 6,
            RetroError::NoteTooLong => 7,
            RetroError::GroupTitleTooLong => 8,
            RetroError::NoteAlreadyGrouped => 9,
            RetroError::NoteNotGrouped => 10,
            RetroError::InsufficientCredits => 11,
            RetroError::CannotDecreaseVotes => 12,
            RetroError::TooManyCategories => 13,
            RetroError::CategoryNameTooLong => 14,
            RetroError::NoCategoriesSpecified => 15,
            RetroError::AccountNotInitialized => 17,
            RetroError::AccountAlreadyInitialized => 18,
            RetroError::NotJoined => 20,
            RetroError::MaxNotesReached => 21,
            RetroError::OpenJoinDisabled => 22,
            RetroError::BoardNotClosed => 23,
            RetroError::DescriptionTooLong => 24,
            RetroError::TooManyVerifiers => 25,
            RetroError::InvalidThreshold => 26,
            RetroError::SelfVerificationForbidden => 27,
            RetroError::DuplicateVerifier => 28,
            RetroError::NotAVerifier => 29,
            RetroError::DuplicateVerificationVote => 30,
            RetroError::ItemNotPending => 31,
            RetroError::CounterOverflow => 32,
            RetroError::Session(e) => e.code(),
        }
    }
}

} // verus!
