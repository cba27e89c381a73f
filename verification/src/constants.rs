//! Policy constants: size caps, default budgets, and delegation validity
//! bounds.

use vstd::prelude::*;

verus! {

/// Maximum length of a note's content, in characters.
pub const MAX_NOTE_CHARS: usize = 280;

/// Maximum length of a group's title, in characters.
pub const MAX_GROUP_TITLE_CHARS: usize = 80;

/// Maximum number of participants per board.
pub const MAX_PARTICIPANTS: u32 = 30;

/// Maximum number of notes a single participant may create per board.
pub const MAX_NOTES_PER_PARTICIPANT: u8 = 10;

/// Maximum number of note categories per board.
pub const MAX_CATEGORIES: usize = 5;

/// Maximum length of a category name, in characters.
pub const MAX_CATEGORY_NAME_LEN: usize = 32;

/// Voting credits granted to each participant when none are configured.
pub const VOTING_CREDITS_DEFAULT: u8 = 5;

/// Maximum length of an action item's description, in characters.
pub const MAX_ACTION_DESCRIPTION_CHARS: usize = 280;

/// Maximum number of verifiers on one action item.
pub const MAX_VERIFIERS: usize = 10;

/// Maximum session token validity: 7 days in seconds.
pub const MAX_VALIDITY_SECONDS: i64 = 60 * 60 * 24 * 7;

/// Default session token validity: 1 hour in seconds.
pub const DEFAULT_VALIDITY_SECONDS: i64 = 60 * 60;

} // verus!
