//! A stage-gated collaborative retrospective workflow with linked ledgers,
//! credit-limited voting, threshold-verified action items, and a delegated
//! authority (session token) subsystem.
//!
//! Every persisted entity is a flat record addressed by a deterministic key
//! derived from its parent chain and index; the ledger holds each record
//! family in a keyed store and enforces its invariants before any mutation.

pub mod action_ops;
pub mod board_ops;
pub mod constants;
pub mod error;
pub mod getters;
pub mod group_ops;
pub mod keyed;
pub mod laws;
pub mod ledger;
pub mod note_ops;
pub mod participant_ops;
pub mod session_keys;
pub mod state;
pub mod tally;
pub mod token_ops;
pub mod vote_ops;
