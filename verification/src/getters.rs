//! Read-only lookups into the ledger, one per record family. Each returns
//! the record stored under the derived key, if any.

use vstd::prelude::*;

use crate::keyed::find_in;
use crate::ledger::Ledger;
use crate::session_keys::SessionToken;
use crate::state::{
    ActionItem, BoardId, BoardMembership, FacilitatorRegistry, Group, Note, RetroBoard,
    VerificationVote, VoteRecord,
};

verus! {

impl Ledger {
    /// The registry of a facilitator.
    pub fn get_registry(&self, facilitator: u64) -> (r: Option<&FacilitatorRegistry>)
        ensures
            match r {
                Some(reg) => self.spec_registry_ix(facilitator) is Some && *reg
                    == self.registries@[self.spec_registry_ix(facilitator)->Some_0],
                None => self.spec_registry_ix(facilitator) is None,
            },
    {
        let found = find_in(&self.registries, (facilitator, 0, 0, 0));
        proof {
            crate::keyed::lemma_find_by_key_props(self.registries@, (facilitator, 0, 0, 0));
        }
        match found {
            Some(i) => Some(&self.registries[i]),
            None => None,
        }
    }

    /// The board stored under an identity.
    pub fn get_board(&self, id: BoardId) -> (r: Option<&RetroBoard>)
        ensures
            match r {
                Some(b) => self.spec_board_ix(id) is Some && *b == self.spec_board(id),
                None => self.spec_board_ix(id) is None,
            },
    {
        let found = find_in(&self.boards, (id.facilitator, id.board_index, 0, 0));
        proof {
            crate::keyed::lemma_find_by_key_props(self.boards@, (id.facilitator, id.board_index, 0, 0));
        }
        match found {
            Some(i) => Some(&self.boards[i]),
            None => None,
        }
    }

    /// The membership of a participant on a board.
    pub fn get_membership(&self, id: BoardId, participant: u64) -> (r: Option<&BoardMembership>)
        ensures
            match r {
                Some(m) => self.spec_membership_ix(id, participant) is Some && *m
                    == self.spec_membership(id, participant),
                None => self.spec_membership_ix(id, participant) is None,
            },
    {
        let found = find_in(&self.memberships, (id.facilitator, id.board_index, participant, 0));
        proof {
            crate::keyed::lemma_find_by_key_props(self.memberships@, (id.facilitator, id.board_index, participant, 0));
        }
        match found {
            Some(i) => Some(&self.memberships[i]),
            None => None,
        }
    }

    /// A note of a board by its sequential id.
    pub fn get_note(&self, id: BoardId, note_id: u64) -> (r: Option<&Note>)
        ensures
            match r {
                Some(n) => self.spec_note_ix(id, note_id) is Some && *n == self.spec_note(
                    id,
                    note_id,
                ),
                None => self.spec_note_ix(id, note_id) is None,
            },
    {
        let found = find_in(&self.notes, (id.facilitator, id.board_index, note_id, 0));
        proof {
            crate::keyed::lemma_find_by_key_props(self.notes@, (id.facilitator, id.board_index, note_id, 0));
        }
        match found {
            Some(i) => Some(&self.notes[i]),
            None => None,
        }
    }

    /// A group of a board by its sequential id.
    pub fn get_group(&self, id: BoardId, group_id: u64) -> (r: Option<&Group>)
        ensures
            match r {
                Some(g) => self.spec_group_ix(id, group_id) is Some && *g == self.spec_group(
                    id,
                    group_id,
                ),
                None => self.spec_group_ix(id, group_id) is None,
            },
    {
        let found = find_in(&self.groups, (id.facilitator, id.board_index, group_id, 0));
        proof {
            crate::keyed::lemma_find_by_key_props(self.groups@, (id.facilitator, id.board_index, group_id, 0));
        }
        match found {
            Some(i) => Some(&self.groups[i]),
            None => None,
        }
    }

    /// The vote record of a participant on a group.
    pub fn get_vote_record(&self, id: BoardId, participant: u64, group_id: u64) -> (r: Option<
        &VoteRecord,
    >)
        ensures
            match r {
                Some(v) => self.spec_vote_ix(id, participant, group_id) is Some && *v
                    == self.spec_vote(id, participant, group_id),
                None => self.spec_vote_ix(id, participant, group_id) is None,
            },
    {
        let found = find_in(&self.votes, (id.facilitator, id.board_index, participant, group_id));
        proof {
            crate::keyed::lemma_find_by_key_props(self.votes@, (id.facilitator, id.board_index, participant, group_id));
        }
        match found {
            Some(i) => Some(&self.votes[i]),
            None => None,
        }
    }

    /// An action item of a board by its sequential id.
    pub fn get_action_item(&self, id: BoardId, item_id: u64) -> (r: Option<&ActionItem>)
        ensures
            match r {
                Some(a) => self.spec_action_item_ix(id, item_id) is Some && *a
                    == self.spec_action_item(id, item_id),
                None => self.spec_action_item_ix(id, item_id) is None,
            },
    {
        let found = find_in(&self.action_items, (id.facilitator, id.board_index, item_id, 0));
        proof {
            crate::keyed::lemma_find_by_key_props(self.action_items@, (id.facilitator, id.board_index, item_id, 0));
        }
        match found {
            Some(i) => Some(&self.action_items[i]),
            None => None,
        }
    }

    /// The verification vote of a verifier on an action item.
    pub fn get_verification_vote(&self, id: BoardId, item_id: u64, verifier: u64) -> (r: Option<
        &VerificationVote,
    >)
        ensures
            match r {
                Some(v) => self.spec_verification_vote_ix(id, item_id, verifier) is Some && *v
                    == self.verification_votes@[self.spec_verification_vote_ix(
                    id,
                    item_id,
                    verifier,
                )->Some_0],
                None => self.spec_verification_vote_ix(id, item_id, verifier) is None,
            },
    {
        let found = find_in(&self.verification_votes, (id.facilitator, id.board_index, item_id, verifier));
        proof {
            crate::keyed::lemma_find_by_key_props(self.verification_votes@, (id.facilitator, id.board_index, item_id, verifier));
        }
        match found {
            Some(i) => Some(&self.verification_votes[i]),
            None => None,
        }
    }

    /// The live session token for a delegate acting as a principal against
    /// this service, if any.
    pub fn get_session_token(&self, authority: u64, session_signer: u64) -> (r: Option<
        &SessionToken,
    >)
        ensures
            match r {
                Some(t) => self.tokens.spec_find_token(self.service_id, session_signer, authority)
                    is Some && *t == self.tokens.tokens@[self.tokens.spec_find_token(
                    self.service_id,
                    session_signer,
                    authority,
                )->Some_0],
                None => self.tokens.spec_find_token(self.service_id, session_signer, authority)
                    is None,
            },
    {
        let found = find_in(&self.tokens.tokens, (self.service_id, session_signer, authority, 0));
        proof {
            crate::keyed::lemma_find_by_key_props(self.tokens.tokens@, (self.service_id, session_signer, authority, 0));
        }
        match found {
            Some(i) => Some(&self.tokens.tokens[i]),
            None => None,
        }
    }
}

} // verus!
