//! The note ledger: appending notes during the writing stage and moving
//! them in and out of groups during the grouping stage.

use vstd::prelude::*;

use crate::constants::MAX_NOTE_CHARS;
use crate::error::RetroError;
use crate::keyed::{contains_u64, elem_mut, find_in, lemma_find_by_key_props, Keyed};
use crate::ledger::{
    lemma_board_benign_update, lemma_note_benign_update, membership_ok, note_ok, Ledger,
};
use crate::session_keys::Authority;
use crate::state::{BoardId, BoardMembership, BoardStage, Note, RetroBoard};

verus! {

impl Ledger {
    /// Validation cascade for `create_note`: board present, open, in the
    /// writing stage; the author allow-listed and joined; the content and
    /// category acceptable; the author below their note cap; and the note
    /// counter not exhausted.
    pub open spec fn spec_create_note_check(
        self,
        auth: Authority,
        id: BoardId,
        category_id: u8,
        content: Seq<char>,
        now: i64,
    ) -> Result<(), RetroError> {
        match self.tokens.spec_resolve(auth, self.service_id, now) {
            Err(e) => Err(RetroError::Session(e)),
            Ok(author) => match self.spec_board_ix(id) {
                None => Err(RetroError::AccountNotInitialized),
                Some(i) => {
                    let b = self.boards@[i];
                    if b.closed {
                        Err(RetroError::BoardClosed)
                    } else if b.stage != BoardStage::WriteNotes {
                        Err(RetroError::InvalidStage)
                    } else if !b.allowlist@.contains(author) {
                        Err(RetroError::NotOnAllowlist)
                    } else {
                        match self.spec_membership_ix(id, author) {
                            None => Err(RetroError::NotJoined),
                            Some(mi) => {
                                let m = self.memberships@[mi];
                                if content.len() > MAX_NOTE_CHARS {
                                    Err(RetroError::NoteTooLong)
                                } else if category_id as int >= b.categories@.len() {
                                    Err(RetroError::InvalidCategoryId)
                                } else if m.notes_submitted >= b.max_notes_per_participant {
                                    Err(RetroError::MaxNotesReached)
                                } else if b.note_count == u64::MAX {
                                    Err(RetroError::CounterOverflow)
                                } else {
                                    Ok(())
                                }
                            },
                        }
                    }
                },
            },
        }
    }

    /// Appends a note at the board's next sequential id, bumps the note
    /// counter, and charges the author's note cap. Returns the note's id.
    pub fn create_note(
        &mut self,
        auth: &Authority,
        id: BoardId,
        category_id: u8,
        content: String,
        now: i64,
    ) -> (r: Result<u64, RetroError>)
        requires
            old(self).wf(),
        ensures
            final(self).wf(),
            (match r {
                Ok(_) => old(self).spec_create_note_check(*auth, id, category_id, content@, now)
                    is Ok,
                Err(e) => old(self).spec_create_note_check(*auth, id, category_id, content@, now)
                    == Err::<(), RetroError>(e),
            }),
            r is Err ==> *final(self) == *old(self),
            r matches Ok(nid) ==> ({
                let bix = old(self).spec_board_ix(id)->Some_0;
                let b0 = old(self).boards@[bix];
                let mix = old(self).spec_membership_ix(id, auth.principal())->Some_0;
                let m0 = old(self).memberships@[mix];
                &&& nid == b0.note_count
                &&& final(self).notes@ == old(self).notes@.push(
                    (Note {
                        board: id,
                        note_id: b0.note_count,
                        author: auth.principal(),
                        category_id,
                        content,
                        created_at: now,
                        group_id: None,
                    }),
                )
                &&& final(self).boards@ == old(self).boards@.update(
                    bix,
                    (RetroBoard { note_count: (b0.note_count + 1) as u64, ..b0 }),
                )
                &&& final(self).memberships@ == old(self).memberships@.update(
                    mix,
                    (BoardMembership { notes_submitted: (m0.notes_submitted + 1) as u8, ..m0 }),
                )
                &&& final(self).registries@ == old(self).registries@
                &&& final(self).groups@ == old(self).groups@
                &&& final(self).votes@ == old(self).votes@
                &&& final(self).action_items@ == old(self).action_items@
                &&& final(self).verification_votes@ == old(self).verification_votes@
                &&& final(self).tokens == old(self).tokens
                &&& final(self).service_id == old(self).service_id
            }),
    {
        let author = match self.tokens.resolve_and_authorize(auth, self.service_id, now) {
            Ok(p) => p,
            Err(e) => {
                return Err(RetroError::Session(e));
            },
        };
        let bix = match find_in(&self.boards, (id.facilitator, id.board_index, 0, 0)) {
            Some(i) => i,
            None => {
                return Err(RetroError::AccountNotInitialized);
            },
        };
        proof {
            lemma_find_by_key_props(self.boards@, (id.facilitator, id.board_index, 0, 0));
        }
        if self.boards[bix].closed {
            return Err(RetroError::BoardClosed);
        }
        match self.boards[bix].stage {
            BoardStage::WriteNotes => {},
            _ => {
                return Err(RetroError::InvalidStage);
            },
        }
        if !contains_u64(&self.boards[bix].allowlist, author) {
            return Err(RetroError::NotOnAllowlist);
        }
        let mix = match find_in(&self.memberships, (id.facilitator, id.board_index, author, 0)) {
            Some(i) => i,
            None => {
                return Err(RetroError::NotJoined);
            },
        };
        proof {
            lemma_find_by_key_props(self.memberships@, (id.facilitator, id.board_index, author, 0));
        }
        if content.as_str().unicode_len() > MAX_NOTE_CHARS {
            return Err(RetroError::NoteTooLong);
        }
        if category_id as usize >= self.boards[bix].categories.len() {
            return Err(RetroError::InvalidCategoryId);
        }
        let submitted = self.memberships[mix].notes_submitted;
        if submitted >= self.boards[bix].max_notes_per_participant {
            return Err(RetroError::MaxNotesReached);
        }
        let nid = self.boards[bix].note_count;
        let new_count = match nid.checked_add(1) {
            Some(c) => c,
            None => {
                return Err(RetroError::CounterOverflow);
            },
        };
        let note = Note {
            board: id,
            note_id: nid,
            author,
            category_id,
            content,
            created_at: now,
            group_id: None,
        };
        let ghost nval = note;
        self.notes.push(note);
        let b = elem_mut(&mut self.boards, bix);
        b.note_count = new_count;
        let mm = elem_mut(&mut self.memberships, mix);
        mm.notes_submitted = submitted + 1;
        proof {
            let boards0 = old(self).boards@;
            let ns0 = old(self).notes@;
            let ms0 = old(self).memberships@;
            let boards2 = self.boards@;
            let b2 = boards2[bix as int];
            let m2 = self.memberships@[mix as int];
            lemma_board_benign_update(
                old(self).registries@,
                boards0,
                ms0,
                ns0,
                old(self).groups@,
                old(self).votes@,
                old(self).action_items@,
                old(self).verification_votes@,
                bix as int,
                b2,
            );
            // The fresh note key: notes of this board sit below the old
            // counter; notes of other boards differ in the board words.
            assert forall|i: int|
                0 <= i < ns0.len() implies (#[trigger] ns0[i]).key() != nval.key() by {
                assert(note_ok(ns0[i], boards0));
                let j = choose|j: int|
                    0 <= j < boards0.len() && (#[trigger] boards0[j]).id() == ns0[i].board
                        && ns0[i].note_id < boards0[j].note_count && (ns0[i].category_id as int)
                        < boards0[j].categories@.len();
                if ns0[i].board == id {
                    if j != bix as int {
                        assert(boards0[j].key() == boards0[bix as int].key());
                        assert(false);
                    }
                    assert(ns0[i].note_id < nid);
                }
            }
            let nsf = self.notes@;
            assert forall|p: int, q: int|
                0 <= p < q < nsf.len() implies (#[trigger] nsf[p]).key() != (
            #[trigger] nsf[q]).key() by {
                if q < ns0.len() {
                    assert(ns0[p].key() != ns0[q].key());
                } else {
                    assert(nsf[p] == ns0[p] && nsf[q] == nval);
                }
            }
            assert forall|i: int| 0 <= i < nsf.len() implies note_ok(#[trigger] nsf[i], boards2) by {
                if i < ns0.len() {
                    assert(note_ok(ns0[i], boards2));
                } else {
                    assert(boards2[bix as int].id() == id);
                }
            }
            // The membership update keeps its key and stays within the
            // board's caps.
            let msf = self.memberships@;
            assert(m2.key() == ms0[mix as int].key());
            assert forall|p: int, q: int|
                0 <= p < q < msf.len() implies (#[trigger] msf[p]).key() != (
            #[trigger] msf[q]).key() by {
                assert(ms0[p].key() != ms0[q].key());
            }
            assert forall|i: int| 0 <= i < msf.len() implies membership_ok(#[trigger] msf[i], boards2) by {
                assert(membership_ok(ms0[i], boards2));
                if i == mix as int {
                    let j = choose|j: int|
                        0 <= j < boards2.len() && (#[trigger] boards2[j]).id() == ms0[i].board
                            && ms0[i].credits_spent <= boards2[j].voting_credits_per_participant
                            && ms0[i].notes_submitted <= boards2[j].max_notes_per_participant;
                    if j != bix as int {
                        assert(boards2[j].key() == boards2[bix as int].key());
                        assert(false);
                    }
                    assert(boards2[j].id() == m2.board && m2.credits_spent
                        <= boards2[j].voting_credits_per_participant && m2.notes_submitted
                        <= boards2[j].max_notes_per_participant);
                }
            }
        }
        Ok(nid)
    }

    /// Validation cascade for `assign_note_to_group`: board present, open,
    /// in the grouping stage; the caller allow-listed; the group and note
    /// present; and the note not already grouped.
    pub open spec fn spec_assign_note_to_group_check(
        self,
        auth: Authority,
        id: BoardId,
        note_id: u64,
        group_id: u64,
        now: i64,
    ) -> Result<(), RetroError> {
        match self.tokens.spec_resolve(auth, self.service_id, now) {
            Err(e) => Err(RetroError::Session(e)),
            Ok(participant) => match self.spec_board_ix(id) {
                None => Err(RetroError::AccountNotInitialized),
                Some(i) => {
                    let b = self.boards@[i];
                    if b.closed {
                        Err(RetroError::BoardClosed)
                    } else if b.stage != BoardStage::GroupDuplicates {
                        Err(RetroError::InvalidStage)
                    } else if !b.allowlist@.contains(participant) {
                        Err(RetroError::NotOnAllowlist)
                    } else if self.spec_group_ix(id, group_id) is None {
                        Err(RetroError::AccountNotInitialized)
                    } else {
                        match self.spec_note_ix(id, note_id) {
                            None => Err(RetroError::AccountNotInitialized),
                            Some(ni) => if self.notes@[ni].group_id is Some {
                                Err(RetroError::NoteAlreadyGrouped)
                            } else {
                                Ok(())
                            },
                        }
                    }
                },
            },
        }
    }

    /// Assigns an ungrouped note to an existing group; a grouped note must
    /// be unassigned first.
    pub fn assign_note_to_group(
        &mut self,
        auth: &Authority,
        id: BoardId,
        note_id: u64,
        group_id: u64,
        now: i64,
    ) -> (r: Result<(), RetroError>)
        requires
            old(self).wf(),
        ensures
            final(self).wf(),
            r == old(self).spec_assign_note_to_group_check(*auth, id, note_id, group_id, now),
            r is Err ==> *final(self) == *old(self),
            r is Ok ==> ({
                let nix = old(self).spec_note_ix(id, note_id)->Some_0;
                let n0 = old(self).notes@[nix];
                &&& final(self).notes@ == old(self).notes@.update(
                    nix,
                    (Note { group_id: Some(group_id), ..n0 }),
                )
                &&& final(self).boards@ == old(self).boards@
                &&& final(self).registries@ == old(self).registries@
                &&& final(self).memberships@ == old(self).memberships@
                &&& final(self).groups@ == old(self).groups@
                &&& final(self).votes@ == old(self).votes@
                &&& final(self).action_items@ == old(self).action_items@
                &&& final(self).verification_votes@ == old(self).verification_votes@
                &&& final(self).tokens == old(self).tokens
                &&& final(self).service_id == old(self).service_id
            }),
    {
        let participant = match self.tokens.resolve_and_authorize(auth, self.service_id, now) {
            Ok(p) => p,
            Err(e) => {
                return Err(RetroError::Session(e));
            },
        };
        let bix = match find_in(&self.boards, (id.facilitator, id.board_index, 0, 0)) {
            Some(i) => i,
            None => {
                return Err(RetroError::AccountNotInitialized);
            },
        };
        proof {
            lemma_find_by_key_props(self.boards@, (id.facilitator, id.board_index, 0, 0));
        }
        if self.boards[bix].closed {
            return Err(RetroError::BoardClosed);
        }
        match self.boards[bix].stage {
            BoardStage::GroupDuplicates => {},
            _ => {
                return Err(RetroError::InvalidStage);
            },
        }
        if !contains_u64(&self.boards[bix].allowlist, participant) {
            return Err(RetroError::NotOnAllowlist);
        }
        match find_in(&self.groups, (id.facilitator, id.board_index, group_id, 0)) {
            Some(_) => {},
            None => {
                return Err(RetroError::AccountNotInitialized);
            },
        }
        let nix = match find_in(&self.notes, (id.facilitator, id.board_index, note_id, 0)) {
            Some(i) => i,
            None => {
                return Err(RetroError::AccountNotInitialized);
            },
        };
        proof {
            lemma_find_by_key_props(self.notes@, (id.facilitator, id.board_index, note_id, 0));
        }
        if self.notes[nix].group_id.is_some() {
            return Err(RetroError::NoteAlreadyGrouped);
        }
        let n = elem_mut(&mut self.notes, nix);
        n.group_id = Some(group_id);
        proof {
            lemma_note_benign_update(
                old(self).notes@,
                old(self).boards@,
                nix as int,
                self.notes@[nix as int],
            );
        }
        Ok(())
    }

    /// Validation cascade for `unassign_note`: board present, open, in the
    /// grouping stage; the caller allow-listed; the note present and
    /// currently grouped.
    pub open spec fn spec_unassign_note_check(
        self,
        auth: Authority,
        id: BoardId,
        note_id: u64,
        now: i64,
    ) -> Result<(), RetroError> {
        match self.tokens.spec_resolve(auth, self.service_id, now) {
            Err(e) => Err(RetroError::Session(e)),
            Ok(participant) => match self.spec_board_ix(id) {
                None => Err(RetroError::AccountNotInitialized),
                Some(i) => {
                    let b = self.boards@[i];
                    if b.closed {
                        Err(RetroError::BoardClosed)
                    } else if b.stage != BoardStage::GroupDuplicates {
                        Err(RetroError::InvalidStage)
                    } else if !b.allowlist@.contains(participant) {
                        Err(RetroError::NotOnAllowlist)
                    } else {
                        match self.spec_note_ix(id, note_id) {
                            None => Err(RetroError::AccountNotInitialized),
                            Some(ni) => if self.notes@[ni].group_id is None {
                                Err(RetroError::NoteNotGrouped)
                            } else {
                                Ok(())
                            },
                        }
                    }
                },
            },
        }
    }

    /// Clears a note's group assignment; unassigning an ungrouped note
    /// fails.
    pub fn unassign_note(
        &mut self,
        auth: &Authority,
        id: BoardId,
        note_id: u64,
        now: i64,
    ) -> (r: Result<(), RetroError>)
        requires
            old(self).wf(),
        ensures
            final(self).wf(),
            r == old(self).spec_unassign_note_check(*auth, id, note_id, now),
            r is Err ==> *final(self) == *old(self),
            r is Ok ==> ({
                let nix = old(self).spec_note_ix(id, note_id)->Some_0;
                let n0 = old(self).notes@[nix];
                &&& final(self).notes@ == old(self).notes@.update(
                    nix,
                    (Note { group_id: None, ..n0 }),
                )
                &&& final(self).boards@ == old(self).boards@
                &&& final(self).registries@ == old(self).registries@
                &&& final(self).memberships@ == old(self).memberships@
                &&& final(self).groups@ == old(self).groups@
                &&& final(self).votes@ == old(self).votes@
                &&& final(self).action_items@ == old(self).action_items@
                &&& final(self).verification_votes@ == old(self).verification_votes@
                &&& final(self).tokens == old(self).tokens
                &&& final(self).service_id == old(self).service_id
            }),
    {
        let participant = match self.tokens.resolve_and_authorize(auth, self.service_id, now) {
            Ok(p) => p,
            Err(e) => {
                return Err(RetroError::Session(e));
            },
        };
        let bix = match find_in(&self.boards, (id.facilitator, id.board_index, 0, 0)) {
            Some(i) => i,
            None => {
                return Err(RetroError::AccountNotInitialized);
            },
        };
        proof {
            lemma_find_by_key_props(self.boards@, (id.facilitator, id.board_index, 0, 0));
        }
        if self.boards[bix].closed {
            return Err(RetroError::BoardClosed);
        }
        match self.boards[bix].stage {
            BoardStage::GroupDuplicates => {},
            _ => {
                return Err(RetroError::InvalidStage);
            },
        }
        if !contains_u64(&self.boards[bix].allowlist, participant) {
            return Err(RetroError::NotOnAllowlist);
        }
        let nix = match find_in(&self.notes, (id.facilitator, id.board_index, note_id, 0)) {
            Some(i) => i,
            None => {
                return Err(RetroError::AccountNotInitialized);
            },
        };
        proof {
            lemma_find_by_key_props(self.notes@, (id.facilitator, id.board_index, note_id, 0));
        }
        if self.notes[nix].group_id.is_none() {
            return Err(RetroError::NoteNotGrouped);
        }
        let n = elem_mut(&mut self.notes, nix);
        n.group_id = None;
        proof {
            lemma_note_benign_update(
                old(self).notes@,
                old(self).boards@,
                nix as int,
                self.notes@[nix as int],
            );
        }
        Ok(())
    }
}

} // verus!
