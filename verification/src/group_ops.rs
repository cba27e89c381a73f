//! The group ledger: creating groups of duplicate notes and retitling
//! them during the grouping stage.

use vstd::prelude::*;

use crate::constants::MAX_GROUP_TITLE_CHARS;
use crate::error::RetroError;
use crate::keyed::{contains_u64, elem_mut, find_in, lemma_find_by_key_props, Keyed};
use crate::ledger::{
    group_ok, lemma_board_benign_update, lemma_group_benign_update, vote_ok, Ledger,
};
use crate::session_keys::Authority;
use crate::state::{BoardId, BoardStage, Group, RetroBoard};
use crate::tally::{group_tally, lemma_group_tally_zero, vote_contrib};

verus! {

impl Ledger {
    /// Validation cascade for `create_group`: board present, open, in the
    /// grouping stage; the creator allow-listed; the title acceptable; and
    /// the group counter not exhausted.
    pub open spec fn spec_create_group_check(
        self,
        auth: Authority,
        id: BoardId,
        title: Seq<char>,
        now: i64,
    ) -> Result<(), RetroError> {
        match self.tokens.spec_resolve(auth, self.service_id, now) {
            Err(e) => Err(RetroError::Session(e)),
            Ok(creator) => match self.spec_board_ix(id) {
                None => Err(RetroError::AccountNotInitialized),
                Some(i) => {
                    let b = self.boards@[i];
                    if b.closed {
                        Err(RetroError::BoardClosed)
                    } else if b.stage != BoardStage::GroupDuplicates {
                        Err(RetroError::InvalidStage)
                    } else if !b.allowlist@.contains(creator) {
                        Err(RetroError::NotOnAllowlist)
                    } else if title.len() > MAX_GROUP_TITLE_CHARS {
                        Err(RetroError::GroupTitleTooLong)
                    } else if b.group_count == u64::MAX {
                        Err(RetroError::CounterOverflow)
                    } else {
                        Ok(())
                    }
                },
            },
        }
    }

    /// Creates a group at the board's next sequential id with an empty
    /// tally and bumps the group counter. Returns the group's id.
    pub fn create_group(&mut self, auth: &Authority, id: BoardId, title: String, now: i64) -> (r:
        Result<u64, RetroError>)
        requires
            old(self).wf(),
        ensures
            final(self).wf(),
            (match r {
                Ok(_) => old(self).spec_create_group_check(*auth, id, title@, now) is Ok,
                Err(e) => old(self).spec_create_group_check(*auth, id, title@, now) == Err::<
                    (),
                    RetroError,
                >(e),
            }),
            r is Err ==> *final(self) == *old(self),
            r matches Ok(gid) ==> ({
                let bix = old(self).spec_board_ix(id)->Some_0;
                let b0 = old(self).boards@[bix];
                &&& gid == b0.group_count
                &&& final(self).groups@ == old(self).groups@.push(
                    (Group {
                        board: id,
                        group_id: b0.group_count,
                        title,
                        created_by: auth.principal(),
                        vote_tally: 0,
                    }),
                )
                &&& final(self).boards@ == old(self).boards@.update(
                    bix,
                    (RetroBoard { group_count: (b0.group_count + 1) as u64, ..b0 }),
                )
                &&& final(self).registries@ == old(self).registries@
                &&& final(self).memberships@ == old(self).memberships@
                &&& final(self).notes@ == old(self).notes@
                &&& final(self).votes@ == old(self).votes@
                &&& final(self).action_items@ == old(self).action_items@
                &&& final(self).verification_votes@ == old(self).verification_votes@
                &&& final(self).tokens == old(self).tokens
                &&& final(self).service_id == old(self).service_id
            }),
    {
        let creator = match self.tokens.resolve_and_authorize(auth, self.service_id, now) {
            Ok(p) => p,
            Err(e) => {
                return Err(RetroError::Session(e));
            },
        };
        let bix = match find_in(&self.boards, (id.facilitator, id.board_index, 0, 0)) {
            Some(i) => i,
            None => {
                return Err(RetroError::AccountNotInitialized);
            },
        };
        proof {
            lemma_find_by_key_props(self.boards@, (id.facilitator, id.board_index, 0, 0));
        }
        if self.boards[bix].closed {
            return Err(RetroError::BoardClosed);
        }
        match self.boards[bix].stage {
            BoardStage::GroupDuplicates => {},
            _ => {
                return Err(RetroError::InvalidStage);
            },
        }
        if !contains_u64(&self.boards[bix].allowlist, creator) {
            return Err(RetroError::NotOnAllowlist);
        }
        if title.as_str().unicode_len() > MAX_GROUP_TITLE_CHARS {
            return Err(RetroError::GroupTitleTooLong);
        }
        let gid = self.boards[bix].group_count;
        let new_count = match gid.checked_add(1) {
            Some(c) => c,
            None => {
                return Err(RetroError::CounterOverflow);
            },
        };
        let group = Group { board: id, group_id: gid, title, created_by: creator, vote_tally: 0 };
        let ghost gval = group;
        self.groups.push(group);
        let b = elem_mut(&mut self.boards, bix);
        b.group_count = new_count;
        proof {
            let boards0 = old(self).boards@;
            let gs0 = old(self).groups@;
            let vs0 = old(self).votes@;
            let boards2 = self.boards@;
            lemma_board_benign_update(
                old(self).registries@,
                boards0,
                old(self).memberships@,
                old(self).notes@,
                gs0,
                vs0,
                old(self).action_items@,
                old(self).verification_votes@,
                bix as int,
                boards2[bix as int],
            );
            // The fresh group key: groups of this board sit below the old
            // counter; groups of other boards differ in the board words.
            assert forall|i: int|
                0 <= i < gs0.len() implies (#[trigger] gs0[i]).key() != gval.key() by {
                assert(group_ok(gs0[i], boards0));
                let j = choose|j: int|
                    0 <= j < boards0.len() && (#[trigger] boards0[j]).id() == gs0[i].board
                        && gs0[i].group_id < boards0[j].group_count;
                if gs0[i].board == id {
                    if j != bix as int {
                        assert(boards0[j].key() == boards0[bix as int].key());
                        assert(false);
                    }
                    assert(gs0[i].group_id < gid);
                }
            }
            let gsf = self.groups@;
            assert forall|p: int, q: int|
                0 <= p < q < gsf.len() implies (#[trigger] gsf[p]).key() != (
            #[trigger] gsf[q]).key() by {
                if q < gs0.len() {
                    assert(gs0[p].key() != gs0[q].key());
                } else {
                    assert(gsf[p] == gs0[p] && gsf[q] == gval);
                }
            }
            assert forall|i: int| 0 <= i < gsf.len() implies group_ok(#[trigger] gsf[i], boards2) by {
                if i < gs0.len() {
                    assert(group_ok(gs0[i], boards2));
                } else {
                    assert(boards2[bix as int].id() == id);
                }
            }
            // No stored vote can reference the fresh group id, so its
            // tally starts at zero.
            assert forall|i: int|
                0 <= i < vs0.len() implies vote_contrib(#[trigger] vs0[i], id, gid) == 0 by {
                assert(vote_ok(vs0[i], boards0));
                let j = choose|j: int|
                    0 <= j < boards0.len() && (#[trigger] boards0[j]).id() == vs0[i].board
                        && vs0[i].group_id < boards0[j].group_count;
                if vs0[i].board == id {
                    if j != bix as int {
                        assert(boards0[j].key() == boards0[bix as int].key());
                        assert(false);
                    }
                    assert(vs0[i].group_id < gid);
                }
            }
            lemma_group_tally_zero(vs0, id, gid);
            assert forall|i: int|
                0 <= i < gsf.len() implies (#[trigger] gsf[i]).vote_tally == group_tally(
                vs0,
                gsf[i].board,
                gsf[i].group_id,
            ) by {
                if i < gs0.len() {
                    assert(gs0[i].vote_tally == group_tally(vs0, gs0[i].board, gs0[i].group_id));
                }
            }
        }
        Ok(gid)
    }

    /// Validation cascade for `set_group_title`: board present, open, in
    /// the grouping stage; the caller allow-listed; the title acceptable;
    /// and the group present.
    pub open spec fn spec_set_group_title_check(
        self,
        auth: Authority,
        id: BoardId,
        group_id: u64,
        title: Seq<char>,
        now: i64,
    ) -> Result<(), RetroError> {
        match self.tokens.spec_resolve(auth, self.service_id, now) {
            Err(e) => Err(RetroError::Session(e)),
            Ok(participant) => match self.spec_board_ix(id) {
                None => Err(RetroError::AccountNotInitialized),
                Some(i) => {
                    let b = self.boards@[i];
                    if b.closed {
                        Err(RetroError::BoardClosed)
                    } else if b.stage != BoardStage::GroupDuplicates {
                        Err(RetroError::InvalidStage)
                    } else if !b.allowlist@.contains(participant) {
                        Err(RetroError::NotOnAllowlist)
                    } else if title.len() > MAX_GROUP_TITLE_CHARS {
                        Err(RetroError::GroupTitleTooLong)
                    } else if self.spec_group_ix(id, group_id) is None {
                        Err(RetroError::AccountNotInitialized)
                    } else {
                        Ok(())
                    }
                },
            },
        }
    }

    /// Replaces a group's title during the grouping stage.
    pub fn set_group_title(
        &mut self,
        auth: &Authority,
        id: BoardId,
        group_id: u64,
        title: String,
        now: i64,
    ) -> (r: Result<(), RetroError>)
        requires
            old(self).wf(),
        ensures
            final(self).wf(),
            r == old(self).spec_set_group_title_check(*auth, id, group_id, title@, now),
            r is Err ==> *final(self) == *old(self),
            r is Ok ==> ({
                let gix = old(self).spec_group_ix(id, group_id)->Some_0;
                let g0 = old(self).groups@[gix];
                &&& final(self).groups@ == old(self).groups@.update(
                    gix,
                    (Group { title, ..g0 }),
                )
                &&& final(self).boards@ == old(self).boards@
                &&& final(self).registries@ == old(self).registries@
                &&& final(self).memberships@ == old(self).memberships@
                &&& final(self).notes@ == old(self).notes@
                &&& final(self).votes@ == old(self).votes@
                &&& final(self).action_items@ == old(self).action_items@
                &&& final(self).verification_votes@ == old(self).verification_votes@
                &&& final(self).tokens == old(self).tokens
                &&& final(self).service_id == old(self).service_id
            }),
    {
        let participant = match self.tokens.resolve_and_authorize(auth, self.service_id, now) {
            Ok(p) => p,
            Err(e) => {
                return Err(RetroError::Session(e));
            },
        };
        let bix = match find_in(&self.boards, (id.facilitator, id.board_index, 0, 0)) {
            Some(i) => i,
            None => {
                return Err(RetroError::AccountNotInitialized);
            },
        };
        proof {
            lemma_find_by_key_props(self.boards@, (id.facilitator, id.board_index, 0, 0));
        }
        if self.boards[bix].closed {
            return Err(RetroError::BoardClosed);
        }
        match self.boards[bix].stage {
            BoardStage::GroupDuplicates => {},
            _ => {
                return Err(RetroError::InvalidStage);
            },
        }
        if !contains_u64(&self.boards[bix].allowlist, participant) {
            return Err(RetroError::NotOnAllowlist);
        }
        if title.as_str().unicode_len() > MAX_GROUP_TITLE_CHARS {
            return Err(RetroError::GroupTitleTooLong);
        }
        let gix = match find_in(&self.groups, (id.facilitator, id.board_index, group_id, 0)) {
            Some(i) => i,
            None => {
                return Err(RetroError::AccountNotInitialized);
            },
        };
        proof {
            lemma_find_by_key_props(self.groups@, (id.facilitator, id.board_index, group_id, 0));
        }
        let g = elem_mut(&mut self.groups, gix);
        g.title = title;
        proof {
            lemma_group_benign_update(
                old(self).groups@,
                old(self).boards@,
                old(self).votes@,
                gix as int,
                self.groups@[gix as int],
            );
        }
        Ok(())
    }
}

} // verus!
