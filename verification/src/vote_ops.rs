//! The voting ledger: credit-limited, cumulative votes on groups. One
//! call updates the voter's membership, the (voter, group) vote record,
//! and the group's tally together or not at all, and the tally always
//! equals the sum of the vote records referencing the group.

use vstd::prelude::*;

use crate::error::RetroError;
use crate::keyed::{contains_u64, elem_mut, find_in, lemma_find_by_key_props, Keyed};
use crate::ledger::{group_ok, membership_ok, vote_ok, Ledger};
use crate::session_keys::Authority;
use crate::state::{BoardId, BoardMembership, BoardStage, Group, VoteRecord};
use crate::tally::{group_tally, lemma_group_tally_push, lemma_group_tally_update, vote_contrib};

verus! {

impl Ledger {
    /// Validation cascade for `cast_vote`: board present, open, in the
    /// voting stage; the voter allow-listed; the spend strictly positive;
    /// the voter's running total within budget; the group present; and
    /// neither the vote record nor the tally overflowing.
    pub open spec fn spec_cast_vote_check(
        self,
        auth: Authority,
        id: BoardId,
        group_id: u64,
        credits_delta: u8,
        now: i64,
    ) -> Result<(), RetroError> {
        match self.tokens.spec_resolve(auth, self.service_id, now) {
            Err(e) => Err(RetroError::Session(e)),
            Ok(voter) => match self.spec_board_ix(id) {
                None => Err(RetroError::AccountNotInitialized),
                Some(i) => {
                    let b = self.boards@[i];
                    if b.closed {
                        Err(RetroError::BoardClosed)
                    } else if b.stage != BoardStage::Vote {
                        Err(RetroError::InvalidStage)
                    } else if !b.allowlist@.contains(voter) {
                        Err(RetroError::NotOnAllowlist)
                    } else if credits_delta == 0 {
                        Err(RetroError::CannotDecreaseVotes)
                    } else {
                        let spent: int = match self.spec_membership_ix(id, voter) {
                            Some(mi) => self.memberships@[mi].credits_spent as int,
                            None => 0,
                        };
                        if spent + credits_delta > b.voting_credits_per_participant {
                            Err(RetroError::InsufficientCredits)
                        } else {
                            match self.spec_group_ix(id, group_id) {
                                None => Err(RetroError::AccountNotInitialized),
                                Some(gi) => {
                                    let vcred: int = match self.spec_vote_ix(
                                        id,
                                        voter,
                                        group_id,
                                    ) {
                                        Some(vi) => self.votes@[vi].credits_spent as int,
                                        None => 0,
                                    };
                                    if vcred + credits_delta > u8::MAX {
                                        Err(RetroError::InsufficientCredits)
                                    } else if self.groups@[gi].vote_tally + credits_delta
                                        > u64::MAX {
                                        Err(RetroError::InsufficientCredits)
                                    } else {
                                        Ok(())
                                    }
                                },
                            }
                        }
                    }
                },
            },
        }
    }

    /// Spends voting credits on a group. The voter's membership and vote
    /// record are created lazily on first touch; the spend accumulates and
    /// can never be retracted.
    pub fn cast_vote(
        &mut self,
        auth: &Authority,
        id: BoardId,
        group_id: u64,
        credits_delta: u8,
        now: i64,
    ) -> (r: Result<(), RetroError>)
        requires
            old(self).wf(),
        ensures
            final(self).wf(),
            r == old(self).spec_cast_vote_check(*auth, id, group_id, credits_delta, now),
            r is Err ==> *final(self) == *old(self),
            r is Ok ==> forall|i: int|
                0 <= i < old(self).memberships@.len()
                    ==> final(self).memberships@[i].credits_spent
                    >= old(self).memberships@[i].credits_spent,
            r is Ok ==> ({
                let voter = auth.principal();
                let gix = old(self).spec_group_ix(id, group_id)->Some_0;
                let g0 = old(self).groups@[gix];
                &&& final(self).groups@ == old(self).groups@.update(
                    gix,
                    (Group { vote_tally: (g0.vote_tally + credits_delta) as u64, ..g0 }),
                )
                &&& (match old(self).spec_membership_ix(id, voter) {
                    Some(mi) => final(self).memberships@ == old(self).memberships@.update(
                        mi,
                        (BoardMembership {
                            credits_spent: (old(self).memberships@[mi].credits_spent
                                + credits_delta) as u8,
                            ..old(self).memberships@[mi]
                        }),
                    ),
                    None => final(self).memberships@ == old(self).memberships@.push(
                        (BoardMembership {
                            board: id,
                            participant: voter,
                            notes_submitted: 0,
                            credits_spent: credits_delta,
                            score: 0,
                        }),
                    ),
                })
                &&& (match old(self).spec_vote_ix(id, voter, group_id) {
                    Some(vi) => final(self).votes@ == old(self).votes@.update(
                        vi,
                        (VoteRecord {
                            credits_spent: (old(self).votes@[vi].credits_spent
                                + credits_delta) as u8,
                            ..old(self).votes@[vi]
                        }),
                    ),
                    None => final(self).votes@ == old(self).votes@.push(
                        (VoteRecord {
                            board: id,
                            participant: voter,
                            group_id,
                            credits_spent: credits_delta,
                        }),
                    ),
                })
                &&& final(self).boards@ == old(self).boards@
                &&& final(self).registries@ == old(self).registries@
                &&& final(self).notes@ == old(self).notes@
                &&& final(self).action_items@ == old(self).action_items@
                &&& final(self).verification_votes@ == old(self).verification_votes@
                &&& final(self).tokens == old(self).tokens
                &&& final(self).service_id == old(self).service_id
            }),
    {
        let voter = match self.tokens.resolve_and_authorize(auth, self.service_id, now) {
            Ok(p) => p,
            Err(e) => {
                return Err(RetroError::Session(e));
            },
        };
        let bix = match find_in(&self.boards, (id.facilitator, id.board_index, 0, 0)) {
            Some(i) => i,
            None => {
                return Err(RetroError::AccountNotInitialized);
            },
        };
        proof {
            lemma_find_by_key_props(self.boards@, (id.facilitator, id.board_index, 0, 0));
        }
        if self.boards[bix].closed {
            return Err(RetroError::BoardClosed);
        }
        match self.boards[bix].stage {
            BoardStage::Vote => {},
            _ => {
                return Err(RetroError::InvalidStage);
            },
        }
        if !contains_u64(&self.boards[bix].allowlist, voter) {
            return Err(RetroError::NotOnAllowlist);
        }
        if credits_delta == 0 {
            return Err(RetroError::CannotDecreaseVotes);
        }
        let mix_opt = find_in(&self.memberships, (id.facilitator, id.board_index, voter, 0));
        proof {
            lemma_find_by_key_props(self.memberships@, (id.facilitator, id.board_index, voter, 0));
        }
        let spent: u8 = match mix_opt {
            Some(mi) => self.memberships[mi].credits_spent,
            None => 0,
        };
        let new_total = match spent.checked_add(credits_delta) {
            Some(t) => t,
            None => {
                return Err(RetroError::InsufficientCredits);
            },
        };
        if new_total > self.boards[bix].voting_credits_per_participant {
            return Err(RetroError::InsufficientCredits);
        }
        let gix = match find_in(&self.groups, (id.facilitator, id.board_index, group_id, 0)) {
            Some(i) => i,
            None => {
                return Err(RetroError::AccountNotInitialized);
            },
        };
        proof {
            lemma_find_by_key_props(self.groups@, (id.facilitator, id.board_index, group_id, 0));
        }
        let vix_opt = find_in(&self.votes, (id.facilitator, id.board_index, voter, group_id));
        proof {
            lemma_find_by_key_props(
                self.votes@,
                (id.facilitator, id.board_index, voter, group_id),
            );
        }
        let vcred: u8 = match vix_opt {
            Some(vi) => self.votes[vi].credits_spent,
            None => 0,
        };
        let new_vcred = match vcred.checked_add(credits_delta) {
            Some(c) => c,
            None => {
                return Err(RetroError::InsufficientCredits);
            },
        };
        let old_tally = self.groups[gix].vote_tally;
        let new_tally = match old_tally.checked_add(credits_delta as u64) {
            Some(t) => t,
            None => {
                return Err(RetroError::InsufficientCredits);
            },
        };

        // All checks passed; apply the three-record update.
        match vix_opt {
            Some(vi) => {
                let v = elem_mut(&mut self.votes, vi);
                v.credits_spent = new_vcred;
            },
            None => {
                self.votes.push(
                    VoteRecord { board: id, participant: voter, group_id, credits_spent: new_vcred },
                );
            },
        }
        match mix_opt {
            Some(mi) => {
                let m = elem_mut(&mut self.memberships, mi);
                m.credits_spent = new_total;
            },
            None => {
                self.memberships.push(
                    BoardMembership {
                        board: id,
                        participant: voter,
                        notes_submitted: 0,
                        credits_spent: new_total,
                        score: 0,
                    },
                );
            },
        }
        let g = elem_mut(&mut self.groups, gix);
        g.vote_tally = new_tally;

        proof {
            let boards0 = old(self).boards@;
            let ms0 = old(self).memberships@;
            let gs0 = old(self).groups@;
            let vs0 = old(self).votes@;
            let msf = self.memberships@;
            let gsf = self.groups@;
            let vsf = self.votes@;

            // Memberships: one record raised within budget, or one fresh
            // record within budget.
            assert forall|p: int, q: int|
                0 <= p < q < msf.len() implies (#[trigger] msf[p]).key() != (
            #[trigger] msf[q]).key() by {
                if q < ms0.len() {
                    assert(ms0[p].key() != ms0[q].key());
                } else {
                    assert(msf[p] == ms0[p]);
                }
            }
            assert forall|i: int| 0 <= i < msf.len() implies membership_ok(#[trigger] msf[i], boards0) by {
                if i < ms0.len() && (mix_opt is None || i != mix_opt->Some_0) {
                    assert(msf[i] == ms0[i]);
                    assert(membership_ok(ms0[i], boards0));
                } else if mix_opt is Some && i == mix_opt->Some_0 {
                    assert(membership_ok(ms0[i], boards0));
                    let j = choose|j: int|
                        0 <= j < boards0.len() && (#[trigger] boards0[j]).id() == ms0[i].board
                            && ms0[i].credits_spent <= boards0[j].voting_credits_per_participant
                            && ms0[i].notes_submitted <= boards0[j].max_notes_per_participant;
                    if j != bix as int {
                        assert(boards0[j].key() == boards0[bix as int].key());
                        assert(false);
                    }
                    assert(boards0[j].id() == msf[i].board && msf[i].credits_spent
                        <= boards0[j].voting_credits_per_participant && msf[i].notes_submitted
                        <= boards0[j].max_notes_per_participant);
                } else {
                    assert(boards0[bix as int].id() == id);
                }
            }

            // Vote records: one record raised, keys kept, or one fresh
            // record for an existing group.
            assert forall|p: int, q: int|
                0 <= p < q < vsf.len() implies (#[trigger] vsf[p]).key() != (
            #[trigger] vsf[q]).key() by {
                if q < vs0.len() {
                    assert(vs0[p].key() != vs0[q].key());
                } else {
                    assert(vsf[p] == vs0[p]);
                }
            }
            assert(group_ok(gs0[gix as int], boards0));
            let gw = choose|j: int|
                0 <= j < boards0.len() && (#[trigger] boards0[j]).id() == gs0[gix as int].board
                    && gs0[gix as int].group_id < boards0[j].group_count;
            if gw != bix as int {
                assert(boards0[gw].key() == boards0[bix as int].key());
                assert(false);
            }
            assert forall|i: int| 0 <= i < vsf.len() implies vote_ok(#[trigger] vsf[i], boards0) by {
                if i < vs0.len() && (vix_opt is None || i != vix_opt->Some_0) {
                    assert(vsf[i] == vs0[i]);
                    assert(vote_ok(vs0[i], boards0));
                } else if vix_opt is Some && i == vix_opt->Some_0 {
                    assert(vote_ok(vs0[i], boards0));
                    let j = choose|j: int|
                        0 <= j < boards0.len() && (#[trigger] boards0[j]).id() == vs0[i].board
                            && vs0[i].group_id < boards0[j].group_count;
                    assert(boards0[j].id() == vsf[i].board && vsf[i].group_id
                        < boards0[j].group_count);
                } else {
                    assert(boards0[bix as int].id() == id && vsf[i].group_id
                        < boards0[bix as int].group_count);
                }
            }

            // Tallies: the touched group gains exactly the delta; every
            // other group's sum is untouched because the changed record
            // references only this group.
            assert forall|i: int|
                0 <= i < gsf.len() implies (#[trigger] gsf[i]).vote_tally == group_tally(
                vsf,
                gsf[i].board,
                gsf[i].group_id,
            ) by {
                let beta = gsf[i].board;
                let gamma = gsf[i].group_id;
                assert(gs0[i].vote_tally == group_tally(vs0, gs0[i].board, gs0[i].group_id));
                let matches_here = beta == id && gamma == group_id;
                if i != gix as int && matches_here {
                    assert(gs0[i].key() == gs0[gix as int].key());
                    assert(false);
                }
                match vix_opt {
                    Some(vi) => {
                        lemma_group_tally_update(vs0, vi as int, vsf[vi as int], beta, gamma);
                        assert(vote_contrib(vsf[vi as int], beta, gamma) - vote_contrib(
                            vs0[vi as int],
                            beta,
                            gamma,
                        ) == if matches_here {
                            credits_delta as int
                        } else {
                            0
                        });
                    },
                    None => {
                        lemma_group_tally_push(vs0, vsf[vsf.len() - 1], beta, gamma);
                        assert(vote_contrib(vsf[vsf.len() - 1], beta, gamma) == if matches_here {
                            credits_delta as int
                        } else {
                            0
                        });
                    },
                }
            }
        }
        Ok(())
    }
}

} // verus!
