//! The round boundary: the clock advances, and every ledger and exit queue entry
//! is consolidated at the new round.
use vstd::prelude::*;
use crate::bond::{
    AccountId, Balance, BlockNumber, RoundIndex, unbond_due, unbond_pending, unlock_due,
    unlock_pending, lemma_unbond_split,
};
use crate::collator::{StakerStatus, StakingCollators};
use crate::keyed::{has_key, keys_unique, lemma_push_keys};
use crate::leaving::{Leaving, LeavingView, drain_view, drain_released};
use crate::nominator::StakingNominators;
use crate::pallet::{
    CurrencyOp, Pallet, collator_ok, collator_held, nominator_held, exit_held, op_delta,
    net_reserved,
};
use crate::round::{RoundInfo, saturate_u32};
use crate::sums::{sum_of, lemma_sum_push, lemma_sum_update};

verus! {

/// `c1` is the collator ledger `c0` after the round boundary at round `r`: an
/// onboarding collator is active, the unlocking chunks due are active stake, and
/// the unbonding chunks due have left the total.
pub open spec fn collator_consolidated(c0: StakingCollators, c1: StakingCollators, r: RoundIndex) -> bool {
    &&& c1.status == (if c0.status == StakerStatus::Onboarding {
        StakerStatus::Active
    } else {
        c0.status
    })
    &&& c1.active == c0.active + unlock_due(c0.unlocking@, r)
    &&& c1.unlocking@ == unlock_pending(c0.unlocking@, r)
    &&& c1.total == c0.total - unbond_due(c0.unbonding@, r)
    &&& c1.unbonding@ == unbond_pending(c0.unbonding@, r)
    &&& c1.nominations == c0.nominations
    &&& c1.claimed_rewards == c0.claimed_rewards
}

/// `n1` is the nominator ledger `n0` after the round boundary at round `r`: the
/// unbonding chunks due have left the total.
pub open spec fn nominator_consolidated(n0: StakingNominators, n1: StakingNominators, r: RoundIndex) -> bool {
    &&& n1.total == n0.total - unbond_due(n0.unbonding@, r)
    &&& n1.unbonding@ == unbond_pending(n0.unbonding@, r)
    &&& n1.nominations == n0.nominations
    &&& n1.claimed_rewards == n0.claimed_rewards
}

/// The exit queue as the values it holds.
pub open spec fn exit_view(s: Seq<(AccountId, Leaving)>) -> Seq<(AccountId, LeavingView)> {
    s.map_values(|e: (AccountId, Leaving)| (e.0, e.1@))
}

/// The exit queue `s` after draining every entry at round `r`, in order.
pub open spec fn drain_all(s: Seq<(AccountId, LeavingView)>, r: RoundIndex) -> Seq<(AccountId, LeavingView)>
    decreases s.len(),
{
    if s.len() == 0 {
        s
    } else {
        let rest = drain_all(s.drop_last(), r);
        match drain_view(s.last().1, r) {
            Some(v) => rest.push((s.last().0, v)),
            None => rest,
        }
    }
}

/// The releases that draining every entry of `s` at round `r` gives, in order.
pub open spec fn drain_ops(s: Seq<(AccountId, LeavingView)>, r: RoundIndex) -> Seq<CurrencyOp>
    decreases s.len(),
{
    if s.len() == 0 {
        Seq::empty()
    } else {
        drain_ops(s.drop_last(), r).push(
            CurrencyOp::Unreserve(s.last().0, drain_released(s.last().1, r) as Balance),
        )
    }
}

/// The releases of a round boundary for the ledgers of `s`, in order.
pub open spec fn collator_ops(s: Seq<(AccountId, StakingCollators)>, r: RoundIndex) -> Seq<CurrencyOp> {
    s.map_values(
        |e: (AccountId, StakingCollators)|
            CurrencyOp::Unreserve(e.0, unbond_due(e.1.unbonding@, r) as Balance),
    )
}

/// The releases of a round boundary for the ledgers of `s`, in order.
pub open spec fn nominator_ops(s: Seq<(AccountId, StakingNominators)>, r: RoundIndex) -> Seq<CurrencyOp> {
    s.map_values(
        |e: (AccountId, StakingNominators)|
            CurrencyOp::Unreserve(e.0, unbond_due(e.1.unbonding@, r) as Balance),
    )
}

impl Pallet {
    /// Consolidates every collator ledger at round `current_round`, releasing for
    /// each what left its total.
    pub fn update_collators(&mut self, current_round: RoundIndex) -> (ops: Vec<CurrencyOp>)
        requires
            old(self).wf(),
        ensures
            final(self).wf(),
            final(self).collator_entries@.len() == old(self).collator_entries@.len(),
            forall|j: int| 0 <= j < old(self).collator_entries@.len() ==> {
                &&& (#[trigger] final(self).collator_entries@[j]).0 == old(self).collator_entries@[j].0
                &&& collator_consolidated(
                    old(self).collator_entries@[j].1,
                    final(self).collator_entries@[j].1,
                    current_round,
                )
            },
            ops@ == collator_ops(old(self).collator_entries@, current_round),
            Pallet::same_but_collators(old(self), final(self)),
            final(self).staked() == old(self).staked() + net_reserved(ops@),
    {
        let ghost pre = *self;
        let ghost old_c = self.collator_entries@;
        let mut ops: Vec<CurrencyOp> = Vec::new();
        let mut i: usize = 0;
        while i < self.collator_entries.len()
            invariant
                0 <= i <= old_c.len(),
                Pallet::same_but_collators(&pre, self),
                self.collator_entries@.len() == old_c.len(),
                keys_unique(old_c),
                forall|j: int| 0 <= j < old_c.len() ==> #[trigger] self.collator_entries@[j].0 == old_c[j].0,
                forall|j: int|
                    0 <= j < i ==> collator_consolidated(
                        old_c[j].1,
                        #[trigger] self.collator_entries@[j].1,
                        current_round,
                    ),
                forall|j: int| i <= j < old_c.len() ==> #[trigger] self.collator_entries@[j] == old_c[j],
                forall|j: int| 0 <= j < old_c.len() ==> collator_ok(#[trigger] self.collator_entries@[j].1),
                ops@.len() == i,
                forall|j: int| 0 <= j < i ==> #[trigger] ops@[j] == CurrencyOp::Unreserve(
                    old_c[j].0,
                    unbond_due(old_c[j].1.unbonding@, current_round) as Balance,
                ),
                sum_of(self.collator_entries@, collator_held()) == sum_of(old_c, collator_held())
                    + net_reserved(ops@),
            decreases old_c.len() - i,
        {
            let ghost cur = self.collator_entries@;
            proof {
                assert(cur[i as int] == old_c[i as int]);
                assert(collator_ok(cur[i as int].1));
            }
            let who = self.collator_entries[i].0;
            let mut c = StakingCollators::new(0, 0);
            std::mem::swap(&mut c, &mut self.collator_entries[i].1);
            c.active_onboard();
            let c = c.consolidate_active(current_round);
            let before = c.total;
            proof {
                lemma_unbond_split(c.unbonding@, current_round);
            }
            let c = c.consolidate_unbonded(current_round);
            let released = before - c.total;
            let ghost c1 = c;
            self.collator_entries.set(i, (who, c));
            let ghost ops0 = ops@;
            ops.push(CurrencyOp::Unreserve(who, released));
            proof {
                assert(self.collator_entries@ == cur.update(i as int, (who, c1)));
                lemma_sum_update(cur, i as int, (who, c1), collator_held());
                lemma_sum_push(ops0, CurrencyOp::Unreserve(who, released), op_delta());
                assert forall|a: int, b: int| 0 <= a < b < self.collator_entries@.len() implies
                    #[trigger] self.collator_entries@[a].0 != #[trigger] self.collator_entries@[b].0 by {
                    assert(self.collator_entries@[a].0 == old_c[a].0);
                    assert(self.collator_entries@[b].0 == old_c[b].0);
                }
            }
            i = i + 1;
        }
        proof {
            assert forall|a: int, b: int| 0 <= a < b < self.collator_entries@.len() implies
                #[trigger] self.collator_entries@[a].0 != #[trigger] self.collator_entries@[b].0 by {
                assert(self.collator_entries@[a].0 == old_c[a].0);
                assert(self.collator_entries@[b].0 == old_c[b].0);
            }
        }
        assert(ops@ =~= collator_ops(old_c, current_round));
        ops
    }

    /// Consolidates every nominator ledger at round `current_round`, releasing for
    /// each what left its total.
    pub fn update_nominators(&mut self, current_round: RoundIndex) -> (ops: Vec<CurrencyOp>)
        requires
            old(self).wf(),
        ensures
            final(self).wf(),
            final(self).nominator_entries@.len() == old(self).nominator_entries@.len(),
            forall|j: int| 0 <= j < old(self).nominator_entries@.len() ==> {
                &&& (#[trigger] final(self).nominator_entries@[j]).0 == old(self).nominator_entries@[j].0
                &&& nominator_consolidated(
                    old(self).nominator_entries@[j].1,
                    final(self).nominator_entries@[j].1,
                    current_round,
                )
            },
            ops@ == nominator_ops(old(self).nominator_entries@, current_round),
            final(self).config == old(self).config,
            final(self).round == old(self).round,
            final(self).collator_entries == old(self).collator_entries,
            final(self).exit_entries == old(self).exit_entries,
            final(self).version == old(self).version,
            final(self).staked() == old(self).staked() + net_reserved(ops@),
    {
        let ghost pre = *self;
        let ghost old_n = self.nominator_entries@;
        let mut ops: Vec<CurrencyOp> = Vec::new();
        let mut i: usize = 0;
        while i < self.nominator_entries.len()
            invariant
                0 <= i <= old_n.len(),
                self.config == pre.config,
                self.round == pre.round,
                self.collator_entries == pre.collator_entries,
                self.exit_entries == pre.exit_entries,
                self.version == pre.version,
                self.nominator_entries@.len() == old_n.len(),
                keys_unique(old_n),
                forall|j: int| 0 <= j < old_n.len() ==> #[trigger] self.nominator_entries@[j].0 == old_n[j].0,
                forall|j: int|
                    0 <= j < i ==> nominator_consolidated(
                        old_n[j].1,
                        #[trigger] self.nominator_entries@[j].1,
                        current_round,
                    ),
                forall|j: int| i <= j < old_n.len() ==> #[trigger] self.nominator_entries@[j] == old_n[j],
                forall|j: int| 0 <= j < old_n.len() ==> (#[trigger] self.nominator_entries@[j].1).wf(),
                ops@.len() == i,
                forall|j: int| 0 <= j < i ==> #[trigger] ops@[j] == CurrencyOp::Unreserve(
                    old_n[j].0,
                    unbond_due(old_n[j].1.unbonding@, current_round) as Balance,
                ),
                sum_of(self.nominator_entries@, nominator_held()) == sum_of(old_n, nominator_held())
                    + net_reserved(ops@),
            decreases old_n.len() - i,
        {
            let ghost cur = self.nominator_entries@;
            proof {
                assert(cur[i as int] == old_n[i as int]);
                assert(cur[i as int].1.wf());
            }
            let who = self.nominator_entries[i].0;
            let mut n = StakingNominators::new(Vec::new(), 0);
            std::mem::swap(&mut n, &mut self.nominator_entries[i].1);
            let before = n.total;
            proof {
                lemma_unbond_split(n.unbonding@, current_round);
            }
            let n = n.consolidate_unbonded(current_round);
            let released = before - n.total;
            let ghost n1 = n;
            self.nominator_entries.set(i, (who, n));
            let ghost ops0 = ops@;
            ops.push(CurrencyOp::Unreserve(who, released));
            proof {
                assert(self.nominator_entries@ == cur.update(i as int, (who, n1)));
                lemma_sum_update(cur, i as int, (who, n1), nominator_held());
                lemma_sum_push(ops0, CurrencyOp::Unreserve(who, released), op_delta());
            }
            i = i + 1;
        }
        proof {
            assert forall|a: int, b: int| 0 <= a < b < self.nominator_entries@.len() implies
                #[trigger] self.nominator_entries@[a].0 != #[trigger] self.nominator_entries@[b].0 by {
                assert(self.nominator_entries@[a].0 == old_n[a].0);
                assert(self.nominator_entries@[b].0 == old_n[b].0);
            }
        }
        assert(ops@ =~= nominator_ops(old_n, current_round));
        ops
    }

    /// Drains every exit queue entry at round `current_round`: entries whose
    /// release round has come are released in full and leave the queue, the others
    /// release the unbonding chunks that are due.
    pub fn execute_exit_queue(&mut self, current_round: RoundIndex) -> (ops: Vec<CurrencyOp>)
        requires
            old(self).wf(),
        ensures
            final(self).wf(),
            exit_view(final(self).exit_entries@) == drain_all(exit_view(old(self).exit_entries@), current_round),
            ops@ == drain_ops(exit_view(old(self).exit_entries@), current_round),
            final(self).config == old(self).config,
            final(self).round == old(self).round,
            final(self).collator_entries == old(self).collator_entries,
            final(self).nominator_entries == old(self).nominator_entries,
            final(self).version == old(self).version,
            final(self).staked() == old(self).staked() + net_reserved(ops@),
    {
        let mut queue: Vec<(AccountId, Leaving)> = Vec::new();
        std::mem::swap(&mut queue, &mut self.exit_entries);
        let ghost old_e = queue@;
        let ghost pre = *self;
        let mut kept: Vec<(AccountId, Leaving)> = Vec::new();
        let mut ops: Vec<CurrencyOp> = Vec::new();
        let mut i: usize = 0;
        proof {
            assert(old_e.take(0) =~= Seq::<(AccountId, Leaving)>::empty());
            assert(exit_view(old_e.take(0)) =~= Seq::<(AccountId, LeavingView)>::empty());
            assert(exit_view(kept@) =~= Seq::<(AccountId, LeavingView)>::empty());
        }
        while i < queue.len()
            invariant
                0 <= i <= old_e.len(),
                *self == pre,
                queue@.len() == old_e.len(),
                keys_unique(old_e),
                forall|j: int| 0 <= j < old_e.len() ==> (#[trigger] old_e[j]).1.wf(),
                forall|j: int| i <= j < old_e.len() ==> #[trigger] queue@[j] == old_e[j],
                exit_view(kept@) == drain_all(exit_view(old_e.take(i as int)), current_round),
                ops@ == drain_ops(exit_view(old_e.take(i as int)), current_round),
                forall|m: int| 0 <= m < kept@.len() ==> has_key(old_e.take(i as int), #[trigger] kept@[m].0),
                keys_unique(kept@),
                forall|m: int| 0 <= m < kept@.len() ==> (#[trigger] kept@[m]).1.wf(),
                sum_of(kept@, exit_held()) == sum_of(old_e.take(i as int), exit_held()) + net_reserved(ops@),
            decreases old_e.len() - i,
        {
            let ghost done = old_e.take(i as int);
            let ghost done1 = old_e.take(i + 1);
            proof {
                assert(done1.drop_last() =~= done);
                assert(exit_view(done1).drop_last() =~= exit_view(done));
                assert(queue@[i as int] == old_e[i as int]);
            }
            let who = queue[i].0;
            let mut e = Leaving::new(0, Vec::new(), 0);
            std::mem::swap(&mut e, &mut queue[i].1);
            let ghost e0 = e;
            proof {
                assert(e0 == old_e[i as int].1);
            }
            let (rest, released) = e.drain(current_round);
            let ghost ops0 = ops@;
            let ghost kept0 = kept@;
            ops.push(CurrencyOp::Unreserve(who, released));
            proof {
                lemma_sum_push(ops0, CurrencyOp::Unreserve(who, released), op_delta());
                assert(!has_key(done, who)) by {
                    if has_key(done, who) {
                        let j = choose|j: int| 0 <= j < done.len() && #[trigger] done[j].0 == who;
                        assert(old_e[j].0 == who);
                    }
                }
                assert forall|m: int| 0 <= m < kept0.len() implies has_key(done1, #[trigger] kept0[m].0) by {
                    let j = choose|j: int| 0 <= j < done.len() && #[trigger] done[j].0 == kept0[m].0;
                    assert(done1[j].0 == kept0[m].0);
                }
                assert(done1[i as int].0 == who);
            }
            match rest {
                Some(e1) => {
                    proof {
                        assert(!has_key(kept0, who)) by {
                            if has_key(kept0, who) {
                                let m = choose|m: int| 0 <= m < kept0.len() && #[trigger] kept0[m].0 == who;
                                assert(has_key(done, kept0[m].0));
                            }
                        }
                        lemma_push_keys(kept0, who, e1);
                        lemma_sum_push(kept0, (who, e1), exit_held());
                        assert(exit_view(kept0.push((who, e1))) =~= exit_view(kept0).push((who, e1@)));
                    }
                    kept.push((who, e1));
                },
                None => {},
            }
            i = i + 1;
        }
        proof {
            assert(old_e.take(old_e.len() as int) =~= old_e);
        }
        self.exit_entries = kept;
        ops
    }

    /// The end of block `now`. Where the round is over, a new round of
    /// `blocks_per_round` blocks starts at `now`, and every collator ledger, every
    /// nominator ledger and the exit queue are consolidated at the new index;
    /// returns the releases, collators first, then nominators, then the exit
    /// queue. `None`, with nothing changed, where the round goes on.
    pub fn on_finalize(&mut self, now: BlockNumber) -> (r: Option<Vec<CurrencyOp>>)
        requires
            old(self).wf(),
        ensures
            final(self).wf(),
            now - old(self).round.start_in < old(self).round.length ==> r is None && *final(self)
                == *old(self),
            now - old(self).round.start_in >= old(self).round.length ==> {
                let idx = saturate_u32(old(self).round.index + 1);
                &&& r is Some
                &&& final(self).round == (RoundInfo {
                    index: idx,
                    start_in: now,
                    length: old(self).config.blocks_per_round,
                })
                &&& final(self).collator_entries@.len() == old(self).collator_entries@.len()
                &&& forall|j: int| 0 <= j < old(self).collator_entries@.len() ==> {
                    &&& (#[trigger] final(self).collator_entries@[j]).0
                        == old(self).collator_entries@[j].0
                    &&& collator_consolidated(
                        old(self).collator_entries@[j].1,
                        final(self).collator_entries@[j].1,
                        idx,
                    )
                }
                &&& final(self).nominator_entries@.len() == old(self).nominator_entries@.len()
                &&& forall|j: int| 0 <= j < old(self).nominator_entries@.len() ==> {
                    &&& (#[trigger] final(self).nominator_entries@[j]).0
                        == old(self).nominator_entries@[j].0
                    &&& nominator_consolidated(
                        old(self).nominator_entries@[j].1,
                        final(self).nominator_entries@[j].1,
                        idx,
                    )
                }
                &&& exit_view(final(self).exit_entries@) == drain_all(
                    exit_view(old(self).exit_entries@),
                    idx,
                )
                &&& r.unwrap()@ == collator_ops(old(self).collator_entries@, idx) + nominator_ops(
                    old(self).nominator_entries@,
                    idx,
                ) + drain_ops(exit_view(old(self).exit_entries@), idx)
                &&& final(self).config == old(self).config
                &&& final(self).version == old(self).version
                &&& final(self).staked() == old(self).staked() + net_reserved(r.unwrap()@)
            },
    {
        if !self.round.should_goto_next_round(now) {
            return None;
        }
        let length = self.config.blocks_per_round;
        self.round.update(now, length);
        let idx = self.round.index;
        let mut ops = self.update_collators(idx);
        let mut more = self.update_nominators(idx);
        let mut exits = self.execute_exit_queue(idx);
        let ghost a = ops@;
        let ghost b = more@;
        let ghost c = exits@;
        ops.append(&mut more);
        ops.append(&mut exits);
        proof {
            crate::sums::lemma_sum_concat(a, b, op_delta());
            crate::sums::lemma_sum_concat(a + b, c, op_delta());
        }
        Some(ops)
    }
}

} // verus!
