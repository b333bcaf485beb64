//! Exit queue entries: the stake of a collator that has left, released over the
//! bonding delay.
use vstd::prelude::*;
use crate::bond::{
    Balance, RoundIndex, UnBondChunk, unbond_due, unbond_pending, unbond_total,
    lemma_unbond_split, lemma_unbond_due_all, lemma_unbond_total_nonneg, split_unbonding,
};

verus! {

/// The stake of a collator that has left.
#[derive(Clone, Debug)]
pub struct Leaving {
    /// The collator's own stake that is not unbonding yet.
    pub remaining: Balance,
    /// Stake that becomes free at a later round.
    pub unbonding: Vec<UnBondChunk>,
    /// Round at which everything left is released.
    pub when: RoundIndex,
}

/// What an exit queue entry holds: its remaining stake, its unbonding chunks and its
/// release round.
pub type LeavingView = (Balance, Seq<UnBondChunk>, RoundIndex);

/// The entry `v` after draining at round `r`: `None` once it is released in full.
pub open spec fn drain_view(v: LeavingView, r: RoundIndex) -> Option<LeavingView> {
    if r < v.2 {
        Some((v.0, unbond_pending(v.1, r), v.2))
    } else {
        None
    }
}

/// What draining the entry `v` at round `r` releases.
pub open spec fn drain_released(v: LeavingView, r: RoundIndex) -> int {
    if r < v.2 {
        unbond_due(v.1, r)
    } else {
        v.0 + unbond_total(v.1)
    }
}

impl View for Leaving {
    type V = LeavingView;

    open spec fn view(&self) -> LeavingView {
        (self.remaining, self.unbonding@, self.when)
    }
}

impl Leaving {
    /// Everything the entry still holds fits in a balance.
    pub open spec fn wf(&self) -> bool {
        self.remaining + unbond_total(self.unbonding@) <= u128::MAX
    }

    /// Everything the entry still holds.
    pub open spec fn held(&self) -> int {
        self.remaining + unbond_total(self.unbonding@)
    }

    pub fn new(remaining: Balance, unbonding: Vec<UnBondChunk>, when: RoundIndex) -> (r: Self)
        ensures
            r.remaining == remaining,
            r.unbonding == unbonding,
            r.when == when,
    {
        Leaving { remaining, unbonding, when }
    }

    /// The entry at `current_round`: before its own release round, the unbonding
    /// chunks that are due are released and the entry stays; from that round on,
    /// everything is released and the entry is gone. Returns what stays, and the
    /// amount released.
    pub fn drain(self, current_round: RoundIndex) -> (r: (Option<Leaving>, Balance))
        requires
            self.wf(),
        ensures
            current_round < self.when ==> {
                &&& r.0 matches Some(e)
                &&& e.remaining == self.remaining
                &&& e.unbonding@ == unbond_pending(self.unbonding@, current_round)
                &&& e.when == self.when
                &&& r.1 == unbond_due(self.unbonding@, current_round)
            },
            current_round >= self.when ==> r.0 is None && r.1 == self.held(),
            r.0 matches Some(e) ==> e.wf() && e.held() == self.held() - r.1 && drain_view(
                self@,
                current_round,
            ) == Some(e@),
            r.0 is None ==> drain_view(self@, current_round) is None,
            r.1 == drain_released(self@, current_round),
    {
        proof {
            lemma_unbond_split(self.unbonding@, current_round);
            lemma_unbond_total_nonneg(self.unbonding@);
        }
        if self.when > current_round {
            let (unbonding, due) = split_unbonding(self.unbonding, current_round);
            (Some(Leaving { remaining: self.remaining, unbonding, when: self.when }), due)
        } else {
            proof {
                lemma_unbond_due_all(self.unbonding@);
            }
            let (_, all) = split_unbonding(self.unbonding, u32::MAX);
            (None, self.remaining + all)
        }
    }
}

} // verus!
