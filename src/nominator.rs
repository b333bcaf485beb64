//! The ledger of a nominator: its nominations, and the stake it is getting back.
use vstd::prelude::*;
use crate::bond::{
    AccountId, Balance, Bond, RoundIndex, UnBondChunk, bond_total, unbond_due, unbond_pending,
    unbond_total, unbond_value, lemma_unbond_split, lemma_unbond_total_nonneg,
    lemma_bond_total_nonneg, split_unbonding,
};
use crate::nominations::{
    has_owner, owner_index, owner_rank, owners_sorted, search_owner, lemma_bond_le_total,
    lemma_insert_sorted, lemma_remove_sorted, lemma_update_amount,
};
use crate::sums::lemma_sum_push;

verus! {

/// The ledger of a nominator.
#[derive(Clone, Debug)]
pub struct StakingNominators {
    /// The collators nominated, with the amount behind each, sorted by collator.
    pub nominations: Vec<Bond>,
    /// All stake accounted for: the nominations plus everything still unbonding.
    pub total: Balance,
    /// Stake that becomes free at a later round.
    pub unbonding: Vec<UnBondChunk>,
    /// Rounds for which rewards were claimed.
    pub claimed_rewards: Vec<RoundIndex>,
}

impl StakingNominators {
    /// The ledger adds up: `total` is the nominations plus all unbonding stake, and
    /// no collator occurs twice.
    pub open spec fn wf(&self) -> bool {
        &&& self.total == bond_total(self.nominations@) + unbond_total(self.unbonding@)
        &&& owners_sorted(self.nominations@)
    }

    /// A ledger with the given nominations and total, and nothing unbonding.
    pub fn new(nominations: Vec<Bond>, amount: Balance) -> (r: Self)
        ensures
            r.nominations == nominations,
            r.total == amount,
            r.unbonding@ == Seq::<UnBondChunk>::empty(),
            r.claimed_rewards@ == Seq::<RoundIndex>::empty(),
            (owners_sorted(nominations@) && bond_total(nominations@) == amount) ==> r.wf(),
    {
        StakingNominators {
            nominations,
            total: amount,
            unbonding: Vec::new(),
            claimed_rewards: Vec::new(),
        }
    }

    /// Adds a nomination, which counts towards `total` at once. Returns false, and
    /// changes nothing, when that collator is already nominated.
    pub fn add_nomination(&mut self, nomination: Bond) -> (r: bool)
        requires
            old(self).wf(),
            old(self).total + nomination.amount <= u128::MAX,
        ensures
            r == !has_owner(old(self).nominations@, nomination.owner),
            r ==> {
                &&& final(self).nominations@ == old(self).nominations@.insert(
                    owner_rank(old(self).nominations@, nomination.owner),
                    nomination,
                )
                &&& final(self).total == old(self).total + nomination.amount
                &&& final(self).unbonding == old(self).unbonding
                &&& final(self).claimed_rewards == old(self).claimed_rewards
            },
            !r ==> *final(self) == *old(self),
            final(self).wf(),
    {
        match search_owner(&self.nominations, nomination.owner) {
            Ok(_) => false,
            Err(p) => {
                proof {
                    lemma_insert_sorted(self.nominations@, p as int, nomination);
                }
                self.total = self.total + nomination.amount;
                self.nominations.insert(p, nomination);
                true
            },
        }
    }

    /// Adds `extra.amount` to the nomination of collator `extra.owner` and to
    /// `total`; returns the nomination's new amount, or `None` (nothing changed)
    /// when that collator is not nominated.
    pub fn nominate_extra(&mut self, extra: Bond) -> (r: Option<Balance>)
        requires
            old(self).wf(),
            old(self).total + extra.amount <= u128::MAX,
        ensures
            has_owner(old(self).nominations@, extra.owner) ==> {
                let i = owner_index(old(self).nominations@, extra.owner);
                let amount = old(self).nominations@[i].amount + extra.amount;
                &&& r == Some(amount as Balance)
                &&& final(self).nominations@ == old(self).nominations@.update(
                    i,
                    Bond { owner: extra.owner, amount: amount as Balance },
                )
                &&& final(self).total == old(self).total + extra.amount
                &&& final(self).unbonding == old(self).unbonding
                &&& final(self).claimed_rewards == old(self).claimed_rewards
            },
            !has_owner(old(self).nominations@, extra.owner) ==> r is None && *final(self) == *old(
                self,
            ),
            final(self).wf(),
    {
        match search_owner(&self.nominations, extra.owner) {
            Ok(i) => {
                proof {
                    lemma_bond_le_total(self.nominations@, i as int);
                    lemma_unbond_total_nonneg(self.unbonding@);
                }
                let amount = self.nominations[i].amount + extra.amount;
                proof {
                    lemma_update_amount(self.nominations@, i as int, amount);
                }
                self.total = self.total + extra.amount;
                self.nominations.set(i, Bond { owner: extra.owner, amount });
                Some(amount)
            },
            Err(_) => None,
        }
    }

    /// Moves `less.amount` of the nomination of collator `less.owner` to the
    /// unbonding queue, free at `can_withdraw_round`; `total` stays. `None`: that
    /// collator is not nominated. `Some(None)`: the nomination is not above
    /// `less.amount`. Nothing changes unless the result is `Some(Some(new_amount))`.
    pub fn nominate_less(&mut self, less: Bond, can_withdraw_round: RoundIndex) -> (r: Option<
        Option<Balance>,
    >)
        requires
            old(self).wf(),
        ensures
            has_owner(old(self).nominations@, less.owner) ==> {
                let i = owner_index(old(self).nominations@, less.owner);
                let before = old(self).nominations@[i].amount;
                if before > less.amount {
                    &&& r == Some(Some((before - less.amount) as Balance))
                    &&& final(self).nominations@ == old(self).nominations@.update(
                        i,
                        Bond { owner: less.owner, amount: (before - less.amount) as Balance },
                    )
                    &&& final(self).unbonding@ == old(self).unbonding@.push(
                        UnBondChunk { value: less.amount, round: can_withdraw_round },
                    )
                    &&& final(self).total == old(self).total
                    &&& final(self).claimed_rewards == old(self).claimed_rewards
                } else {
                    r == Some(None::<Balance>) && *final(self) == *old(self)
                }
            },
            !has_owner(old(self).nominations@, less.owner) ==> r is None && *final(self) == *old(
                self,
            ),
            final(self).wf(),
    {
        match search_owner(&self.nominations, less.owner) {
            Ok(i) => {
                let before = self.nominations[i].amount;
                if before > less.amount {
                    proof {
                        lemma_update_amount(
                            self.nominations@,
                            i as int,
                            (before - less.amount) as Balance,
                        );
                        lemma_sum_push(
                            self.unbonding@,
                            UnBondChunk { value: less.amount, round: can_withdraw_round },
                            unbond_value(),
                        );
                    }
                    self.nominations.set(i, Bond { owner: less.owner, amount: before - less.amount });
                    self.unbonding.push(UnBondChunk { value: less.amount, round: can_withdraw_round });
                    Some(Some(before - less.amount))
                } else {
                    Some(None)
                }
            },
            Err(_) => None,
        }
    }

    /// Every unbonding chunk due at `current_round` leaves the ledger's total; later
    /// ones stay. The total falls by the value released.
    pub fn consolidate_unbonded(self, current_round: RoundIndex) -> (r: Self)
        requires
            self.wf(),
        ensures
            r.total == self.total - unbond_due(self.unbonding@, current_round),
            r.unbonding@ == unbond_pending(self.unbonding@, current_round),
            r.nominations == self.nominations,
            r.claimed_rewards == self.claimed_rewards,
            r.wf(),
    {
        proof {
            lemma_unbond_split(self.unbonding@, current_round);
            lemma_bond_total_nonneg(self.nominations@);
        }
        let (unbonding, due) = split_unbonding(self.unbonding, current_round);
        StakingNominators {
            nominations: self.nominations,
            total: self.total - due,
            unbonding,
            claimed_rewards: self.claimed_rewards,
        }
    }

    /// Removes the nomination of `candidate`, its amount to become free at
    /// `can_withdraw_round`; `total` stays and is returned. `None` (nothing changed)
    /// when that collator is not nominated.
    pub fn rm_nomination(&mut self, candidate: AccountId, can_withdraw_round: RoundIndex) -> (r:
        Option<Balance>)
        requires
            old(self).wf(),
        ensures
            has_owner(old(self).nominations@, candidate) ==> {
                let i = owner_index(old(self).nominations@, candidate);
                let amount = old(self).nominations@[i].amount;
                &&& r == Some(old(self).total)
                &&& final(self).nominations@ == old(self).nominations@.remove(i)
                &&& final(self).unbonding@ == old(self).unbonding@.push(
                    UnBondChunk { value: amount, round: can_withdraw_round },
                )
                &&& final(self).total == old(self).total
                &&& final(self).claimed_rewards == old(self).claimed_rewards
            },
            !has_owner(old(self).nominations@, candidate) ==> r is None && *final(self) == *old(
                self,
            ),
            final(self).wf(),
    {
        match search_owner(&self.nominations, candidate) {
            Ok(i) => {
                proof {
                    lemma_remove_sorted(self.nominations@, i as int);
                    lemma_sum_push(
                        self.unbonding@,
                        UnBondChunk { value: self.nominations@[i as int].amount, round: can_withdraw_round },
                        unbond_value(),
                    );
                }
                let removed = self.nominations.remove(i);
                self.unbonding.push(UnBondChunk { value: removed.amount, round: can_withdraw_round });
                Some(self.total)
            },
            Err(_) => None,
        }
    }

    /// Removes the nomination of `candidate` and its amount from `total` at once,
    /// for a collator that has left; returns the amount, or `None` (nothing changed)
    /// when that collator is not nominated.
    pub fn release_nomination(&mut self, candidate: AccountId) -> (r: Option<Balance>)
        requires
            old(self).wf(),
        ensures
            has_owner(old(self).nominations@, candidate) ==> {
                let i = owner_index(old(self).nominations@, candidate);
                let amount = old(self).nominations@[i].amount;
                &&& r == Some(amount)
                &&& final(self).nominations@ == old(self).nominations@.remove(i)
                &&& final(self).total == old(self).total - amount
                &&& final(self).unbonding == old(self).unbonding
                &&& final(self).claimed_rewards == old(self).claimed_rewards
            },
            !has_owner(old(self).nominations@, candidate) ==> r is None && *final(self) == *old(
                self,
            ),
            final(self).wf(),
    {
        match search_owner(&self.nominations, candidate) {
            Ok(i) => {
                proof {
                    lemma_remove_sorted(self.nominations@, i as int);
                    lemma_bond_le_total(self.nominations@, i as int);
                    lemma_unbond_total_nonneg(self.unbonding@);
                }
                let removed = self.nominations.remove(i);
                self.total = self.total - removed.amount;
                Some(removed.amount)
            },
            Err(_) => None,
        }
    }
}

} // verus!
