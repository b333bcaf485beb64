//! The ledger of a collator: its own stake, the nominations backing it, and the
//! queues of stake waiting to become active or free.
use vstd::prelude::*;
use crate::bond::{
    AccountId, Balance, Bond, RoundIndex, UnBondChunk, UnlockChunk, bond_total, unbond_due,
    unbond_pending, unbond_total, unbond_value, unlock_due, unlock_pending, unlock_total,
    unlock_value, lemma_unbond_split, lemma_unlock_split, lemma_unbond_total_nonneg,
    lemma_unlock_total_nonneg, split_unbonding, split_unlocking,
};
use crate::nominations::{
    has_owner, owner_index, owner_rank, owners_sorted, search_owner, lemma_bond_le_total,
    lemma_insert_sorted, lemma_remove_sorted, lemma_update_amount, total_of_bonds,
};

verus! {

/// The stage of a staker.
#[derive(Clone, Copy, Debug, PartialEq, Eq, Structural)]
pub enum StakerStatus {
    /// Declared desire in validating or already participating in it.
    Validator,
    /// Nominating for a group of other stakers.
    Nominator,
    /// Ready to produce blocks or be nominated.
    Active,
    /// Joins the candidate pool at the next round.
    Onboarding,
    /// Chilling.
    Idle,
    /// Leaving.
    Leaving,
}

impl Default for StakerStatus {
    fn default() -> (r: StakerStatus)
        ensures
            r == StakerStatus::Onboarding,
    {
        StakerStatus::Onboarding
    }
}

/// The ledger of a bonded collator.
#[derive(Clone, Debug)]
pub struct StakingCollators {
    /// All stake that is accounted for: `active`, plus everything still unlocking,
    /// plus everything still unbonding.
    pub total: Balance,
    /// Stake that counts as vote weight now, nominations included.
    pub active: Balance,
    /// The nominations backing this collator, sorted by nominator.
    pub nominations: Vec<Bond>,
    /// Stake that becomes active at a later round.
    pub unlocking: Vec<UnlockChunk>,
    /// Stake that becomes free at a later round.
    pub unbonding: Vec<UnBondChunk>,
    /// Status of the collator.
    pub status: StakerStatus,
    /// Rounds for which rewards were claimed.
    pub claimed_rewards: Vec<RoundIndex>,
}

impl StakingCollators {
    /// The ledger adds up: `total` is `active` plus all unlocking and unbonding
    /// stake, `active` covers the nominations, and no nominator occurs twice.
    pub open spec fn wf(&self) -> bool {
        &&& self.total == self.active + unlock_total(self.unlocking@) + unbond_total(self.unbonding@)
        &&& self.active >= bond_total(self.nominations@)
        &&& owners_sorted(self.nominations@)
    }

    /// The collator's own stake: what it accounts for beyond its nominations.
    pub open spec fn own_stake(&self) -> int {
        self.total - bond_total(self.nominations@)
    }

    /// A new collator with `amount` bonded, which becomes active at `next_round`.
    pub fn new(amount: Balance, next_round: RoundIndex) -> (r: Self)
        ensures
            r.total == amount,
            r.active == 0,
            r.nominations@ == Seq::<Bond>::empty(),
            r.unlocking@ == seq![(UnlockChunk { value: amount, round: next_round })],
            r.unbonding@ == Seq::<UnBondChunk>::empty(),
            r.status == StakerStatus::Onboarding,
            r.claimed_rewards@ == Seq::<RoundIndex>::empty(),
            r.wf(),
    {
        let mut unlocking: Vec<UnlockChunk> = Vec::new();
        unlocking.push(UnlockChunk { value: amount, round: next_round });
        let r = StakingCollators {
            total: amount,
            active: 0,
            nominations: Vec::new(),
            unlocking,
            unbonding: Vec::new(),
            status: StakerStatus::default(),
            claimed_rewards: Vec::new(),
        };
        proof {
            reveal_with_fuel(crate::sums::sum_of, 2);
            assert(r.unlocking@.drop_last() =~= Seq::<UnlockChunk>::empty());
        }
        r
    }

    pub fn is_active(&self) -> (r: bool)
        ensures
            r == (self.status == StakerStatus::Active),
    {
        self.status == StakerStatus::Active
    }

    /// Turns an onboarding collator active; any other status stays.
    pub fn active_onboard(&mut self)
        requires
            old(self).wf(),
        ensures
            final(self).status == (if old(self).status == StakerStatus::Onboarding {
                StakerStatus::Active
            } else {
                old(self).status
            }),
            final(self).total == old(self).total,
            final(self).active == old(self).active,
            final(self).nominations == old(self).nominations,
            final(self).unlocking == old(self).unlocking,
            final(self).unbonding == old(self).unbonding,
            final(self).claimed_rewards == old(self).claimed_rewards,
            final(self).wf(),
    {
        if self.status == StakerStatus::Onboarding {
            self.status = StakerStatus::Active;
        }
    }

    /// Bonds `extra` more, which becomes active at `next_round`.
    pub fn bond_extra(&mut self, extra: Balance, next_round: RoundIndex)
        requires
            old(self).wf(),
            old(self).total + extra <= u128::MAX,
        ensures
            final(self).total == old(self).total + extra,
            final(self).unlocking@ == old(self).unlocking@.push(
                UnlockChunk { value: extra, round: next_round },
            ),
            final(self).active == old(self).active,
            final(self).nominations == old(self).nominations,
            final(self).unbonding == old(self).unbonding,
            final(self).status == old(self).status,
            final(self).claimed_rewards == old(self).claimed_rewards,
            final(self).wf(),
    {
        proof {
            crate::sums::lemma_sum_push(
                self.unlocking@,
                UnlockChunk { value: extra, round: next_round },
                unlock_value(),
            );
        }
        self.total = self.total + extra;
        self.unlocking.push(UnlockChunk { value: extra, round: next_round });
    }

    /// Takes `less` off the active stake, to become free at `can_withdraw_round`.
    /// Refused (`None`, nothing changed) unless `less` is below the active stake;
    /// otherwise returns the new active stake.
    pub fn bond_less(&mut self, less: Balance, can_withdraw_round: RoundIndex) -> (r: Option<
        Balance,
    >)
        requires
            old(self).wf(),
        ensures
            old(self).active > less ==> {
                &&& r == Some((old(self).active - less) as Balance)
                &&& final(self).active == old(self).active - less
                &&& final(self).unbonding@ == old(self).unbonding@.push(
                    UnBondChunk { value: less, round: can_withdraw_round },
                )
                &&& final(self).total == old(self).total
                &&& final(self).nominations == old(self).nominations
                &&& final(self).unlocking == old(self).unlocking
                &&& final(self).status == old(self).status
                &&& final(self).claimed_rewards == old(self).claimed_rewards
            },
            old(self).active <= less ==> r is None && *final(self) == *old(self),
            final(self).active >= bond_total(final(self).nominations@) ==> final(self).wf(),
    {
        if self.active > less {
            proof {
                crate::sums::lemma_sum_push(
                    self.unbonding@,
                    UnBondChunk { value: less, round: can_withdraw_round },
                    unbond_value(),
                );
            }
            self.active = self.active - less;
            self.unbonding.push(UnBondChunk { value: less, round: can_withdraw_round });
            Some(self.active)
        } else {
            None
        }
    }

    /// Every unlocking chunk due at `current_round` becomes active stake; later ones stay.
    pub fn consolidate_active(self, current_round: RoundIndex) -> (r: Self)
        requires
            self.wf(),
        ensures
            r.active == self.active + unlock_due(self.unlocking@, current_round),
            r.unlocking@ == unlock_pending(self.unlocking@, current_round),
            r.total == self.total,
            r.nominations == self.nominations,
            r.unbonding == self.unbonding,
            r.status == self.status,
            r.claimed_rewards == self.claimed_rewards,
            r.wf(),
    {
        proof {
            lemma_unlock_split(self.unlocking@, current_round);
            lemma_unbond_total_nonneg(self.unbonding@);
        }
        let (unlocking, due) = split_unlocking(self.unlocking, current_round);
        StakingCollators {
            total: self.total,
            active: self.active + due,
            nominations: self.nominations,
            unlocking,
            unbonding: self.unbonding,
            status: self.status,
            claimed_rewards: self.claimed_rewards,
        }
    }

    /// Every unbonding chunk due at `current_round` leaves the ledger's total; later
    /// ones stay. The total falls by the value released.
    pub fn consolidate_unbonded(self, current_round: RoundIndex) -> (r: Self)
        requires
            self.wf(),
        ensures
            r.total == self.total - unbond_due(self.unbonding@, current_round),
            r.unbonding@ == unbond_pending(self.unbonding@, current_round),
            r.active == self.active,
            r.nominations == self.nominations,
            r.unlocking == self.unlocking,
            r.status == self.status,
            r.claimed_rewards == self.claimed_rewards,
            r.wf(),
    {
        proof {
            lemma_unbond_split(self.unbonding@, current_round);
            lemma_unlock_total_nonneg(self.unlocking@);
        }
        let (unbonding, due) = split_unbonding(self.unbonding, current_round);
        StakingCollators {
            total: self.total - due,
            active: self.active,
            nominations: self.nominations,
            unlocking: self.unlocking,
            unbonding,
            status: self.status,
            claimed_rewards: self.claimed_rewards,
        }
    }

    /// Adds a nomination, which counts towards `active` and `total` at once.
    /// Returns false, and changes nothing, when its owner already nominates.
    pub fn add_nomination(&mut self, nomination: Bond) -> (r: bool)
        requires
            old(self).wf(),
            old(self).total + nomination.amount <= u128::MAX,
        ensures
            r == !has_owner(old(self).nominations@, nomination.owner),
            r ==> {
                &&& final(self).nominations@ == old(self).nominations@.insert(
                    owner_rank(old(self).nominations@, nomination.owner),
                    nomination,
                )
                &&& final(self).active == old(self).active + nomination.amount
                &&& final(self).total == old(self).total + nomination.amount
                &&& bond_total(final(self).nominations@) == bond_total(old(self).nominations@)
                    + nomination.amount
                &&& final(self).unlocking == old(self).unlocking
                &&& final(self).unbonding == old(self).unbonding
                &&& final(self).status == old(self).status
                &&& final(self).claimed_rewards == old(self).claimed_rewards
            },
            !r ==> *final(self) == *old(self),
            final(self).wf(),
    {
        match search_owner(&self.nominations, nomination.owner) {
            Ok(_) => false,
            Err(p) => {
                proof {
                    lemma_insert_sorted(self.nominations@, p as int, nomination);
                    lemma_unlock_total_nonneg(self.unlocking@);
                    lemma_unbond_total_nonneg(self.unbonding@);
                }
                self.active = self.active + nomination.amount;
                self.total = self.total + nomination.amount;
                self.nominations.insert(p, nomination);
                true
            },
        }
    }

    /// Adds `extra.amount` to the nomination of `extra.owner`, and to `active` and
    /// `total`; returns the nomination's new amount, or `None` (nothing changed)
    /// when there is no such nomination.
    pub fn nominate_extra(&mut self, extra: Bond) -> (r: Option<Balance>)
        requires
            old(self).wf(),
            old(self).total + extra.amount <= u128::MAX,
        ensures
            has_owner(old(self).nominations@, extra.owner) ==> {
                let i = owner_index(old(self).nominations@, extra.owner);
                let amount = old(self).nominations@[i].amount + extra.amount;
                &&& r == Some(amount as Balance)
                &&& final(self).nominations@ == old(self).nominations@.update(
                    i,
                    Bond { owner: extra.owner, amount: amount as Balance },
                )
                &&& final(self).active == old(self).active + extra.amount
                &&& final(self).total == old(self).total + extra.amount
                &&& bond_total(final(self).nominations@) == bond_total(old(self).nominations@)
                    + extra.amount
                &&& final(self).unlocking == old(self).unlocking
                &&& final(self).unbonding == old(self).unbonding
                &&& final(self).status == old(self).status
                &&& final(self).claimed_rewards == old(self).claimed_rewards
            },
            !has_owner(old(self).nominations@, extra.owner) ==> r is None && *final(self) == *old(
                self,
            ),
            final(self).wf(),
    {
        match search_owner(&self.nominations, extra.owner) {
            Ok(i) => {
                proof {
                    lemma_bond_le_total(self.nominations@, i as int);
                    lemma_unlock_total_nonneg(self.unlocking@);
                    lemma_unbond_total_nonneg(self.unbonding@);
                }
                let amount = self.nominations[i].amount + extra.amount;
                proof {
                    lemma_update_amount(self.nominations@, i as int, amount);
                }
                self.active = self.active + extra.amount;
                self.total = self.total + extra.amount;
                self.nominations.set(i, Bond { owner: extra.owner, amount });
                Some(amount)
            },
            Err(_) => None,
        }
    }

    /// Takes `less.amount` off the nomination of `less.owner`, and off `active` and
    /// `total`. `None`: there is no such nomination. `Some(None)`: the nomination is
    /// not above `less.amount` (remove it instead). Nothing changes unless the result
    /// is `Some(Some(new_amount))`.
    pub fn nominate_less(&mut self, less: Bond) -> (r: Option<Option<Balance>>)
        requires
            old(self).wf(),
        ensures
            has_owner(old(self).nominations@, less.owner) ==> {
                let i = owner_index(old(self).nominations@, less.owner);
                let before = old(self).nominations@[i].amount;
                if before > less.amount {
                    &&& r == Some(Some((before - less.amount) as Balance))
                    &&& final(self).nominations@ == old(self).nominations@.update(
                        i,
                        Bond { owner: less.owner, amount: (before - less.amount) as Balance },
                    )
                    &&& final(self).active == old(self).active - less.amount
                    &&& final(self).total == old(self).total - less.amount
                    &&& bond_total(final(self).nominations@) == bond_total(old(self).nominations@)
                        - less.amount
                    &&& final(self).unlocking == old(self).unlocking
                    &&& final(self).unbonding == old(self).unbonding
                    &&& final(self).status == old(self).status
                    &&& final(self).claimed_rewards == old(self).claimed_rewards
                } else {
                    r == Some(None::<Balance>) && *final(self) == *old(self)
                }
            },
            !has_owner(old(self).nominations@, less.owner) ==> r is None && *final(self) == *old(
                self,
            ),
            final(self).wf(),
    {
        match search_owner(&self.nominations, less.owner) {
            Ok(i) => {
                let before = self.nominations[i].amount;
                if before > less.amount {
                    proof {
                        lemma_bond_le_total(self.nominations@, i as int);
                        lemma_unlock_total_nonneg(self.unlocking@);
                        lemma_unbond_total_nonneg(self.unbonding@);
                        lemma_update_amount(
                            self.nominations@,
                            i as int,
                            (before - less.amount) as Balance,
                        );
                    }
                    self.total = self.total - less.amount;
                    self.active = self.active - less.amount;
                    self.nominations.set(i, Bond { owner: less.owner, amount: before - less.amount });
                    Some(Some(before - less.amount))
                } else {
                    Some(None)
                }
            },
            Err(_) => None,
        }
    }

    /// Makes all stake active at once: `active` becomes `total`, nothing is left
    /// unlocking, and the collator is active.
    pub fn force_bond(&mut self)
        requires
            old(self).wf(),
        ensures
            final(self).active == old(self).total,
            final(self).unlocking@ == Seq::<UnlockChunk>::empty(),
            final(self).status == StakerStatus::Active,
            final(self).total == old(self).total,
            final(self).nominations == old(self).nominations,
            final(self).unbonding == old(self).unbonding,
            final(self).claimed_rewards == old(self).claimed_rewards,
            old(self).unbonding@.len() == 0 ==> final(self).wf(),
    {
        proof {
            lemma_unlock_total_nonneg(self.unlocking@);
            lemma_unbond_total_nonneg(self.unbonding@);
        }
        self.active = self.total;
        self.unlocking = Vec::new();
        self.status = StakerStatus::Active;
    }

    /// Removes the nomination of `nominator`, taking its amount off `active` and
    /// `total`; returns the new active stake, or `None` (nothing changed) when there
    /// is no such nomination.
    pub fn rm_nomination(&mut self, nominator: AccountId) -> (r: Option<Balance>)
        requires
            old(self).wf(),
        ensures
            has_owner(old(self).nominations@, nominator) ==> {
                let i = owner_index(old(self).nominations@, nominator);
                let amount = old(self).nominations@[i].amount;
                &&& r == Some((old(self).active - amount) as Balance)
                &&& final(self).nominations@ == old(self).nominations@.remove(i)
                &&& final(self).active == old(self).active - amount
                &&& final(self).total == old(self).total - amount
                &&& bond_total(final(self).nominations@) == bond_total(old(self).nominations@) - amount
                &&& final(self).unlocking == old(self).unlocking
                &&& final(self).unbonding == old(self).unbonding
                &&& final(self).status == old(self).status
                &&& final(self).claimed_rewards == old(self).claimed_rewards
            },
            !has_owner(old(self).nominations@, nominator) ==> r is None && *final(self) == *old(
                self,
            ),
            final(self).wf(),
    {
        match search_owner(&self.nominations, nominator) {
            Ok(i) => {
                proof {
                    lemma_bond_le_total(self.nominations@, i as int);
                    lemma_remove_sorted(self.nominations@, i as int);
                    lemma_unlock_total_nonneg(self.unlocking@);
                    lemma_unbond_total_nonneg(self.unbonding@);
                }
                let removed = self.nominations.remove(i);
                self.total = self.total - removed.amount;
                self.active = self.active - removed.amount;
                Some(self.active)
            },
            Err(_) => None,
        }
    }

    /// The total amount of the nominations.
    pub fn nomination_total(&self) -> (r: Balance)
        requires
            self.wf(),
        ensures
            r == bond_total(self.nominations@),
    {
        total_of_bonds(&self.nominations)
    }
}

} // verus!
