//! The staking store: collator and nominator ledgers, the exit queue and the round
//! clock, with the operations that stakers call.
use vstd::prelude::*;
use crate::bond::{
    AccountId, Balance, Bond, RoundIndex, UnBondChunk, UnlockChunk, bond_total, unbond_total,
    total_of_unbonding, lemma_bond_total_nonneg, lemma_unbond_total_nonneg,
    lemma_unlock_total_nonneg,
};
use crate::collator::{StakerStatus, StakingCollators};
use crate::keyed::{
    has_key, key_index, keys_unique, lookup, find_key, lemma_key_index, lemma_push_keys,
    lemma_remove_keys, lemma_replace_value, only_entry_changed,
};
use crate::leaving::Leaving;
use crate::nominations::{has_owner, owner_index, owner_rank, owners_sorted, search_owner};
use crate::nominator::StakingNominators;
use crate::round::{RoundInfo, saturate_u32};
use crate::sums::{sum_of, lemma_sum_push, lemma_sum_remove, lemma_sum_update};

verus! {

/// The constants of the staking rules.
#[derive(Clone, Copy, Debug, PartialEq, Eq, Structural)]
pub struct Config {
    /// Number of blocks per round.
    pub blocks_per_round: u32,
    /// Number of collators that a nominator may nominate.
    pub max_collators_per_nominator: u32,
    /// Maximum number of nominations per collator.
    pub max_nominations_per_collator: u32,
    /// Number of rounds that unbonded funds stay bonded for.
    pub bond_duration: RoundIndex,
    /// Minimum stake of a collator.
    pub min_collator_stake: Balance,
    /// Minimum stake of a nomination.
    pub min_nominator_stake: Balance,
    /// Number of rounds per payout.
    pub vesting_after: RoundIndex,
    /// Number of collators that the election should select.
    pub desired_targets: u32,
}

/// Version of the storage layout.
#[derive(Clone, Copy, Debug, PartialEq, Eq, Structural)]
pub enum Releases {
    V1_0_0,
}

impl Default for Releases {
    fn default() -> (r: Releases)
        ensures
            r == Releases::V1_0_0,
    {
        Releases::V1_0_0
    }
}

/// Why an operation was refused.
#[derive(Clone, Copy, Debug, PartialEq, Eq, Structural)]
pub enum Error {
    /// The account is already a collator.
    AlreadyBonded,
    /// The account is already in the exit queue.
    AlreadyInQueue,
    /// The account is not a collator.
    BondNotExist,
    /// The amount to take off is not below what there is.
    Underflow,
    /// The stake would fall below the collator minimum.
    BondBelowMin,
    /// The nomination would fall below the nominator minimum.
    NominateBelowMin,
    /// No such collator, or it is not nominated.
    CandidateNotExist,
    /// Too many candidates supplied.
    TooManyCandidates,
    /// No such nominator, or no such nomination.
    NominationNotExist,
    /// The collator is already nominated by this nominator.
    AlreadyNominatedCollator,
    /// The collator has as many nominations as it may have.
    TooManyNominations,
    /// The collator is not active (or, for a forced onboarding, already active).
    CandidateNotActive,
    /// The collator already has an entry in the exit queue.
    AlreadyLeaving,
    /// The new amount would not fit in a balance.
    Overflow,
    /// The election snapshot is longer than the bound asked for.
    SnapshotTooLarge,
}

/// A change to the reserved balance of an account, for the currency ledger to carry out.
#[derive(Clone, Copy, Debug, PartialEq, Eq, Structural)]
pub enum CurrencyOp {
    /// Move the amount from the account's free balance to its reserved balance.
    Reserve(AccountId, Balance),
    /// Move the amount from the account's reserved balance back to its free balance.
    Unreserve(AccountId, Balance),
}

/// How one operation moves the reserved balances, all accounts together.
pub open spec fn op_delta() -> spec_fn(CurrencyOp) -> int {
    |o: CurrencyOp|
        match o {
            CurrencyOp::Reserve(_, a) => a as int,
            CurrencyOp::Unreserve(_, a) => -(a as int),
        }
}

/// What `ops` add to the reserved balances, all accounts together.
pub open spec fn net_reserved(ops: Seq<CurrencyOp>) -> int {
    sum_of(ops, op_delta())
}

/// The stake a collator entry holds on its own account.
pub open spec fn collator_held() -> spec_fn((AccountId, StakingCollators)) -> int {
    |e: (AccountId, StakingCollators)| e.1.own_stake()
}

/// The stake a nominator entry holds.
pub open spec fn nominator_held() -> spec_fn((AccountId, StakingNominators)) -> int {
    |e: (AccountId, StakingNominators)| e.1.total as int
}

/// The stake an exit queue entry holds.
pub open spec fn exit_held() -> spec_fn((AccountId, Leaving)) -> int {
    |e: (AccountId, Leaving)| e.1.held()
}

/// A collator ledger as the store keeps it: well formed, and with nothing unbonding
/// before the collator first became active.
pub open spec fn collator_ok(c: StakingCollators) -> bool {
    &&& c.wf()
    &&& c.status != StakerStatus::Active ==> c.unbonding@.len() == 0
}

/// `n1` is the nominator ledger `n0` once its nomination of `candidate`, if any,
/// has been released at once.
pub open spec fn released_from(n0: StakingNominators, n1: StakingNominators, candidate: AccountId) -> bool {
    if has_owner(n0.nominations@, candidate) {
        let i = owner_index(n0.nominations@, candidate);
        &&& n1.nominations@ == n0.nominations@.remove(i)
        &&& n1.total == n0.total - n0.nominations@[i].amount
        &&& n1.unbonding == n0.unbonding
        &&& n1.claimed_rewards == n0.claimed_rewards
    } else {
        n1 == n0
    }
}

/// The entry `e1` is `e0`, released from `candidate` where `e0`'s account is among
/// the owners of `done`.
pub open spec fn release_step(
    e0: (AccountId, StakingNominators),
    e1: (AccountId, StakingNominators),
    done: Seq<Bond>,
    candidate: AccountId,
) -> bool {
    &&& e1.0 == e0.0
    &&& if has_owner(done, e0.0) {
        released_from(e0.1, e1.1, candidate)
    } else {
        e1 == e0
    }
}

/// The currency operations that give back, to each nominator among the owners of
/// `noms` in turn, what its ledger in `store` holds for `candidate`.
pub open spec fn release_ops(
    noms: Seq<Bond>,
    store: Seq<(AccountId, StakingNominators)>,
    candidate: AccountId,
) -> Seq<CurrencyOp>
    decreases noms.len(),
{
    if noms.len() == 0 {
        Seq::empty()
    } else {
        let rest = release_ops(noms.drop_last(), store, candidate);
        let k = noms.last().owner;
        match lookup(store, k) {
            Some(n) => if has_owner(n.nominations@, candidate) {
                rest.push(
                    CurrencyOp::Unreserve(
                        k,
                        n.nominations@[owner_index(n.nominations@, candidate)].amount,
                    ),
                )
            } else {
                rest
            },
            None => rest,
        }
    }
}

proof fn lemma_has_owner_take(s: Seq<Bond>, k: int, x: AccountId)
    requires
        0 <= k < s.len(),
    ensures
        has_owner(s.take(k + 1), x) == (has_owner(s.take(k), x) || s[k].owner == x),
{
    let t = s.take(k + 1);
    if has_owner(s.take(k), x) {
        let m = choose|m: int| 0 <= m < s.take(k).len() && #[trigger] s.take(k)[m].owner == x;
        assert(t[m].owner == x);
    }
    if s[k].owner == x {
        assert(t[k].owner == x);
    }
    if has_owner(t, x) {
        let m = choose|m: int| 0 <= m < t.len() && #[trigger] t[m].owner == x;
        if m < k {
            assert(s.take(k)[m].owner == x);
        }
    }
}

/// The staking store.
#[derive(Clone, Debug)]
pub struct Pallet {
    pub config: Config,
    /// The current round.
    pub round: RoundInfo,
    /// Collator ledgers, by collator.
    pub collator_entries: Vec<(AccountId, StakingCollators)>,
    /// Nominator ledgers, by nominator.
    pub nominator_entries: Vec<(AccountId, StakingNominators)>,
    /// Exit queue entries, by departing collator.
    pub exit_entries: Vec<(AccountId, Leaving)>,
    /// Version of the storage layout.
    pub version: Releases,
}

impl Pallet {
    /// Each store has one entry per account at most, and every ledger adds up.
    pub open spec fn wf(&self) -> bool {
        &&& keys_unique(self.collator_entries@)
        &&& forall|i: int|
            0 <= i < self.collator_entries@.len() ==> collator_ok(
                #[trigger] self.collator_entries@[i].1,
            )
        &&& keys_unique(self.nominator_entries@)
        &&& forall|i: int|
            0 <= i < self.nominator_entries@.len() ==> (#[trigger] self.nominator_entries@[i].1).wf()
        &&& keys_unique(self.exit_entries@)
        &&& forall|i: int| 0 <= i < self.exit_entries@.len() ==> (#[trigger] self.exit_entries@[i].1).wf()
    }

    /// All stake that the store accounts for, each amount counted once: the own
    /// stake of every collator (its total less its nominations), the total of every
    /// nominator, and what every exit queue entry holds.
    pub open spec fn staked(&self) -> int {
        sum_of(self.collator_entries@, collator_held()) + sum_of(
            self.nominator_entries@,
            nominator_held(),
        ) + sum_of(self.exit_entries@, exit_held())
    }

    /// The ledger of collator `who`, if any.
    pub open spec fn collator_ledger(&self, who: AccountId) -> Option<StakingCollators> {
        lookup(self.collator_entries@, who)
    }

    /// The ledger of nominator `who`, if any.
    pub open spec fn nominator_ledger(&self, who: AccountId) -> Option<StakingNominators> {
        lookup(self.nominator_entries@, who)
    }

    /// The exit queue entry of collator `who`, if any.
    pub open spec fn exit_entry(&self, who: AccountId) -> Option<Leaving> {
        lookup(self.exit_entries@, who)
    }

    /// The round at which stake unbonded now becomes free.
    pub open spec fn release_round(&self) -> RoundIndex {
        saturate_u32(self.round.index + self.config.bond_duration)
    }

    /// Only the collator store may differ between `a` and `b`.
    pub open spec fn same_but_collators(a: &Pallet, b: &Pallet) -> bool {
        &&& b.config == a.config
        &&& b.round == a.round
        &&& b.nominator_entries == a.nominator_entries
        &&& b.exit_entries == a.exit_entries
        &&& b.version == a.version
    }

    /// Only the collator and nominator stores may differ between `a` and `b`.
    pub open spec fn same_but_ledgers(a: &Pallet, b: &Pallet) -> bool {
        &&& b.config == a.config
        &&& b.round == a.round
        &&& b.exit_entries == a.exit_entries
        &&& b.version == a.version
    }

    /// Why `bond(who, amount)` is refused, if it is.
    pub open spec fn bond_refusal(&self, who: AccountId, amount: Balance) -> Option<Error> {
        if has_key(self.collator_entries@, who) {
            Some(Error::AlreadyBonded)
        } else if amount < self.config.min_collator_stake {
            Some(Error::BondBelowMin)
        } else {
            None
        }
    }

    /// Why `force_onboard(candidate)` is refused, if it is.
    pub open spec fn force_onboard_refusal(&self, candidate: AccountId) -> Option<Error> {
        match self.collator_ledger(candidate) {
            None => Some(Error::CandidateNotExist),
            Some(c) => if c.status == StakerStatus::Active {
                Some(Error::CandidateNotActive)
            } else {
                None
            },
        }
    }

    /// Why `bond_extra(who, extra)` is refused, if it is.
    pub open spec fn bond_extra_refusal(&self, who: AccountId, extra: Balance) -> Option<Error> {
        match self.collator_ledger(who) {
            None => Some(Error::BondNotExist),
            Some(c) => if c.status != StakerStatus::Active {
                Some(Error::CandidateNotActive)
            } else if c.total + extra > u128::MAX {
                Some(Error::Overflow)
            } else {
                None
            },
        }
    }

    /// Why `bond_less(who, less)` is refused, if it is.
    pub open spec fn bond_less_refusal(&self, who: AccountId, less: Balance) -> Option<Error> {
        match self.collator_ledger(who) {
            None => Some(Error::BondNotExist),
            Some(c) => if c.status != StakerStatus::Active {
                Some(Error::CandidateNotActive)
            } else if c.active <= less || c.active - less < bond_total(c.nominations@) {
                Some(Error::Underflow)
            } else if c.active - less < self.config.min_collator_stake {
                Some(Error::BondBelowMin)
            } else {
                None
            },
        }
    }

    /// Why `nominate(who, candidate, amount)` is refused, if it is.
    pub open spec fn nominate_refusal(
        &self,
        who: AccountId,
        candidate: AccountId,
        amount: Balance,
    ) -> Option<Error> {
        if amount < self.config.min_nominator_stake {
            Some(Error::NominateBelowMin)
        } else {
            match self.collator_ledger(candidate) {
                None => Some(Error::CandidateNotExist),
                Some(c) => if c.status != StakerStatus::Active {
                    Some(Error::CandidateNotActive)
                } else if c.nominations@.len() >= self.config.max_nominations_per_collator {
                    Some(Error::TooManyNominations)
                } else {
                    match self.nominator_ledger(who) {
                        Some(n) => if has_owner(n.nominations@, candidate) {
                            Some(Error::AlreadyNominatedCollator)
                        } else if n.nominations@.len() >= self.config.max_collators_per_nominator {
                            Some(Error::TooManyCandidates)
                        } else if has_owner(c.nominations@, who) {
                            Some(Error::AlreadyNominatedCollator)
                        } else if c.total + amount > u128::MAX || n.total + amount > u128::MAX {
                            Some(Error::Overflow)
                        } else {
                            None
                        },
                        None => if has_owner(c.nominations@, who) {
                            Some(Error::AlreadyNominatedCollator)
                        } else if c.total + amount > u128::MAX {
                            Some(Error::Overflow)
                        } else {
                            None
                        },
                    }
                },
            }
        }
    }

    /// Why `nominate_extra(who, candidate, extra)` is refused, if it is.
    pub open spec fn nominate_extra_refusal(
        &self,
        who: AccountId,
        candidate: AccountId,
        extra: Balance,
    ) -> Option<Error> {
        match self.collator_ledger(candidate) {
            None => Some(Error::CandidateNotExist),
            Some(c) => if c.status != StakerStatus::Active {
                Some(Error::CandidateNotActive)
            } else {
                match self.nominator_ledger(who) {
                    None => Some(Error::NominationNotExist),
                    Some(n) => if !has_owner(n.nominations@, candidate) {
                        Some(Error::CandidateNotExist)
                    } else if !has_owner(c.nominations@, who) {
                        Some(Error::NominationNotExist)
                    } else if c.total + extra > u128::MAX || n.total + extra > u128::MAX {
                        Some(Error::Overflow)
                    } else {
                        None
                    },
                }
            },
        }
    }

    /// Why `nominate_less(who, candidate, less)` is refused, if it is.
    pub open spec fn nominate_less_refusal(
        &self,
        who: AccountId,
        candidate: AccountId,
        less: Balance,
    ) -> Option<Error> {
        let min = self.config.min_nominator_stake;
        match self.collator_ledger(candidate) {
            None => Some(Error::CandidateNotExist),
            Some(c) => if c.status != StakerStatus::Active {
                Some(Error::CandidateNotActive)
            } else {
                match self.nominator_ledger(who) {
                    None => Some(Error::NominationNotExist),
                    Some(n) => {
                        let na = n.nominations@[owner_index(n.nominations@, candidate)].amount;
                        let ca = c.nominations@[owner_index(c.nominations@, who)].amount;
                        if !has_owner(n.nominations@, candidate) {
                            Some(Error::CandidateNotExist)
                        } else if na <= less {
                            Some(Error::Underflow)
                        } else if na - less < min {
                            Some(Error::NominateBelowMin)
                        } else if !has_owner(c.nominations@, who) {
                            Some(Error::NominationNotExist)
                        } else if ca <= less {
                            Some(Error::Underflow)
                        } else if ca - less < min {
                            Some(Error::NominateBelowMin)
                        } else {
                            None
                        }
                    },
                }
            },
        }
    }

    /// Why `nominator_leave_collator(who, candidate)` is refused, if it is.
    pub open spec fn leave_collator_refusal(&self, who: AccountId, candidate: AccountId) -> Option<Error> {
        match self.nominator_ledger(who) {
            None => Some(Error::NominationNotExist),
            Some(n) => match self.collator_ledger(candidate) {
                None => Some(Error::CandidateNotExist),
                Some(c) => if !has_owner(n.nominations@, candidate) {
                    Some(Error::CandidateNotExist)
                } else if !has_owner(c.nominations@, who) {
                    Some(Error::NominationNotExist)
                } else {
                    None
                },
            },
        }
    }

    /// Why `collator_unbond(who)` is refused, if it is.
    pub open spec fn collator_unbond_refusal(&self, who: AccountId) -> Option<Error> {
        if !has_key(self.collator_entries@, who) {
            Some(Error::BondNotExist)
        } else if has_key(self.exit_entries@, who) {
            Some(Error::AlreadyLeaving)
        } else {
            None
        }
    }

    /// An empty store, at round 1 starting at block 0.
    pub fn new(config: Config) -> (r: Self)
        ensures
            r.wf(),
            r.config == config,
            r.round == (RoundInfo { index: 1, start_in: 0, length: config.blocks_per_round }),
            r.collator_entries@.len() == 0,
            r.nominator_entries@.len() == 0,
            r.exit_entries@.len() == 0,
            r.staked() == 0,
    {
        Pallet {
            config,
            round: RoundInfo::new(1, 0, config.blocks_per_round),
            collator_entries: Vec::new(),
            nominator_entries: Vec::new(),
            exit_entries: Vec::new(),
            version: Releases::default(),
        }
    }

    /// The current round.
    pub fn current_round(&self) -> (r: RoundInfo)
        ensures
            r == self.round,
    {
        self.round
    }

    /// The storage layout version.
    pub fn storage_version(&self) -> (r: Releases)
        ensures
            r == self.version,
    {
        self.version
    }

    /// The ledger of collator `who`, if any.
    pub fn collators(&self, who: AccountId) -> (r: Option<&StakingCollators>)
        requires
            self.wf(),
        ensures
            match r {
                Some(c) => self.collator_ledger(who) == Some(*c),
                None => self.collator_ledger(who) is None,
            },
    {
        match find_key(&self.collator_entries, who) {
            Some(i) => Some(&self.collator_entries[i].1),
            None => None,
        }
    }

    /// The ledger of nominator `who`, if any.
    pub fn nominators(&self, who: AccountId) -> (r: Option<&StakingNominators>)
        requires
            self.wf(),
        ensures
            match r {
                Some(n) => self.nominator_ledger(who) == Some(*n),
                None => self.nominator_ledger(who) is None,
            },
    {
        match find_key(&self.nominator_entries, who) {
            Some(i) => Some(&self.nominator_entries[i].1),
            None => None,
        }
    }

    /// The exit queue entry of collator `who`, if any.
    pub fn exit_queue(&self, who: AccountId) -> (r: Option<&Leaving>)
        requires
            self.wf(),
        ensures
            match r {
                Some(e) => self.exit_entry(who) == Some(*e),
                None => self.exit_entry(who) is None,
            },
    {
        match find_key(&self.exit_entries, who) {
            Some(i) => Some(&self.exit_entries[i].1),
            None => None,
        }
    }

    fn release_round_exec(&self) -> (r: RoundIndex)
        ensures
            r == self.release_round(),
    {
        self.round.index.saturating_add(self.config.bond_duration)
    }

    /// Bonds `amount` for `who`, who becomes an onboarding collator whose stake
    /// turns active at the next round.
    pub fn bond(&mut self, who: AccountId, amount: Balance) -> (r: Result<Vec<CurrencyOp>, Error>)
        requires
            old(self).wf(),
        ensures
            final(self).wf(),
            old(self).bond_refusal(who, amount) is Some ==> r == Err::<Vec<CurrencyOp>, Error>(
                old(self).bond_refusal(who, amount).unwrap(),
            ),
            old(self).bond_refusal(who, amount) is None ==> r is Ok,
            r is Err ==> *final(self) == *old(self),
            r matches Ok(ops) ==> {
                let c = final(self).collator_entries@.last().1;
                &&& !has_key(old(self).collator_entries@, who)
                &&& amount >= old(self).config.min_collator_stake
                &&& final(self).collator_entries@.drop_last() == old(self).collator_entries@
                &&& final(self).collator_entries@.last().0 == who
                &&& final(self).collator_ledger(who) == Some(c)
                &&& c.total == amount
                &&& c.active == 0
                &&& c.nominations@.len() == 0
                &&& c.unlocking@ == seq![
                    (UnlockChunk { value: amount, round: saturate_u32(old(self).round.index + 1) }),
                ]
                &&& c.unbonding@.len() == 0
                &&& c.status == StakerStatus::Onboarding
                &&& Pallet::same_but_collators(old(self), final(self))
                &&& ops@ == seq![CurrencyOp::Reserve(who, amount)]
                &&& final(self).staked() == old(self).staked() + net_reserved(ops@)
            },
    {
        if find_key(&self.collator_entries, who).is_some() {
            return Err(Error::AlreadyBonded);
        }
        if amount < self.config.min_collator_stake {
            return Err(Error::BondBelowMin);
        }
        let staker = StakingCollators::new(amount, self.round.next_round_index());
        proof {
            lemma_push_keys(self.collator_entries@, who, staker);
            lemma_sum_push(self.collator_entries@, (who, staker), collator_held());
            assert(self.collator_entries@.push((who, staker)).drop_last() =~= self.collator_entries@);
        }
        self.collator_entries.push((who, staker));
        let mut ops: Vec<CurrencyOp> = Vec::new();
        ops.push(CurrencyOp::Reserve(who, amount));
        proof {
            reveal_with_fuel(sum_of, 2);
            assert(ops@.drop_last() =~= Seq::<CurrencyOp>::empty());
        }
        Ok(ops)
    }

    /// Makes the collator `candidate` active at once, with all its stake active;
    /// refused for a collator that is active already.
    pub fn force_onboard(&mut self, candidate: AccountId) -> (r: Result<Vec<CurrencyOp>, Error>)
        requires
            old(self).wf(),
        ensures
            final(self).wf(),
            old(self).force_onboard_refusal(candidate) is Some ==> r == Err::<Vec<CurrencyOp>, Error>(
                old(self).force_onboard_refusal(candidate).unwrap(),
            ),
            old(self).force_onboard_refusal(candidate) is None ==> r is Ok,
            r is Err ==> *final(self) == *old(self),
            r matches Ok(ops) ==> {
                let c0 = old(self).collator_ledger(candidate).unwrap();
                let c1 = final(self).collator_ledger(candidate).unwrap();
                &&& old(self).collator_ledger(candidate) is Some
                &&& c0.status != StakerStatus::Active
                &&& final(self).collator_ledger(candidate) is Some
                &&& only_entry_changed(old(self).collator_entries@, final(self).collator_entries@, candidate)
                &&& c1.active == c0.total
                &&& c1.unlocking@.len() == 0
                &&& c1.status == StakerStatus::Active
                &&& c1.total == c0.total
                &&& c1.nominations == c0.nominations
                &&& c1.unbonding == c0.unbonding
                &&& Pallet::same_but_collators(old(self), final(self))
                &&& ops@.len() == 0
                &&& final(self).staked() == old(self).staked() + net_reserved(ops@)
            },
    {
        let i = match find_key(&self.collator_entries, candidate) {
            Some(i) => i,
            None => return Err(Error::CandidateNotExist),
        };
        if self.collator_entries[i].1.is_active() {
            return Err(Error::CandidateNotActive);
        }
        proof {
            lemma_key_index(self.collator_entries@, i as int);
        }
        let ghost before = self.collator_entries@;
        self.collator_entries[i].1.force_bond();
        proof {
            let e = self.collator_entries@[i as int];
            assert(self.collator_entries@ == before.update(i as int, (before[i as int].0, e.1)));
            lemma_replace_value(before, i as int, e.1);
            lemma_sum_update(before, i as int, e, collator_held());
        }
        Ok(Vec::new())
    }

    /// Bonds `extra` more for the active collator `who`, to become active at the
    /// next round.
    pub fn bond_extra(&mut self, who: AccountId, extra: Balance) -> (r: Result<Vec<CurrencyOp>, Error>)
        requires
            old(self).wf(),
        ensures
            final(self).wf(),
            old(self).bond_extra_refusal(who, extra) is Some ==> r == Err::<Vec<CurrencyOp>, Error>(
                old(self).bond_extra_refusal(who, extra).unwrap(),
            ),
            old(self).bond_extra_refusal(who, extra) is None ==> r is Ok,
            r is Err ==> *final(self) == *old(self),
            r matches Ok(ops) ==> {
                let c0 = old(self).collator_ledger(who).unwrap();
                let c1 = final(self).collator_ledger(who).unwrap();
                &&& old(self).collator_ledger(who) is Some
                &&& c0.status == StakerStatus::Active
                &&& final(self).collator_ledger(who) is Some
                &&& only_entry_changed(old(self).collator_entries@, final(self).collator_entries@, who)
                &&& c1.total == c0.total + extra
                &&& c1.unlocking@ == c0.unlocking@.push(
                    UnlockChunk { value: extra, round: saturate_u32(old(self).round.index + 1) },
                )
                &&& c1.active == c0.active
                &&& c1.nominations == c0.nominations
                &&& c1.unbonding == c0.unbonding
                &&& c1.status == c0.status
                &&& Pallet::same_but_collators(old(self), final(self))
                &&& ops@ == seq![CurrencyOp::Reserve(who, extra)]
                &&& final(self).staked() == old(self).staked() + net_reserved(ops@)
            },
    {
        let i = match find_key(&self.collator_entries, who) {
            Some(i) => i,
            None => return Err(Error::BondNotExist),
        };
        if !self.collator_entries[i].1.is_active() {
            return Err(Error::CandidateNotActive);
        }
        if self.collator_entries[i].1.total > u128::MAX - extra {
            return Err(Error::Overflow);
        }
        proof {
            lemma_key_index(self.collator_entries@, i as int);
        }
        let next = self.round.next_round_index();
        let ghost before = self.collator_entries@;
        self.collator_entries[i].1.bond_extra(extra, next);
        proof {
            let e = self.collator_entries@[i as int];
            assert(self.collator_entries@ == before.update(i as int, (before[i as int].0, e.1)));
            lemma_replace_value(before, i as int, e.1);
            lemma_sum_update(before, i as int, e, collator_held());
        }
        let mut ops: Vec<CurrencyOp> = Vec::new();
        ops.push(CurrencyOp::Reserve(who, extra));
        proof {
            reveal_with_fuel(sum_of, 2);
            assert(ops@.drop_last() =~= Seq::<CurrencyOp>::empty());
        }
        Ok(ops)
    }

    /// Takes `less` off the active stake of the active collator `who`, to become
    /// free after the bonding duration. Refused when `less` is not below the active
    /// stake or would cut into the stake that nominators back it with, and when the
    /// active stake would fall below the collator minimum.
    pub fn bond_less(&mut self, who: AccountId, less: Balance) -> (r: Result<Vec<CurrencyOp>, Error>)
        requires
            old(self).wf(),
        ensures
            final(self).wf(),
            old(self).bond_less_refusal(who, less) is Some ==> r == Err::<Vec<CurrencyOp>, Error>(
                old(self).bond_less_refusal(who, less).unwrap(),
            ),
            old(self).bond_less_refusal(who, less) is None ==> r is Ok,
            r is Err ==> *final(self) == *old(self),
            r matches Ok(ops) ==> {
                let c0 = old(self).collator_ledger(who).unwrap();
                let c1 = final(self).collator_ledger(who).unwrap();
                &&& old(self).collator_ledger(who) is Some
                &&& c0.status == StakerStatus::Active
                &&& final(self).collator_ledger(who) is Some
                &&& only_entry_changed(old(self).collator_entries@, final(self).collator_entries@, who)
                &&& c1.active == c0.active - less
                &&& c1.unbonding@ == c0.unbonding@.push(
                    UnBondChunk { value: less, round: old(self).release_round() },
                )
                &&& c1.total == c0.total
                &&& c1.nominations == c0.nominations
                &&& c1.unlocking == c0.unlocking
                &&& c1.status == c0.status
                &&& Pallet::same_but_collators(old(self), final(self))
                &&& ops@.len() == 0
                &&& final(self).staked() == old(self).staked() + net_reserved(ops@)
            },
    {
        let i = match find_key(&self.collator_entries, who) {
            Some(i) => i,
            None => return Err(Error::BondNotExist),
        };
        if !self.collator_entries[i].1.is_active() {
            return Err(Error::CandidateNotActive);
        }
        proof {
            lemma_key_index(self.collator_entries@, i as int);
            assert(collator_ok(self.collator_entries@[i as int].1));
        }
        let active = self.collator_entries[i].1.active;
        let backed = self.collator_entries[i].1.nomination_total();
        if active <= less || active - less < backed {
            return Err(Error::Underflow);
        }
        if active - less < self.config.min_collator_stake {
            return Err(Error::BondBelowMin);
        }
        let when = self.release_round_exec();
        let ghost before = self.collator_entries@;
        let _ = self.collator_entries[i].1.bond_less(less, when);
        proof {
            let e = self.collator_entries@[i as int];
            assert(self.collator_entries@ == before.update(i as int, (before[i as int].0, e.1)));
            lemma_replace_value(before, i as int, e.1);
            lemma_sum_update(before, i as int, e, collator_held());
        }
        Ok(Vec::new())
    }

    /// `who` nominates the active collator `candidate` with `amount`, which counts
    /// towards the collator's stake at once and is reserved from `who`.
    pub fn nominate(&mut self, who: AccountId, candidate: AccountId, amount: Balance) -> (r: Result<
        Vec<CurrencyOp>,
        Error,
    >)
        requires
            old(self).wf(),
        ensures
            final(self).wf(),
            old(self).nominate_refusal(who, candidate, amount) is Some ==> r == Err::<Vec<CurrencyOp>, Error>(
                old(self).nominate_refusal(who, candidate, amount).unwrap(),
            ),
            old(self).nominate_refusal(who, candidate, amount) is None ==> r is Ok,
            r is Err ==> *final(self) == *old(self),
            r matches Ok(ops) ==> {
                let c0 = old(self).collator_ledger(candidate).unwrap();
                let c1 = final(self).collator_ledger(candidate).unwrap();
                let n1 = final(self).nominator_ledger(who).unwrap();
                let b = Bond { owner: candidate, amount };
                &&& amount >= old(self).config.min_nominator_stake
                &&& old(self).collator_ledger(candidate) is Some
                &&& c0.status == StakerStatus::Active
                &&& c0.nominations@.len() < old(self).config.max_nominations_per_collator
                &&& !has_owner(c0.nominations@, who)
                &&& final(self).collator_ledger(candidate) is Some
                &&& only_entry_changed(old(self).collator_entries@, final(self).collator_entries@, candidate)
                &&& c1.nominations@ == c0.nominations@.insert(
                    owner_rank(c0.nominations@, who),
                    Bond { owner: who, amount },
                )
                &&& c1.active == c0.active + amount
                &&& c1.total == c0.total + amount
                &&& c1.unlocking == c0.unlocking
                &&& c1.unbonding == c0.unbonding
                &&& c1.status == c0.status
                &&& final(self).nominator_ledger(who) is Some
                &&& match old(self).nominator_ledger(who) {
                    Some(n0) => {
                        &&& !has_owner(n0.nominations@, candidate)
                        &&& n0.nominations@.len() < old(self).config.max_collators_per_nominator
                        &&& only_entry_changed(old(self).nominator_entries@, final(self).nominator_entries@, who)
                        &&& n1.nominations@ == n0.nominations@.insert(owner_rank(n0.nominations@, candidate), b)
                        &&& n1.total == n0.total + amount
                        &&& n1.unbonding == n0.unbonding
                    },
                    None => {
                        &&& final(self).nominator_entries@.drop_last() == old(self).nominator_entries@
                        &&& n1.nominations@ == seq![b]
                        &&& n1.total == amount
                        &&& n1.unbonding@.len() == 0
                    },
                }
                &&& Pallet::same_but_ledgers(old(self), final(self))
                &&& ops@ == seq![CurrencyOp::Reserve(who, amount)]
                &&& final(self).staked() == old(self).staked() + net_reserved(ops@)
            },
    {
        if amount < self.config.min_nominator_stake {
            return Err(Error::NominateBelowMin);
        }
        let ci = match find_key(&self.collator_entries, candidate) {
            Some(i) => i,
            None => return Err(Error::CandidateNotExist),
        };
        if !self.collator_entries[ci].1.is_active() {
            return Err(Error::CandidateNotActive);
        }
        if self.collator_entries[ci].1.nominations.len() >= self.config.max_nominations_per_collator as usize {
            return Err(Error::TooManyNominations);
        }
        proof {
            lemma_key_index(self.collator_entries@, ci as int);
            assert(collator_ok(self.collator_entries@[ci as int].1));
        }
        let found = find_key(&self.nominator_entries, who);
        match found {
            Some(ni) => {
                proof {
                    lemma_key_index(self.nominator_entries@, ni as int);
                    assert(self.nominator_entries@[ni as int].1.wf());
                }
                if search_owner(&self.nominator_entries[ni].1.nominations, candidate).is_ok() {
                    return Err(Error::AlreadyNominatedCollator);
                }
                if self.nominator_entries[ni].1.nominations.len()
                    >= self.config.max_collators_per_nominator as usize {
                    return Err(Error::TooManyCandidates);
                }
            },
            None => {},
        }
        if search_owner(&self.collator_entries[ci].1.nominations, who).is_ok() {
            return Err(Error::AlreadyNominatedCollator);
        }
        if self.collator_entries[ci].1.total > u128::MAX - amount {
            return Err(Error::Overflow);
        }
        match found {
            Some(ni) => {
                if self.nominator_entries[ni].1.total > u128::MAX - amount {
                    return Err(Error::Overflow);
                }
            },
            None => {},
        }
        let ghost before_c = self.collator_entries@;
        let ghost before_n = self.nominator_entries@;
        let ghost staked0 = self.staked();
        match found {
            Some(ni) => {
                let _ = self.nominator_entries[ni].1.add_nomination(Bond { owner: candidate, amount });
                proof {
                    let e = self.nominator_entries@[ni as int];
                    assert(self.nominator_entries@ == before_n.update(ni as int, (before_n[ni as int].0, e.1)));
                    lemma_replace_value(before_n, ni as int, e.1);
                    lemma_sum_update(before_n, ni as int, e, nominator_held());
                }
            },
            None => {
                let mut noms: Vec<Bond> = Vec::new();
                noms.push(Bond { owner: candidate, amount });
                proof {
                    reveal_with_fuel(sum_of, 2);
                    assert(noms@.drop_last() =~= Seq::<Bond>::empty());
                    lemma_unbond_total_nonneg(Seq::<UnBondChunk>::empty());
                }
                let n = StakingNominators::new(noms, amount);
                proof {
                    lemma_push_keys(before_n, who, n);
                    lemma_sum_push(before_n, (who, n), nominator_held());
                    assert(before_n.push((who, n)).drop_last() =~= before_n);
                }
                self.nominator_entries.push((who, n));
            },
        }
        let _ = self.collator_entries[ci].1.add_nomination(Bond { owner: who, amount });
        proof {
            let e = self.collator_entries@[ci as int];
            assert(self.collator_entries@ == before_c.update(ci as int, (before_c[ci as int].0, e.1)));
            lemma_replace_value(before_c, ci as int, e.1);
            lemma_sum_update(before_c, ci as int, e, collator_held());
        }
        let mut ops: Vec<CurrencyOp> = Vec::new();
        ops.push(CurrencyOp::Reserve(who, amount));
        proof {
            reveal_with_fuel(sum_of, 2);
            assert(ops@.drop_last() =~= Seq::<CurrencyOp>::empty());
        }
        Ok(ops)
    }

    /// `who` adds `extra` to its nomination of the active collator `candidate`;
    /// it counts towards the collator's stake at once and is reserved from `who`.
    pub fn nominate_extra(&mut self, who: AccountId, candidate: AccountId, extra: Balance) -> (r:
        Result<Vec<CurrencyOp>, Error>)
        requires
            old(self).wf(),
        ensures
            final(self).wf(),
            old(self).nominate_extra_refusal(who, candidate, extra) is Some ==> r == Err::<
                Vec<CurrencyOp>,
                Error,
            >(
                old(self).nominate_extra_refusal(who, candidate, extra).unwrap(),
            ),
            old(self).nominate_extra_refusal(who, candidate, extra) is None ==> r is Ok,
            r is Err ==> *final(self) == *old(self),
            r matches Ok(ops) ==> {
                let c0 = old(self).collator_ledger(candidate).unwrap();
                let c1 = final(self).collator_ledger(candidate).unwrap();
                let n0 = old(self).nominator_ledger(who).unwrap();
                let n1 = final(self).nominator_ledger(who).unwrap();
                let ci = owner_index(c0.nominations@, who);
                let ni = owner_index(n0.nominations@, candidate);
                &&& old(self).collator_ledger(candidate) is Some
                &&& old(self).nominator_ledger(who) is Some
                &&& c0.status == StakerStatus::Active
                &&& has_owner(c0.nominations@, who)
                &&& has_owner(n0.nominations@, candidate)
                &&& final(self).collator_ledger(candidate) is Some
                &&& final(self).nominator_ledger(who) is Some
                &&& only_entry_changed(old(self).collator_entries@, final(self).collator_entries@, candidate)
                &&& only_entry_changed(old(self).nominator_entries@, final(self).nominator_entries@, who)
                &&& c1.nominations@ == c0.nominations@.update(
                    ci,
                    Bond { owner: who, amount: (c0.nominations@[ci].amount + extra) as Balance },
                )
                &&& c1.active == c0.active + extra
                &&& c1.total == c0.total + extra
                &&& c1.unlocking == c0.unlocking
                &&& c1.unbonding == c0.unbonding
                &&& c1.status == c0.status
                &&& n1.nominations@ == n0.nominations@.update(
                    ni,
                    Bond { owner: candidate, amount: (n0.nominations@[ni].amount + extra) as Balance },
                )
                &&& n1.total == n0.total + extra
                &&& n1.unbonding == n0.unbonding
                &&& Pallet::same_but_ledgers(old(self), final(self))
                &&& ops@ == seq![CurrencyOp::Reserve(who, extra)]
                &&& final(self).staked() == old(self).staked() + net_reserved(ops@)
            },
    {
        let ci = match find_key(&self.collator_entries, candidate) {
            Some(i) => i,
            None => return Err(Error::CandidateNotExist),
        };
        if !self.collator_entries[ci].1.is_active() {
            return Err(Error::CandidateNotActive);
        }
        let ni = match find_key(&self.nominator_entries, who) {
            Some(i) => i,
            None => return Err(Error::NominationNotExist),
        };
        proof {
            lemma_key_index(self.collator_entries@, ci as int);
            lemma_key_index(self.nominator_entries@, ni as int);
            assert(collator_ok(self.collator_entries@[ci as int].1));
            assert(self.nominator_entries@[ni as int].1.wf());
        }
        if search_owner(&self.nominator_entries[ni].1.nominations, candidate).is_err() {
            return Err(Error::CandidateNotExist);
        }
        if search_owner(&self.collator_entries[ci].1.nominations, who).is_err() {
            return Err(Error::NominationNotExist);
        }
        if self.collator_entries[ci].1.total > u128::MAX - extra
            || self.nominator_entries[ni].1.total > u128::MAX - extra {
            return Err(Error::Overflow);
        }
        let ghost before_c = self.collator_entries@;
        let ghost before_n = self.nominator_entries@;
        let _ = self.nominator_entries[ni].1.nominate_extra(Bond { owner: candidate, amount: extra });
        proof {
            let e = self.nominator_entries@[ni as int];
            assert(self.nominator_entries@ == before_n.update(ni as int, (before_n[ni as int].0, e.1)));
            lemma_replace_value(before_n, ni as int, e.1);
            lemma_sum_update(before_n, ni as int, e, nominator_held());
        }
        let _ = self.collator_entries[ci].1.nominate_extra(Bond { owner: who, amount: extra });
        proof {
            let e = self.collator_entries@[ci as int];
            assert(self.collator_entries@ == before_c.update(ci as int, (before_c[ci as int].0, e.1)));
            lemma_replace_value(before_c, ci as int, e.1);
            lemma_sum_update(before_c, ci as int, e, collator_held());
        }
        let mut ops: Vec<CurrencyOp> = Vec::new();
        ops.push(CurrencyOp::Reserve(who, extra));
        proof {
            reveal_with_fuel(sum_of, 2);
            assert(ops@.drop_last() =~= Seq::<CurrencyOp>::empty());
        }
        Ok(ops)
    }

    /// `who` takes `less` off its nomination of the active collator `candidate`:
    /// off the collator's stake at once, and into the nominator's unbonding queue
    /// until the bonding duration has passed. Both sides must stay above `less` and
    /// keep the nominator minimum.
    pub fn nominate_less(&mut self, who: AccountId, candidate: AccountId, less: Balance) -> (r:
        Result<Vec<CurrencyOp>, Error>)
        requires
            old(self).wf(),
        ensures
            final(self).wf(),
            old(self).nominate_less_refusal(who, candidate, less) is Some ==> r == Err::<Vec<CurrencyOp>, Error>(
                old(self).nominate_less_refusal(who, candidate, less).unwrap(),
            ),
            old(self).nominate_less_refusal(who, candidate, less) is None ==> r is Ok,
            r is Err ==> *final(self) == *old(self),
            r matches Ok(ops) ==> {
                let c0 = old(self).collator_ledger(candidate).unwrap();
                let c1 = final(self).collator_ledger(candidate).unwrap();
                let n0 = old(self).nominator_ledger(who).unwrap();
                let n1 = final(self).nominator_ledger(who).unwrap();
                let ci = owner_index(c0.nominations@, who);
                let ni = owner_index(n0.nominations@, candidate);
                let min = old(self).config.min_nominator_stake;
                &&& old(self).collator_ledger(candidate) is Some
                &&& old(self).nominator_ledger(who) is Some
                &&& c0.status == StakerStatus::Active
                &&& has_owner(c0.nominations@, who)
                &&& has_owner(n0.nominations@, candidate)
                &&& n0.nominations@[ni].amount > less && n0.nominations@[ni].amount - less >= min
                &&& c0.nominations@[ci].amount > less && c0.nominations@[ci].amount - less >= min
                &&& final(self).collator_ledger(candidate) is Some
                &&& final(self).nominator_ledger(who) is Some
                &&& only_entry_changed(old(self).collator_entries@, final(self).collator_entries@, candidate)
                &&& only_entry_changed(old(self).nominator_entries@, final(self).nominator_entries@, who)
                &&& c1.nominations@ == c0.nominations@.update(
                    ci,
                    Bond { owner: who, amount: (c0.nominations@[ci].amount - less) as Balance },
                )
                &&& c1.active == c0.active - less
                &&& c1.total == c0.total - less
                &&& c1.unlocking == c0.unlocking
                &&& c1.unbonding == c0.unbonding
                &&& c1.status == c0.status
                &&& n1.nominations@ == n0.nominations@.update(
                    ni,
                    Bond { owner: candidate, amount: (n0.nominations@[ni].amount - less) as Balance },
                )
                &&& n1.unbonding@ == n0.unbonding@.push(
                    UnBondChunk { value: less, round: old(self).release_round() },
                )
                &&& n1.total == n0.total
                &&& Pallet::same_but_ledgers(old(self), final(self))
                &&& ops@.len() == 0
                &&& final(self).staked() == old(self).staked() + net_reserved(ops@)
            },
    {
        let ci = match find_key(&self.collator_entries, candidate) {
            Some(i) => i,
            None => return Err(Error::CandidateNotExist),
        };
        if !self.collator_entries[ci].1.is_active() {
            return Err(Error::CandidateNotActive);
        }
        let ni = match find_key(&self.nominator_entries, who) {
            Some(i) => i,
            None => return Err(Error::NominationNotExist),
        };
        proof {
            lemma_key_index(self.collator_entries@, ci as int);
            lemma_key_index(self.nominator_entries@, ni as int);
            assert(collator_ok(self.collator_entries@[ci as int].1));
            assert(self.nominator_entries@[ni as int].1.wf());
        }
        let min = self.config.min_nominator_stake;
        let nk = match search_owner(&self.nominator_entries[ni].1.nominations, candidate) {
            Ok(k) => k,
            Err(_) => return Err(Error::CandidateNotExist),
        };
        let na = self.nominator_entries[ni].1.nominations[nk].amount;
        if na <= less {
            return Err(Error::Underflow);
        }
        if na - less < min {
            return Err(Error::NominateBelowMin);
        }
        let ck = match search_owner(&self.collator_entries[ci].1.nominations, who) {
            Ok(k) => k,
            Err(_) => return Err(Error::NominationNotExist),
        };
        let ca = self.collator_entries[ci].1.nominations[ck].amount;
        if ca <= less {
            return Err(Error::Underflow);
        }
        if ca - less < min {
            return Err(Error::NominateBelowMin);
        }
        let when = self.release_round_exec();
        let ghost before_c = self.collator_entries@;
        let ghost before_n = self.nominator_entries@;
        let _ = self.nominator_entries[ni].1.nominate_less(Bond { owner: candidate, amount: less }, when);
        proof {
            let e = self.nominator_entries@[ni as int];
            assert(self.nominator_entries@ == before_n.update(ni as int, (before_n[ni as int].0, e.1)));
            lemma_replace_value(before_n, ni as int, e.1);
            lemma_sum_update(before_n, ni as int, e, nominator_held());
        }
        let _ = self.collator_entries[ci].1.nominate_less(Bond { owner: who, amount: less });
        proof {
            let e = self.collator_entries@[ci as int];
            assert(self.collator_entries@ == before_c.update(ci as int, (before_c[ci as int].0, e.1)));
            lemma_replace_value(before_c, ci as int, e.1);
            lemma_sum_update(before_c, ci as int, e, collator_held());
        }
        Ok(Vec::new())
    }

    /// `who` withdraws its whole nomination of collator `candidate`: off the
    /// collator's stake at once, and into the nominator's unbonding queue until the
    /// bonding duration has passed.
    pub fn nominator_leave_collator(&mut self, who: AccountId, candidate: AccountId) -> (r: Result<
        Vec<CurrencyOp>,
        Error,
    >)
        requires
            old(self).wf(),
        ensures
            final(self).wf(),
            old(self).leave_collator_refusal(who, candidate) is Some ==> r == Err::<Vec<CurrencyOp>, Error>(
                old(self).leave_collator_refusal(who, candidate).unwrap(),
            ),
            old(self).leave_collator_refusal(who, candidate) is None ==> r is Ok,
            r is Err ==> *final(self) == *old(self),
            r matches Ok(ops) ==> {
                let c0 = old(self).collator_ledger(candidate).unwrap();
                let c1 = final(self).collator_ledger(candidate).unwrap();
                let n0 = old(self).nominator_ledger(who).unwrap();
                let n1 = final(self).nominator_ledger(who).unwrap();
                let ci = owner_index(c0.nominations@, who);
                let ni = owner_index(n0.nominations@, candidate);
                &&& old(self).collator_ledger(candidate) is Some
                &&& old(self).nominator_ledger(who) is Some
                &&& has_owner(c0.nominations@, who)
                &&& has_owner(n0.nominations@, candidate)
                &&& final(self).collator_ledger(candidate) is Some
                &&& final(self).nominator_ledger(who) is Some
                &&& only_entry_changed(old(self).collator_entries@, final(self).collator_entries@, candidate)
                &&& only_entry_changed(old(self).nominator_entries@, final(self).nominator_entries@, who)
                &&& c1.nominations@ == c0.nominations@.remove(ci)
                &&& c1.active == c0.active - c0.nominations@[ci].amount
                &&& c1.total == c0.total - c0.nominations@[ci].amount
                &&& c1.unlocking == c0.unlocking
                &&& c1.unbonding == c0.unbonding
                &&& c1.status == c0.status
                &&& n1.nominations@ == n0.nominations@.remove(ni)
                &&& n1.unbonding@ == n0.unbonding@.push(
                    UnBondChunk { value: n0.nominations@[ni].amount, round: old(self).release_round() },
                )
                &&& n1.total == n0.total
                &&& Pallet::same_but_ledgers(old(self), final(self))
                &&& ops@.len() == 0
                &&& final(self).staked() == old(self).staked() + net_reserved(ops@)
            },
    {
        let ni = match find_key(&self.nominator_entries, who) {
            Some(i) => i,
            None => return Err(Error::NominationNotExist),
        };
        let ci = match find_key(&self.collator_entries, candidate) {
            Some(i) => i,
            None => return Err(Error::CandidateNotExist),
        };
        proof {
            lemma_key_index(self.collator_entries@, ci as int);
            lemma_key_index(self.nominator_entries@, ni as int);
            assert(collator_ok(self.collator_entries@[ci as int].1));
            assert(self.nominator_entries@[ni as int].1.wf());
        }
        if search_owner(&self.nominator_entries[ni].1.nominations, candidate).is_err() {
            return Err(Error::CandidateNotExist);
        }
        if search_owner(&self.collator_entries[ci].1.nominations, who).is_err() {
            return Err(Error::NominationNotExist);
        }
        let when = self.release_round_exec();
        let ghost before_c = self.collator_entries@;
        let ghost before_n = self.nominator_entries@;
        let _ = self.nominator_entries[ni].1.rm_nomination(candidate, when);
        proof {
            let e = self.nominator_entries@[ni as int];
            assert(self.nominator_entries@ == before_n.update(ni as int, (before_n[ni as int].0, e.1)));
            lemma_replace_value(before_n, ni as int, e.1);
            lemma_sum_update(before_n, ni as int, e, nominator_held());
        }
        let _ = self.collator_entries[ci].1.rm_nomination(who);
        proof {
            let e = self.collator_entries@[ci as int];
            assert(self.collator_entries@ == before_c.update(ci as int, (before_c[ci as int].0, e.1)));
            lemma_replace_value(before_c, ci as int, e.1);
            lemma_sum_update(before_c, ci as int, e, collator_held());
        }
        Ok(Vec::new())
    }

    /// The collator `who` leaves. Every nomination of it is given back to its
    /// nominator at once; the collator's ledger is gone, and an exit queue entry
    /// holds its own stake until the bonding duration has passed.
    pub fn collator_unbond(&mut self, who: AccountId) -> (r: Result<Vec<CurrencyOp>, Error>)
        requires
            old(self).wf(),
        ensures
            final(self).wf(),
            old(self).collator_unbond_refusal(who) is Some ==> r == Err::<Vec<CurrencyOp>, Error>(
                old(self).collator_unbond_refusal(who).unwrap(),
            ),
            old(self).collator_unbond_refusal(who) is None ==> r is Ok,
            r is Err ==> *final(self) == *old(self),
            r matches Ok(ops) ==> {
                let c0 = old(self).collator_ledger(who).unwrap();
                let e = final(self).exit_entries@.last();
                &&& old(self).collator_ledger(who) is Some
                &&& old(self).exit_entry(who) is None
                &&& final(self).collator_entries@ == old(self).collator_entries@.remove(
                    key_index(old(self).collator_entries@, who),
                )
                &&& final(self).collator_ledger(who) is None
                &&& final(self).exit_entries@.drop_last() == old(self).exit_entries@
                &&& e.0 == who
                &&& e.1.remaining == c0.total - bond_total(c0.nominations@) - unbond_total(c0.unbonding@)
                &&& e.1.unbonding == c0.unbonding
                &&& e.1.when == old(self).release_round()
                &&& final(self).nominator_entries@.len() == old(self).nominator_entries@.len()
                &&& forall|j: int| 0 <= j < old(self).nominator_entries@.len() ==> release_step(
                    old(self).nominator_entries@[j],
                    #[trigger] final(self).nominator_entries@[j],
                    c0.nominations@,
                    who,
                )
                &&& ops@ == release_ops(c0.nominations@, old(self).nominator_entries@, who)
                &&& final(self).config == old(self).config
                &&& final(self).round == old(self).round
                &&& final(self).version == old(self).version
                &&& final(self).staked() == old(self).staked() + net_reserved(ops@)
            },
    {
        let ci = match find_key(&self.collator_entries, who) {
            Some(i) => i,
            None => return Err(Error::BondNotExist),
        };
        if find_key(&self.exit_entries, who).is_some() {
            return Err(Error::AlreadyLeaving);
        }
        proof {
            lemma_key_index(self.collator_entries@, ci as int);
            assert(collator_ok(self.collator_entries@[ci as int].1));
            lemma_remove_keys(self.collator_entries@, ci as int);
            lemma_sum_remove(self.collator_entries@, ci as int, collator_held());
        }
        let when = self.release_round_exec();
        let ghost old_c = self.collator_entries@;
        let ghost old_n = self.nominator_entries@;
        let (_, c) = self.collator_entries.remove(ci);
        assert forall|j: int| 0 <= j < self.collator_entries@.len() implies collator_ok(
            #[trigger] self.collator_entries@[j].1,
        ) by {
            if j < ci {
                assert(self.collator_entries@[j] == old_c[j]);
            } else {
                assert(self.collator_entries@[j] == old_c[j + 1]);
            }
        }
        let ghost pre = *self;
        let mut ops: Vec<CurrencyOp> = Vec::new();
        let mut k: usize = 0;
        proof {
            assert(c.nominations@.take(0) =~= Seq::<Bond>::empty());
        }
        while k < c.nominations.len()
            invariant
                0 <= k <= c.nominations@.len(),
                owners_sorted(c.nominations@),
                self.collator_entries == pre.collator_entries,
                self.exit_entries == pre.exit_entries,
                self.config == pre.config,
                self.round == pre.round,
                self.version == pre.version,
                keys_unique(old_n),
                forall|j: int| 0 <= j < old_n.len() ==> (#[trigger] old_n[j]).1.wf(),
                self.nominator_entries@.len() == old_n.len(),
                forall|j: int| 0 <= j < old_n.len() ==> release_step(
                    old_n[j],
                    #[trigger] self.nominator_entries@[j],
                    c.nominations@.take(k as int),
                    who,
                ),
                forall|j: int| 0 <= j < old_n.len() ==> (#[trigger] self.nominator_entries@[j]).1.wf(),
                ops@ == release_ops(c.nominations@.take(k as int), old_n, who),
                sum_of(self.nominator_entries@, nominator_held()) == sum_of(old_n, nominator_held())
                    + net_reserved(ops@),
            decreases c.nominations@.len() - k,
        {
            let o = c.nominations[k].owner;
            let ghost cur = self.nominator_entries@;
            let ghost done = c.nominations@.take(k as int);
            proof {
                assert(c.nominations@.take(k + 1).drop_last() =~= done);
                assert(!has_owner(done, o)) by {
                    if has_owner(done, o) {
                        let m = choose|m: int| 0 <= m < done.len() && #[trigger] done[m].owner == o;
                        assert(c.nominations@[m].owner < c.nominations@[k as int].owner);
                    }
                }
                assert forall|j: int| 0 <= j < old_n.len() implies #[trigger] cur[j].0 == old_n[j].0 by {
                    assert(release_step(old_n[j], cur[j], done, who));
                }
                assert forall|a: int, b: int| 0 <= a < b < cur.len() implies #[trigger] cur[a].0
                    != #[trigger] cur[b].0 by {
                    assert(cur[a].0 == old_n[a].0);
                    assert(cur[b].0 == old_n[b].0);
                }
            }
            let found = find_key(&self.nominator_entries, o);
            match found {
                Some(ni) => {
                    proof {
                        lemma_key_index(cur, ni as int);
                        lemma_key_index(old_n, ni as int);
                        assert(release_step(old_n[ni as int], cur[ni as int], done, who));
                        assert(cur[ni as int] == old_n[ni as int]);
                        assert(cur[ni as int].1.wf());
                    }
                    let released = self.nominator_entries[ni].1.release_nomination(who);
                    proof {
                        let e = self.nominator_entries@[ni as int];
                        assert(self.nominator_entries@ == cur.update(ni as int, (cur[ni as int].0, e.1)));
                        lemma_sum_update(cur, ni as int, e, nominator_held());
                    }
                    match released {
                        Some(a) => {
                            let ghost ops0 = ops@;
                            ops.push(CurrencyOp::Unreserve(o, a));
                            proof {
                                lemma_sum_push(ops0, CurrencyOp::Unreserve(o, a), op_delta());
                            }
                        },
                        None => {},
                    }
                    proof {
                        assert forall|j: int| 0 <= j < old_n.len() implies release_step(
                            old_n[j],
                            #[trigger] self.nominator_entries@[j],
                            c.nominations@.take(k + 1),
                            who,
                        ) by {
                            lemma_has_owner_take(c.nominations@, k as int, old_n[j].0);
                            assert(release_step(old_n[j], cur[j], done, who));
                            if j != ni as int {
                                assert(old_n[j].0 != old_n[ni as int].0);
                            }
                        }
                        assert forall|j: int| 0 <= j < old_n.len() implies (
                        #[trigger] self.nominator_entries@[j]).1.wf() by {
                            assert(cur[j].1.wf());
                        }
                    }
                },
                None => {
                    proof {
                        assert(!has_key(old_n, o)) by {
                            if has_key(old_n, o) {
                                let j = choose|j: int| 0 <= j < old_n.len() && #[trigger] old_n[j].0 == o;
                                assert(cur[j].0 == o);
                            }
                        }
                        assert forall|j: int| 0 <= j < old_n.len() implies release_step(
                            old_n[j],
                            #[trigger] self.nominator_entries@[j],
                            c.nominations@.take(k + 1),
                            who,
                        ) by {
                            lemma_has_owner_take(c.nominations@, k as int, old_n[j].0);
                            assert(release_step(old_n[j], cur[j], done, who));
                            assert(old_n[j].0 != o);
                        }
                    }
                },
            }
            k = k + 1;
        }
        proof {
            assert(c.nominations@.take(c.nominations@.len() as int) =~= c.nominations@);
            lemma_bond_total_nonneg(c.nominations@);
            lemma_unlock_total_nonneg(c.unlocking@);
            lemma_unbond_total_nonneg(c.unbonding@);
        }
        let backed = c.nomination_total();
        let unbonding_total = total_of_unbonding(&c.unbonding);
        let remaining = c.total - backed - unbonding_total;
        let exit = Leaving::new(remaining, c.unbonding, when);
        proof {
            lemma_push_keys(self.exit_entries@, who, exit);
            lemma_sum_push(self.exit_entries@, (who, exit), exit_held());
            assert(self.exit_entries@.push((who, exit)).drop_last() =~= self.exit_entries@);
            assert forall|a: int, b: int| 0 <= a < b < self.nominator_entries@.len() implies
                #[trigger] self.nominator_entries@[a].0 != #[trigger] self.nominator_entries@[b].0 by {
                assert(release_step(old_n[a], self.nominator_entries@[a], c.nominations@, who));
                assert(release_step(old_n[b], self.nominator_entries@[b], c.nominations@, who));
            }
        }
        self.exit_entries.push((who, exit));
        Ok(ops)
    }
}

/// The stakers bonded at genesis.
#[derive(Clone, Debug)]
pub struct GenesisConfig {
    pub stakers: Vec<(AccountId, Balance)>,
}

impl Default for GenesisConfig {
    fn default() -> (r: GenesisConfig)
        ensures
            r.stakers@.len() == 0,
    {
        GenesisConfig { stakers: Vec::new() }
    }
}

impl GenesisConfig {
    /// The store at genesis: each staker bonds its amount in turn (a staker that
    /// cannot bond is passed over), then round 1 starts at block 0. Returns the
    /// store and the reservations that the bonds make.
    pub fn build(&self, config: Config) -> (r: (Pallet, Vec<CurrencyOp>))
        ensures
            r.0.wf(),
            r.0.config == config,
            r.0.round == (RoundInfo { index: 1, start_in: 0, length: config.blocks_per_round }),
            r.0.nominator_entries@.len() == 0,
            r.0.exit_entries@.len() == 0,
            r.0.collator_entries@.len() <= self.stakers@.len(),
            r.0.staked() == net_reserved(r.1@),
    {
        let mut store = Pallet::new(config);
        store.round = RoundInfo::new(0, 0, 0);
        let mut ops: Vec<CurrencyOp> = Vec::new();
        let mut i: usize = 0;
        proof {
            reveal_with_fuel(sum_of, 1);
        }
        while i < self.stakers.len()
            invariant
                0 <= i <= self.stakers@.len(),
                store.wf(),
                store.config == config,
                store.nominator_entries@.len() == 0,
                store.exit_entries@.len() == 0,
                store.collator_entries@.len() <= i,
                store.staked() == net_reserved(ops@),
            decreases self.stakers@.len() - i,
        {
            let (who, amount) = self.stakers[i];
            match store.bond(who, amount) {
                Ok(mut more) => {
                    let ghost a = ops@;
                    let ghost b = more@;
                    ops.append(&mut more);
                    proof {
                        crate::sums::lemma_sum_concat(a, b, op_delta());
                    }
                },
                Err(_) => {},
            }
            i = i + 1;
        }
        store.round = RoundInfo::new(1, 0, config.blocks_per_round);
        (store, ops)
    }
}

} // verus!
