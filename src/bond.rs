//! Stake records: bonds and time-delayed release chunks.
use vstd::prelude::*;
use crate::sums::{sum_of, lemma_sum_push, lemma_sum_concat, lemma_sum_nonneg};

verus! {

/// Identifier of an account.
pub type AccountId = u64;

/// An amount of the staked currency.
pub type Balance = u128;

/// Counter for the number of rounds that have passed.
pub type RoundIndex = u32;

/// Height of a block.
pub type BlockNumber = u32;

/// A quantity of stake that becomes active once the round clock reaches `round`.
#[derive(Clone, Copy, Debug, PartialEq, Eq, Structural)]
pub struct UnlockChunk {
    /// Amount of funds to be unlocked.
    pub value: Balance,
    /// Round at which the funds are unlocked.
    pub round: RoundIndex,
}

/// A quantity of stake that becomes free once the round clock reaches `round`.
#[derive(Clone, Copy, Debug, PartialEq, Eq, Structural)]
pub struct UnBondChunk {
    /// Amount of funds to be unbonded.
    pub value: Balance,
    /// Round at which the funds are unbonded.
    pub round: RoundIndex,
}

/// An owner and an amount. Two bonds are equal, and ordered, by owner alone.
#[derive(Clone, Copy, Debug)]
pub struct Bond {
    pub owner: AccountId,
    pub amount: Balance,
}

impl PartialEq for Bond {
    fn eq(&self, other: &Bond) -> (r: bool) {
        self.owner == other.owner
    }
}

impl vstd::std_specs::cmp::PartialEqSpecImpl for Bond {
    open spec fn obeys_eq_spec() -> bool {
        true
    }

    open spec fn eq_spec(&self, other: &Bond) -> bool {
        self.owner == other.owner
    }
}

impl Eq for Bond {
}

impl PartialOrd for Bond {
    fn partial_cmp(&self, other: &Bond) -> (r: Option<core::cmp::Ordering>) {
        if self.owner < other.owner {
            Some(core::cmp::Ordering::Less)
        } else if self.owner == other.owner {
            Some(core::cmp::Ordering::Equal)
        } else {
            Some(core::cmp::Ordering::Greater)
        }
    }
}

impl vstd::std_specs::cmp::PartialOrdSpecImpl for Bond {
    open spec fn obeys_partial_cmp_spec() -> bool {
        true
    }

    open spec fn partial_cmp_spec(&self, other: &Bond) -> Option<core::cmp::Ordering> {
        if self.owner < other.owner {
            Some(core::cmp::Ordering::Less)
        } else if self.owner == other.owner {
            Some(core::cmp::Ordering::Equal)
        } else {
            Some(core::cmp::Ordering::Greater)
        }
    }
}

pub open spec fn unlock_value() -> spec_fn(UnlockChunk) -> int {
    |c: UnlockChunk| c.value as int
}

pub open spec fn unbond_value() -> spec_fn(UnBondChunk) -> int {
    |c: UnBondChunk| c.value as int
}

pub open spec fn bond_amount() -> spec_fn(Bond) -> int {
    |b: Bond| b.amount as int
}

/// Total value of a list of unlock chunks.
pub open spec fn unlock_total(s: Seq<UnlockChunk>) -> int {
    sum_of(s, unlock_value())
}

/// Total value of a list of unbond chunks.
pub open spec fn unbond_total(s: Seq<UnBondChunk>) -> int {
    sum_of(s, unbond_value())
}

/// Total amount of a list of bonds.
pub open spec fn bond_total(s: Seq<Bond>) -> int {
    sum_of(s, bond_amount())
}

/// The unlock chunks that are still pending at round `r`, in order.
pub open spec fn unlock_pending(s: Seq<UnlockChunk>, r: RoundIndex) -> Seq<UnlockChunk>
    decreases s.len(),
{
    if s.len() == 0 {
        s
    } else if s.last().round > r {
        unlock_pending(s.drop_last(), r).push(s.last())
    } else {
        unlock_pending(s.drop_last(), r)
    }
}

/// Total value of the unlock chunks that are due at round `r`.
pub open spec fn unlock_due(s: Seq<UnlockChunk>, r: RoundIndex) -> int
    decreases s.len(),
{
    if s.len() == 0 {
        0
    } else if s.last().round > r {
        unlock_due(s.drop_last(), r)
    } else {
        unlock_due(s.drop_last(), r) + s.last().value
    }
}

/// The unbond chunks that are still pending at round `r`, in order.
pub open spec fn unbond_pending(s: Seq<UnBondChunk>, r: RoundIndex) -> Seq<UnBondChunk>
    decreases s.len(),
{
    if s.len() == 0 {
        s
    } else if s.last().round > r {
        unbond_pending(s.drop_last(), r).push(s.last())
    } else {
        unbond_pending(s.drop_last(), r)
    }
}

/// Total value of the unbond chunks that are due at round `r`.
pub open spec fn unbond_due(s: Seq<UnBondChunk>, r: RoundIndex) -> int
    decreases s.len(),
{
    if s.len() == 0 {
        0
    } else if s.last().round > r {
        unbond_due(s.drop_last(), r)
    } else {
        unbond_due(s.drop_last(), r) + s.last().value
    }
}

pub proof fn lemma_unlock_split(s: Seq<UnlockChunk>, r: RoundIndex)
    ensures
        unlock_total(s) == unlock_due(s, r) + unlock_total(unlock_pending(s, r)),
        0 <= unlock_due(s, r) <= unlock_total(s),
    decreases s.len(),
{
    if s.len() > 0 {
        lemma_unlock_split(s.drop_last(), r);
        lemma_sum_push(unlock_pending(s.drop_last(), r), s.last(), unlock_value());
        lemma_sum_nonneg(unlock_pending(s.drop_last(), r), unlock_value());
    }
}

pub proof fn lemma_unbond_split(s: Seq<UnBondChunk>, r: RoundIndex)
    ensures
        unbond_total(s) == unbond_due(s, r) + unbond_total(unbond_pending(s, r)),
        0 <= unbond_due(s, r) <= unbond_total(s),
    decreases s.len(),
{
    if s.len() > 0 {
        lemma_unbond_split(s.drop_last(), r);
        lemma_sum_push(unbond_pending(s.drop_last(), r), s.last(), unbond_value());
        lemma_sum_nonneg(unbond_pending(s.drop_last(), r), unbond_value());
    }
}

/// The total of a prefix is at most the total of the whole list.
proof fn lemma_unlock_prefix(s: Seq<UnlockChunk>, i: int)
    requires
        0 <= i <= s.len(),
    ensures
        0 <= unlock_total(s.take(i)) <= unlock_total(s),
{
    assert(s =~= s.take(i) + s.skip(i));
    lemma_sum_concat(s.take(i), s.skip(i), unlock_value());
    lemma_sum_nonneg(s.take(i), unlock_value());
    lemma_sum_nonneg(s.skip(i), unlock_value());
}

proof fn lemma_unbond_prefix(s: Seq<UnBondChunk>, i: int)
    requires
        0 <= i <= s.len(),
    ensures
        0 <= unbond_total(s.take(i)) <= unbond_total(s),
{
    assert(s =~= s.take(i) + s.skip(i));
    lemma_sum_concat(s.take(i), s.skip(i), unbond_value());
    lemma_sum_nonneg(s.take(i), unbond_value());
    lemma_sum_nonneg(s.skip(i), unbond_value());
}

pub proof fn lemma_unlock_total_nonneg(s: Seq<UnlockChunk>)
    ensures
        unlock_total(s) >= 0,
{
    lemma_sum_nonneg(s, unlock_value());
}

pub proof fn lemma_unbond_total_nonneg(s: Seq<UnBondChunk>)
    ensures
        unbond_total(s) >= 0,
{
    lemma_sum_nonneg(s, unbond_value());
}

pub proof fn lemma_bond_total_nonneg(s: Seq<Bond>)
    ensures
        bond_total(s) >= 0,
{
    lemma_sum_nonneg(s, bond_amount());
}

/// At the last round every chunk is due.
pub proof fn lemma_unbond_due_all(s: Seq<UnBondChunk>)
    ensures
        unbond_due(s, u32::MAX) == unbond_total(s),
    decreases s.len(),
{
    if s.len() > 0 {
        lemma_unbond_due_all(s.drop_last());
    }
}

/// The total value of a list of unbond chunks.
pub fn total_of_unbonding(s: &Vec<UnBondChunk>) -> (r: Balance)
    requires
        unbond_total(s@) <= u128::MAX,
    ensures
        r == unbond_total(s@),
{
    let mut sum: Balance = 0;
    let mut i: usize = 0;
    while i < s.len()
        invariant
            0 <= i <= s@.len(),
            sum == unbond_total(s@.take(i as int)),
            unbond_total(s@) <= u128::MAX,
        decreases s@.len() - i,
    {
        proof {
            assert(s@.take(i + 1).drop_last() =~= s@.take(i as int));
            lemma_unbond_prefix(s@, i + 1);
        }
        sum = sum + s[i].value;
        i = i + 1;
    }
    assert(s@.take(s@.len() as int) =~= s@);
    sum
}

/// Splits `chunks` at round `r` into the chunks still pending and the total value due.
pub fn split_unlocking(chunks: Vec<UnlockChunk>, r: RoundIndex) -> (res: (Vec<UnlockChunk>, Balance))
    requires
        unlock_total(chunks@) <= u128::MAX,
    ensures
        res.0@ == unlock_pending(chunks@, r),
        res.1 == unlock_due(chunks@, r),
{
    let mut kept: Vec<UnlockChunk> = Vec::new();
    let mut due: Balance = 0;
    let mut i: usize = 0;
    while i < chunks.len()
        invariant
            0 <= i <= chunks@.len(),
            kept@ == unlock_pending(chunks@.take(i as int), r),
            due == unlock_due(chunks@.take(i as int), r),
            unlock_total(chunks@) <= u128::MAX,
        decreases chunks@.len() - i,
    {
        let c = chunks[i];
        proof {
            let t = chunks@.take(i + 1);
            assert(t.drop_last() =~= chunks@.take(i as int));
            lemma_unlock_split(t, r);
            lemma_unlock_prefix(chunks@, i + 1);
        }
        if c.round > r {
            kept.push(c);
        } else {
            due = due + c.value;
        }
        i = i + 1;
    }
    assert(chunks@.take(chunks@.len() as int) =~= chunks@);
    (kept, due)
}

/// Splits `chunks` at round `r` into the chunks still pending and the total value due.
pub fn split_unbonding(chunks: Vec<UnBondChunk>, r: RoundIndex) -> (res: (Vec<UnBondChunk>, Balance))
    requires
        unbond_total(chunks@) <= u128::MAX,
    ensures
        res.0@ == unbond_pending(chunks@, r),
        res.1 == unbond_due(chunks@, r),
{
    let mut kept: Vec<UnBondChunk> = Vec::new();
    let mut due: Balance = 0;
    let mut i: usize = 0;
    while i < chunks.len()
        invariant
            0 <= i <= chunks@.len(),
            kept@ == unbond_pending(chunks@.take(i as int), r),
            due == unbond_due(chunks@.take(i as int), r),
            unbond_total(chunks@) <= u128::MAX,
        decreases chunks@.len() - i,
    {
        let c = chunks[i];
        proof {
            let t = chunks@.take(i + 1);
            assert(t.drop_last() =~= chunks@.take(i as int));
            lemma_unbond_split(t, r);
            lemma_unbond_prefix(chunks@, i + 1);
        }
        if c.round > r {
            kept.push(c);
        } else {
            due = due + c.value;
        }
        i = i + 1;
    }
    assert(chunks@.take(chunks@.len() as int) =~= chunks@);
    (kept, due)
}

} // verus!
