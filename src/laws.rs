//! Laws of the staking ledger, proved over the specifications that the
//! operations' contracts use.
use vstd::prelude::*;
use crate::bond::{
    UnBondChunk, UnlockChunk, RoundIndex, bond_total, unbond_due, unbond_pending, unbond_total,
    unbond_value, unlock_due, unlock_pending, unlock_total, unlock_value,
    lemma_unbond_total_nonneg, lemma_unlock_total_nonneg,
};
use crate::pallet::{Pallet, collator_ok};
use crate::sums::lemma_sum_push;

verus! {

/// The unbonding chunks kept at round `r` are exactly those whose release round is
/// after `r`, in order; what is released is exactly the value of the others.
pub proof fn lemma_unbond_release_schedule(s: Seq<UnBondChunk>, r: RoundIndex)
    ensures
        unbond_pending(s, r) == s.filter(|c: UnBondChunk| c.round > r),
        unbond_due(s, r) == unbond_total(s.filter(|c: UnBondChunk| c.round <= r)),
    decreases s.len(),
{
    reveal(Seq::filter);
    if s.len() > 0 {
        lemma_unbond_release_schedule(s.drop_last(), r);
        lemma_sum_push(s.drop_last().filter(|c: UnBondChunk| c.round <= r), s.last(), unbond_value());
    }
}

/// The unlocking chunks kept at round `r` are exactly those whose release round is
/// after `r`, in order; what becomes active is exactly the value of the others.
pub proof fn lemma_unlock_release_schedule(s: Seq<UnlockChunk>, r: RoundIndex)
    ensures
        unlock_pending(s, r) == s.filter(|c: UnlockChunk| c.round > r),
        unlock_due(s, r) == unlock_total(s.filter(|c: UnlockChunk| c.round <= r)),
    decreases s.len(),
{
    reveal(Seq::filter);
    if s.len() > 0 {
        lemma_unlock_release_schedule(s.drop_last(), r);
        lemma_sum_push(s.drop_last().filter(|c: UnlockChunk| c.round <= r), s.last(), unlock_value());
    }
}

/// Unbonding chunks are released once: consolidating at `r1` and then at a later
/// `r2` keeps and releases what consolidating at `r2` alone would.
pub proof fn lemma_unbond_released_once(s: Seq<UnBondChunk>, r1: RoundIndex, r2: RoundIndex)
    requires
        r1 <= r2,
    ensures
        unbond_pending(unbond_pending(s, r1), r2) == unbond_pending(s, r2),
        unbond_due(s, r1) + unbond_due(unbond_pending(s, r1), r2) == unbond_due(s, r2),
    decreases s.len(),
{
    if s.len() > 0 {
        lemma_unbond_released_once(s.drop_last(), r1, r2);
        let p = unbond_pending(s.drop_last(), r1);
        assert(p.push(s.last()).drop_last() =~= p);
    }
}

/// Unlocking chunks become active once: consolidating at `r1` and then at a later
/// `r2` keeps and activates what consolidating at `r2` alone would.
pub proof fn lemma_unlock_released_once(s: Seq<UnlockChunk>, r1: RoundIndex, r2: RoundIndex)
    requires
        r1 <= r2,
    ensures
        unlock_pending(unlock_pending(s, r1), r2) == unlock_pending(s, r2),
        unlock_due(s, r1) + unlock_due(unlock_pending(s, r1), r2) == unlock_due(s, r2),
    decreases s.len(),
{
    if s.len() > 0 {
        lemma_unlock_released_once(s.drop_last(), r1, r2);
        let p = unlock_pending(s.drop_last(), r1);
        assert(p.push(s.last()).drop_last() =~= p);
    }
}

/// Consolidating unbonded stake a second time at the same round releases nothing
/// and keeps every chunk.
pub proof fn lemma_consolidate_unbonded_idempotent(s: Seq<UnBondChunk>, r: RoundIndex)
    ensures
        unbond_due(unbond_pending(s, r), r) == 0,
        unbond_pending(unbond_pending(s, r), r) == unbond_pending(s, r),
{
    lemma_unbond_released_once(s, r, r);
}

/// Consolidating unlocked stake a second time at the same round activates nothing
/// and keeps every chunk.
pub proof fn lemma_consolidate_active_idempotent(s: Seq<UnlockChunk>, r: RoundIndex)
    ensures
        unlock_due(unlock_pending(s, r), r) == 0,
        unlock_pending(unlock_pending(s, r), r) == unlock_pending(s, r),
{
    lemma_unlock_released_once(s, r, r);
}

/// In a well-formed store every collator's total covers its active stake, and its
/// active stake its nominations; every nominator's total covers its nominations.
pub proof fn lemma_stake_covered(p: Pallet)
    requires
        p.wf(),
    ensures
        forall|i: int|
            0 <= i < p.collator_entries@.len() ==> {
                let c = #[trigger] p.collator_entries@[i].1;
                c.total >= c.active && c.active >= bond_total(c.nominations@)
            },
        forall|i: int|
            0 <= i < p.nominator_entries@.len() ==> {
                let n = #[trigger] p.nominator_entries@[i].1;
                n.total >= bond_total(n.nominations@)
            },
{
    assert forall|i: int| 0 <= i < p.collator_entries@.len() implies {
        let c = #[trigger] p.collator_entries@[i].1;
        c.total >= c.active && c.active >= bond_total(c.nominations@)
    } by {
        let c = p.collator_entries@[i].1;
        assert(collator_ok(c));
        lemma_unlock_total_nonneg(c.unlocking@);
        lemma_unbond_total_nonneg(c.unbonding@);
    }
    assert forall|i: int| 0 <= i < p.nominator_entries@.len() implies {
        let n = #[trigger] p.nominator_entries@[i].1;
        n.total >= bond_total(n.nominations@)
    } by {
        let n = p.nominator_entries@[i].1;
        assert(n.wf());
        lemma_unbond_total_nonneg(n.unbonding@);
    }
}

} // verus!
