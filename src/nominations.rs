//! Nomination sets: bonds kept sorted by owner, with at most one bond per owner.
use vstd::prelude::*;
use crate::bond::{AccountId, Balance, Bond, bond_total, bond_amount};
use crate::sums::{lemma_sum_update, lemma_sum_remove, lemma_sum_insert};

verus! {

/// Owners strictly increase along `s`; so no owner occurs twice.
pub open spec fn owners_sorted(s: Seq<Bond>) -> bool {
    forall|i: int, j: int| 0 <= i < j < s.len() ==> #[trigger] s[i].owner < #[trigger] s[j].owner
}

/// Some bond of `s` belongs to `k`.
pub open spec fn has_owner(s: Seq<Bond>, k: AccountId) -> bool {
    exists|i: int| 0 <= i < s.len() && #[trigger] s[i].owner == k
}

/// The position of the bond of `k` in `s`, where there is one.
pub open spec fn owner_index(s: Seq<Bond>, k: AccountId) -> int {
    choose|i: int| 0 <= i < s.len() && #[trigger] s[i].owner == k
}

/// The number of bonds of `s` whose owner comes before `k`.
pub open spec fn owner_rank(s: Seq<Bond>, k: AccountId) -> int
    decreases s.len(),
{
    if s.len() == 0 {
        0
    } else if s.last().owner < k {
        owner_rank(s.drop_last(), k) + 1
    } else {
        owner_rank(s.drop_last(), k)
    }
}

/// The owners of the bonds of `s`, in order.
pub open spec fn owners_of(s: Seq<Bond>) -> Seq<AccountId> {
    s.map_values(|b: Bond| b.owner)
}

proof fn lemma_rank_split(s: Seq<Bond>, k: AccountId, p: int)
    requires
        0 <= p <= s.len(),
        forall|i: int| 0 <= i < p ==> #[trigger] s[i].owner < k,
        forall|i: int| p <= i < s.len() ==> #[trigger] s[i].owner >= k,
    ensures
        owner_rank(s, k) == p,
    decreases s.len(),
{
    if s.len() > 0 {
        if p == s.len() {
            lemma_rank_split(s.drop_last(), k, p - 1);
        } else {
            lemma_rank_split(s.drop_last(), k, p);
        }
    }
}

/// Where the bond of `k` stands in the sorted `s` (`Ok`), or where it would be
/// inserted (`Err`).
pub fn search_owner(s: &Vec<Bond>, k: AccountId) -> (r: Result<usize, usize>)
    requires
        owners_sorted(s@),
    ensures
        match r {
            Ok(i) => has_owner(s@, k) && i == owner_index(s@, k) && s@[i as int].owner == k,
            Err(p) => {
                &&& !has_owner(s@, k)
                &&& p == owner_rank(s@, k)
                &&& p <= s@.len()
                &&& forall|i: int| 0 <= i < p ==> #[trigger] s@[i].owner < k
                &&& forall|i: int| p <= i < s@.len() ==> #[trigger] s@[i].owner > k
            },
        },
{
    let mut lo: usize = 0;
    let mut hi: usize = s.len();
    while lo < hi
        invariant
            0 <= lo <= hi <= s@.len(),
            owners_sorted(s@),
            forall|i: int| 0 <= i < lo ==> #[trigger] s@[i].owner < k,
            forall|i: int| hi <= i < s@.len() ==> #[trigger] s@[i].owner > k,
        decreases hi - lo,
    {
        let mid = lo + (hi - lo) / 2;
        let o = s[mid].owner;
        if o == k {
            proof {
                assert(s@[mid as int].owner == k);
                let j = owner_index(s@, k);
                if j != mid as int {
                    if j < mid as int {
                        assert(s@[j].owner < s@[mid as int].owner);
                    } else {
                        assert(s@[mid as int].owner < s@[j].owner);
                    }
                }
            }
            return Ok(mid);
        } else if o < k {
            lo = mid + 1;
        } else {
            hi = mid;
        }
    }
    proof {
        lemma_rank_split(s@, k, lo as int);
        assert forall|i: int| 0 <= i < s@.len() implies s@[i].owner != k by {
            if i < lo {
            } else {
            }
        }
    }
    Err(lo)
}

/// Inserting the bond of a new owner where the owners before it are smaller and
/// those after it larger keeps the owners sorted, and adds its amount to the total.
pub proof fn lemma_insert_sorted(s: Seq<Bond>, p: int, b: Bond)
    requires
        owners_sorted(s),
        0 <= p <= s.len(),
        forall|i: int| 0 <= i < p ==> #[trigger] s[i].owner < b.owner,
        forall|i: int| p <= i < s.len() ==> #[trigger] s[i].owner > b.owner,
    ensures
        owners_sorted(s.insert(p, b)),
        bond_total(s.insert(p, b)) == bond_total(s) + b.amount,
{
    let t = s.insert(p, b);
    assert forall|i: int, j: int| 0 <= i < j < t.len() implies #[trigger] t[i].owner < #[trigger] t[j].owner by {
        if j < p {
        } else if j == p {
        } else if i < p {
            assert(t[j] == s[j - 1]);
        } else if i == p {
            assert(t[j] == s[j - 1]);
        } else {
            assert(t[i] == s[i - 1]);
            assert(t[j] == s[j - 1]);
        }
    }
    lemma_sum_insert(s, p, b, bond_amount());
}

/// Changing the amount of the bond at `i` keeps the owners sorted, and moves the total
/// by the difference.
pub proof fn lemma_update_amount(s: Seq<Bond>, i: int, amount: Balance)
    requires
        owners_sorted(s),
        0 <= i < s.len(),
    ensures
        owners_sorted(s.update(i, Bond { owner: s[i].owner, amount })),
        bond_total(s.update(i, Bond { owner: s[i].owner, amount })) == bond_total(s) - s[i].amount + amount,
{
    let t = s.update(i, Bond { owner: s[i].owner, amount });
    assert forall|a: int, c: int| 0 <= a < c < t.len() implies #[trigger] t[a].owner < #[trigger] t[c].owner by {
        assert(t[a].owner == s[a].owner);
        assert(t[c].owner == s[c].owner);
    }
    lemma_sum_update(s, i, Bond { owner: s[i].owner, amount }, bond_amount());
}

/// Removing the bond at `i` keeps the owners sorted, and takes its amount off the total.
pub proof fn lemma_remove_sorted(s: Seq<Bond>, i: int)
    requires
        owners_sorted(s),
        0 <= i < s.len(),
    ensures
        owners_sorted(s.remove(i)),
        bond_total(s.remove(i)) == bond_total(s) - s[i].amount,
        !has_owner(s.remove(i), s[i].owner),
{
    let t = s.remove(i);
    assert forall|a: int, c: int| 0 <= a < c < t.len() implies #[trigger] t[a].owner < #[trigger] t[c].owner by {
        if c < i {
        } else if a < i {
            assert(t[c] == s[c + 1]);
        } else {
            assert(t[a] == s[a + 1]);
            assert(t[c] == s[c + 1]);
        }
    }
    assert forall|a: int| 0 <= a < t.len() implies #[trigger] t[a].owner != s[i].owner by {
        if a < i {
        } else {
            assert(t[a] == s[a + 1]);
        }
    }
    lemma_sum_remove(s, i, bond_amount());
}

/// A single bond is at most the total of the bonds.
pub proof fn lemma_bond_le_total(s: Seq<Bond>, i: int)
    requires
        0 <= i < s.len(),
    ensures
        s[i].amount <= bond_total(s),
{
    lemma_sum_remove(s, i, bond_amount());
    crate::sums::lemma_sum_nonneg(s.remove(i), bond_amount());
}

/// The total amount of the bonds of `s`.
pub fn total_of_bonds(s: &Vec<Bond>) -> (r: Balance)
    requires
        bond_total(s@) <= u128::MAX,
    ensures
        r == bond_total(s@),
{
    let mut sum: Balance = 0;
    let mut i: usize = 0;
    while i < s.len()
        invariant
            0 <= i <= s@.len(),
            sum == bond_total(s@.take(i as int)),
            bond_total(s@) <= u128::MAX,
        decreases s@.len() - i,
    {
        proof {
            let t = s@.take(i + 1);
            assert(t.drop_last() =~= s@.take(i as int));
            assert(s@ =~= t + s@.skip(i + 1));
            crate::sums::lemma_sum_concat(t, s@.skip(i + 1), bond_amount());
            crate::sums::lemma_sum_nonneg(s@.skip(i + 1), bond_amount());
        }
        sum = sum + s[i].amount;
        i = i + 1;
    }
    assert(s@.take(s@.len() as int) =~= s@);
    sum
}

/// The owners of the bonds of `s`, in order.
pub fn owners(s: &Vec<Bond>) -> (r: Vec<AccountId>)
    ensures
        r@ == owners_of(s@),
{
    let mut out: Vec<AccountId> = Vec::new();
    let mut i: usize = 0;
    while i < s.len()
        invariant
            0 <= i <= s@.len(),
            out@ == owners_of(s@.take(i as int)),
        decreases s@.len() - i,
    {
        out.push(s[i].owner);
        proof {
            assert(owners_of(s@.take(i + 1)) =~= owners_of(s@.take(i as int)).push(s@[i as int].owner));
        }
        i = i + 1;
    }
    assert(s@.take(s@.len() as int) =~= s@);
    out
}

} // verus!
