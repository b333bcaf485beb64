//! Keyed stores: lists of entries keyed by account, with at most one entry per account.
use vstd::prelude::*;
use crate::bond::AccountId;

verus! {

/// No account keys two entries of `s`.
pub open spec fn keys_unique<T>(s: Seq<(AccountId, T)>) -> bool {
    forall|i: int, j: int| 0 <= i < j < s.len() ==> #[trigger] s[i].0 != #[trigger] s[j].0
}

/// Some entry of `s` is keyed by `k`.
pub open spec fn has_key<T>(s: Seq<(AccountId, T)>, k: AccountId) -> bool {
    exists|i: int| 0 <= i < s.len() && #[trigger] s[i].0 == k
}

/// The position of the entry keyed by `k`, where there is one.
pub open spec fn key_index<T>(s: Seq<(AccountId, T)>, k: AccountId) -> int {
    choose|i: int| 0 <= i < s.len() && #[trigger] s[i].0 == k
}

/// The value stored under `k`.
pub open spec fn lookup<T>(s: Seq<(AccountId, T)>, k: AccountId) -> Option<T> {
    if has_key(s, k) {
        Some(s[key_index(s, k)].1)
    } else {
        None
    }
}

/// The keys of `s`, in order.
pub open spec fn keys_of<T>(s: Seq<(AccountId, T)>) -> Seq<AccountId> {
    s.map_values(|e: (AccountId, T)| e.0)
}

/// The entry at `i` is the one that `key_index` names.
pub proof fn lemma_key_index<T>(s: Seq<(AccountId, T)>, i: int)
    requires
        keys_unique(s),
        0 <= i < s.len(),
    ensures
        has_key(s, s[i].0),
        key_index(s, s[i].0) == i,
{
    assert(s[i].0 == s[i].0);
    let j = key_index(s, s[i].0);
    if j != i {
        if j < i {
            assert(s[j].0 != s[i].0);
        } else {
            assert(s[i].0 != s[j].0);
        }
    }
}

/// Replacing the value at `i` keeps the keys.
pub proof fn lemma_update_keys<T>(s: Seq<(AccountId, T)>, i: int, v: T)
    requires
        keys_unique(s),
        0 <= i < s.len(),
    ensures
        keys_unique(s.update(i, (s[i].0, v))),
        keys_of(s.update(i, (s[i].0, v))) == keys_of(s),
        forall|k: AccountId| has_key(s.update(i, (s[i].0, v)), k) == has_key(s, k),
{
    let t = s.update(i, (s[i].0, v));
    assert forall|a: int, b: int| 0 <= a < b < t.len() implies #[trigger] t[a].0 != #[trigger] t[b].0 by {
        assert(t[a].0 == s[a].0);
        assert(t[b].0 == s[b].0);
    }
    assert(keys_of(t) =~= keys_of(s));
    assert forall|k: AccountId| has_key(t, k) == has_key(s, k) by {
        if has_key(s, k) {
            let j = choose|j: int| 0 <= j < s.len() && #[trigger] s[j].0 == k;
            assert(t[j].0 == k);
        }
        if has_key(t, k) {
            let j = choose|j: int| 0 <= j < t.len() && #[trigger] t[j].0 == k;
            assert(s[j].0 == k);
        }
    }
}

/// Adding an entry under a new key keeps the keys unique.
pub proof fn lemma_push_keys<T>(s: Seq<(AccountId, T)>, k: AccountId, v: T)
    requires
        keys_unique(s),
        !has_key(s, k),
    ensures
        keys_unique(s.push((k, v))),
        has_key(s.push((k, v)), k),
        key_index(s.push((k, v)), k) == s.len(),
{
    let t = s.push((k, v));
    assert forall|a: int, b: int| 0 <= a < b < t.len() implies #[trigger] t[a].0 != #[trigger] t[b].0 by {
        if b == s.len() {
            assert(t[a].0 == s[a].0);
        }
    }
    lemma_key_index(t, s.len() as int);
}

/// Removing an entry keeps the other keys unique, and drops its key.
pub proof fn lemma_remove_keys<T>(s: Seq<(AccountId, T)>, i: int)
    requires
        keys_unique(s),
        0 <= i < s.len(),
    ensures
        keys_unique(s.remove(i)),
        !has_key(s.remove(i), s[i].0),
        forall|k: AccountId| k != s[i].0 ==> has_key(s.remove(i), k) == has_key(s, k),
{
    let t = s.remove(i);
    assert forall|a: int, b: int| 0 <= a < b < t.len() implies #[trigger] t[a].0 != #[trigger] t[b].0 by {
        if b < i {
        } else if a < i {
            assert(t[b] == s[b + 1]);
        } else {
            assert(t[a] == s[a + 1]);
            assert(t[b] == s[b + 1]);
        }
    }
    assert forall|a: int| 0 <= a < t.len() implies #[trigger] t[a].0 != s[i].0 by {
        if a >= i {
            assert(t[a] == s[a + 1]);
        }
    }
    assert forall|k: AccountId| k != s[i].0 implies has_key(t, k) == has_key(s, k) by {
        if has_key(s, k) {
            let j = choose|j: int| 0 <= j < s.len() && #[trigger] s[j].0 == k;
            if j < i {
                assert(t[j].0 == k);
            } else {
                assert(t[j - 1].0 == k);
            }
        }
        if has_key(t, k) {
            let j = choose|j: int| 0 <= j < t.len() && #[trigger] t[j].0 == k;
            if j < i {
                assert(s[j].0 == k);
            } else {
                assert(s[j + 1].0 == k);
            }
        }
    }
}

/// `b` is `a` with the value under `k` replaced; every key stays where it was.
pub open spec fn only_entry_changed<T>(a: Seq<(AccountId, T)>, b: Seq<(AccountId, T)>, k: AccountId) -> bool {
    &&& b.len() == a.len()
    &&& forall|j: int| 0 <= j < a.len() ==> #[trigger] b[j].0 == a[j].0
    &&& forall|j: int| 0 <= j < a.len() && a[j].0 != k ==> #[trigger] b[j] == a[j]
}

/// Replacing the value at `i` changes only that entry, and the key now gives the
/// new value.
pub proof fn lemma_replace_value<T>(s: Seq<(AccountId, T)>, i: int, v: T)
    requires
        keys_unique(s),
        0 <= i < s.len(),
    ensures
        keys_unique(s.update(i, (s[i].0, v))),
        only_entry_changed(s, s.update(i, (s[i].0, v)), s[i].0),
        lookup(s.update(i, (s[i].0, v)), s[i].0) == Some(v),
        forall|k: AccountId| has_key(s.update(i, (s[i].0, v)), k) == has_key(s, k),
{
    lemma_update_keys(s, i, v);
    lemma_key_index(s.update(i, (s[i].0, v)), i);
    lemma_key_index(s, i);
    let t = s.update(i, (s[i].0, v));
    assert forall|j: int| 0 <= j < s.len() && s[j].0 != s[i].0 implies #[trigger] t[j] == s[j] by {
        assert(j != i);
    }
}

/// The position of the entry keyed by `k`, if any.
pub fn find_key<T>(s: &Vec<(AccountId, T)>, k: AccountId) -> (r: Option<usize>)
    requires
        keys_unique(s@),
    ensures
        match r {
            Some(i) => has_key(s@, k) && i == key_index(s@, k) && s@[i as int].0 == k,
            None => !has_key(s@, k),
        },
{
    let mut i: usize = 0;
    while i < s.len()
        invariant
            0 <= i <= s@.len(),
            keys_unique(s@),
            forall|j: int| 0 <= j < i ==> #[trigger] s@[j].0 != k,
        decreases s@.len() - i,
    {
        if s[i].0 == k {
            proof {
                lemma_key_index(s@, i as int);
            }
            return Some(i);
        }
        i = i + 1;
    }
    None
}

} // verus!
