//! The ledger's records, a list of accounts and a list of balances, as the
//! map from account to balance.

use vstd::prelude::*;

use crate::account::key_at;
use crate::sum::{lemma_sum_insert_new, sum_values};

verus! {

/// No account occurs twice among the first `n`.
pub open spec fn distinct_keys_upto(ids: Seq<String>, n: nat) -> bool {
    forall|i: int, j: int| 0 <= i < j < n ==> #[trigger] key_at(ids, i) != #[trigger] key_at(ids, j)
}

/// No account occurs twice.
pub open spec fn distinct_keys(ids: Seq<String>) -> bool {
    distinct_keys_upto(ids, ids.len())
}

/// The map from each of the first `n` accounts to its balance.
pub open spec fn entries_map(ids: Seq<String>, balances: Seq<u128>, n: nat) -> Map<Seq<char>, nat>
    decreases n,
{
    if n == 0 {
        Map::empty()
    } else {
        entries_map(ids, balances, (n - 1) as nat).insert(
            key_at(ids, n - 1),
            balances[n - 1] as nat,
        )
    }
}

/// What `entries_map` holds: one key for each position, with that position's balance.
pub proof fn lemma_entries_map(ids: Seq<String>, balances: Seq<u128>, n: nat)
    requires
        n <= ids.len(),
        n <= balances.len(),
        distinct_keys_upto(ids, n),
    ensures
        entries_map(ids, balances, n).dom().finite(),
        entries_map(ids, balances, n).dom().len() == n,
        forall|k: Seq<char>|
            entries_map(ids, balances, n).dom().contains(k) <==> exists|i: int|
                0 <= i < n && #[trigger] key_at(ids, i) == k,
        forall|i: int|
            0 <= i < n ==> entries_map(ids, balances, n).dom().contains(#[trigger] key_at(ids, i))
                && entries_map(ids, balances, n)[key_at(ids, i)] == balances[i],
    decreases n,
{
    if n > 0 {
        let p = (n - 1) as nat;
        lemma_entries_map(ids, balances, p);
        let before = entries_map(ids, balances, p);
        let last = key_at(ids, n - 1);
        assert(!before.dom().contains(last)) by {
            if before.dom().contains(last) {
                let i = choose|i: int| 0 <= i < p && #[trigger] key_at(ids, i) == last;
                assert(key_at(ids, i) != key_at(ids, n - 1));
            }
        }
        let after = entries_map(ids, balances, n);
        assert(after == before.insert(last, balances[n - 1] as nat));
        assert forall|k: Seq<char>| after.dom().contains(k) implies exists|i: int|
            0 <= i < n && #[trigger] key_at(ids, i) == k by {
            if k == last {
                assert(key_at(ids, n - 1) == k);
            } else {
                let i = choose|i: int| 0 <= i < p && #[trigger] key_at(ids, i) == k;
                assert(key_at(ids, i) == k);
            }
        }
        assert forall|i: int| 0 <= i < n implies after.dom().contains(#[trigger] key_at(ids, i))
            && after[key_at(ids, i)] == balances[i] by {
            if i < p {
                assert(key_at(ids, i) != key_at(ids, n - 1));
            }
        }
    }
}

/// Taking position `i` out of both lists takes its key out of the map.
pub proof fn lemma_entries_map_remove(ids: Seq<String>, balances: Seq<u128>, i: int)
    requires
        ids.len() == balances.len(),
        distinct_keys(ids),
        0 <= i < ids.len(),
    ensures
        distinct_keys(ids.remove(i)),
        entries_map(ids.remove(i), balances.remove(i), (ids.len() - 1) as nat) == entries_map(
            ids,
            balances,
            ids.len(),
        ).remove(key_at(ids, i)),
{
    let ids1 = ids.remove(i);
    let bal1 = balances.remove(i);
    let n = ids.len();
    let n1 = (n - 1) as nat;
    let k = key_at(ids, i);
    assert forall|j: int| 0 <= j < n1 implies #[trigger] key_at(ids1, j) == key_at(
        ids,
        if j < i {
            j
        } else {
            j + 1
        },
    ) && bal1[j] == balances[if j < i {
        j
    } else {
        j + 1
    }] by {}
    assert(distinct_keys(ids1)) by {
        assert forall|a: int, b: int| 0 <= a < b < ids1.len() implies #[trigger] key_at(ids1, a)
            != #[trigger] key_at(ids1, b) by {
            let a0 = if a < i {
                a
            } else {
                a + 1
            };
            let b0 = if b < i {
                b
            } else {
                b + 1
            };
            assert(key_at(ids, a0) != key_at(ids, b0));
        }
    }
    lemma_entries_map(ids, balances, n);
    lemma_entries_map(ids1, bal1, n1);
    let m0 = entries_map(ids, balances, n);
    let m1 = entries_map(ids1, bal1, n1);
    assert forall|a: Seq<char>| m1.dom().contains(a) <==> m0.remove(k).dom().contains(a) by {
        if m1.dom().contains(a) {
            let j = choose|j: int| 0 <= j < n1 && #[trigger] key_at(ids1, j) == a;
            let j0 = if j < i {
                j
            } else {
                j + 1
            };
            assert(key_at(ids, j0) == a);
            if j0 < i {
                assert(key_at(ids, j0) != key_at(ids, i));
            } else {
                assert(key_at(ids, i) != key_at(ids, j0));
            }
        }
        if m0.remove(k).dom().contains(a) {
            let j0 = choose|j: int| 0 <= j < n && #[trigger] key_at(ids, j) == a;
            let j = if j0 < i {
                j0
            } else {
                j0 - 1
            };
            assert(key_at(ids1, j) == a);
        }
    }
    assert forall|a: Seq<char>| m1.dom().contains(a) implies #[trigger] m1[a] == m0.remove(
        k,
    )[a] by {
        let j = choose|j: int| 0 <= j < n1 && #[trigger] key_at(ids1, j) == a;
        let j0 = if j < i {
            j
        } else {
            j + 1
        };
        assert(key_at(ids, j0) == a);
        assert(m1[key_at(ids1, j)] == bal1[j]);
        assert(m0[key_at(ids, j0)] == balances[j0]);
    }
    assert(m1 =~= m0.remove(k));
}

/// More accounts hold at least as much.
pub proof fn lemma_entries_sum_monotone(ids: Seq<String>, balances: Seq<u128>, i: nat, n: nat)
    requires
        i <= n <= ids.len(),
        n <= balances.len(),
        distinct_keys_upto(ids, n),
    ensures
        sum_values(entries_map(ids, balances, i)) <= sum_values(entries_map(ids, balances, n)),
    decreases n - i,
{
    if i < n {
        let p = (n - 1) as nat;
        lemma_entries_sum_monotone(ids, balances, i, p);
        lemma_entries_map(ids, balances, p);
        let before = entries_map(ids, balances, p);
        let last = key_at(ids, n - 1);
        assert(!before.dom().contains(last)) by {
            if before.dom().contains(last) {
                let j = choose|j: int| 0 <= j < p && #[trigger] key_at(ids, j) == last;
                assert(key_at(ids, j) != key_at(ids, n - 1));
            }
        }
        lemma_sum_insert_new(before, last, balances[n - 1] as nat);
    }
}

} // verus!
