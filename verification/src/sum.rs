//! The sum of the values of a finite map, and how it follows the map's updates.

use vstd::prelude::*;

verus! {

/// The sum of the values of `m`, which must have finitely many keys.
pub open spec fn sum_values<K>(m: Map<K, nat>) -> nat
    decreases m.dom().len(),
    when m.dom().finite()
{
    if m.dom().len() == 0 {
        0
    } else {
        let k = m.dom().choose();
        m[k] + sum_values(m.remove(k))
    }
}

/// Any key's value can be taken out of the sum first.
pub proof fn lemma_sum_split<K>(m: Map<K, nat>, k: K)
    requires
        m.dom().finite(),
        m.dom().contains(k),
    ensures
        sum_values(m) == m[k] + sum_values(m.remove(k)),
    decreases m.dom().len(),
{
    let c = m.dom().choose();
    if c != k {
        lemma_sum_split(m.remove(c), k);
        lemma_sum_split(m.remove(k), c);
        assert(m.remove(c).remove(k) =~= m.remove(k).remove(c));
    }
}

/// No value is more than the sum.
pub proof fn lemma_sum_bounds_value<K>(m: Map<K, nat>, k: K)
    requires
        m.dom().finite(),
        m.dom().contains(k),
    ensures
        m[k] <= sum_values(m),
{
    lemma_sum_split(m, k);
}

/// A new key adds its value to the sum.
pub proof fn lemma_sum_insert_new<K>(m: Map<K, nat>, k: K, v: nat)
    requires
        m.dom().finite(),
        !m.dom().contains(k),
    ensures
        sum_values(m.insert(k, v)) == sum_values(m) + v,
{
    lemma_sum_split(m.insert(k, v), k);
    assert(m.insert(k, v).remove(k) =~= m);
}

/// A new value for a key replaces the old one in the sum.
pub proof fn lemma_sum_update<K>(m: Map<K, nat>, k: K, v: nat)
    requires
        m.dom().finite(),
        m.dom().contains(k),
    ensures
        sum_values(m.insert(k, v)) + m[k] == sum_values(m) + v,
{
    lemma_sum_split(m.insert(k, v), k);
    lemma_sum_split(m, k);
    assert(m.insert(k, v).remove(k) =~= m.remove(k));
}

/// A key that leaves takes its value out of the sum.
pub proof fn lemma_sum_remove<K>(m: Map<K, nat>, k: K)
    requires
        m.dom().finite(),
        m.dom().contains(k),
    ensures
        sum_values(m.remove(k)) + m[k] == sum_values(m),
{
    lemma_sum_split(m, k);
}

} // verus!
