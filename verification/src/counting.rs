//! How many items of a multiset meet a condition, and how that number moves
//! when an item comes or goes.

use vstd::prelude::*;
use vstd::multiset::Multiset;

verus! {

/// The number of items of `m` that meet `f`, each with its multiplicity.
pub open spec fn count_where<V>(m: Multiset<V>, f: spec_fn(V) -> bool) -> nat {
    m.filter(f).len()
}

/// An item that comes in is counted exactly when it meets the condition.
pub proof fn lemma_count_where_insert<V>(m: Multiset<V>, f: spec_fn(V) -> bool, x: V)
    ensures
        count_where(m.insert(x), f) == count_where(m, f) + (if f(x) {
            1nat
        } else {
            0nat
        }),
{
    broadcast use vstd::multiset::group_multiset_axioms;
    broadcast use vstd::multiset::group_multiset_properties;

    if f(x) {
        assert(m.insert(x).filter(f) =~= m.filter(f).insert(x));
    } else {
        assert(m.insert(x).filter(f) =~= m.filter(f));
    }
}

/// An item that leaves is no longer counted.
pub proof fn lemma_count_where_remove<V>(m: Multiset<V>, f: spec_fn(V) -> bool, x: V)
    requires
        m.count(x) > 0,
    ensures
        count_where(m, f) == count_where(m.remove(x), f) + (if f(x) {
            1nat
        } else {
            0nat
        }),
{
    broadcast use vstd::multiset::group_multiset_axioms;

    assert(m.remove(x).insert(x) =~= m);
    lemma_count_where_insert(m.remove(x), f, x);
}

/// No more items meet a condition than there are items.
pub proof fn lemma_count_where_le_len<V>(m: Multiset<V>, f: spec_fn(V) -> bool)
    ensures
        count_where(m, f) <= m.len(),
    decreases m.len(),
{
    broadcast use vstd::multiset::group_multiset_axioms;

    if m.len() == 0 {
        assert(m.filter(f) =~= Multiset::<V>::empty()) by {
            assert forall|v: V| m.filter(f).count(v) == 0 by {
                assert(m.count(v) <= m.len());
            }
        }
    } else {
        let x = m.choose();
        assert(m.count(x) > 0);
        lemma_count_where_remove(m, f, x);
        assert(m.remove(x).len() == m.len() - 1);
        lemma_count_where_le_len(m.remove(x), f);
    }
}

} // verus!
