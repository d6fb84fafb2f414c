//! A fixed-capacity binary max-heap held in an array. Once it is full, an
//! item that goes behind every resident takes the place of the last of
//! them.

use vstd::prelude::*;
use crate::ranked::Ranked;

verus! {

/// The item at `i` does not go behind the item in its parent slot.
pub open spec fn parent_ge<T: Ranked>(s: Seq<T>, i: int) -> bool {
    s[crate::fixed_size_priority_queue::parent_index(i)].rank() >= s[i].rank()
}

/// The item at `i` does not go behind the item two levels above it.
pub open spec fn grandparent_ge<T: Ranked>(s: Seq<T>, i: int) -> bool {
    s[crate::fixed_size_priority_queue::parent_index(
        crate::fixed_size_priority_queue::parent_index(i),
    )].rank() >= s[i].rank()
}

/// Every item but the root is at or before its parent.
pub open spec fn is_max_heap<T: Ranked>(s: Seq<T>) -> bool {
    forall|i: int| 0 < i < s.len() ==> #[trigger] parent_ge(s, i)
}

/// No item of `s` goes behind `x`.
pub open spec fn is_greatest<T: Ranked>(x: T, s: Seq<T>) -> bool {
    forall|j: int| 0 <= j < s.len() ==> x.rank() >= (#[trigger] s[j]).rank()
}

/// The layout after the item at `i` has climbed: while it goes strictly
/// behind its parent the two are exchanged.
pub open spec fn climbed<T: Ranked>(s: Seq<T>, i: int) -> Seq<T>
    decreases i,
{
    let p = crate::fixed_size_priority_queue::parent_index(i);
    if 0 < i < s.len() && s[i].rank() > s[p].rank() {
        climbed(crate::fixed_size_priority_queue::swapped(s, i, p), p)
    } else {
        s
    }
}

/// The child of slot `i` that goes last; the left one where both have the
/// same rank. Slot `i` must have a left child.
pub open spec fn largest_child<T: Ranked>(s: Seq<T>, i: int) -> int {
    let l = crate::fixed_size_priority_queue::left_index(i);
    let r = crate::fixed_size_priority_queue::right_index(i);
    if r < s.len() && s[r].rank() > s[l].rank() {
        r
    } else {
        l
    }
}

/// The layout after the item at `i` has sunk: while its largest child goes
/// strictly behind it the two are exchanged.
pub open spec fn sunk<T: Ranked>(s: Seq<T>, i: int) -> Seq<T>
    decreases s.len() - i,
{
    if 0 <= i && crate::fixed_size_priority_queue::left_index(i) < s.len() {
        let c = largest_child(s, i);
        if s[i].rank() < s[c].rank() {
            sunk(crate::fixed_size_priority_queue::swapped(s, i, c), c)
        } else {
            s
        }
    } else {
        s
    }
}

/// The layout that `push` leaves in a queue of capacity `cap`. With room
/// left the item is appended and climbs. In a full queue an item that goes
/// strictly behind the root takes the root's slot, and the old root is
/// gone; any other item is dropped.
pub open spec fn pushed<T: Ranked>(s: Seq<T>, item: T, cap: int) -> Seq<T> {
    if s.len() < cap {
        climbed(s.push(item), s.len() as int)
    } else if s.len() > 0 && s[0].rank() < item.rank() {
        sunk(s.update(0, item), 0)
    } else {
        s
    }
}

/// The layout that `pop` leaves: the last item takes the root's slot and
/// sinks.
pub open spec fn popped<T: Ranked>(s: Seq<T>) -> Seq<T> {
    if s.len() <= 1 {
        Seq::empty()
    } else {
        sunk(s.drop_last().update(0, s.last()), 0)
    }
}

/// A max-heap in all but the parent link of slot `k`.
pub open spec fn max_heap_but_up<T: Ranked>(s: Seq<T>, k: int) -> bool {
    &&& forall|i: int| 0 < i < s.len() && i != k ==> #[trigger] parent_ge(s, i)
    &&& forall|i: int|
        0 < i < s.len() && crate::fixed_size_priority_queue::parent_index(i) == k && k > 0
            ==> #[trigger] grandparent_ge(s, i)
}

/// A max-heap in all but the child links of slot `k`.
pub open spec fn max_heap_but_down<T: Ranked>(s: Seq<T>, k: int) -> bool {
    &&& forall|i: int|
        0 < i < s.len() && crate::fixed_size_priority_queue::parent_index(i) != k
            ==> #[trigger] parent_ge(s, i)
    &&& forall|i: int|
        0 < i < s.len() && crate::fixed_size_priority_queue::parent_index(i) == k && k > 0
            ==> #[trigger] grandparent_ge(s, i)
}

/// Climbing keeps the items and restores heap order.
pub proof fn lemma_climbed<T: Ranked>(s: Seq<T>, k: int)
    requires
        0 <= k < s.len(),
    ensures
        climbed(s, k).to_multiset() == s.to_multiset(),
        climbed(s, k).len() == s.len(),
        max_heap_but_up(s, k) ==> is_max_heap(climbed(s, k)),
    decreases k,
{
    let p = crate::fixed_size_priority_queue::parent_index(k);
    if k > 0 && s[k].rank() > s[p].rank() {
        let t = crate::fixed_size_priority_queue::swapped(s, k, p);
        crate::fixed_size_priority_queue::lemma_swapped_multiset(s, k, p);
        if max_heap_but_up(s, k) {
            assert forall|i: int| 0 < i < t.len() && i != p implies #[trigger] parent_ge(t, i) by {
                if i == k {
                } else if crate::fixed_size_priority_queue::parent_index(i) == k {
                    assert(grandparent_ge(s, i));
                } else {
                    assert(parent_ge(s, i));
                }
            }
            assert forall|i: int|
                0 < i < t.len() && crate::fixed_size_priority_queue::parent_index(i) == p && p
                    > 0 implies #[trigger] grandparent_ge(t, i) by {
                assert(parent_ge(s, p));
                if i != k {
                    assert(parent_ge(s, i));
                }
            }
        }
        lemma_climbed(t, p);
    } else if max_heap_but_up(s, k) {
        assert forall|i: int| 0 < i < s.len() implies #[trigger] parent_ge(s, i) by {
            if i != k {
                assert(parent_ge(s, i));
            }
        }
    }
}

/// Sinking keeps the items and restores heap order.
pub proof fn lemma_sunk<T: Ranked>(s: Seq<T>, k: int)
    requires
        0 <= k < s.len(),
    ensures
        sunk(s, k).to_multiset() == s.to_multiset(),
        sunk(s, k).len() == s.len(),
        max_heap_but_down(s, k) ==> is_max_heap(sunk(s, k)),
    decreases s.len() - k,
{
    if crate::fixed_size_priority_queue::left_index(k) < s.len() {
        let c = largest_child(s, k);
        if s[k].rank() < s[c].rank() {
            let t = crate::fixed_size_priority_queue::swapped(s, k, c);
            crate::fixed_size_priority_queue::lemma_swapped_multiset(s, k, c);
            if max_heap_but_down(s, k) {
                assert forall|i: int|
                    0 < i < t.len() && crate::fixed_size_priority_queue::parent_index(i)
                        != c implies #[trigger] parent_ge(t, i) by {
                    if i == k {
                        assert(grandparent_ge(s, c));
                    } else if crate::fixed_size_priority_queue::parent_index(i) == k {
                    } else {
                        assert(parent_ge(s, i));
                    }
                }
                assert forall|i: int|
                    0 < i < t.len() && crate::fixed_size_priority_queue::parent_index(i) == c && c
                        > 0 implies #[trigger] grandparent_ge(t, i) by {
                    assert(parent_ge(s, i));
                }
            }
            lemma_sunk(t, c);
        } else if max_heap_but_down(s, k) {
            assert forall|i: int| 0 < i < s.len() implies #[trigger] parent_ge(s, i) by {
                if crate::fixed_size_priority_queue::parent_index(i) != k {
                    assert(parent_ge(s, i));
                }
            }
        }
    } else if max_heap_but_down(s, k) {
        assert forall|i: int| 0 < i < s.len() implies #[trigger] parent_ge(s, i) by {
            if crate::fixed_size_priority_queue::parent_index(i) != k {
                assert(parent_ge(s, i));
            }
        }
    }
}

/// The root of a max-heap goes behind no other item of it.
pub proof fn lemma_root_is_greatest<T: Ranked>(s: Seq<T>)
    requires
        is_max_heap(s),
        s.len() > 0,
    ensures
        is_greatest(s[0], s),
{
    assert forall|j: int| 0 <= j < s.len() implies s[0].rank() >= (#[trigger] s[j]).rank() by {
        lemma_root_ge(s, j);
    }
}

proof fn lemma_root_ge<T: Ranked>(s: Seq<T>, j: int)
    requires
        is_max_heap(s),
        0 <= j < s.len(),
    ensures
        s[0].rank() >= s[j].rank(),
    decreases j,
{
    if j > 0 {
        assert(parent_ge(s, j));
        lemma_root_ge(s, crate::fixed_size_priority_queue::parent_index(j));
    }
}

/// A push leaves a max-heap. With room left it adds the item; in a full
/// queue an item that goes behind the root replaces it, and any other item
/// changes nothing.
pub proof fn lemma_pushed<T: Ranked>(s: Seq<T>, item: T, cap: int)
    requires
        is_max_heap(s),
        s.len() <= cap,
    ensures
        is_max_heap(pushed(s, item, cap)),
        pushed(s, item, cap).len() <= cap,
        s.len() < cap ==> pushed(s, item, cap).to_multiset() == s.to_multiset().insert(item),
        s.len() == cap && cap > 0 && s[0].rank() < item.rank() ==> {
            &&& pushed(s, item, cap) == s.update(0, item)
            &&& pushed(s, item, cap).to_multiset() == s.to_multiset().remove(s[0]).insert(item)
        },
        s.len() == cap && !(cap > 0 && s[0].rank() < item.rank()) ==> pushed(s, item, cap) == s,
{
    broadcast use vstd::seq_lib::group_to_multiset_ensures;
    broadcast use vstd::multiset::group_multiset_axioms;

    if s.len() < cap {
        let t = s.push(item);
        let at = s.len() as int;
        assert forall|i: int| 0 < i < t.len() && i != at implies #[trigger] parent_ge(t, i) by {
            assert(parent_ge(s, i));
        }
        lemma_climbed(t, at);
    } else if s.len() > 0 && s[0].rank() < item.rank() {
        let t = s.update(0, item);
        lemma_root_is_greatest(s);
        assert forall|i: int| 0 < i < t.len() implies #[trigger] parent_ge(t, i) by {
            assert(parent_ge(s, i));
        }
        assert(is_max_heap(t));
        lemma_sunk_of_heap(t, 0);
        vstd::seq_lib::to_multiset_update(s, 0, item);
        assert(s.to_multiset().count(s[0]) > 0) by {
            assert(s.contains(s[0]));
        }
        assert(t.to_multiset() =~= s.to_multiset().remove(s[0]).insert(item));
    }
}

/// In a heap nothing sinks.
pub proof fn lemma_sunk_of_heap<T: Ranked>(s: Seq<T>, k: int)
    requires
        is_max_heap(s),
        0 <= k < s.len(),
    ensures
        sunk(s, k) == s,
{
    if crate::fixed_size_priority_queue::left_index(k) < s.len() {
        let c = largest_child(s, k);
        assert(parent_ge(s, c));
    }
}

/// A pop hands out an item that goes last and leaves a max-heap of the
/// others.
pub proof fn lemma_popped<T: Ranked>(s: Seq<T>)
    requires
        is_max_heap(s),
        s.len() > 0,
    ensures
        is_greatest(s[0], s),
        is_max_heap(popped(s)),
        popped(s).to_multiset() == s.to_multiset().remove(s[0]),
        popped(s).len() == s.len() - 1,
{
    broadcast use vstd::seq_lib::group_to_multiset_ensures;
    broadcast use vstd::multiset::group_multiset_axioms;

    lemma_root_is_greatest(s);
    if s.len() == 1 {
        assert(s =~= Seq::<T>::empty().push(s[0]));
        assert(popped(s).to_multiset() =~= s.to_multiset().remove(s[0]));
    } else {
        let moved = s.drop_last().update(0, s.last());
        assert forall|i: int|
            0 < i < moved.len() && crate::fixed_size_priority_queue::parent_index(i)
                != 0 implies #[trigger] parent_ge(moved, i) by {
            assert(parent_ge(s, i));
        }
        vstd::seq_lib::to_multiset_update(s.drop_last(), 0, s.last());
        assert(s.drop_last() =~= s.remove(s.len() - 1));
        assert(s.drop_last()[0] == s[0]);
        assert(s.drop_last().to_multiset().count(s[0]) > 0) by {
            assert(s.drop_last().contains(s[0]));
        }
        assert(moved.to_multiset() =~= s.to_multiset().remove(s[0]));
        lemma_sunk(moved, 0);
    }
}

/// A fixed-capacity max-heap of at most `N` items: `pop` hands out the item
/// that goes last.
#[derive(Debug)]
pub struct FixedSizeQueue<T, const N: usize> {
    heap: [Option<T>; N],
    size: usize,
}

impl<T: Ranked, const N: usize> FixedSizeQueue<T, N> {
    /// The live items in slot order.
    pub closed spec fn view(&self) -> Seq<T> {
        Seq::new(self.size as nat, |i: int| self.heap@[i].unwrap())
    }

    /// The live items fill exactly the first slots.
    spec fn shaped(&self) -> bool {
        &&& self.size <= N
        &&& forall|i: int| 0 <= i < N ==> ((#[trigger] self.heap@[i]).is_some() <==> i < self.size)
    }

    /// The queue is well formed: the live items fill the first slots and are
    /// in heap order.
    pub closed spec fn wf(&self) -> bool {
        &&& self.shaped()
        &&& is_max_heap(self@)
    }

    /// What well-formedness means in terms of the view.
    pub proof fn lemma_wf(&self)
        requires
            self.wf(),
        ensures
            is_max_heap(self@),
            self@.len() <= N,
    {
    }

    /// An empty queue.
    pub fn new() -> (q: Self)
        ensures
            q.wf(),
            q@ == Seq::<T>::empty(),
    {
        let q = FixedSizeQueue { heap: [None;N], size: 0 };
        assert(q@ =~= Seq::<T>::empty());
        q
    }

    /// The item that goes last, if there is one. It stays in the queue.
    pub fn peek(&self) -> (r: Option<&T>)
        requires
            self.wf(),
        ensures
            self@.len() == 0 ==> r.is_none(),
            self@.len() > 0 ==> r == Some(&self@[0]) && is_greatest(self@[0], self@),
    {
        if self.size > 0 {
            proof {
                lemma_root_is_greatest(self@);
            }
            self.heap[0].as_ref()
        } else {
            None
        }
    }

    /// Takes the item that goes last out of the queue.
    pub fn pop(&mut self) -> (r: Option<T>)
        requires
            old(self).wf(),
        ensures
            final(self).wf(),
            old(self)@.len() == 0 ==> r.is_none() && final(self)@ == old(self)@,
            old(self)@.len() > 0 ==> {
                &&& r == Some(old(self)@[0])
                &&& is_greatest(old(self)@[0], old(self)@)
                &&& final(self)@ == popped(old(self)@)
                &&& final(self)@.to_multiset() == old(self)@.to_multiset().remove(old(self)@[0])
            },
    {
        if self.size > 0 {
            let ghost before = self@;
            proof {
                lemma_popped(before);
            }
            let root = self.heap[0];
            let li = self.size - 1;
            let last = self.heap[li];
            self.heap[li] = None;
            self.size = li;
            if li > 0 {
                self.heap[0] = last;
                proof {
                    assert(self@ =~= before.drop_last().update(0, before.last()));
                }
                self.heapify_down(0);
            } else {
                proof {
                    assert(self@ =~= Seq::<T>::empty());
                }
            }
            root
        } else {
            None
        }
    }

    /// Adds `item`.
    ///
    /// With room left the item is appended and climbs to its place. In a
    /// full queue the item takes the root's slot if it goes strictly behind
    /// the root, which is then gone; else the item is dropped.
    pub fn push(&mut self, item: T)
        requires
            old(self).wf(),
        ensures
            final(self).wf(),
            final(self)@ == pushed(old(self)@, item, N as int),
    {
        let ghost before = self@;
        proof {
            lemma_pushed(before, item, N as int);
        }
        if self.size < N {
            self.heap[self.size] = Some(item);
            self.size = self.size + 1;
            proof {
                assert(self@ =~= before.push(item));
            }
            self.heapify_up(self.size - 1);
        } else if N > 0 {
            let top = self.heap[0].unwrap();
            if top.ranks_before(&item) {
                self.heap[0] = Some(item);
                proof {
                    assert(self@ =~= before.update(0, item));
                }
                self.heapify_down(0);
            }
        }
    }

    /// Exchanges the items of two live slots.
    fn swap_slots(&mut self, i: usize, j: usize)
        requires
            old(self).shaped(),
            i < old(self).size,
            j < old(self).size,
        ensures
            final(self).shaped(),
            final(self).size == old(self).size,
            final(self)@ == crate::fixed_size_priority_queue::swapped(old(self)@, i as int, j as int),
    {
        let a = self.heap[i];
        let b = self.heap[j];
        self.heap[i] = b;
        self.heap[j] = a;
        proof {
            assert(self@ =~= crate::fixed_size_priority_queue::swapped(
                old(self)@,
                i as int,
                j as int,
            ));
        }
    }

    /// Lets the item at `index` climb while it goes behind its parent.
    fn heapify_up(&mut self, index: usize)
        requires
            old(self).shaped(),
            index < old(self).size,
        ensures
            final(self).shaped(),
            final(self).size == old(self).size,
            final(self)@ == climbed(old(self)@, index as int),
    {
        let ghost start = index as int;
        let mut index = index;
        while index > 0
            invariant
                self.shaped(),
                self.size == old(self).size,
                index < self.size,
                climbed(self@, index as int) == climbed(old(self)@, start),
            ensures
                self.shaped(),
                self.size == old(self).size,
                self@ == climbed(old(self)@, start),
            decreases index,
        {
            let parent = (index - 1) / 2;
            if self.heap[parent].unwrap().ranks_before(&self.heap[index].unwrap()) {
                self.swap_slots(index, parent);
                index = parent;
            } else {
                break ;
            }
        }
    }

    /// Lets the item at `index` sink while its largest child goes behind
    /// it.
    fn heapify_down(&mut self, index: usize)
        requires
            old(self).shaped(),
            index < old(self).size,
        ensures
            final(self).shaped(),
            final(self).size == old(self).size,
            final(self)@ == sunk(old(self)@, index as int),
    {
        let ghost start = index as int;
        let mut index = index;
        while index < self.size / 2
            invariant
                self.shaped(),
                self.size == old(self).size,
                index < self.size,
                sunk(self@, index as int) == sunk(old(self)@, start),
            ensures
                self.shaped(),
                self.size == old(self).size,
                self@ == sunk(old(self)@, start),
            decreases self.size - index,
        {
            let left_child = 2 * index + 1;
            let right_child = left_child + 1;
            let mut largest_child = left_child;
            if right_child < self.size && self.heap[left_child].unwrap().ranks_before(
                &self.heap[right_child].unwrap(),
            ) {
                largest_child = right_child;
            }
            if self.heap[index].unwrap().ranks_before(&self.heap[largest_child].unwrap()) {
                self.swap_slots(index, largest_child);
                index = largest_child;
            } else {
                break ;
            }
        }
    }
}

} // verus!
