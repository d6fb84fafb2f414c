//! A fixed-capacity binary min-heap held in an array.

use vstd::prelude::*;
use crate::ranked::Ranked;

verus! {

/// The slot above slot `i` in the implicit tree.
pub open spec fn parent_index(i: int) -> int {
    (i + 1) / 2 - 1
}

/// The slot of the left child of slot `i`.
pub open spec fn left_index(i: int) -> int {
    (i + 1) * 2 - 1
}

/// The slot of the right child of slot `i`.
pub open spec fn right_index(i: int) -> int {
    (i + 1) * 2
}

/// `s` with the items at `i` and `j` exchanged.
pub open spec fn swapped<T>(s: Seq<T>, i: int, j: int) -> Seq<T> {
    s.update(i, s[j]).update(j, s[i])
}

/// The item at `i` does not go before the item in its parent slot.
pub open spec fn parent_le<T: Ranked>(s: Seq<T>, i: int) -> bool {
    s[parent_index(i)].rank() <= s[i].rank()
}

/// The item at `i` does not go before the item two levels above it.
pub open spec fn grandparent_le<T: Ranked>(s: Seq<T>, i: int) -> bool {
    s[parent_index(parent_index(i))].rank() <= s[i].rank()
}

/// Every item but the root is at or after its parent.
pub open spec fn is_min_heap<T: Ranked>(s: Seq<T>) -> bool {
    forall|i: int| 0 < i < s.len() ==> #[trigger] parent_le(s, i)
}

/// No item of `s` goes before `x`.
pub open spec fn is_least<T: Ranked>(x: T, s: Seq<T>) -> bool {
    forall|j: int| 0 <= j < s.len() ==> x.rank() <= (#[trigger] s[j]).rank()
}

/// The layout after the item at `i` has climbed: while it goes strictly
/// before its parent the two are exchanged.
pub open spec fn sift_up<T: Ranked>(s: Seq<T>, i: int) -> Seq<T>
    decreases i,
{
    if 0 < i < s.len() && s[i].rank() < s[parent_index(i)].rank() {
        sift_up(swapped(s, i, parent_index(i)), parent_index(i))
    } else {
        s
    }
}

/// Among slot `i` and its children, the slot of the item that goes first.
/// On equal ranks the parent is kept before a child and the left child
/// before the right one.
pub open spec fn smallest_of<T: Ranked>(s: Seq<T>, i: int) -> int {
    let l = left_index(i);
    let r = right_index(i);
    let m = if l < s.len() && s[l].rank() < s[i].rank() {
        l
    } else {
        i
    };
    if r < s.len() && s[r].rank() < s[m].rank() {
        r
    } else {
        m
    }
}

/// The layout after the item at `i` has sunk: while a child goes strictly
/// before it, it is exchanged with the child chosen by `smallest_of`.
pub open spec fn sift_down<T: Ranked>(s: Seq<T>, i: int) -> Seq<T>
    decreases s.len() - i,
{
    if 0 <= i < s.len() {
        let m = smallest_of(s, i);
        if m != i {
            sift_down(swapped(s, i, m), m)
        } else {
            s
        }
    } else {
        s
    }
}

/// The layout that `push` leaves: the item is appended and climbs.
pub open spec fn pushed<T: Ranked>(s: Seq<T>, item: T) -> Seq<T> {
    sift_up(s.push(item), s.len() as int)
}

/// The layout that `pop` leaves: the last item takes the root's slot and
/// sinks.
pub open spec fn popped<T: Ranked>(s: Seq<T>) -> Seq<T> {
    if s.len() <= 1 {
        Seq::empty()
    } else {
        sift_down(s.drop_last().update(0, s.last()), 0)
    }
}

/// A heap in all but the parent link of slot `k`, whose children already
/// respect the slot above `k`.
pub open spec fn heap_but_up<T: Ranked>(s: Seq<T>, k: int) -> bool {
    &&& forall|i: int| 0 < i < s.len() && i != k ==> #[trigger] parent_le(s, i)
    &&& forall|i: int|
        0 < i < s.len() && parent_index(i) == k && k > 0 ==> #[trigger] grandparent_le(s, i)
}

/// A heap in all but the child links of slot `k`, whose children already
/// respect the slot above `k`.
pub open spec fn heap_but_down<T: Ranked>(s: Seq<T>, k: int) -> bool {
    &&& forall|i: int| 0 < i < s.len() && parent_index(i) != k ==> #[trigger] parent_le(s, i)
    &&& forall|i: int|
        0 < i < s.len() && parent_index(i) == k && k > 0 ==> #[trigger] grandparent_le(s, i)
}

/// Exchanging two items keeps the collection of items.
pub proof fn lemma_swapped_multiset<T>(s: Seq<T>, i: int, j: int)
    requires
        0 <= i < s.len(),
        0 <= j < s.len(),
    ensures
        swapped(s, i, j).to_multiset() == s.to_multiset(),
        swapped(s, i, j).len() == s.len(),
{
    broadcast use vstd::seq_lib::group_to_multiset_ensures;
    broadcast use vstd::multiset::group_multiset_axioms;

    let s1 = s.update(i, s[j]);
    vstd::seq_lib::to_multiset_update(s, i, s[j]);
    vstd::seq_lib::to_multiset_update(s1, j, s[i]);
    assert(s1[j] == s[j]);
    assert(s.to_multiset().count(s[i]) > 0) by {
        assert(s.contains(s[i]));
    }
    assert(swapped(s, i, j).to_multiset() =~= s.to_multiset());
}

/// The root of a heap goes before no other item of it.
pub proof fn lemma_root_is_least<T: Ranked>(s: Seq<T>)
    requires
        is_min_heap(s),
        s.len() > 0,
    ensures
        is_least(s[0], s),
{
    assert forall|j: int| 0 <= j < s.len() implies s[0].rank() <= (#[trigger] s[j]).rank() by {
        lemma_root_le(s, j);
    }
}

proof fn lemma_root_le<T: Ranked>(s: Seq<T>, j: int)
    requires
        is_min_heap(s),
        0 <= j < s.len(),
    ensures
        s[0].rank() <= s[j].rank(),
    decreases j,
{
    if j > 0 {
        assert(parent_le(s, j));
        lemma_root_le(s, parent_index(j));
    }
}

/// Climbing keeps the items, whatever the order of the layout.
pub proof fn lemma_sift_up_items<T: Ranked>(s: Seq<T>, k: int)
    requires
        0 <= k < s.len(),
    ensures
        sift_up(s, k).to_multiset() == s.to_multiset(),
        sift_up(s, k).len() == s.len(),
    decreases k,
{
    if k > 0 && s[k].rank() < s[parent_index(k)].rank() {
        lemma_swapped_multiset(s, k, parent_index(k));
        lemma_sift_up_items(swapped(s, k, parent_index(k)), parent_index(k));
    }
}

/// Sinking keeps the items, whatever the order of the layout.
pub proof fn lemma_sift_down_items<T: Ranked>(s: Seq<T>, k: int)
    requires
        0 <= k < s.len(),
    ensures
        sift_down(s, k).to_multiset() == s.to_multiset(),
        sift_down(s, k).len() == s.len(),
    decreases s.len() - k,
{
    let m = smallest_of(s, k);
    if m != k {
        lemma_swapped_multiset(s, k, m);
        lemma_sift_down_items(swapped(s, k, m), m);
    }
}

/// Pushing adds the item and nothing else.
pub proof fn lemma_pushed_items<T: Ranked>(s: Seq<T>, item: T)
    ensures
        pushed(s, item).to_multiset() == s.to_multiset().insert(item),
        pushed(s, item).len() == s.len() + 1,
{
    broadcast use vstd::seq_lib::group_to_multiset_ensures;

    lemma_sift_up_items(s.push(item), s.len() as int);
}

/// Popping takes the root out and nothing else.
pub proof fn lemma_popped_items<T: Ranked>(s: Seq<T>)
    requires
        s.len() > 0,
    ensures
        popped(s).to_multiset() == s.to_multiset().remove(s[0]),
        popped(s).len() == s.len() - 1,
{
    broadcast use vstd::seq_lib::group_to_multiset_ensures;
    broadcast use vstd::multiset::group_multiset_axioms;

    if s.len() == 1 {
        assert(s =~= Seq::<T>::empty().push(s[0]));
        assert(popped(s).to_multiset() =~= s.to_multiset().remove(s[0]));
    } else {
        let moved = s.drop_last().update(0, s.last());
        vstd::seq_lib::to_multiset_update(s.drop_last(), 0, s.last());
        assert(s.drop_last() =~= s.remove(s.len() - 1));
        assert(s.drop_last()[0] == s[0]);
        assert(s.drop_last().to_multiset().count(s[0]) > 0) by {
            assert(s.drop_last().contains(s[0]));
        }
        assert(moved.to_multiset() =~= s.to_multiset().remove(s[0]));
        lemma_sift_down_items(moved, 0);
    }
}

/// After a push the layout holds the old items and the new one, and no
/// other.
pub proof fn lemma_pushed_contains<T: Ranked>(s: Seq<T>, item: T)
    ensures
        forall|x: T| #[trigger] pushed(s, item).contains(x) <==> (s.contains(x) || x == item),
{
    broadcast use vstd::seq_lib::group_to_multiset_ensures;
    broadcast use vstd::multiset::group_multiset_axioms;

    lemma_pushed_items(s, item);
    assert forall|x: T| #[trigger] pushed(s, item).contains(x) <==> (s.contains(x) || x
        == item) by {
        assert(pushed(s, item).to_multiset().count(x) == s.to_multiset().count(x) + (if x
            == item {
            1nat
        } else {
            0nat
        }));
    }
}

/// After a pop the layout holds no item that was not there before.
pub proof fn lemma_popped_contains<T: Ranked>(s: Seq<T>)
    requires
        s.len() > 0,
    ensures
        forall|x: T| #[trigger] popped(s).contains(x) ==> s.contains(x),
{
    broadcast use vstd::seq_lib::group_to_multiset_ensures;
    broadcast use vstd::multiset::group_multiset_axioms;

    lemma_popped_items(s);
    assert forall|x: T| #[trigger] popped(s).contains(x) implies s.contains(x) by {
        assert(popped(s).to_multiset().count(x) > 0);
        assert(s.to_multiset().count(x) > 0);
    }
}

/// Climbing restores heap order and keeps the items.
pub proof fn lemma_sift_up<T: Ranked>(s: Seq<T>, k: int)
    requires
        0 <= k < s.len(),
        heap_but_up(s, k),
    ensures
        is_min_heap(sift_up(s, k)),
    decreases k,
{
    if k > 0 && s[k].rank() < s[parent_index(k)].rank() {
        let p = parent_index(k);
        let t = swapped(s, k, p);
        assert forall|i: int| 0 < i < t.len() && i != p implies #[trigger] parent_le(t, i) by {
            if i == k {
            } else if parent_index(i) == k {
                assert(grandparent_le(s, i));
            } else {
                assert(parent_le(s, i));
            }
        }
        assert forall|i: int|
            0 < i < t.len() && parent_index(i) == p && p > 0 implies #[trigger] grandparent_le(
            t,
            i,
        ) by {
            assert(parent_le(s, p));
            if i != k {
                assert(parent_le(s, i));
            }
        }
        lemma_sift_up(t, p);
    } else {
        assert forall|i: int| 0 < i < s.len() implies #[trigger] parent_le(s, i) by {
            if i != k {
                assert(parent_le(s, i));
            }
        }
    }
}

/// Sinking restores heap order and keeps the items.
pub proof fn lemma_sift_down<T: Ranked>(s: Seq<T>, k: int)
    requires
        0 <= k < s.len(),
        heap_but_down(s, k),
    ensures
        is_min_heap(sift_down(s, k)),
    decreases s.len() - k,
{
    let m = smallest_of(s, k);
    if m != k {
        let t = swapped(s, k, m);
        assert forall|c: int| 0 < c < t.len() && parent_index(c) != m implies #[trigger] parent_le(
            t,
            c,
        ) by {
            if c == k {
                assert(grandparent_le(s, m));
            } else if parent_index(c) == k {
            } else {
                assert(parent_le(s, c));
            }
        }
        assert forall|c: int|
            0 < c < t.len() && parent_index(c) == m && m > 0 implies #[trigger] grandparent_le(
            t,
            c,
        ) by {
            assert(parent_le(s, c));
        }
        lemma_sift_down(t, m);
    } else {
        assert forall|c: int| 0 < c < s.len() implies #[trigger] parent_le(s, c) by {
            if parent_index(c) != k {
                assert(parent_le(s, c));
            }
        }
    }
}

/// Pushing onto a heap gives a heap that holds the old items and the new
/// one.
pub proof fn lemma_pushed<T: Ranked>(s: Seq<T>, item: T)
    requires
        is_min_heap(s),
    ensures
        is_min_heap(pushed(s, item)),
        pushed(s, item).to_multiset() == s.to_multiset().insert(item),
        pushed(s, item).len() == s.len() + 1,
{
    let t = s.push(item);
    let at = s.len() as int;
    assert forall|i: int| 0 < i < t.len() && i != at implies #[trigger] parent_le(t, i) by {
        assert(parent_le(s, i));
    }
    lemma_sift_up(t, at);
    lemma_pushed_items(s, item);
}

/// Popping a heap hands out an item that goes first and leaves a heap of the
/// other items.
pub proof fn lemma_popped<T: Ranked>(s: Seq<T>)
    requires
        is_min_heap(s),
        s.len() > 0,
    ensures
        is_least(s[0], s),
        is_min_heap(popped(s)),
        popped(s).to_multiset() == s.to_multiset().remove(s[0]),
        popped(s).len() == s.len() - 1,
{
    lemma_root_is_least(s);
    lemma_popped_items(s);
    if s.len() > 1 {
        let moved = s.drop_last().update(0, s.last());
        assert forall|i: int| 0 < i < moved.len() && parent_index(i) != 0 implies #[trigger] parent_le(
            moved,
            i,
        ) by {
            assert(parent_le(s, i));
        }
        lemma_sift_down(moved, 0);
    }
}

/// A fixed-capacity min-heap of at most `N` items.
///
/// The live items fill the first slots of `array` in heap order; every slot
/// behind them is `None`.
#[derive(Debug, PartialEq)]
pub struct FixedSizePriorityQueue<T, const N: usize> {
    /// The slots: the live items first, in heap order, then `None`.
    pub array: [Option<T>; N],
    size: usize,
}

impl<T: Ranked, const N: usize> FixedSizePriorityQueue<T, N> {
    /// The live items in slot order.
    pub closed spec fn view(&self) -> Seq<T> {
        Seq::new(self.size as nat, |i: int| self.array@[i].unwrap())
    }

    /// All `N` slots, live or not.
    pub closed spec fn slots(&self) -> Seq<Option<T>> {
        self.array@
    }

    /// The live items fill exactly the first slots.
    spec fn shaped(&self) -> bool {
        &&& self.size <= N
        &&& forall|i: int| 0 <= i < N ==> ((#[trigger] self.array@[i]).is_some() <==> i < self.size)
    }

    /// The queue is well formed: the live items fill the first slots and are
    /// in heap order.
    pub closed spec fn wf(&self) -> bool {
        &&& self.shaped()
        &&& is_min_heap(self@)
    }

    /// What well-formedness means in terms of the view.
    pub proof fn lemma_wf(&self)
        requires
            self.wf(),
        ensures
            is_min_heap(self@),
            self@.len() <= N,
            self.slots().len() == N,
            forall|i: int|
                0 <= i < N ==> (#[trigger] self.slots()[i]) == (if i < self@.len() {
                    Some(self@[i])
                } else {
                    None
                }),
    {
    }

    /// An empty queue.
    pub fn new() -> (q: Self)
        ensures
            q.wf(),
            q@ == Seq::<T>::empty(),
    {
        let q = FixedSizePriorityQueue { array: [None; N], size: 0 };
        assert(q@ =~= Seq::<T>::empty());
        q
    }

    /// The number of live items.
    pub fn len(&self) -> (n: usize)
        ensures
            n == self@.len(),
    {
        self.size
    }

    /// The item that goes first, if there is one. It stays in the queue.
    pub fn peek(&self) -> (r: Option<&T>)
        requires
            self.wf(),
        ensures
            self@.len() == 0 ==> r.is_none(),
            self@.len() > 0 ==> r == Some(&self@[0]) && is_least(self@[0], self@),
    {
        if self.size > 0 {
            proof {
                lemma_root_is_least(self@);
            }
            self.array[0].as_ref()
        } else {
            None
        }
    }

    /// Takes the item that goes first out of the queue.
    ///
    /// The last live item takes the root's slot and sinks to its place.
    pub fn pop(&mut self) -> (r: Option<T>)
        requires
            old(self).wf(),
        ensures
            final(self).wf(),
            old(self)@.len() == 0 ==> r.is_none() && *final(self) == *old(self),
            old(self)@.len() > 0 ==> {
                &&& r == Some(old(self)@[0])
                &&& is_least(old(self)@[0], old(self)@)
                &&& final(self)@ == popped(old(self)@)
                &&& final(self)@.to_multiset() == old(self)@.to_multiset().remove(old(self)@[0])
            },
    {
        if self.size > 0 {
            let ghost before = self@;
            proof {
                lemma_popped(before);
            }
            let root = self.array[0].unwrap();
            let li = self.size - 1;
            let last = self.array[li];
            self.array[li] = None;
            self.size = li;
            if li > 0 {
                self.array[0] = last;
                proof {
                    assert(self@ =~= before.drop_last().update(0, before.last()));
                }
                self.min_heapy(0);
            } else {
                proof {
                    assert(self@ =~= Seq::<T>::empty());
                }
            }
            Some(root)
        } else {
            None
        }
    }

    /// Adds `item` if a slot is free, and says whether it did.
    ///
    /// The item is appended behind the live items and climbs to its place. A
    /// full queue is left as it is and the item is dropped.
    pub fn push(&mut self, item: T) -> (ok: bool)
        requires
            old(self).wf(),
        ensures
            final(self).wf(),
            ok == (old(self)@.len() < N),
            ok ==> final(self)@ == pushed(old(self)@, item) && final(self)@.to_multiset() == old(
                self,
            )@.to_multiset().insert(item),
            !ok ==> *final(self) == *old(self),
    {
        if self.size < N {
            let ghost before = self@;
            proof {
                lemma_pushed(before, item);
            }
            let at = self.size;
            self.array[at] = Some(item);
            self.size = at + 1;
            proof {
                assert(self@ =~= before.push(item));
            }
            self.heapify_up(at);
            true
        } else {
            false
        }
    }

    /// The slot above `i`; the root has none.
    fn parent(i: usize) -> (r: Option<usize>)
        ensures
            i == 0 ==> r.is_none(),
            i > 0 ==> r == Some(parent_index(i as int) as usize) && 0 <= parent_index(i as int) < i,
    {
        if i == 0 {
            None
        } else {
            Some((i - 1) / 2)
        }
    }

    /// The slot of the left child of `i`, if a live item is there.
    fn left(&self, i: usize) -> (r: Option<usize>)
        requires
            self.size <= N,
        ensures
            left_index(i as int) < self.size ==> r == Some(left_index(i as int) as usize),
            left_index(i as int) >= self.size ==> r.is_none(),
    {
        if i < self.size / 2 {
            Some(2 * i + 1)
        } else {
            None
        }
    }

    /// The slot of the right child of `i`, if a live item is there.
    fn right(&self, i: usize) -> (r: Option<usize>)
        requires
            self.size <= N,
        ensures
            right_index(i as int) < self.size ==> r == Some(right_index(i as int) as usize),
            right_index(i as int) >= self.size ==> r.is_none(),
    {
        if self.size > 0 && i < (self.size - 1) / 2 {
            Some(2 * i + 2)
        } else {
            None
        }
    }

    /// Exchanges the items of two live slots.
    fn swap_slots(&mut self, i: usize, j: usize)
        requires
            old(self).shaped(),
            i < old(self).size,
            j < old(self).size,
        ensures
            final(self).shaped(),
            final(self).size == old(self).size,
            final(self)@ == swapped(old(self)@, i as int, j as int),
    {
        let a = self.array[i];
        let b = self.array[j];
        self.array[i] = b;
        self.array[j] = a;
        proof {
            assert(self@ =~= swapped(old(self)@, i as int, j as int));
        }
    }

    /// Lets the item at `i` sink until neither child goes before it.
    fn min_heapy(&mut self, i: usize)
        requires
            old(self).shaped(),
            i < old(self).size,
        ensures
            final(self).shaped(),
            final(self).size == old(self).size,
            final(self)@ == sift_down(old(self)@, i as int),
        decreases old(self).size - i,
    {
        let mut smallest = i;
        if let Some(l) = self.left(i) {
            if self.array[l].unwrap().ranks_before(&self.array[i].unwrap()) {
                smallest = l;
            }
        }
        if let Some(r) = self.right(i) {
            if self.array[r].unwrap().ranks_before(&self.array[smallest].unwrap()) {
                smallest = r;
            }
        }
        if smallest != i {
            self.swap_slots(i, smallest);
            self.min_heapy(smallest);
        }
    }

    /// Lets the item at `ci` climb while it goes before its parent.
    fn heapify_up(&mut self, ci: usize)
        requires
            old(self).shaped(),
            ci < old(self).size,
        ensures
            final(self).shaped(),
            final(self).size == old(self).size,
            final(self)@ == sift_up(old(self)@, ci as int),
        decreases ci,
    {
        let cv = self.array[ci].unwrap();
        if let Some(pi) = Self::parent(ci) {
            let pv = self.array[pi].unwrap();
            if cv.ranks_before(&pv) {
                self.swap_slots(ci, pi);
                self.heapify_up(pi);
            }
        }
    }
}

} // verus!
