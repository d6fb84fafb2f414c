//! A fixed-capacity buffer that is filled item by item and emptied in one
//! go.

use vstd::prelude::*;

verus! {

/// At most `N` items in the order in which they came.
pub struct BoundedFifo<T, const N: usize> {
    buffer: [T; N],
    cursor: usize,
}

impl<T: Copy, const N: usize> BoundedFifo<T, N> {
    /// The items that wait, oldest first.
    pub closed spec fn view(&self) -> Seq<T> {
        self.buffer@.subrange(0, self.cursor as int)
    }

    /// The write position lies within the buffer.
    pub closed spec fn wf(&self) -> bool {
        self.cursor <= N
    }

    /// No more than `N` items wait.
    pub proof fn lemma_wf(&self)
        requires
            self.wf(),
        ensures
            self@.len() <= N,
    {
    }

    /// An empty buffer. `any_value` fills the unused slots and is never
    /// handed out.
    pub fn new(any_value: T) -> (q: Self)
        ensures
            q.wf(),
            q@ == Seq::<T>::empty(),
    {
        let q = BoundedFifo { buffer: [any_value;N], cursor: 0 };
        assert(q@ =~= Seq::<T>::empty());
        q
    }

    /// The number of items that wait.
    pub fn len(&self) -> (n: usize)
        requires
            self.wf(),
        ensures
            n == self@.len(),
    {
        self.cursor
    }

    /// Hands out every waiting item, oldest first, and leaves the buffer
    /// empty.
    pub fn pop_all(&mut self) -> (items: Vec<T>)
        requires
            old(self).wf(),
        ensures
            final(self).wf(),
            items@ == old(self)@,
            final(self)@ == Seq::<T>::empty(),
    {
        let mut items: Vec<T> = Vec::new();
        let mut i: usize = 0;
        while i < self.cursor
            invariant
                self.wf(),
                *self == *old(self),
                i <= self.cursor,
                items@ == self@.subrange(0, i as int),
            decreases self.cursor - i,
        {
            items.push(self.buffer[i]);
            proof {
                assert(items@ =~= self@.subrange(0, i + 1));
            }
            i = i + 1;
        }
        proof {
            assert(items@ =~= old(self)@);
        }
        self.cursor = 0;
        proof {
            assert(self@ =~= Seq::<T>::empty());
        }
        items
    }

    /// Appends `v` if a slot is free: `Some(())` if it did, `None` if the
    /// buffer is full, which then stays as it is.
    pub fn push(&mut self, v: T) -> (r: Option<()>)
        requires
            old(self).wf(),
        ensures
            final(self).wf(),
            old(self)@.len() < N ==> r.is_some() && final(self)@ == old(self)@.push(v),
            old(self)@.len() >= N ==> r.is_none() && *final(self) == *old(self),
    {
        if self.cursor < N {
            self.buffer[self.cursor] = v;
            self.cursor = self.cursor + 1;
            proof {
                assert(self@ =~= old(self)@.push(v));
            }
            Some(())
        } else {
            None
        }
    }
}

} // verus!
