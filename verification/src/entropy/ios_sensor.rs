//! A bounded ring buffer for temporal sensor data: the oldest entry
//! falls out when the capacity is reached.
use std::collections::VecDeque;
use vstd::prelude::*;
use vstd::pervasive::cloned;

verus! {

/// A ring buffer with a fixed capacity.
#[derive(Debug)]
pub struct RingBuffer<T> {
    capacity: usize,
    items: VecDeque<T>,
}

impl<T> RingBuffer<T> {
    /// The stored items, oldest first.
    pub closed spec fn spec_items(&self) -> Seq<T> {
        self.items@
    }

    /// The buffer's capacity.
    pub closed spec fn spec_capacity(&self) -> int {
        self.capacity as int
    }

    /// Never more items than the capacity allows.
    pub open spec fn wf(&self) -> bool {
        self.spec_items().len() <= self.spec_capacity()
    }

    /// Create an empty buffer with the given capacity.
    pub fn new(capacity: usize) -> (r: Self)
        ensures
            r.spec_items() == Seq::<T>::empty(),
            r.spec_capacity() == capacity,
            r.wf(),
    {
        let r = RingBuffer { capacity, items: VecDeque::new() };
        proof {
            assert(r.spec_items() =~= Seq::<T>::empty());
        }
        r
    }

    /// Append an item, evicting the oldest when the buffer is full. A
    /// zero-capacity buffer stays empty.
    pub fn push(&mut self, item: T)
        requires
            old(self).wf(),
        ensures
            final(self).spec_capacity() == old(self).spec_capacity(),
            final(self).wf(),
            old(self).spec_capacity() == 0 ==> final(self).spec_items() == Seq::<T>::empty(),
            old(self).spec_items().len() < old(self).spec_capacity() ==> final(self).spec_items()
                == old(self).spec_items().push(item),
            old(self).spec_items().len() >= old(self).spec_capacity() && old(self).spec_capacity()
                >= 1 ==> final(self).spec_items() == old(self).spec_items().drop_first().push(item),
    {
        if self.items.len() >= self.capacity {
            let _oldest = self.items.pop_front();
        }
        if self.capacity >= 1 {
            self.items.push_back(item);
        }
        proof {
            if old(self).spec_capacity() == 0 {
                assert(self.spec_items() =~= Seq::<T>::empty());
            }
        }
    }

    /// The most recent `count` items, oldest first, as clones.
    pub fn recent(&mut self, count: usize) -> (r: Vec<T>) where T: Clone
        ensures
            *final(self) == *old(self),
            r@.len() == (if (count as int) <= old(self).spec_items().len() {
                count as int
            } else {
                old(self).spec_items().len() as int
            }),
            forall|i: int|
                0 <= i < r@.len() ==> cloned::<T>(
                    old(self).spec_items()[old(self).spec_items().len() - r@.len() + i],
                    #[trigger] r@[i],
                ),
    {
        let len = self.items.len();
        let take_n: usize = if count <= len {
            count
        } else {
            len
        };
        let start = len - take_n;
        let mut out: Vec<T> = Vec::new();
        let mut i: usize = 0;
        while i < take_n
            invariant
                take_n <= len == self.items@.len(),
                start == len - take_n,
                i <= take_n,
                out@.len() == i,
                *self == *old(self),
                forall|j: int|
                    0 <= j < i ==> cloned::<T>(
                        self.items@[start + j],
                        #[trigger] out@[j],
                    ),
            decreases take_n - i,
        {
            let item = &self.items[start + i];
            out.push(item.clone());
            i = i + 1;
        }
        out
    }
}

} // verus!
