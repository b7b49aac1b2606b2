//! A bounded circular queue of copy-type elements: the storage and ordering
//! discipline behind the single-producer single-consumer ring.
//!
//! The queue's view is the sequence of elements in flight, oldest first.
//! `enqueue` appends, `dequeue` removes the oldest: every element is
//! delivered in order and exactly once.  `is_empty` holds exactly when no
//! element is in flight, `is_full` exactly when `capacity` are.

use vstd::prelude::*;

verus! {

/// A bounded FIFO ring over a power-of-two number of slots.
pub struct RingBuffer<T: Copy> {
    /// Backing slots; length is the ring's capacity.
    slots: Vec<T>,
    /// Index of the oldest element.
    head: usize,
    /// Number of elements in flight.
    count: usize,
}

/// Whether `n` is a power of two.
pub open spec fn is_power_of_two(n: int) -> bool
    decreases n,
{
    if n <= 0 {
        false
    } else if n == 1 {
        true
    } else {
        n % 2 == 0 && is_power_of_two(n / 2)
    }
}

impl<T: Copy> RingBuffer<T> {
    /// Internal consistency: the head lies in the slot range and no more
    /// elements are in flight than there are slots.
    pub closed spec fn wf(self) -> bool {
        &&& self.head < self.slots@.len()
        &&& self.count <= self.slots@.len()
        &&& self.slots@.len() > 0
    }

    /// Number of slots.
    pub closed spec fn capacity_spec(self) -> int {
        self.slots@.len() as int
    }

    /// Physical slot holding the `i`-th oldest element.
    pub closed spec fn slot_of(self, i: int) -> int {
        if self.head + i < self.slots@.len() {
            self.head + i
        } else {
            self.head + i - self.slots@.len()
        }
    }

    /// The elements in flight, oldest first.
    pub closed spec fn view_spec(self) -> Seq<T> {
        Seq::new(self.count as nat, |i: int| self.slots@[self.slot_of(i)])
    }

    /// Creates an empty ring of `capacity` slots, each initially holding
    /// `fill`; the capacity must be a (nonzero) power of two.
    pub fn new(capacity: usize, fill: T) -> (r: Self)
        requires
            capacity > 0,
            is_power_of_two(capacity as int),
        ensures
            r.wf(),
            r.capacity_spec() == capacity,
            r.view_spec() == Seq::<T>::empty(),
    {
        let mut slots: Vec<T> = Vec::new();
        let mut i: usize = 0;
        while i < capacity
            invariant
                i <= capacity,
                slots@.len() == i,
            decreases capacity - i,
        {
            slots.push(fill);
            i = i + 1;
        }
        let r = RingBuffer { slots, head: 0, count: 0 };
        proof {
            assert(r.view_spec() =~= Seq::<T>::empty());
        }
        r
    }

    /// Number of slots.
    pub fn capacity(&self) -> (r: usize)
        ensures
            r == self.capacity_spec(),
    {
        self.slots.len()
    }

    /// Number of elements in flight.
    pub fn len(&self) -> (r: usize)
        ensures
            r == self.view_spec().len(),
    {
        self.count
    }

    /// Holds exactly when no element is in flight.
    pub fn is_empty(&self) -> (r: bool)
        ensures
            r == (self.view_spec().len() == 0),
    {
        self.count == 0
    }

    /// Holds exactly when `capacity` elements are in flight.
    pub fn is_full(&self) -> (r: bool)
        ensures
            r == (self.view_spec().len() == self.capacity_spec()),
    {
        self.count == self.slots.len()
    }

    /// Appends `item` unless the ring is full; returns whether it was
    /// accepted.  On success the item becomes the newest element.
    pub fn try_enqueue(&mut self, item: T) -> (r: bool)
        requires
            old(self).wf(),
        ensures
            final(self).wf(),
            final(self).capacity_spec() == old(self).capacity_spec(),
            r == (old(self).view_spec().len() < old(self).capacity_spec()),
            r ==> final(self).view_spec() == old(self).view_spec().push(item),
            !r ==> *final(self) == *old(self),
    {
        if self.count == self.slots.len() {
            return false;
        }
        let cap: usize = self.slots.len();
        let idx: usize = if self.head >= cap - self.count {
            // the write index wrapped past the end of the slot vector
            self.count - (cap - self.head)
        } else {
            self.head + self.count
        };
        assert(idx == old(self).slot_of(old(self).count as int));
        self.slots.set(idx, item);
        self.count = self.count + 1;
        proof {
            assert forall|i: int| 0 <= i < self.count implies self.view_spec()[i] == old(
                self,
            ).view_spec().push(item)[i] by {
                assert(self.slot_of(i) == old(self).slot_of(i));
            }
            assert(self.view_spec() =~= old(self).view_spec().push(item));
        }
        true
    }

    /// Removes and returns the oldest element; `None` when empty.
    pub fn try_dequeue(&mut self) -> (r: Option<T>)
        requires
            old(self).wf(),
        ensures
            final(self).wf(),
            final(self).capacity_spec() == old(self).capacity_spec(),
            old(self).view_spec().len() == 0 ==> r is None && *final(self) == *old(self),
            old(self).view_spec().len() > 0 ==> {
                &&& r == Some(old(self).view_spec()[0])
                &&& final(self).view_spec() == old(self).view_spec().skip(1)
            },
    {
        if self.count == 0 {
            return None;
        }
        let item: T = self.slots[self.head];
        let cap: usize = self.slots.len();
        self.head = if self.head + 1 == cap {
            0
        } else {
            self.head + 1
        };
        self.count = self.count - 1;
        proof {
            assert forall|i: int| 0 <= i < self.count implies self.view_spec()[i] == old(
                self,
            ).view_spec().skip(1)[i] by {
                assert(self.slot_of(i) == old(self).slot_of(i + 1));
            }
            assert(self.view_spec() =~= old(self).view_spec().skip(1));
        }
        Some(item)
    }

    /// Appends `item`; the ring must not be full.  The counterpart of the
    /// blocking producer-side operation, whose wait the caller performs.
    pub fn enqueue(&mut self, item: T)
        requires
            old(self).wf(),
            old(self).view_spec().len() < old(self).capacity_spec(),
        ensures
            final(self).wf(),
            final(self).capacity_spec() == old(self).capacity_spec(),
            final(self).view_spec() == old(self).view_spec().push(item),
    {
        let accepted: bool = self.try_enqueue(item);
        assert(accepted);
    }

    /// Removes and returns the oldest element; the ring must not be empty.
    /// The counterpart of the blocking consumer-side operation.
    pub fn dequeue(&mut self) -> (r: T)
        requires
            old(self).wf(),
            old(self).view_spec().len() > 0,
        ensures
            final(self).wf(),
            final(self).capacity_spec() == old(self).capacity_spec(),
            r == old(self).view_spec()[0],
            final(self).view_spec() == old(self).view_spec().skip(1),
    {
        let r: Option<T> = self.try_dequeue();
        match r {
            Some(item) => item,
            None => unreached(),
        }
    }
}

} // verus!
