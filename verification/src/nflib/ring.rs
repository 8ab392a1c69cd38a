//! Bounded first-in first-out rings carrying control messages and packets.

use std::collections::VecDeque;
use vstd::prelude::*;

verus! {

/// A ring of at most `capacity` items that leave in the order they entered.
pub struct Ring<T> {
    buf: VecDeque<T>,
    capacity: usize,
}

/// How many items a burst of at most `max` takes from `len` waiting ones.
pub open spec fn burst_len(len: nat, max: nat) -> nat {
    if max < len {
        max
    } else {
        len
    }
}

impl<T> Ring<T> {
    /// The items waiting in the ring, the oldest first.
    pub closed spec fn view(&self) -> Seq<T> {
        self.buf@
    }

    /// The number of items the ring can hold.
    pub closed spec fn spec_capacity(&self) -> nat {
        self.capacity as nat
    }

    /// The ring never holds more than its capacity.
    pub closed spec fn wf(&self) -> bool {
        self.buf@.len() <= self.capacity
    }

    /// An empty ring that holds up to `capacity` items.
    pub fn new(capacity: usize) -> (r: Self)
        ensures
            r.wf(),
            r@ == Seq::<T>::empty(),
            r.spec_capacity() == capacity,
    {
        Ring { buf: VecDeque::new(), capacity }
    }

    /// The number of items the ring can hold.
    pub fn capacity(&self) -> (c: usize)
        ensures
            c == self.spec_capacity(),
    {
        self.capacity
    }

    /// The number of items waiting.
    pub fn count(&self) -> (n: usize)
        ensures
            n == self@.len(),
    {
        self.buf.len()
    }

    /// Whether nothing is waiting.
    pub fn is_empty(&self) -> (b: bool)
        ensures
            b == (self@.len() == 0),
    {
        self.buf.len() == 0
    }

    /// Whether the ring has no room left.
    pub fn is_full(&self) -> (b: bool)
        ensures
            b == (self@.len() >= self.spec_capacity()),
    {
        self.buf.len() >= self.capacity
    }

    /// Appends `item` unless the ring is full. A full ring is left as it was
    /// and the item is handed back.
    pub fn enqueue(&mut self, item: T) -> (r: Result<(), T>)
        requires
            old(self).wf(),
        ensures
            final(self).wf(),
            final(self).spec_capacity() == old(self).spec_capacity(),
            old(self)@.len() < old(self).spec_capacity() ==> r is Ok && final(self)@ == old(self)@.push(
                item,
            ),
            old(self)@.len() >= old(self).spec_capacity() ==> r == Err::<(), T>(item) && final(self)@
                == old(self)@,
    {
        if self.buf.len() >= self.capacity {
            return Err(item);
        }
        self.buf.push_back(item);
        Ok(())
    }

    /// Takes the oldest item, if there is one.
    pub fn dequeue(&mut self) -> (r: Option<T>)
        requires
            old(self).wf(),
        ensures
            final(self).wf(),
            final(self).spec_capacity() == old(self).spec_capacity(),
            old(self)@.len() == 0 ==> r is None && final(self)@ == old(self)@,
            old(self)@.len() > 0 ==> r == Some(old(self)@[0]) && final(self)@ == old(self)@.skip(1),
    {
        let r = self.buf.pop_front();
        proof {
            if old(self)@.len() > 0 {
                assert(final(self).buf@ =~= old(self)@.skip(1));
            }
        }
        r
    }

    /// Takes up to `max` of the oldest items, in ring order. Taking nothing
    /// from an empty ring is a valid result.
    pub fn dequeue_burst(&mut self, max: usize) -> (r: Vec<T>)
        requires
            old(self).wf(),
        ensures
            final(self).wf(),
            final(self).spec_capacity() == old(self).spec_capacity(),
            r@ == old(self)@.take(burst_len(old(self)@.len(), max as nat) as int),
            final(self)@ == old(self)@.skip(burst_len(old(self)@.len(), max as nat) as int),
    {
        let mut out: Vec<T> = Vec::new();
        let mut taken: usize = 0;
        while taken < max && self.buf.len() > 0
            invariant
                self.wf(),
                self.capacity == old(self).capacity,
                taken <= max,
                taken <= old(self)@.len(),
                out@ == old(self)@.take(taken as int),
                self.buf@ == old(self)@.skip(taken as int),
            decreases self.buf@.len(),
        {
            let item = self.buf.pop_front();
            match item {
                Some(x) => {
                    out.push(x);
                    proof {
                        assert(out@ =~= old(self)@.take(taken as int + 1));
                        assert(self.buf@ =~= old(self)@.skip(taken as int + 1));
                    }
                    taken = taken + 1;
                },
                None => {},
            }
        }
        out
    }

    /// Takes everything that is waiting, in ring order.
    pub fn dequeue_all(&mut self) -> (r: Vec<T>)
        requires
            old(self).wf(),
        ensures
            final(self).wf(),
            final(self).spec_capacity() == old(self).spec_capacity(),
            r@ == old(self)@,
            final(self)@ == Seq::<T>::empty(),
    {
        let n = self.buf.len();
        let r = self.dequeue_burst(n);
        proof {
            assert(r@ =~= old(self)@);
            assert(self@ =~= Seq::<T>::empty());
        }
        r
    }
}

} // verus!
