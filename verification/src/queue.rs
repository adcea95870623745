//! The bounded queue between the stages of the pipeline. A full queue turns
//! new records away: it never blocks the sender and never grows.

use std::collections::VecDeque;
use vstd::prelude::*;

verus! {

/// Number of records that a pipeline queue holds.
pub const QUEUE_CAPACITY: usize = 50;

/// The number after `n`, stopping at the largest that fits.
pub open spec fn one_more(n: u64) -> u64 {
    if n < u64::MAX {
        (n + 1) as u64
    } else {
        n
    }
}

/// A first-in, first-out queue that holds at most a fixed number of records.
pub struct BoundedQueue<T> {
    items: VecDeque<T>,
    limit: usize,
    turned_away: u64,
}

impl<T> View for BoundedQueue<T> {
    type V = Seq<T>;

    /// The records waiting in the queue, the oldest first.
    closed spec fn view(&self) -> Seq<T> {
        self.items@
    }
}

impl<T> BoundedQueue<T> {
    #[verifier::type_invariant]
    spec fn within_limit(self) -> bool {
        self.items@.len() <= self.limit
    }

    /// The number of records that the queue can hold.
    pub closed spec fn spec_capacity(&self) -> usize {
        self.limit
    }

    /// The number of records that were turned away because the queue was full,
    /// stopping at the largest number that fits.
    pub closed spec fn spec_dropped(&self) -> u64 {
        self.turned_away
    }

    /// An empty queue that holds up to `capacity` records.
    pub fn new(capacity: usize) -> (queue: Self)
        ensures
            queue@ == Seq::<T>::empty(),
            queue.spec_capacity() == capacity,
            queue.spec_dropped() == 0,
    {
        BoundedQueue { items: VecDeque::new(), limit: capacity, turned_away: 0 }
    }

    /// The number of records that the queue can hold.
    #[verifier::when_used_as_spec(spec_capacity)]
    pub fn capacity(&self) -> (capacity: usize)
        ensures
            capacity == self.spec_capacity(),
    {
        self.limit
    }

    /// The number of records turned away so far.
    #[verifier::when_used_as_spec(spec_dropped)]
    pub fn dropped(&self) -> (dropped: u64)
        ensures
            dropped == self.spec_dropped(),
    {
        self.turned_away
    }

    /// The number of records waiting.
    pub fn len(&self) -> (len: usize)
        ensures
            len == self@.len(),
            len <= self.spec_capacity(),
    {
        proof {
            use_type_invariant(self);
        }
        self.items.len()
    }

    /// Whether no record is waiting.
    pub fn is_empty(&self) -> (empty: bool)
        ensures
            empty == (self@.len() == 0),
    {
        self.items.len() == 0
    }

    /// Whether the queue turns the next record away.
    pub fn is_full(&self) -> (full: bool)
        ensures
            full == (self@.len() >= self.spec_capacity()),
    {
        self.items.len() >= self.limit
    }

    /// Offers `item` to the queue without waiting. With room left the record
    /// joins the end of the queue. A full queue stays exactly as it is and
    /// hands the record back; one more record counts as turned away.
    pub fn try_send(&mut self, item: T) -> (sent: Result<(), T>)
        ensures
            final(self).spec_capacity() == old(self).spec_capacity(),
            final(self)@.len() <= final(self).spec_capacity(),
            old(self)@.len() < old(self).spec_capacity() ==> sent == Ok::<(), T>(())
                && final(self)@ == old(self)@.push(item)
                && final(self).spec_dropped() == old(self).spec_dropped(),
            old(self)@.len() >= old(self).spec_capacity() ==> sent == Err::<(), T>(item)
                && final(self)@ == old(self)@
                && final(self).spec_dropped() == one_more(old(self).spec_dropped()),
    {
        proof {
            use_type_invariant(&*self);
        }
        if self.items.len() < self.limit {
            let mut items: VecDeque<T> = VecDeque::new();
            core::mem::swap(&mut self.items, &mut items);
            items.push_back(item);
            core::mem::swap(&mut self.items, &mut items);
            Ok(())
        } else {
            if self.turned_away < u64::MAX {
                self.turned_away = self.turned_away + 1;
            }
            Err(item)
        }
    }

    /// Takes the oldest record out of the queue, if there is one.
    pub fn try_recv(&mut self) -> (received: Option<T>)
        ensures
            final(self).spec_capacity() == old(self).spec_capacity(),
            final(self).spec_dropped() == old(self).spec_dropped(),
            old(self)@.len() == 0 ==> received.is_none() && final(self)@ == old(self)@,
            old(self)@.len() > 0 ==> received == Some(old(self)@[0]) && final(self)@ == old(
                self,
            )@.skip(1),
    {
        proof {
            use_type_invariant(&*self);
        }
        let mut items: VecDeque<T> = VecDeque::new();
        core::mem::swap(&mut self.items, &mut items);
        let received = items.pop_front();
        core::mem::swap(&mut self.items, &mut items);
        assert(old(self)@.len() > 0 ==> self.items@ =~= old(self)@.skip(1));
        received
    }
}

} // verus!
