//! Bounded FIFO hand-off queue between the radio's receive callback and the
//! cooperative loop.
//!
//! The producer side never blocks: offering an address to a full queue fails
//! and the sample is dropped — lossy capture is the accepted trade-off. FIFO
//! order of accepted addresses is preserved, and a failed offer leaves the
//! queued entries untouched.

use vstd::prelude::*;

use crate::mac::MacAddress;

verus! {

/// Reference capacity of the hand-off queue.
pub const MAC_QUEUE_CAPACITY: usize = 100;

/// A bounded FIFO queue of captured addresses.
pub struct MacQueue {
    items: Vec<MacAddress>,
    capacity: usize,
}

/// What one non-blocking offer does to the queued contents: appends when
/// there is room, otherwise leaves them exactly as they were.
pub open spec fn spec_offer(contents: Seq<MacAddress>, capacity: nat, mac: MacAddress) -> Seq<
    MacAddress,
> {
    if contents.len() < capacity {
        contents.push(mac)
    } else {
        contents
    }
}

impl View for MacQueue {
    type V = Seq<MacAddress>;

    closed spec fn view(&self) -> Seq<MacAddress> {
        self.items@
    }
}

impl MacQueue {
    /// The fixed capacity the queue was created with.
    pub closed spec fn spec_capacity(&self) -> nat {
        self.capacity as nat
    }

    /// The queue never holds more than its capacity.
    pub open spec fn wf(&self) -> bool {
        self@.len() <= self.spec_capacity()
    }

    /// An empty queue with room for `capacity` addresses.
    pub fn new(capacity: usize) -> (q: MacQueue)
        ensures
            q.wf(),
            q@ =~= Seq::<MacAddress>::empty(),
            q.spec_capacity() == capacity,
    {
        MacQueue { items: Vec::new(), capacity }
    }

    /// The fixed capacity, for callers.
    pub fn capacity(&self) -> (c: usize)
        ensures
            c == self.spec_capacity(),
    {
        self.capacity
    }

    /// How many addresses are queued right now.
    pub fn len(&self) -> (n: usize)
        ensures
            n == self@.len(),
    {
        self.items.len()
    }

    /// Non-blocking producer-side offer: appends `mac` and reports success
    /// when there is room, otherwise changes nothing and reports failure.
    pub fn try_send(&mut self, mac: MacAddress) -> (ok: bool)
        requires
            old(self).wf(),
        ensures
            final(self).wf(),
            final(self).spec_capacity() == old(self).spec_capacity(),
            ok <==> old(self)@.len() < old(self).spec_capacity(),
            final(self)@ == spec_offer(old(self)@, old(self).spec_capacity(), mac),
            !ok ==> *final(self) == *old(self),
    {
        if self.items.len() < self.capacity {
            self.items.push(mac);
            true
        } else {
            false
        }
    }

    /// Non-blocking consumer-side poll: removes and returns the oldest
    /// queued address, or returns nothing when the queue is empty.
    pub fn try_recv(&mut self) -> (r: Option<MacAddress>)
        requires
            old(self).wf(),
        ensures
            final(self).wf(),
            final(self).spec_capacity() == old(self).spec_capacity(),
            old(self)@.len() == 0 ==> r is None && *final(self) == *old(self),
            old(self)@.len() > 0 ==> r == Some(old(self)@[0]) && final(self)@ == old(
                self,
            )@.drop_first(),
    {
        if self.items.len() == 0 {
            None
        } else {
            let mac = self.items.remove(0);
            proof {
                assert(self.items@ =~= old(self)@.drop_first());
            }
            Some(mac)
        }
    }
}

} // verus!
