//! The outbound frame queue: a fixed-capacity handoff between the pipeline
//! and the transport with a drop-newest policy. When the queue is full the
//! incoming frame is discarded and everything already queued is kept, so
//! delivery order is preserved at the cost of freshness.

use vstd::prelude::*;

verus! {

/// Bounded FIFO of packed bitmaps awaiting transport.
pub struct FrameQueue {
    /// Fixed capacity, at least one; set at construction, never changed.
    pub capacity: usize,
    /// Queued frames, oldest first.
    pub items: Vec<Vec<u8>>,
}

impl FrameQueue {
    /// Never more frames than the capacity allows.
    pub open spec fn wf(self) -> bool {
        &&& self.capacity >= 1
        &&& self.items@.len() <= self.capacity
    }

    /// The queued frames as byte sequences, oldest first.
    pub open spec fn contents(self) -> Seq<Seq<u8>> {
        self.items.deep_view()
    }

    /// Creates an empty queue of the given capacity.
    pub fn new(capacity: usize) -> (q: FrameQueue)
        requires
            capacity >= 1,
        ensures
            q.wf(),
            q.capacity == capacity,
            q.contents() == Seq::<Seq<u8>>::empty(),
    {
        let q = FrameQueue { capacity, items: Vec::new() };
        proof {
            assert(q.contents() =~~= Seq::<Seq<u8>>::empty());
        }
        q
    }

    /// Number of frames currently queued.
    pub fn len(&self) -> (n: usize)
        ensures
            n == self.contents().len(),
    {
        self.items.len()
    }

    /// Non-blocking send. A frame offered to a full queue is dropped; the
    /// frames already queued are kept unchanged. Returns whether the frame
    /// was accepted.
    pub fn try_send(&mut self, frame: Vec<u8>) -> (accepted: bool)
        requires
            old(self).wf(),
        ensures
            final(self).wf(),
            final(self).capacity == old(self).capacity,
            accepted == (old(self).contents().len() < old(self).capacity),
            accepted ==> final(self).contents() == old(self).contents().push(frame@),
            !accepted ==> final(self).contents() == old(self).contents(),
    {
        if self.items.len() < self.capacity {
            self.items.push(frame);
            proof {
                assert(self.contents() =~~= old(self).contents().push(frame@));
            }
            true
        } else {
            false
        }
    }

    /// Non-blocking receive of the oldest queued frame; `None` exactly when
    /// the queue is empty. Frames that were accepted come out in the order
    /// they were accepted.
    pub fn receive(&mut self) -> (r: Option<Vec<u8>>)
        requires
            old(self).wf(),
        ensures
            final(self).wf(),
            final(self).capacity == old(self).capacity,
            r is Some <==> old(self).contents().len() > 0,
            r is Some ==> r->0@ == old(self).contents()[0] && final(self).contents() == old(
                self,
            ).contents().remove(0),
            r is None ==> final(self).contents() == old(self).contents(),
    {
        if self.items.len() > 0 {
            let frame = self.items.remove(0);
            proof {
                assert(self.contents() =~~= old(self).contents().remove(0));
            }
            Some(frame)
        } else {
            None
        }
    }
}

} // verus!
