//! The events queued on an open DRM file, and how reads and polls see them.
use vstd::prelude::*;
use crate::error::Errno;

verus! {

/// Readable: an event is queued.
pub const POLL_IN: u32 = 0x0001;

/// Writable: always reported.
pub const POLL_OUT: u32 = 0x0004;

/// The encoded events waiting to be read from a DRM file, oldest first.
pub struct DrmFileEvents {
    queue: Vec<Vec<u8>>,
}

/// The events of a queue, as byte sequences.
pub open spec fn events_view(q: Seq<Vec<u8>>) -> Seq<Seq<u8>> {
    Seq::new(q.len(), |i: int| q[i]@)
}

impl DrmFileEvents {
    pub closed spec fn spec_queue(&self) -> Seq<Seq<u8>> {
        events_view(self.queue@)
    }

    /// An empty queue.
    pub fn new() -> (e: Self)
        ensures
            e.spec_queue() == Seq::<Seq<u8>>::empty(),
    {
        let e = DrmFileEvents { queue: Vec::new() };
        proof {
            assert(e.spec_queue() =~= Seq::<Seq<u8>>::empty());
        }
        e
    }

    /// Queues an encoded event behind the others.
    pub fn push(&mut self, event: Vec<u8>)
        ensures
            final(self).spec_queue() == old(self).spec_queue().push(event@),
    {
        self.queue.push(event);
        proof {
            assert(self.spec_queue() =~= old(self).spec_queue().push(event@));
        }
    }

    /// Whether no event is queued.
    pub fn is_empty(&self) -> (r: bool)
        ensures
            r == (self.spec_queue().len() == 0),
    {
        self.queue.len() == 0
    }

    /// The readiness of the file within `mask`: always writable, readable
    /// while an event is queued.
    pub fn poll(&self, mask: u32) -> (r: u32)
        ensures
            r == (if self.spec_queue().len() == 0 { POLL_OUT } else { POLL_OUT | POLL_IN }) & mask,
    {
        let mut events = POLL_OUT;
        if self.queue.len() != 0 {
            events = events | POLL_IN;
        }
        events & mask
    }

    /// Whether a read may go ahead now: a non-blocking read of an empty
    /// queue would block.
    pub fn read_check(&self, nonblocking: bool) -> (r: Result<(), Errno>)
        ensures
            r is Err <==> nonblocking && self.spec_queue().len() == 0,
            r is Err ==> r == Err::<(), Errno>(Errno::EAGAIN),
    {
        if nonblocking && self.queue.len() == 0 {
            return Err(Errno::EAGAIN);
        }
        Ok(())
    }

    /// One step of a read into a buffer with `avail` bytes left, after
    /// `written` bytes: takes the oldest event if it fits whole. A buffer
    /// too small for the first event is invalid; later, the read stops.
    pub fn pop_fitting(&mut self, avail: usize, written: usize) -> (r: Result<Option<Vec<u8>>, Errno>)
        ensures
            old(self).spec_queue().len() == 0 ==> r == Ok::<Option<Vec<u8>>, Errno>(None) && final(self).spec_queue()
                == old(self).spec_queue(),
            old(self).spec_queue().len() > 0 && old(self).spec_queue()[0].len() > avail ==> final(self).spec_queue()
                == old(self).spec_queue() && if written == 0 {
                r == Err::<Option<Vec<u8>>, Errno>(Errno::EINVAL)
            } else {
                r == Ok::<Option<Vec<u8>>, Errno>(None)
            },
            old(self).spec_queue().len() > 0 && old(self).spec_queue()[0].len() <= avail ==> (r matches Ok(Some(e)) && e@
                == old(self).spec_queue()[0] && final(self).spec_queue() == old(self).spec_queue().drop_first()),
    {
        if self.queue.len() == 0 {
            return Ok(None);
        }
        if self.queue[0].len() > avail {
            if written == 0 {
                return Err(Errno::EINVAL);
            }
            return Ok(None);
        }
        let e = self.queue.remove(0);
        proof {
            assert(self.spec_queue() =~= old(self).spec_queue().drop_first());
        }
        Ok(Some(e))
    }
}

} // verus!
