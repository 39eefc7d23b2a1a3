//! Ingress queue: a bounded, closable FIFO of socket events, bridging the
//! transport's event callback into the processing pipeline.
//!
//! Two producer disciplines share this one contract: a waiting producer
//! retries [`IngressQueue::try_push`] until there is room (no event is ever
//! dropped), a non-waiting one takes a rejection as the cue to answer that
//! client `TooBusy` at once. Closing stops intake while keeping everything
//! already buffered deliverable, so a consumer drains the buffer before it
//! observes end-of-stream.

use vstd::prelude::*;
use crate::events::{SocketEvent, SocketEventView};

verus! {

/// Mathematical shadow of [`IngressQueue`].
pub struct IngressQueueView {
    pub items: Seq<SocketEventView>,
    pub capacity: int,
    pub closed: bool,
}

/// What one attempt to take an event from the queue yields.
#[derive(Debug)]
pub enum PopOutcome {
    /// The oldest buffered event.
    Item(SocketEvent),
    /// Nothing buffered now, but the queue is still open: more may come.
    Pending,
    /// Nothing buffered and the queue is closed: no event will ever come.
    EndOfStream,
}

/// A bounded, closable FIFO of socket events.
pub struct IngressQueue {
    items: Vec<SocketEvent>,
    capacity: usize,
    closed: bool,
}

impl View for IngressQueue {
    type V = IngressQueueView;

    closed spec fn view(&self) -> IngressQueueView {
        IngressQueueView {
            items: self.items@.map_values(|e: SocketEvent| e@),
            capacity: self.capacity as int,
            closed: self.closed,
        }
    }
}

impl IngressQueue {
    /// An empty, open queue that will buffer at most `capacity` events.
    pub fn new(capacity: usize) -> (q: Self)
        requires
            capacity >= 1,
        ensures
            q@.items == Seq::<SocketEventView>::empty(),
            q@.capacity == capacity,
            !q@.closed,
    {
        let q = IngressQueue { items: Vec::new(), capacity, closed: false };
        proof {
            assert(q@.items =~= Seq::<SocketEventView>::empty());
        }
        q
    }

    /// How many events are buffered.
    pub fn len(&self) -> (n: usize)
        ensures
            n == self@.items.len(),
    {
        self.items.len()
    }

    /// Whether the queue has stopped accepting events.
    pub fn is_closed(&self) -> (r: bool)
        ensures
            r == self@.closed,
    {
        self.closed
    }

    /// The most events the queue will buffer.
    pub fn capacity(&self) -> (n: usize)
        ensures
            n == self@.capacity,
    {
        self.capacity
    }

    /// Offers one event. It is accepted — appended behind everything already
    /// buffered — exactly when there is room; a full queue rejects it and
    /// keeps its buffer as it was. Producing into a closed queue is a caller
    /// bug (the adapter never does).
    pub fn try_push(&mut self, event: SocketEvent) -> (accepted: bool)
        requires
            !old(self)@.closed,
        ensures
            final(self)@.capacity == old(self)@.capacity,
            final(self)@.closed == old(self)@.closed,
            accepted == (old(self)@.items.len() < old(self)@.capacity),
            accepted ==> final(self)@.items == old(self)@.items.push(event@),
            !accepted ==> final(self)@.items == old(self)@.items,
    {
        if self.items.len() < self.capacity {
            self.items.push(event);
            proof {
                assert(self@.items =~= old(self)@.items.push(event@));
            }
            true
        } else {
            false
        }
    }

    /// Stops intake. Everything already buffered stays deliverable: the
    /// buffer is untouched, only new offers are refused from here on.
    pub fn close(&mut self)
        ensures
            final(self)@.items == old(self)@.items,
            final(self)@.capacity == old(self)@.capacity,
            final(self)@.closed,
    {
        self.closed = true;
    }

    /// Takes the oldest buffered event, if any; an empty queue reports
    /// whether more may still come (`Pending`) or never will
    /// (`EndOfStream`).
    pub fn pop(&mut self) -> (out: PopOutcome)
        ensures
            final(self)@.capacity == old(self)@.capacity,
            final(self)@.closed == old(self)@.closed,
            old(self)@.items.len() > 0 ==> {
                &&& final(self)@.items == old(self)@.items.skip(1)
                &&& out matches PopOutcome::Item(e) && e@ == old(self)@.items[0]
            },
            old(self)@.items.len() == 0 ==> {
                &&& final(self)@.items == old(self)@.items
                &&& if old(self)@.closed {
                    out is EndOfStream
                } else {
                    out is Pending
                }
            },
    {
        if self.items.len() > 0 {
            let e = self.items.remove(0);
            proof {
                assert(self@.items =~= old(self)@.items.skip(1));
            }
            PopOutcome::Item(e)
        } else if self.closed {
            PopOutcome::EndOfStream
        } else {
            PopOutcome::Pending
        }
    }

    /// Empties a closed queue: every event still buffered at close time is
    /// handed out, in submission order, before end-of-stream — nothing
    /// buffered is lost to shutdown.
    pub fn drain(&mut self) -> (events: Vec<SocketEvent>)
        requires
            old(self)@.closed,
        ensures
            events@.map_values(|e: SocketEvent| e@) == old(self)@.items,
            final(self)@.items == Seq::<SocketEventView>::empty(),
            final(self)@.capacity == old(self)@.capacity,
            final(self)@.closed,
    {
        let mut events: Vec<SocketEvent> = Vec::new();
        proof {
            assert(events@.map_values(|e: SocketEvent| e@) =~= Seq::<SocketEventView>::empty());
            assert(old(self)@.items =~= events@.map_values(|e: SocketEvent| e@) + self@.items);
        }
        while self.len() > 0
            invariant
                self@.closed,
                self@.capacity == old(self)@.capacity,
                old(self)@.items == events@.map_values(|e: SocketEvent| e@) + self@.items,
            decreases self@.items.len(),
        {
            let ghost prev_events = events@;
            let ghost prev_items = self@.items;
            match self.pop() {
                PopOutcome::Item(e) => {
                    events.push(e);
                    proof {
                        assert(events@.map_values(|e: SocketEvent| e@) =~= prev_events.map_values(
                            |e: SocketEvent| e@,
                        ).push(prev_items[0]));
                        assert(old(self)@.items =~= events@.map_values(|e: SocketEvent| e@)
                            + self@.items);
                    }
                },
                PopOutcome::Pending => {
                    proof {
                        assert(false);
                    }
                },
                PopOutcome::EndOfStream => {
                    proof {
                        assert(false);
                    }
                },
            }
        }
        proof {
            assert(self@.items =~= Seq::<SocketEventView>::empty());
            assert(events@.map_values(|e: SocketEvent| e@) =~= old(self)@.items);
        }
        events
    }
}

} // verus!
