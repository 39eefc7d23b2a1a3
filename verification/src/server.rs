//! Server lifecycle controller and transport-event adapter.
//!
//! Owns the connection registry and the ingress queue, walks the lifecycle
//! `Idle → Listening → ShuttingDown → Stopped`, and decides for every
//! transport event what is enqueued and what is answered immediately. The
//! listening socket itself, the reads and the writes belong to the embedding
//! application; it feeds transport events in and performs the returned
//! writes.

use vstd::prelude::*;
use crate::config::SocketServerConfig;
use crate::events::{Endpoint, EndpointView, SocketEvent, SocketEventView};
use crate::ingress::{IngressQueue, PopOutcome};
use crate::protocol::{
    decoded, encode_server_message, message_lines, server_line, split_lines,
    decode_client_message, ServerMessages, ServerMsgView,
};
use crate::registry::ConnectionRegistry;

verus! {

/// How many events the ingress queue buffers by default.
pub const INGRESS_CAPACITY: usize = 8192;

/// Where the server stands in its life.
#[derive(Clone, Copy, Debug, PartialEq, Eq, Structural)]
pub enum LifecycleStage {
    /// Constructed; nothing bound, nothing accepted.
    Idle,
    /// Accepting connections and routing events.
    Listening,
    /// Intake closed; buffered work still being drained.
    ShuttingDown,
    /// Everything torn down.
    Stopped,
}

/// A broken usage contract, reported at start time instead of being
/// silently ignored.
#[derive(Clone, Copy, Debug, PartialEq, Eq, Structural)]
pub enum UsageError {
    /// A processor was already attached; only one may be.
    ProcessorAlreadyAttached,
    /// Running without an attached processor.
    ProcessorMissing,
    /// The server has already left the idle stage.
    AlreadyStarted,
}

/// Mathematical shadow of [`SocketServer`].
pub struct ServerView {
    /// The configuration the server was constructed with.
    pub config: SocketServerConfig,
    pub stage: LifecycleStage,
    pub processor_attached: bool,
    /// Tracked connections, in acceptance order.
    pub connections: Seq<u64>,
    pub queue: crate::ingress::IngressQueueView,
}

/// What routing one line does to the ingress queue, and what it answers
/// immediately: a decoded message is enqueued when there is room, a full
/// queue is answered `TooBusy`, an unparseable line `UnknownMessage`.
pub open spec fn route_step(
    items: Seq<SocketEventView>,
    capacity: int,
    e: EndpointView,
    line: Seq<u8>,
) -> (Seq<SocketEventView>, Seq<(u64, Seq<u8>)>) {
    match decoded(line) {
        Some(msg) => if items.len() < capacity {
            (items.push(SocketEventView::Incoming { endpoint: e, client_message: msg }), seq![])
        } else {
            (items, seq![(e.id, server_line(ServerMsgView::TooBusy))])
        },
        None => (items, seq![(e.id, server_line(ServerMsgView::UnknownMessage(line)))]),
    }
}

/// [`route_step`], folded over every line of one read.
pub open spec fn route_lines(
    items: Seq<SocketEventView>,
    capacity: int,
    e: EndpointView,
    lines: Seq<Seq<u8>>,
) -> (Seq<SocketEventView>, Seq<(u64, Seq<u8>)>)
    decreases lines.len(),
{
    if lines.len() == 0 {
        (items, seq![])
    } else {
        let step = route_step(items, capacity, e, lines[0]);
        let rest = route_lines(step.0, capacity, e, lines.skip(1));
        (rest.0, step.1 + rest.1)
    }
}

/// Backpressure law: when the queue is full, a decodable message is not
/// enqueued — the sender is answered `TooBusy` instead, so no message is
/// dropped without at least that notification attempt.
pub proof fn lemma_backpressure(
    items: Seq<SocketEventView>,
    capacity: int,
    e: EndpointView,
    line: Seq<u8>,
)
    requires
        items.len() >= capacity,
        decoded(line) is Some,
    ensures
        route_step(items, capacity, e, line) == (
            items,
            seq![(e.id, server_line(ServerMsgView::TooBusy))],
        ),
{
}

/// The handle to define, start and shut down a socket server.
pub struct SocketServer {
    config: SocketServerConfig,
    stage: LifecycleStage,
    processor_attached: bool,
    registry: ConnectionRegistry,
    queue: IngressQueue,
}

impl View for SocketServer {
    type V = ServerView;

    closed spec fn view(&self) -> ServerView {
        ServerView {
            config: self.config,
            stage: self.stage,
            processor_attached: self.processor_attached,
            connections: self.registry.order(),
            queue: self.queue@,
        }
    }
}

impl SocketServer {
    /// Internal consistency: the registry tracks each connection once, and
    /// while the server listens its queue accepts events.
    pub closed spec fn wf(&self) -> bool {
        &&& self.registry.wf()
        &&& (self.stage is Listening ==> !self.queue@.closed)
    }

    /// A server bound to its configuration, with an ingress queue of the
    /// given capacity.
    pub fn new_with_queue_capacity(config: SocketServerConfig, queue_capacity: usize) -> (s: Self)
        requires
            queue_capacity >= 1,
        ensures
            s.wf(),
            s@.config == config,
            s@.stage is Idle,
            !s@.processor_attached,
            s@.connections == Seq::<u64>::empty(),
            s@.queue.items == Seq::<SocketEventView>::empty(),
            s@.queue.capacity == queue_capacity,
            !s@.queue.closed,
    {
        SocketServer {
            config,
            stage: LifecycleStage::Idle,
            processor_attached: false,
            registry: ConnectionRegistry::new(),
            queue: IngressQueue::new(queue_capacity),
        }
    }

    /// A server bound to its configuration, with the default ingress queue.
    pub fn new(config: SocketServerConfig) -> (s: Self)
        ensures
            s.wf(),
            s@.config == config,
            s@.stage is Idle,
            !s@.processor_attached,
            s@.connections == Seq::<u64>::empty(),
            s@.queue.items == Seq::<SocketEventView>::empty(),
            s@.queue.capacity == INGRESS_CAPACITY,
            !s@.queue.closed,
    {
        Self::new_with_queue_capacity(config, INGRESS_CAPACITY)
    }

    /// Where the server stands in its life.
    pub fn stage(&self) -> (s: LifecycleStage)
        ensures
            s == self@.stage,
    {
        self.stage
    }

    /// How many connections are tracked.
    pub fn connection_count(&self) -> (n: usize)
        ensures
            n == self@.connections.len(),
    {
        self.registry.count()
    }

    /// Whether a connection is tracked.
    pub fn is_connected(&self, endpoint_id: u64) -> (r: bool)
        requires
            self.wf(),
        ensures
            r == self@.connections.contains(endpoint_id),
    {
        proof {
            self.registry.lemma_view_is_order_set();
        }
        self.registry.contains(endpoint_id)
    }

    /// Attaches the request processor. Attaching twice is a usage error and
    /// changes nothing.
    pub fn set_processor(&mut self) -> (r: Result<(), UsageError>)
        ensures
            old(self)@.processor_attached ==> r == Err::<(), UsageError>(
                UsageError::ProcessorAlreadyAttached,
            ) && final(self)@ == old(self)@,
            !old(self)@.processor_attached ==> r == Ok::<(), UsageError>(()) && final(self)@ == (
                ServerView { processor_attached: true, ..old(self)@ }
            ),
            final(self).wf() == old(self).wf(),
    {
        if self.processor_attached {
            Err(UsageError::ProcessorAlreadyAttached)
        } else {
            self.processor_attached = true;
            Ok(())
        }
    }

    /// Validates the usage contract and begins listening: only an idle
    /// server with an attached processor may start; anything else is
    /// reported, not ignored. Binding the socket is the caller's next step;
    /// a bind failure is terminal and reported by the caller.
    pub fn start(&mut self) -> (r: Result<(), UsageError>)
        requires
            old(self).wf(),
            !old(self)@.queue.closed,
        ensures
            final(self).wf(),
            old(self)@.stage is Idle && old(self)@.processor_attached ==> r == Ok::<
                (),
                UsageError,
            >(()) && final(self)@ == (ServerView { stage: LifecycleStage::Listening, ..old(self)@ }),
            !(old(self)@.stage is Idle) ==> r == Err::<(), UsageError>(UsageError::AlreadyStarted)
                && final(self)@ == old(self)@,
            old(self)@.stage is Idle && !old(self)@.processor_attached ==> r == Err::<
                (),
                UsageError,
            >(UsageError::ProcessorMissing) && final(self)@ == old(self)@,
    {
        match self.stage {
            LifecycleStage::Idle => {
                if self.processor_attached {
                    self.stage = LifecycleStage::Listening;
                    Ok(())
                } else {
                    Err(UsageError::ProcessorMissing)
                }
            },
            _ => Err(UsageError::AlreadyStarted),
        }
    }

    /// Handles an accepted connection: tracks it and queues its `Connected`
    /// event (dropped only when the queue is full, which the result
    /// reports).
    pub fn on_accepted(&mut self, endpoint: &Endpoint) -> (enqueued: bool)
        requires
            old(self).wf(),
            old(self)@.stage is Listening,
        ensures
            final(self).wf(),
            final(self)@.config == old(self)@.config,
            final(self)@.stage == old(self)@.stage,
            final(self)@.processor_attached == old(self)@.processor_attached,
            final(self)@.queue.capacity == old(self)@.queue.capacity,
            final(self)@.queue.closed == old(self)@.queue.closed,
            old(self)@.connections.contains(endpoint.id) ==> final(self)@.connections == old(
                self,
            )@.connections,
            !old(self)@.connections.contains(endpoint.id) ==> final(self)@.connections == old(
                self,
            )@.connections.push(endpoint.id),
            enqueued == (old(self)@.queue.items.len() < old(self)@.queue.capacity),
            enqueued ==> final(self)@.queue.items == old(self)@.queue.items.push(
                (SocketEventView::Connected { endpoint: endpoint@ }),
            ),
            !enqueued ==> final(self)@.queue.items == old(self)@.queue.items,
    {
        proof {
            self.registry.lemma_view_is_order_set();
        }
        self.registry.accept(endpoint.id);
        self.queue.try_push(SocketEvent::Connected { endpoint: endpoint.clone() })
    }

    /// Handles a disconnected connection: stops tracking it and queues its
    /// `Disconnected` event (dropped only when the queue is full, which the
    /// result reports).
    pub fn on_disconnected(&mut self, endpoint: &Endpoint) -> (enqueued: bool)
        requires
            old(self).wf(),
            old(self)@.stage is Listening,
        ensures
            final(self).wf(),
            final(self)@.config == old(self)@.config,
            final(self)@.stage == old(self)@.stage,
            final(self)@.processor_attached == old(self)@.processor_attached,
            final(self)@.queue.capacity == old(self)@.queue.capacity,
            final(self)@.queue.closed == old(self)@.queue.closed,
            final(self)@.connections.to_set() == old(self)@.connections.to_set().remove(
                endpoint.id,
            ),
            enqueued == (old(self)@.queue.items.len() < old(self)@.queue.capacity),
            enqueued ==> final(self)@.queue.items == old(self)@.queue.items.push(
                (SocketEventView::Disconnected { endpoint: endpoint@ }),
            ),
            !enqueued ==> final(self)@.queue.items == old(self)@.queue.items,
    {
        proof {
            self.registry.lemma_view_is_order_set();
        }
        self.registry.disconnect(endpoint.id);
        proof {
            self.registry.lemma_view_is_order_set();
        }
        self.queue.try_push(SocketEvent::Disconnected { endpoint: endpoint.clone() })
    }

    /// Routes one read's worth of inbound data: splits it into messages and,
    /// for a tracked connection, queues each decoded message ([`route_step`]
    /// says how full queues and unparseable lines are answered instead).
    /// Data for an unknown connection is ignored entirely — it never becomes
    /// an event.
    pub fn on_message(&mut self, endpoint: &Endpoint, data: &[u8]) -> (replies: Vec<(u64, Vec<u8>)>)
        requires
            old(self).wf(),
            old(self)@.stage is Listening,
        ensures
            final(self).wf(),
            final(self)@.config == old(self)@.config,
            final(self)@.stage == old(self)@.stage,
            final(self)@.processor_attached == old(self)@.processor_attached,
            final(self)@.connections == old(self)@.connections,
            final(self)@.queue.capacity == old(self)@.queue.capacity,
            final(self)@.queue.closed == old(self)@.queue.closed,
            !old(self)@.connections.contains(endpoint.id) ==> final(self)@.queue.items == old(
                self,
            )@.queue.items && replies@ == Seq::<(u64, Vec<u8>)>::empty(),
            old(self)@.connections.contains(endpoint.id) ==> {
                let total = route_lines(
                    old(self)@.queue.items,
                    old(self)@.queue.capacity,
                    endpoint@,
                    message_lines(data@),
                );
                &&& final(self)@.queue.items == total.0
                &&& replies@.map_values(|p: (u64, Vec<u8>)| (p.0, p.1@)) == total.1
            },
    {
        if !self.is_connected(endpoint.id) {
            let replies: Vec<(u64, Vec<u8>)> = Vec::new();
            proof {
                assert(replies@ =~= Seq::<(u64, Vec<u8>)>::empty());
            }
            return replies;
        }
        let lines = split_lines(data);
        let ghost spec_lines = message_lines(data@);
        let ghost cap = old(self)@.queue.capacity;
        let ghost e = endpoint@;
        let ghost total = route_lines(old(self)@.queue.items, cap, e, spec_lines);
        let mut replies: Vec<(u64, Vec<u8>)> = Vec::new();
        let n = lines.len();
        let mut i: usize = 0;
        proof {
            assert(spec_lines.skip(0) =~= spec_lines);
            assert(replies@.map_values(|p: (u64, Vec<u8>)| (p.0, p.1@)) =~= Seq::<
                (u64, Seq<u8>),
            >::empty());
            assert(total.1 =~= replies@.map_values(|p: (u64, Vec<u8>)| (p.0, p.1@)) + route_lines(
                self@.queue.items,
                cap,
                e,
                spec_lines.skip(0),
            ).1);
        }
        while i < n
            invariant
                self.wf(),
                self@.stage is Listening,
                self@.config == old(self)@.config,
                self@.processor_attached == old(self)@.processor_attached,
                self@.connections == old(self)@.connections,
                self@.queue.capacity == cap,
                self@.queue.closed == old(self)@.queue.closed,
                n == lines@.len(),
                0 <= i <= n,
                spec_lines == lines@.map_values(|l: Vec<u8>| l@),
                e == endpoint@,
                total == route_lines(old(self)@.queue.items, cap, e, spec_lines),
                total.0 == route_lines(self@.queue.items, cap, e, spec_lines.skip(i as int)).0,
                total.1 == replies@.map_values(|p: (u64, Vec<u8>)| (p.0, p.1@)) + route_lines(
                    self@.queue.items,
                    cap,
                    e,
                    spec_lines.skip(i as int),
                ).1,
            decreases n - i,
        {
            proof {
                assert(spec_lines.skip(i as int).len() > 0);
                assert(spec_lines.skip(i as int)[0] == lines@[i as int]@);
                assert(spec_lines.skip(i as int).skip(1) =~= spec_lines.skip(i + 1));
            }
            let ghost items_before = self@.queue.items;
            let ghost replies_before = replies@;
            let line = &lines[i];
            match decode_client_message(line.as_slice()) {
                Ok(msg) => {
                    let accepted = self.queue.try_push(
                        SocketEvent::Incoming { endpoint: endpoint.clone(), client_message: msg },
                    );
                    if !accepted {
                        let data_out = encode_server_message(&ServerMessages::TooBusy);
                        replies.push((endpoint.id, data_out));
                        proof {
                            assert(replies@.map_values(|p: (u64, Vec<u8>)| (p.0, p.1@))
                                =~= replies_before.map_values(|p: (u64, Vec<u8>)| (p.0, p.1@)).push(
                                (endpoint.id, server_line(ServerMsgView::TooBusy)),
                            ));
                        }
                    }
                    proof {
                        let step = route_step(items_before, cap, e, spec_lines.skip(i as int)[0]);
                        assert(step.0 == self@.queue.items);
                        assert(total.1 =~= replies@.map_values(|p: (u64, Vec<u8>)| (p.0, p.1@))
                            + route_lines(self@.queue.items, cap, e, spec_lines.skip(i + 1)).1);
                    }
                },
                Err(err) => {
                    let data_out = encode_server_message(
                        &ServerMessages::UnknownMessage(err.line),
                    );
                    replies.push((endpoint.id, data_out));
                    proof {
                        let step = route_step(items_before, cap, e, spec_lines.skip(i as int)[0]);
                        assert(step.0 == self@.queue.items);
                        assert(replies@.map_values(|p: (u64, Vec<u8>)| (p.0, p.1@))
                            =~= replies_before.map_values(|p: (u64, Vec<u8>)| (p.0, p.1@)).push(
                            (endpoint.id, server_line(
                                ServerMsgView::UnknownMessage(spec_lines.skip(i as int)[0]),
                            )),
                        ));
                        assert(total.1 =~= replies@.map_values(|p: (u64, Vec<u8>)| (p.0, p.1@))
                            + route_lines(self@.queue.items, cap, e, spec_lines.skip(i + 1)).1);
                    }
                },
            }
            i += 1;
        }
        proof {
            assert(spec_lines.skip(n as int) =~= Seq::<Seq<u8>>::empty());
            assert(total.1 =~= replies@.map_values(|p: (u64, Vec<u8>)| (p.0, p.1@)));
        }
        replies
    }

    /// Takes the oldest queued event for processing; an empty queue reports
    /// whether more may come or the stream has ended.
    pub fn next_event(&mut self) -> (out: PopOutcome)
        ensures
            final(self).wf() == old(self).wf(),
            final(self)@.config == old(self)@.config,
            final(self)@.stage == old(self)@.stage,
            final(self)@.processor_attached == old(self)@.processor_attached,
            final(self)@.connections == old(self)@.connections,
            final(self)@.queue.capacity == old(self)@.queue.capacity,
            final(self)@.queue.closed == old(self)@.queue.closed,
            old(self)@.queue.items.len() > 0 ==> {
                &&& final(self)@.queue.items == old(self)@.queue.items.skip(1)
                &&& out matches PopOutcome::Item(ev) && ev@ == old(self)@.queue.items[0]
            },
            old(self)@.queue.items.len() == 0 ==> {
                &&& final(self)@.queue.items == old(self)@.queue.items
                &&& if old(self)@.queue.closed {
                    out is EndOfStream
                } else {
                    out is Pending
                }
            },
    {
        self.queue.pop()
    }

    /// Initiates the graceful shutdown: closes the ingress queue — nothing
    /// already buffered is lost, nothing new is accepted — stops tracking
    /// every connection, and returns the `ShuttingDown` notification owed to
    /// each of them, in acceptance order.
    pub fn on_shutdown(&mut self) -> (notifications: Vec<(u64, Vec<u8>)>)
        requires
            old(self).wf(),
            old(self)@.stage is Listening,
        ensures
            final(self).wf(),
            final(self)@.config == old(self)@.config,
            final(self)@.stage is ShuttingDown,
            final(self)@.processor_attached == old(self)@.processor_attached,
            final(self)@.connections == Seq::<u64>::empty(),
            final(self)@.queue.items == old(self)@.queue.items,
            final(self)@.queue.capacity == old(self)@.queue.capacity,
            final(self)@.queue.closed,
            notifications@.len() == old(self)@.connections.len(),
            forall|i: int|
                0 <= i < notifications@.len() ==> notifications@[i].0 == old(
                    self,
                )@.connections[i] && notifications@[i].1@ == server_line(
                    ServerMsgView::ShuttingDown,
                ),
    {
        self.queue.close();
        self.stage = LifecycleStage::ShuttingDown;
        let ids = self.registry.snapshot();
        self.registry = ConnectionRegistry::new();
        let mut notifications: Vec<(u64, Vec<u8>)> = Vec::new();
        let n = ids.len();
        let mut i: usize = 0;
        while i < n
            invariant
                n == ids@.len(),
                0 <= i <= n,
                notifications@.len() == i,
                forall|j: int|
                    0 <= j < i ==> notifications@[j].0 == ids@[j] && notifications@[j].1@
                        == server_line(ServerMsgView::ShuttingDown),
            decreases n - i,
        {
            let line = encode_server_message(&ServerMessages::ShuttingDown);
            notifications.push((ids[i], line));
            i += 1;
        }
        notifications
    }

    /// Marks the teardown complete, once the drained work has been finished
    /// by the processor and dispatcher.
    pub fn mark_stopped(&mut self)
        requires
            old(self)@.stage is ShuttingDown,
        ensures
            final(self).wf() == old(self).wf(),
            final(self)@ == (ServerView { stage: LifecycleStage::Stopped, ..old(self)@ }),
    {
        self.stage = LifecycleStage::Stopped;
    }

    /// Empties the closed queue after shutdown: every event buffered at
    /// close time, in order.
    pub fn drain_events(&mut self) -> (events: Vec<SocketEvent>)
        requires
            old(self)@.queue.closed,
        ensures
            final(self).wf() == old(self).wf(),
            final(self)@.config == old(self)@.config,
            final(self)@.stage == old(self)@.stage,
            final(self)@.processor_attached == old(self)@.processor_attached,
            final(self)@.connections == old(self)@.connections,
            final(self)@.queue.capacity == old(self)@.queue.capacity,
            final(self)@.queue.closed,
            events@.map_values(|ev: SocketEvent| ev@) == old(self)@.queue.items,
            final(self)@.queue.items == Seq::<SocketEventView>::empty(),
    {
        self.queue.drain()
    }
}

} // verus!
