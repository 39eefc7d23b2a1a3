//! Request processor: the core state machine turning socket events into
//! responses while maintaining per-connection state.
//!
//! All execution strategies (serial, cooperative-concurrent, parallel) share
//! this one event-to-response contract; they differ only in how calls are
//! scheduled, which is the embedding application's business. Under the
//! per-endpoint locking discipline the strategies impose, every call sees and
//! commits one atomic state transition, which is what is specified here.

use vstd::prelude::*;
use vstd::pervasive::unreached;
use crate::events::{Endpoint, EndpointView, SocketEvent, SocketEventView};
use crate::protocol::{dec_text, ClientMessages, ServerMessages, ServerMsgView};
use std::collections::HashMap;

verus! {

broadcast use vstd::std_specs::hash::group_hash_axioms;

/// The text `` `Pang` from ``.
pub open spec fn pang_from_text() -> Seq<u8> {
    seq![
        '`' as u8,
        'P' as u8,
        'a' as u8,
        'n' as u8,
        'g' as u8,
        '`' as u8,
        ' ' as u8,
        'f' as u8,
        'r' as u8,
        'o' as u8,
        'm' as u8,
        ' ' as u8,
    ]
}

/// The text ` times`.
pub open spec fn times_text() -> Seq<u8> {
    seq![' ' as u8, 't' as u8, 'i' as u8, 'm' as u8, 'e' as u8, 's' as u8]
}

/// The payload of the `Pung` answer: `` `Pang` from <addr>, <count> times ``.
pub open spec fn pung_body(addr: Seq<u8>, count: u64) -> Seq<u8> {
    pang_from_text() + addr + seq![',' as u8, ' ' as u8] + dec_text(count as nat) + times_text()
}

/// The description a deliberately failing request is answered with.
pub open spec fn failure_text() -> Seq<u8> {
    seq![
        'd' as u8,
        'e' as u8,
        'm' as u8,
        'a' as u8,
        'n' as u8,
        'd' as u8,
        'e' as u8,
        'd' as u8,
        ' ' as u8,
        'f' as u8,
        'a' as u8,
        'i' as u8,
        'l' as u8,
        'u' as u8,
        'r' as u8,
        'e' as u8,
    ]
}

/// A processing failure, attributable to one event; the dispatcher turns it
/// into a `ProcessorError` response for the originating connection only.
#[derive(Debug)]
pub struct ProcessingFailure {
    pub reason: Vec<u8>,
}

/// What processing one event yields: the originating connection, and either
/// a response or a failure description.
#[derive(Debug)]
pub struct ProcessorOutcome {
    pub endpoint: Endpoint,
    pub response: Result<ServerMessages, ProcessingFailure>,
}

/// Mathematical shadow of [`ProcessorOutcome`]; a failure is its description.
pub struct OutcomeView {
    pub endpoint: EndpointView,
    pub response: Result<ServerMsgView, Seq<u8>>,
}

impl View for ProcessorOutcome {
    type V = OutcomeView;

    open spec fn view(&self) -> OutcomeView {
        OutcomeView {
            endpoint: self.endpoint@,
            response: match &self.response {
                Ok(m) => Ok(m@),
                Err(f) => Err(f.reason@),
            },
        }
    }
}

/// Whether the processor may be handed this event: messages that touch
/// per-connection state need that state to exist (a `Connected` event must
/// have come first) and the message counter must not be exhausted.
pub open spec fn event_ready(m: Map<u64, u64>, ev: SocketEventView) -> bool {
    match ev {
        SocketEventView::Incoming { endpoint, client_message } => match client_message {
            ClientMessages::Ping | ClientMessages::Pang => m.contains_key(endpoint.id)
                && m[endpoint.id] < u64::MAX,
            _ => true,
        },
        _ => true,
    }
}

/// The per-connection counters after one event.
pub open spec fn counts_after(m: Map<u64, u64>, ev: SocketEventView) -> Map<u64, u64> {
    match ev {
        SocketEventView::Connected { endpoint } => m.insert(endpoint.id, 0),
        SocketEventView::Disconnected { endpoint } => m.remove(endpoint.id),
        SocketEventView::Incoming { endpoint, client_message } => match client_message {
            ClientMessages::Ping | ClientMessages::Pang => m.insert(
                endpoint.id,
                (m[endpoint.id] + 1) as u64,
            ),
            _ => m,
        },
    }
}

/// The answer one event is given, before dispatching: a response, or a
/// failure description.
pub open spec fn response_of(m: Map<u64, u64>, ev: SocketEventView) -> Result<
    ServerMsgView,
    Seq<u8>,
> {
    match ev {
        SocketEventView::Connected { .. } => Ok(ServerMsgView::NoAnswer),
        SocketEventView::Disconnected { .. } => Ok(ServerMsgView::NoAnswer),
        SocketEventView::Incoming { endpoint, client_message } => match client_message {
            ClientMessages::Ping => Ok(ServerMsgView::Pong((m[endpoint.id] + 1) as u64)),
            ClientMessages::Pang => Ok(
                ServerMsgView::Pung(pung_body(endpoint.addr, (m[endpoint.id] + 1) as u64)),
            ),
            ClientMessages::Speechless => Ok(ServerMsgView::NoAnswer),
            ClientMessages::Error => Err(failure_text()),
        },
    }
}

/// The per-connection counters after a whole sequence of events.
pub open spec fn run_counts(m: Map<u64, u64>, evs: Seq<SocketEventView>) -> Map<u64, u64>
    decreases evs.len(),
{
    if evs.len() == 0 {
        m
    } else {
        run_counts(counts_after(m, evs[0]), evs.skip(1))
    }
}

/// The answers a whole sequence of events is given, in order, each computed
/// against the state its predecessors left behind.
pub open spec fn run_responses(m: Map<u64, u64>, evs: Seq<SocketEventView>) -> Seq<
    Result<ServerMsgView, Seq<u8>>,
>
    decreases evs.len(),
{
    if evs.len() == 0 {
        seq![]
    } else {
        seq![response_of(m, evs[0])] + run_responses(counts_after(m, evs[0]), evs.skip(1))
    }
}

/// Counter monotonicity law: a run of `Ping`/`Pang` traffic on one
/// connection is answered with strictly increasing counts — the i-th message
/// carries count `c0 + i + 1`, in its `Pong` payload or inside its `Pung`
/// text — and leaves the counter at `c0` plus the number of messages.
pub proof fn lemma_counter_monotonicity(m: Map<u64, u64>, e: EndpointView, evs: Seq<SocketEventView>)
    requires
        m.contains_key(e.id),
        m[e.id] + evs.len() <= u64::MAX,
        forall|i: int|
            0 <= i < evs.len() ==> evs[i] == (SocketEventView::Incoming {
                endpoint: e,
                client_message: ClientMessages::Ping,
            }) || evs[i] == (SocketEventView::Incoming {
                endpoint: e,
                client_message: ClientMessages::Pang,
            }),
    ensures
        run_counts(m, evs).contains_key(e.id),
        run_counts(m, evs)[e.id] == m[e.id] + evs.len(),
        run_responses(m, evs).len() == evs.len(),
        forall|i: int|
            0 <= i < evs.len() ==> run_responses(m, evs)[i] == (if evs[i]
                == (SocketEventView::Incoming {
                endpoint: e,
                client_message: ClientMessages::Ping,
            }) {
                Ok::<ServerMsgView, Seq<u8>>(ServerMsgView::Pong((m[e.id] + i + 1) as u64))
            } else {
                Ok::<ServerMsgView, Seq<u8>>(
                    ServerMsgView::Pung(pung_body(e.addr, (m[e.id] + i + 1) as u64)),
                )
            }),
    decreases evs.len(),
{
    if evs.len() > 0 {
        let m1 = counts_after(m, evs[0]);
        let rest = evs.skip(1);
        assert(m1 == m.insert(e.id, (m[e.id] + 1) as u64));
        assert(forall|i: int| 0 <= i < rest.len() ==> rest[i] == evs[i + 1]);
        lemma_counter_monotonicity(m1, e, rest);
        assert forall|i: int| 0 <= i < evs.len() implies run_responses(m, evs)[i] == (if evs[i]
            == (SocketEventView::Incoming {
            endpoint: e,
            client_message: ClientMessages::Ping,
        }) {
            Ok::<ServerMsgView, Seq<u8>>(ServerMsgView::Pong((m[e.id] + i + 1) as u64))
        } else {
            Ok::<ServerMsgView, Seq<u8>>(
                ServerMsgView::Pung(pung_body(e.addr, (m[e.id] + i + 1) as u64)),
            )
        }) by {
            if i == 0 {
                assert(run_responses(m, evs)[0] == response_of(m, evs[0]));
            } else {
                assert(run_responses(m, evs)[i] == run_responses(m1, rest)[i - 1]);
                assert(rest[i - 1] == evs[i]);
            }
        }
    }
}

/// How many of the first `i` events belong to the connection with this id.
pub open spec fn own_before(evs: Seq<SocketEventView>, id: u64, i: int) -> int
    decreases i,
{
    if i <= 0 {
        0
    } else {
        own_before(evs, id, i - 1) + if evs[i - 1].endpoint().id == id {
            1int
        } else {
            0int
        }
    }
}

proof fn lemma_own_before_bounds(evs: Seq<SocketEventView>, id: u64, i: int)
    requires
        0 <= i <= evs.len(),
    ensures
        0 <= own_before(evs, id, i) <= i,
    decreases i,
{
    if i > 0 {
        lemma_own_before_bounds(evs, id, i - 1);
    }
}

proof fn lemma_own_before_skip(evs: Seq<SocketEventView>, id: u64, k: int)
    requires
        evs.len() > 0,
        0 <= k <= evs.len() - 1,
    ensures
        own_before(evs, id, k + 1) == own_before(evs, id, 1) + own_before(evs.skip(1), id, k),
    decreases k,
{
    if k > 0 {
        lemma_own_before_skip(evs, id, k - 1);
        assert(evs.skip(1)[k - 1] == evs[k]);
    }
}

/// Counter monotonicity under interleaving: however one connection's
/// `Ping`/`Pang` run is mixed with other connections' events, that
/// connection's own k-th message is still answered with count `c0 + k + 1`,
/// and its counter ends at `c0` plus its own message count — other
/// connections' events neither advance nor disturb it. This is the
/// serialized view every execution strategy commits to, since per-endpoint
/// state transitions are mutually exclusive and each is one contract-defined
/// step.
pub proof fn lemma_counter_monotonicity_interleaved(
    m: Map<u64, u64>,
    e: EndpointView,
    evs: Seq<SocketEventView>,
)
    requires
        m.contains_key(e.id),
        m[e.id] + own_before(evs, e.id, evs.len() as int) <= u64::MAX,
        forall|i: int|
            0 <= i < evs.len() ==> evs[i] == (SocketEventView::Incoming {
                endpoint: e,
                client_message: ClientMessages::Ping,
            }) || evs[i] == (SocketEventView::Incoming {
                endpoint: e,
                client_message: ClientMessages::Pang,
            }) || (#[trigger] evs[i]).endpoint().id != e.id,
    ensures
        run_counts(m, evs).contains_key(e.id),
        run_counts(m, evs)[e.id] == m[e.id] + own_before(evs, e.id, evs.len() as int),
        run_responses(m, evs).len() == evs.len(),
        forall|i: int|
            0 <= i < evs.len() && (#[trigger] evs[i]).endpoint().id == e.id ==> run_responses(
                m,
                evs,
            )[i] == (if evs[i] == (SocketEventView::Incoming {
                endpoint: e,
                client_message: ClientMessages::Ping,
            }) {
                Ok::<ServerMsgView, Seq<u8>>(
                    ServerMsgView::Pong((m[e.id] + own_before(evs, e.id, i) + 1) as u64),
                )
            } else {
                Ok::<ServerMsgView, Seq<u8>>(
                    ServerMsgView::Pung(
                        pung_body(e.addr, (m[e.id] + own_before(evs, e.id, i) + 1) as u64),
                    ),
                )
            }),
    decreases evs.len(),
{
    if evs.len() > 0 {
        let ev0 = evs[0];
        let rest = evs.skip(1);
        let m1 = counts_after(m, ev0);
        let own0: int = if ev0.endpoint().id == e.id {
            1
        } else {
            0
        };
        assert(forall|i: int| 0 <= i < rest.len() ==> rest[i] == evs[i + 1]);
        assert(own_before(evs, e.id, 0) == 0);
        assert(own_before(evs, e.id, 1) == own0);
        lemma_own_before_skip(evs, e.id, rest.len() as int);
        assert(own_before(evs, e.id, evs.len() as int) == own0 + own_before(
            rest,
            e.id,
            rest.len() as int,
        ));
        lemma_own_before_bounds(rest, e.id, rest.len() as int);
        if ev0.endpoint().id == e.id {
            assert(ev0 == (SocketEventView::Incoming {
                endpoint: e,
                client_message: ClientMessages::Ping,
            }) || ev0 == (SocketEventView::Incoming {
                endpoint: e,
                client_message: ClientMessages::Pang,
            }));
            assert(m1 == m.insert(e.id, (m[e.id] + 1) as u64));
            assert(m1[e.id] == m[e.id] + 1);
        } else {
            match ev0 {
                SocketEventView::Connected { endpoint } => {
                    assert(m1 == m.insert(endpoint.id, 0));
                },
                SocketEventView::Disconnected { endpoint } => {
                    assert(m1 == m.remove(endpoint.id));
                },
                SocketEventView::Incoming { .. } => {
                },
            }
            assert(m1.contains_key(e.id));
            assert(m1[e.id] == m[e.id]);
        }
        assert(m1[e.id] == m[e.id] + own0);
        lemma_counter_monotonicity_interleaved(m1, e, rest);
        assert(run_counts(m, evs) == run_counts(m1, rest));
        assert(run_counts(m, evs)[e.id] == m[e.id] + own_before(evs, e.id, evs.len() as int));
        assert forall|i: int|
            0 <= i < evs.len() && (#[trigger] evs[i]).endpoint().id == e.id implies run_responses(
            m,
            evs,
        )[i] == (if evs[i] == (SocketEventView::Incoming {
            endpoint: e,
            client_message: ClientMessages::Ping,
        }) {
            Ok::<ServerMsgView, Seq<u8>>(
                ServerMsgView::Pong((m[e.id] + own_before(evs, e.id, i) + 1) as u64),
            )
        } else {
            Ok::<ServerMsgView, Seq<u8>>(
                ServerMsgView::Pung(
                    pung_body(e.addr, (m[e.id] + own_before(evs, e.id, i) + 1) as u64),
                ),
            )
        }) by {
            if i == 0 {
                assert(run_responses(m, evs)[0] == response_of(m, ev0));
            } else {
                assert(run_responses(m, evs)[i] == run_responses(m1, rest)[i - 1]);
                assert(rest[i - 1] == evs[i]);
                lemma_own_before_skip(evs, e.id, i - 1);
                assert(own_before(evs, e.id, i) == own0 + own_before(rest, e.id, i - 1));
                assert(m1[e.id] + own_before(rest, e.id, i - 1) + 1 == m[e.id] + own_before(
                    evs,
                    e.id,
                    i,
                ) + 1);
            }
        }
    }
}

/// Per-connection state and the event-to-response state machine.
///
/// The counters are keyed by transport id; a counter exists exactly for the
/// connections between their `Connected` and `Disconnected` events.
pub struct RequestProcessor {
    states: HashMap<u64, u64>,
}

impl View for RequestProcessor {
    type V = Map<u64, u64>;

    closed spec fn view(&self) -> Map<u64, u64> {
        self.states@
    }
}

impl RequestProcessor {
    /// A processor with no connection state yet.
    pub fn new() -> (p: Self)
        ensures
            p@ == Map::<u64, u64>::empty(),
    {
        RequestProcessor { states: HashMap::new() }
    }

    /// How many connections currently hold state.
    pub fn tracked_connections(&self) -> (n: usize)
        ensures
            n == self@.dom().len(),
    {
        self.states.len()
    }

    /// Whether a connection currently holds state.
    pub fn knows(&self, endpoint_id: u64) -> (r: bool)
        ensures
            r == self@.contains_key(endpoint_id),
    {
        self.states.contains_key(&endpoint_id)
    }

    /// Handles one event: mutates the per-connection state and yields the
    /// response owed to the originating connection, exactly as the event
    /// table prescribes. Handing it state-touching traffic for a connection
    /// it does not know is a caller bug, excluded here and caught loudly by
    /// [`Self::try_process`].
    pub fn process_event(&mut self, event: SocketEvent) -> (out: ProcessorOutcome)
        requires
            event_ready(old(self)@, event@),
        ensures
            final(self)@ == counts_after(old(self)@, event@),
            out@.endpoint == event@.endpoint(),
            out@.response == response_of(old(self)@, event@),
    {
        match event {
            SocketEvent::Connected { endpoint } => {
                self.states.insert(endpoint.id, 0);
                ProcessorOutcome { endpoint, response: Ok(ServerMessages::NoAnswer) }
            },
            SocketEvent::Disconnected { endpoint } => {
                self.states.remove(&endpoint.id);
                ProcessorOutcome { endpoint, response: Ok(ServerMessages::NoAnswer) }
            },
            SocketEvent::Incoming { endpoint, client_message } => match client_message {
                ClientMessages::Ping => {
                    let count = match self.states.get(&endpoint.id) {
                        Some(c) => *c,
                        None => unreached(),
                    };
                    let new_count = count + 1;
                    self.states.insert(endpoint.id, new_count);
                    ProcessorOutcome { endpoint, response: Ok(ServerMessages::Pong(new_count)) }
                },
                ClientMessages::Pang => {
                    let count = match self.states.get(&endpoint.id) {
                        Some(c) => *c,
                        None => unreached(),
                    };
                    let new_count = count + 1;
                    self.states.insert(endpoint.id, new_count);
                    let mut body: Vec<u8> = Vec::new();
                    body.push('`' as u8);
                    body.push('P' as u8);
                    body.push('a' as u8);
                    body.push('n' as u8);
                    body.push('g' as u8);
                    body.push('`' as u8);
                    body.push(' ' as u8);
                    body.push('f' as u8);
                    body.push('r' as u8);
                    body.push('o' as u8);
                    body.push('m' as u8);
                    body.push(' ' as u8);
                    proof {
                        assert(body@ =~= pang_from_text());
                    }
                    crate::protocol::push_bytes(&mut body, endpoint.addr.as_slice());
                    body.push(',' as u8);
                    body.push(' ' as u8);
                    crate::protocol::push_dec(&mut body, new_count);
                    body.push(' ' as u8);
                    body.push('t' as u8);
                    body.push('i' as u8);
                    body.push('m' as u8);
                    body.push('e' as u8);
                    body.push('s' as u8);
                    proof {
                        assert(body@ =~= pung_body(endpoint.addr@, new_count));
                    }
                    ProcessorOutcome { endpoint, response: Ok(ServerMessages::Pung(body)) }
                },
                ClientMessages::Speechless => ProcessorOutcome {
                    endpoint,
                    response: Ok(ServerMessages::NoAnswer),
                },
                ClientMessages::Error => {
                    let mut reason: Vec<u8> = Vec::new();
                    reason.push('d' as u8);
                    reason.push('e' as u8);
                    reason.push('m' as u8);
                    reason.push('a' as u8);
                    reason.push('n' as u8);
                    reason.push('d' as u8);
                    reason.push('e' as u8);
                    reason.push('d' as u8);
                    reason.push(' ' as u8);
                    reason.push('f' as u8);
                    reason.push('a' as u8);
                    reason.push('i' as u8);
                    reason.push('l' as u8);
                    reason.push('u' as u8);
                    reason.push('r' as u8);
                    reason.push('e' as u8);
                    proof {
                        assert(reason@ =~= failure_text());
                    }
                    ProcessorOutcome {
                        endpoint,
                        response: Err(ProcessingFailure { reason }),
                    }
                },
            },
        }
    }

    /// Total-function face of [`Self::process_event`]: yields nothing exactly
    /// when the event would violate the processor's invariant (state-touching
    /// traffic for an unknown connection, or an exhausted counter), so an
    /// unverified caller can fail loudly instead of corrupting state.
    pub fn try_process(&mut self, event: SocketEvent) -> (out: Option<ProcessorOutcome>)
        ensures
            event_ready(old(self)@, event@) ==> {
                &&& final(self)@ == counts_after(old(self)@, event@)
                &&& out is Some
                &&& out->0@.endpoint == event@.endpoint()
                &&& out->0@.response == response_of(old(self)@, event@)
            },
            !event_ready(old(self)@, event@) ==> {
                &&& final(self)@ == old(self)@
                &&& out is None
            },
    {
        let ready = match &event {
            SocketEvent::Incoming { endpoint, client_message } => match client_message {
                ClientMessages::Ping | ClientMessages::Pang => {
                    match self.states.get(&endpoint.id) {
                        Some(c) => *c < u64::MAX,
                        None => false,
                    }
                },
                _ => true,
            },
            _ => true,
        };
        if ready {
            Some(self.process_event(event))
        } else {
            None
        }
    }
}

} // verus!
