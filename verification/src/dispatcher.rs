//! Response dispatcher: turns a processing outcome into the one wire write
//! it owes, if any. A failure becomes a `ProcessorError` response for the
//! originating connection; the suppression sentinel produces no write at
//! all. Performing the write (and tolerating its failure) is the transport
//! loop's business; this decides exactly what goes out, and to whom.

use vstd::prelude::*;
use crate::events::{EndpointView, SocketEventView};
use crate::processor::{
    counts_after, failure_text, response_of, OutcomeView, ProcessorOutcome,
};
use crate::protocol::{
    encode_server_message, server_line, ClientMessages, ServerMessages, ServerMsgView,
};

verus! {

/// The write one outcome produces: which connection, and what bytes — or
/// none, for a suppressed response.
pub open spec fn wire_output(out: OutcomeView) -> Option<(u64, Seq<u8>)> {
    match out.response {
        Ok(m) => if m is NoAnswer {
            None
        } else {
            Some((out.endpoint.id, server_line(m)))
        },
        Err(reason) => Some(
            (out.endpoint.id, server_line(ServerMsgView::ProcessorError(reason))),
        ),
    }
}

/// Converts one outcome into the write it owes: a failure becomes a
/// `ProcessorError` line for the originating connection, a suppressed
/// response becomes nothing, every other response is encoded as its wire
/// line.
pub fn dispatch_outcome(outcome: ProcessorOutcome) -> (w: Option<(u64, Vec<u8>)>)
    ensures
        match w {
            Some(p) => wire_output(outcome@) == Some((p.0, p.1@)),
            None => wire_output(outcome@) is None,
        },
{
    match outcome.response {
        Ok(m) => match m {
            ServerMessages::NoAnswer => None,
            _ => {
                let data = encode_server_message(&m);
                Some((outcome.endpoint.id, data))
            },
        },
        Err(f) => {
            let data = encode_server_message(&ServerMessages::ProcessorError(f.reason));
            Some((outcome.endpoint.id, data))
        },
    }
}

/// Suppression law: `Connected`, `Disconnected` and `Speechless` events are
/// answered with the suppression sentinel, and the dispatcher turns that
/// sentinel into no wire output at all — whatever the per-connection state.
pub proof fn lemma_suppression(m: Map<u64, u64>, ev: SocketEventView)
    requires
        ev matches SocketEventView::Connected { .. } || ev matches SocketEventView::Disconnected {
            ..
        } || ev matches SocketEventView::Incoming {
            client_message: ClientMessages::Speechless,
            ..
        },
    ensures
        response_of(m, ev) == Ok::<ServerMsgView, Seq<u8>>(ServerMsgView::NoAnswer),
        wire_output((OutcomeView { endpoint: ev.endpoint(), response: response_of(m, ev) }))
            is None,
{
}

/// Error isolation law: a deliberately failing event touches no state, its
/// `ProcessorError` goes to the originating connection alone, and any other
/// connection's following `Ping` is still answered with its own `Pong`.
pub proof fn lemma_error_isolation(m: Map<u64, u64>, e1: EndpointView, e2: EndpointView)
    requires
        m.contains_key(e2.id),
        m[e2.id] < u64::MAX,
    ensures
        ({
            let failing = SocketEventView::Incoming {
                endpoint: e1,
                client_message: ClientMessages::Error,
            };
            let following = SocketEventView::Incoming {
                endpoint: e2,
                client_message: ClientMessages::Ping,
            };
            &&& counts_after(m, failing) == m
            &&& wire_output(
                (OutcomeView { endpoint: e1, response: response_of(m, failing) }),
            ) == Some((e1.id, server_line(ServerMsgView::ProcessorError(failure_text()))))
            &&& response_of(counts_after(m, failing), following) == Ok::<ServerMsgView, Seq<u8>>(
                ServerMsgView::Pong((m[e2.id] + 1) as u64),
            )
        }),
{
}

} // verus!
