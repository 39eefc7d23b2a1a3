//! The events this server shares with the protocol processors: an adapter
//! vocabulary between the transport layer and the processing pipeline.

use vstd::prelude::*;
use crate::protocol::ClientMessages;

verus! {

/// Identifier of one client's transport session: an internal transport id
/// plus the peer address text (as UTF-8 bytes, e.g. `127.0.0.1:54321`).
#[derive(Debug)]
pub struct Endpoint {
    pub id: u64,
    pub addr: Vec<u8>,
}

/// Mathematical shadow of [`Endpoint`].
pub struct EndpointView {
    pub id: u64,
    pub addr: Seq<u8>,
}

impl View for Endpoint {
    type V = EndpointView;

    open spec fn view(&self) -> EndpointView {
        EndpointView { id: self.id, addr: self.addr@ }
    }
}

impl Clone for Endpoint {
    fn clone(&self) -> (r: Self)
        ensures
            r@ == self@,
    {
        Endpoint { id: self.id, addr: vstd::slice::slice_to_vec(self.addr.as_slice()) }
    }
}

/// What the transport reports about one connection, after decoding.
#[derive(Debug)]
pub enum SocketEvent {
    Connected { endpoint: Endpoint },
    Incoming { endpoint: Endpoint, client_message: ClientMessages },
    Disconnected { endpoint: Endpoint },
}

/// Mathematical shadow of [`SocketEvent`].
pub enum SocketEventView {
    Connected { endpoint: EndpointView },
    Incoming { endpoint: EndpointView, client_message: ClientMessages },
    Disconnected { endpoint: EndpointView },
}

impl View for SocketEvent {
    type V = SocketEventView;

    open spec fn view(&self) -> SocketEventView {
        match self {
            SocketEvent::Connected { endpoint } => SocketEventView::Connected {
                endpoint: endpoint@,
            },
            SocketEvent::Incoming { endpoint, client_message } => SocketEventView::Incoming {
                endpoint: endpoint@,
                client_message: *client_message,
            },
            SocketEvent::Disconnected { endpoint } => SocketEventView::Disconnected {
                endpoint: endpoint@,
            },
        }
    }
}

impl SocketEventView {
    /// The connection an event belongs to.
    pub open spec fn endpoint(self) -> EndpointView {
        match self {
            SocketEventView::Connected { endpoint } => endpoint,
            SocketEventView::Incoming { endpoint, .. } => endpoint,
            SocketEventView::Disconnected { endpoint } => endpoint,
        }
    }
}

} // verus!
