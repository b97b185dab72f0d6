//! The values that pass between a client's socket and the compositor.
//!
//! The descriptor type `F` is left open: the library hands descriptors on in
//! order and never looks inside one.

use tokio::sync::mpsc::Sender;
use tokio_util::sync::CancellationToken;
use vstd::prelude::*;

verus! {

/// A request from a client: one framed wayland message, still untyped.
#[derive(Debug)]
pub struct WaylandRequest {
    /// The object being acted upon
    pub object_id: u32,
    /// The op code (method) to call
    pub op_code: u16,
    /// Arguments to the operation
    pub args: Vec<u8>,
}

/// A wayland message as a mathematical value.
#[verifier::ext_equal]
pub struct RequestView {
    pub object_id: u32,
    pub op_code: u16,
    pub args: Seq<u8>,
}

impl View for WaylandRequest {
    type V = RequestView;

    open spec fn view(&self) -> RequestView {
        RequestView { object_id: self.object_id, op_code: self.op_code, args: self.args@ }
    }
}

/// The messages of a sequence of requests, in order.
pub open spec fn request_views(requests: Seq<WaylandRequest>) -> Seq<RequestView> {
    Seq::new(requests.len(), |i: int| requests[i]@)
}

/// A request with an associated client-id
pub struct WaylandRequestWithClientInfo {
    /// The client id the request came from
    pub client_id: u32,
    /// The request itself
    pub message: WaylandRequest,
}

/// An event on its way to a client: one wayland message, and the file
/// descriptors that travel with it.
#[derive(Debug)]
pub struct WaylandEvent<F> {
    /// The object the event concerns
    pub object_id: u32,
    /// The op code (event) being sent
    pub op_code: u16,
    /// Arguments to the event
    pub args: Vec<u8>,
    /// Descriptors to attach as ancillary data when sending this event.
    pub fds: Vec<F>,
}

/// An event as a mathematical value.
#[verifier::ext_equal]
pub struct EventView<F> {
    pub message: RequestView,
    pub fds: Seq<F>,
}

impl<F> View for WaylandEvent<F> {
    type V = EventView<F>;

    open spec fn view(&self) -> EventView<F> {
        EventView {
            message: RequestView {
                object_id: self.object_id,
                op_code: self.op_code,
                args: self.args@,
            },
            fds: self.fds@,
        }
    }
}

/// A batch of wayland messages and file descriptors from a socket read
pub struct WaylandReadBatch<F> {
    /// The client this read came from
    pub client_id: u32,
    /// The descriptors the read delivered, in arrival order
    pub fds: Vec<F>,
    /// The whole requests from this read
    pub messages: Vec<WaylandRequest>,
}

/// A message from the listener notifying the compositor of a new client connection
#[verifier::reject_recursive_types(F)]
pub struct WaylandNewClientMessage<F> {
    /// The id for the new client
    pub client_id: u32,
    /// A sender for sending events back to this client
    pub socket_sender: Sender<WaylandEvent<F>>,
    /// Cancels just this client's socket tasks, leaving other clients running
    /// The compositor triggers it to drop a client that has stopped reading.
    pub client_cancel_token: CancellationToken,
}

/// The top-level type for channel messages sent from the listener to the compositor
#[verifier::reject_recursive_types(F)]
pub enum WaylandSocketMessage<F> {
    /// A message denoting a new client connection
    NewClient(WaylandNewClientMessage<F>),
    /// One read of a client's socket, with everything it produced
    Read(WaylandReadBatch<F>),
    /// A message denoting a client hanging up the socket
    ClientDisconnected {
        /// The id of the disconnected client
        client_id: u32,
    },
}

/// A message to the compositor as a mathematical value.
#[verifier::ext_equal]
#[verifier::reject_recursive_types(F)]
pub enum SocketMessageView<F> {
    NewClient {
        client_id: u32,
        socket_sender: Sender<WaylandEvent<F>>,
        client_cancel_token: CancellationToken,
    },
    Read { client_id: u32, fds: Seq<F>, messages: Seq<RequestView> },
    ClientDisconnected { client_id: u32 },
}

impl<F> View for WaylandSocketMessage<F> {
    type V = SocketMessageView<F>;

    open spec fn view(&self) -> SocketMessageView<F> {
        match self {
            WaylandSocketMessage::NewClient(new_client) => SocketMessageView::NewClient {
                client_id: new_client.client_id,
                socket_sender: new_client.socket_sender,
                client_cancel_token: new_client.client_cancel_token,
            },
            WaylandSocketMessage::Read(batch) => SocketMessageView::Read {
                client_id: batch.client_id,
                fds: batch.fds@,
                messages: request_views(batch.messages@),
            },
            WaylandSocketMessage::ClientDisconnected { client_id } =>
                SocketMessageView::ClientDisconnected { client_id: *client_id },
        }
    }
}

impl<F> SocketMessageView<F> {
    /// The client that the message is about.
    pub open spec fn client_id(self) -> u32 {
        match self {
            SocketMessageView::NewClient { client_id, .. } => client_id,
            SocketMessageView::Read { client_id, .. } => client_id,
            SocketMessageView::ClientDisconnected { client_id } => client_id,
        }
    }
}

} // verus!
