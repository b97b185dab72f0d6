//! The receiving side of one client's connection.
//!
//! [`ClientReader`] decides what happens next. The caller performs each action
//! that it asks for and answers with the event that came of it.

use crate::handles::derives;
use crate::messages::SocketMessageView;
use crate::messages::WaylandEvent;
use crate::messages::WaylandNewClientMessage;
use crate::messages::WaylandReadBatch;
use crate::messages::WaylandRequest;
use crate::messages::WaylandSocketMessage;
use crate::wire::take_messages;
use std::collections::VecDeque;
use tokio::sync::mpsc::Sender;
use tokio_util::sync::CancellationToken;
use vstd::prelude::*;

verus! {

/// Maximum number of messages that may be queued for a single client before we give up on it.
pub const CLIENT_SEND_QUEUE_LIMIT: usize = 4096;

/// Size of the buffer used when receiving bytes
pub const READ_BUFFER_SIZE: usize = 4096;

/// Size of the ancillary buffer used when receiving file descriptors
pub const MAX_FDS_IN: usize = 28;

/// How far a connection has come.
#[derive(Clone, Copy, Debug, PartialEq, Eq, Structural)]
pub enum ClientPhase {
    /// The queue for the client's events is being opened
    Opening,
    /// The compositor is being told of the client
    Announcing,
    /// The task that writes events to the client is being started
    Starting,
    /// Waiting until there is something to read
    Waiting,
    /// Reading from the socket
    Reading,
    /// The compositor is being handed what a read produced
    Delivering,
    /// The compositor is being told that the client is gone
    Leaving,
    /// There is nothing left to do
    Finished,
}

/// What came of an action.
#[verifier::reject_recursive_types(F)]
pub enum ClientEvent<F> {
    /// The queue is open, and this is the end that feeds it
    QueueOpened {
        /// The end that the compositor sends events into
        socket_sender: Sender<WaylandEvent<F>>,
    },
    /// The compositor's channel took the message
    Delivered,
    /// The compositor's channel is closed
    CompositorGone,
    /// The task that writes events is running
    SendingStarted,
    /// The client's token was cancelled
    Cancelled,
    /// Waiting on the socket failed
    WaitFailed,
    /// The socket has something to read
    Readable,
    /// The socket was read
    Read {
        /// The bytes that came. There are none at the end of the stream
        bytes: Vec<u8>,
        /// The descriptors that came, in arrival order
        fds: Vec<F>,
    },
    /// There was nothing to read after all
    WouldBlock,
    /// Reading from the socket failed
    ReadFailed,
}

/// What the caller is to do next.
#[verifier::reject_recursive_types(F)]
pub enum ClientAction<F> {
    /// Open a queue for the client's events
    OpenQueue {
        /// How many events the queue holds
        limit: usize,
    },
    /// Send a message to the compositor
    Send(WaylandSocketMessage<F>),
    /// Start the task that writes events to the client
    StartSending,
    /// Wait until the socket can be read or the client's token is cancelled
    Wait,
    /// Read from the socket
    Read {
        /// The size of the buffer for bytes
        bytes: usize,
        /// The size of the buffer for descriptors
        fds: usize,
        /// Whether the descriptors that come are to be marked close-on-exec
        close_on_exec: bool,
    },
    /// Stop
    Finish,
}

/// A connection as a mathematical value.
#[verifier::ext_equal]
pub struct ClientState {
    pub client_id: u32,
    pub cancel_token: CancellationToken,
    /// The bytes that were read and belong to no whole message yet
    pub pending: Seq<u8>,
    pub phase: ClientPhase,
}

/// An event as a mathematical value.
#[verifier::ext_equal]
#[verifier::reject_recursive_types(F)]
pub enum ClientEventView<F> {
    QueueOpened { socket_sender: Sender<WaylandEvent<F>> },
    Delivered,
    CompositorGone,
    SendingStarted,
    Cancelled,
    WaitFailed,
    Readable,
    Read { bytes: Seq<u8>, fds: Seq<F> },
    WouldBlock,
    ReadFailed,
}

/// An action as a mathematical value.
#[verifier::ext_equal]
#[verifier::reject_recursive_types(F)]
pub enum ClientActionView<F> {
    OpenQueue { limit: nat },
    Send(SocketMessageView<F>),
    StartSending,
    Wait,
    Read { bytes: nat, fds: nat, close_on_exec: bool },
    Finish,
}

impl<F> View for ClientEvent<F> {
    type V = ClientEventView<F>;

    open spec fn view(&self) -> ClientEventView<F> {
        match self {
            ClientEvent::QueueOpened { socket_sender } => ClientEventView::QueueOpened {
                socket_sender: *socket_sender,
            },
            ClientEvent::Delivered => ClientEventView::Delivered,
            ClientEvent::CompositorGone => ClientEventView::CompositorGone,
            ClientEvent::SendingStarted => ClientEventView::SendingStarted,
            ClientEvent::Cancelled => ClientEventView::Cancelled,
            ClientEvent::WaitFailed => ClientEventView::WaitFailed,
            ClientEvent::Readable => ClientEventView::Readable,
            ClientEvent::Read { bytes, fds } => ClientEventView::Read {
                bytes: bytes@,
                fds: fds@,
            },
            ClientEvent::WouldBlock => ClientEventView::WouldBlock,
            ClientEvent::ReadFailed => ClientEventView::ReadFailed,
        }
    }
}

impl<F> View for ClientAction<F> {
    type V = ClientActionView<F>;

    open spec fn view(&self) -> ClientActionView<F> {
        match self {
            ClientAction::OpenQueue { limit } => ClientActionView::OpenQueue {
                limit: *limit as nat,
            },
            ClientAction::Send(message) => ClientActionView::Send(message@),
            ClientAction::StartSending => ClientActionView::StartSending,
            ClientAction::Wait => ClientActionView::Wait,
            ClientAction::Read { bytes, fds, close_on_exec } => ClientActionView::Read {
                bytes: *bytes as nat,
                fds: *fds as nat,
                close_on_exec: *close_on_exec,
            },
            ClientAction::Finish => ClientActionView::Finish,
        }
    }
}

/// A connection of which nothing has happened yet.
pub open spec fn new_client(client_id: u32, cancel_token: CancellationToken) -> ClientState {
    ClientState {
        client_id,
        cancel_token,
        pending: Seq::empty(),
        phase: ClientPhase::Opening,
    }
}

/// Whether an event can come of the action that was last asked for.
pub open spec fn client_accepts<F>(s: ClientState, event: ClientEventView<F>) -> bool {
    match s.phase {
        ClientPhase::Opening => event is QueueOpened,
        ClientPhase::Announcing | ClientPhase::Delivering | ClientPhase::Leaving => {
            event is Delivered || event is CompositorGone
        },
        ClientPhase::Starting => event is SendingStarted,
        ClientPhase::Waiting => event is Cancelled || event is WaitFailed || event is Readable,
        ClientPhase::Reading => event is Read || event is WouldBlock || event is ReadFailed,
        ClientPhase::Finished => false,
    }
}

/// Go on to a phase, with an action that belongs to it.
pub open spec fn go<F>(
    s: ClientState,
    phase: ClientPhase,
    action: ClientActionView<F>,
) -> (ClientState, ClientActionView<F>) {
    (ClientState { phase, ..s }, action)
}

/// Tell the compositor that the client is gone.
pub open spec fn leave<F>(s: ClientState) -> (ClientState, ClientActionView<F>) {
    go(
        s,
        ClientPhase::Leaving,
        ClientActionView::Send(SocketMessageView::ClientDisconnected { client_id: s.client_id }),
    )
}

/// Leave if the stream cannot be followed any further, else wait for more.
pub open spec fn leave_or_wait<F>(s: ClientState) -> (ClientState, ClientActionView<F>) {
    if crate::wire::is_malformed(s.pending) {
        leave(s)
    } else {
        go(s, ClientPhase::Waiting, ClientActionView::Wait)
    }
}

/// Deal with what a read brought: nothing at the end of the stream. What was
/// pending and what came are cut into messages. They go to the compositor in
/// one batch with the descriptors, unless there is neither.
pub open spec fn receive<F>(s: ClientState, bytes: Seq<u8>, fds: Seq<F>) -> (
    ClientState,
    ClientActionView<F>,
) {
    if bytes.len() == 0 {
        leave(s)
    } else {
        let framing = crate::wire::framing(s.pending + bytes);
        let s2 = ClientState { pending: framing.rest, ..s };
        if fds.len() > 0 || framing.messages.len() > 0 {
            go(
                s2,
                ClientPhase::Delivering,
                ClientActionView::Send(
                    SocketMessageView::Read {
                        client_id: s.client_id,
                        fds,
                        messages: framing.messages,
                    },
                ),
            )
        } else {
            leave_or_wait(s2)
        }
    }
}

/// What a connection becomes upon an event, and what is to be done next.
pub open spec fn client_next<F>(s: ClientState, event: ClientEventView<F>) -> (
    ClientState,
    ClientActionView<F>,
)
    recommends
        client_accepts(s, event),
{
    match event {
        ClientEventView::QueueOpened { socket_sender } => go(
            s,
            ClientPhase::Announcing,
            ClientActionView::Send(
                SocketMessageView::NewClient {
                    client_id: s.client_id,
                    socket_sender,
                    client_cancel_token: s.cancel_token,
                },
            ),
        ),
        ClientEventView::Delivered => match s.phase {
            ClientPhase::Announcing => go(
                s,
                ClientPhase::Starting,
                ClientActionView::StartSending,
            ),
            ClientPhase::Delivering => leave_or_wait(s),
            _ => go(s, ClientPhase::Finished, ClientActionView::Finish),
        },
        ClientEventView::CompositorGone => match s.phase {
            ClientPhase::Delivering => leave(s),
            _ => go(s, ClientPhase::Finished, ClientActionView::Finish),
        },
        ClientEventView::SendingStarted | ClientEventView::WouldBlock => go(
            s,
            ClientPhase::Waiting,
            ClientActionView::Wait,
        ),
        ClientEventView::Cancelled | ClientEventView::WaitFailed | ClientEventView::ReadFailed =>
            leave(s),
        ClientEventView::Readable => go(
            s,
            ClientPhase::Reading,
            ClientActionView::Read {
                bytes: READ_BUFFER_SIZE as nat,
                fds: MAX_FDS_IN as nat,
                close_on_exec: true,
            },
        ),
        ClientEventView::Read { bytes, fds } => receive(s, bytes, fds),
    }
}

/// The receiving side of one client's connection.
pub struct ClientReader {
    client_id: u32,
    cancel_token: CancellationToken,
    data: VecDeque<u8>,
    phase: ClientPhase,
}

impl View for ClientReader {
    type V = ClientState;

    closed spec fn view(&self) -> ClientState {
        ClientState {
            client_id: self.client_id,
            cancel_token: self.cancel_token,
            pending: self.data@,
            phase: self.phase,
        }
    }
}

impl ClientReader {
    /// Begin to serve a client, under a token of its own that is derived from
    /// the listener's.
    pub fn start<F>(client_id: u32, listener_token: &CancellationToken) -> (started: (
        ClientReader,
        ClientAction<F>,
    ))
        ensures
            started.0@ == new_client(client_id, started.0@.cancel_token),
            derives(*listener_token, started.0@.cancel_token),
            call_ensures(
                CancellationToken::child_token,
                (listener_token,),
                started.0@.cancel_token,
            ),
            started.0@.client_id == client_id,
            started.0@.pending.len() == 0,
            started.1@ == (ClientActionView::<F>::OpenQueue { limit: 4096 }),
            started.0@.cancel_token != *listener_token,
            started.1@ == (ClientActionView::<F>::OpenQueue {
                limit: CLIENT_SEND_QUEUE_LIMIT as nat,
            }),
    {
        let reader = ClientReader {
            client_id,
            cancel_token: listener_token.child_token(),
            data: VecDeque::new(),
            phase: ClientPhase::Opening,
        };
        (reader, ClientAction::OpenQueue { limit: CLIENT_SEND_QUEUE_LIMIT })
    }

    /// The token that stops this client's tasks.
    pub fn cancel_token(&self) -> (token: &CancellationToken)
        ensures
            *token == self@.cancel_token,
    {
        &self.cancel_token
    }

    /// The length that the malformed header at the front of the pending bytes
    /// claims, if there is one.
    pub fn malformed_length(&self) -> (length: Option<u16>)
        ensures
            length == (if crate::wire::is_malformed(self@.pending) {
                Some(crate::wire::claimed_length(self@.pending))
            } else {
                None
            }),
    {
        if self.data.len() < crate::wire::HEADER_LENGTH {
            return None;
        }
        let length: u16 = self.data[6] as u16 + 0x100 * (self.data[7] as u16);
        if length < 8 {
            Some(length)
        } else {
            None
        }
    }

    /// Whether an event can come of the action that was last asked for.
    pub fn accepts<F>(&self, event: &ClientEvent<F>) -> (accepted: bool)
        ensures
            accepted == client_accepts(self@, event@),
    {
        match self.phase {
            ClientPhase::Opening => matches!(event, ClientEvent::QueueOpened { .. }),
            ClientPhase::Announcing | ClientPhase::Delivering | ClientPhase::Leaving => {
                matches!(event, ClientEvent::Delivered | ClientEvent::CompositorGone)
            },
            ClientPhase::Starting => matches!(event, ClientEvent::SendingStarted),
            ClientPhase::Waiting => matches!(
                event,
                ClientEvent::Cancelled | ClientEvent::WaitFailed | ClientEvent::Readable
            ),
            ClientPhase::Reading => matches!(
                event,
                ClientEvent::Read { .. } | ClientEvent::WouldBlock | ClientEvent::ReadFailed
            ),
            ClientPhase::Finished => false,
        }
    }

    fn leave<F>(&mut self) -> (action: ClientAction<F>)
        ensures
            (final(self)@, action@) == leave::<F>(old(self)@),
    {
        self.phase = ClientPhase::Leaving;
        ClientAction::Send(
            WaylandSocketMessage::ClientDisconnected { client_id: self.client_id },
        )
    }

    fn leave_or_wait<F>(&mut self) -> (action: ClientAction<F>)
        ensures
            (final(self)@, action@) == leave_or_wait::<F>(old(self)@),
    {
        if self.malformed_length().is_some() {
            self.leave()
        } else {
            self.phase = ClientPhase::Waiting;
            ClientAction::Wait
        }
    }

    fn receive<F>(&mut self, bytes: Vec<u8>, fds: Vec<F>) -> (action: ClientAction<F>)
        ensures
            (final(self)@, action@) == receive(old(self)@, bytes@, fds@),
    {
        if bytes.len() == 0 {
            return self.leave();
        }
        let mut at: usize = 0;
        while at < bytes.len()
            invariant
                at <= bytes@.len(),
                self@ == (ClientState {
                    pending: old(self)@.pending + bytes@.take(at as int),
                    ..old(self)@
                }),
            decreases bytes@.len() - at,
        {
            self.data.push_back(bytes[at]);
            at = at + 1;
        }
        assert(bytes@.take(at as int) =~= bytes@);

        let (messages, _malformed): (Vec<WaylandRequest>, Option<u16>) = take_messages(
            &mut self.data,
        );
        if fds.len() > 0 || messages.len() > 0 {
            self.phase = ClientPhase::Delivering;
            ClientAction::Send(
                WaylandSocketMessage::Read(
                    WaylandReadBatch { client_id: self.client_id, fds, messages },
                ),
            )
        } else {
            self.leave_or_wait()
        }
    }

    /// Take in what came of the last action, and say what to do next.
    pub fn step<F>(&mut self, event: ClientEvent<F>) -> (action: ClientAction<F>)
        requires
            client_accepts(old(self)@, event@),
        ensures
            (final(self)@, action@) == client_next(old(self)@, event@),
    {
        match event {
            ClientEvent::QueueOpened { socket_sender } => {
                self.phase = ClientPhase::Announcing;
                ClientAction::Send(
                    WaylandSocketMessage::NewClient(
                        WaylandNewClientMessage {
                            client_id: self.client_id,
                            socket_sender,
                            client_cancel_token: self.cancel_token.clone(),
                        },
                    ),
                )
            },
            ClientEvent::Delivered => match self.phase {
                ClientPhase::Announcing => {
                    self.phase = ClientPhase::Starting;
                    ClientAction::StartSending
                },
                ClientPhase::Delivering => self.leave_or_wait(),
                _ => {
                    self.phase = ClientPhase::Finished;
                    ClientAction::Finish
                },
            },
            ClientEvent::CompositorGone => match self.phase {
                ClientPhase::Delivering => self.leave(),
                _ => {
                    self.phase = ClientPhase::Finished;
                    ClientAction::Finish
                },
            },
            ClientEvent::SendingStarted | ClientEvent::WouldBlock => {
                self.phase = ClientPhase::Waiting;
                ClientAction::Wait
            },
            ClientEvent::Cancelled | ClientEvent::WaitFailed | ClientEvent::ReadFailed => {
                self.leave()
            },
            ClientEvent::Readable => {
                self.phase = ClientPhase::Reading;
                ClientAction::Read {
                    bytes: READ_BUFFER_SIZE,
                    fds: MAX_FDS_IN,
                    close_on_exec: true,
                }
            },
            ClientEvent::Read { bytes, fds } => self.receive(bytes, fds),
        }
    }
}

} // verus!
