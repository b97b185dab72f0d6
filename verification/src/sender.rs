//! The sending side of one client's connection.
//!
//! [`EventWriter`] decides what happens next. The caller performs each action
//! that it asks for and answers with the event that came of it.

use crate::messages::EventView;
use crate::messages::WaylandEvent;
use crate::wire::encode_event;
use crate::wire::encoding;
use vstd::prelude::*;
use vstd::slice::slice_subrange;

verus! {

/// How far the writing of events has come.
#[derive(Clone, Copy, Debug, PartialEq, Eq, Structural)]
pub enum SendPhase {
    /// Waiting for an event to write
    Idle,
    /// Waiting until the socket can be written
    Waiting,
    /// Writing to the socket
    Writing,
    /// There is nothing left to do
    Finished,
}

/// What came of an action.
pub enum SendEvent<F> {
    /// The compositor queued an event
    Event(WaylandEvent<F>),
    /// The compositor's end of the queue is gone
    QueueClosed,
    /// The client's token was cancelled
    Cancelled,
    /// The socket can be written
    Writable,
    /// Waiting on the socket failed
    WaitFailed,
    /// The socket took this many bytes, and all descriptors that were attached
    Sent(usize),
    /// The socket could not be written after all
    WouldBlock,
    /// Writing to the socket failed
    SendFailed,
}

/// What the caller is to do next.
#[derive(Clone, Copy, Debug, PartialEq, Eq, Structural)]
pub enum SendAction {
    /// Wait for the next event in the queue or for the client's token
    NextEvent,
    /// Wait until the socket can be written or the client's token is cancelled
    WaitWritable,
    /// Write the unsent bytes, with the attached descriptors
    Write,
    /// Stop
    Finish,
}

/// The writing of events as a mathematical value.
#[verifier::ext_equal]
pub struct SendState<F> {
    /// The bytes of the event in hand that the socket has not taken
    pub unsent: Seq<u8>,
    /// The descriptors that go with the next write
    pub attached: Seq<F>,
    pub phase: SendPhase,
}

/// An event as a mathematical value.
#[verifier::ext_equal]
pub enum SendEventView<F> {
    Event(EventView<F>),
    QueueClosed,
    Cancelled,
    Writable,
    WaitFailed,
    Sent(nat),
    WouldBlock,
    SendFailed,
}

impl<F> View for SendEvent<F> {
    type V = SendEventView<F>;

    open spec fn view(&self) -> SendEventView<F> {
        match self {
            SendEvent::Event(event) => SendEventView::Event(event@),
            SendEvent::QueueClosed => SendEventView::QueueClosed,
            SendEvent::Cancelled => SendEventView::Cancelled,
            SendEvent::Writable => SendEventView::Writable,
            SendEvent::WaitFailed => SendEventView::WaitFailed,
            SendEvent::Sent(n) => SendEventView::Sent(*n as nat),
            SendEvent::WouldBlock => SendEventView::WouldBlock,
            SendEvent::SendFailed => SendEventView::SendFailed,
        }
    }
}

/// The state in which no event is in hand.
pub open spec fn idle<F>() -> SendState<F> {
    SendState { unsent: Seq::empty(), attached: Seq::empty(), phase: SendPhase::Idle }
}

/// The length of an event, header included, is a number of 32 bits.
pub open spec fn has_length<F>(event: EventView<F>) -> bool {
    event.message.args.len() + 8 <= u32::MAX
}

/// Whether an event can come of the action that was last asked for.
pub open spec fn send_accepts<F>(s: SendState<F>, event: SendEventView<F>) -> bool {
    match s.phase {
        SendPhase::Idle => match event {
            SendEventView::Event(queued) => has_length(queued),
            _ => event is QueueClosed || event is Cancelled,
        },
        SendPhase::Waiting => event is Writable || event is Cancelled || event is WaitFailed,
        SendPhase::Writing => event is Sent || event is WouldBlock || event is SendFailed,
        SendPhase::Finished => false,
    }
}

/// What the writing of events becomes upon an event, and what is to be done next.
pub open spec fn send_next<F>(s: SendState<F>, event: SendEventView<F>) -> (
    SendState<F>,
    SendAction,
)
    recommends
        send_accepts(s, event),
{
    match event {
        SendEventView::Event(queued) => (
            SendState {
                unsent: encoding(queued.message),
                attached: queued.fds,
                phase: SendPhase::Waiting,
            },
            SendAction::WaitWritable,
        ),
        SendEventView::Writable => (
            SendState { phase: SendPhase::Writing, ..s },
            SendAction::Write,
        ),
        SendEventView::WouldBlock => (
            SendState { phase: SendPhase::Waiting, ..s },
            SendAction::WaitWritable,
        ),
        SendEventView::Sent(n) => if n < s.unsent.len() {
            (
                SendState {
                    unsent: s.unsent.skip(n as int),
                    attached: Seq::empty(),
                    phase: SendPhase::Waiting,
                },
                SendAction::WaitWritable,
            )
        } else {
            (idle(), SendAction::NextEvent)
        },
        SendEventView::QueueClosed
        | SendEventView::Cancelled
        | SendEventView::WaitFailed
        | SendEventView::SendFailed => (
            SendState { phase: SendPhase::Finished, ..s },
            SendAction::Finish,
        ),
    }
}

/// The sending side of one client's connection.
pub struct EventWriter<F> {
    buffer: Vec<u8>,
    bytes_sent: usize,
    fds: Vec<F>,
    fds_sent: bool,
    phase: SendPhase,
}

impl<F> View for EventWriter<F> {
    type V = SendState<F>;

    closed spec fn view(&self) -> SendState<F> {
        SendState {
            unsent: self.buffer@.skip(self.bytes_sent as int),
            attached: if self.fds_sent {
                Seq::empty()
            } else {
                self.fds@
            },
            phase: self.phase,
        }
    }
}

impl<F> EventWriter<F> {
    /// No more bytes were sent than there are.
    #[verifier::type_invariant]
    spec fn sent_within_buffer(&self) -> bool {
        self.bytes_sent <= self.buffer@.len()
    }

    /// Begin to write events to a client.
    pub fn start() -> (started: (EventWriter<F>, SendAction))
        ensures
            started.0@ == idle::<F>(),
            started.1 == SendAction::NextEvent,
    {
        (EventWriter::no_event(), SendAction::NextEvent)
    }

    fn no_event() -> (writer: EventWriter<F>)
        ensures
            writer@ == idle::<F>(),
    {
        EventWriter {
            buffer: Vec::new(),
            bytes_sent: 0,
            fds: Vec::new(),
            fds_sent: false,
            phase: SendPhase::Idle,
        }
    }

    /// The bytes that the next write is to offer to the socket.
    pub fn unsent(&self) -> (bytes: &[u8])
        ensures
            bytes@ == self@.unsent,
    {
        proof {
            use_type_invariant(self);
        }
        slice_subrange(self.buffer.as_slice(), self.bytes_sent, self.buffer.len())
    }

    /// The descriptors that the next write is to attach.
    pub fn attached(&self) -> (fds: &[F])
        ensures
            fds@ == self@.attached,
    {
        if self.fds_sent {
            slice_subrange(self.fds.as_slice(), 0, 0)
        } else {
            self.fds.as_slice()
        }
    }

    /// Whether an event can come of the action that was last asked for.
    pub fn accepts(&self, event: &SendEvent<F>) -> (accepted: bool)
        ensures
            accepted == send_accepts(self@, event@),
    {
        match self.phase {
            SendPhase::Idle => match event {
                SendEvent::Event(queued) => queued.args.len() <= (u32::MAX - 8) as usize,
                SendEvent::QueueClosed | SendEvent::Cancelled => true,
                _ => false,
            },
            SendPhase::Waiting => matches!(
                event,
                SendEvent::Writable | SendEvent::Cancelled | SendEvent::WaitFailed
            ),
            SendPhase::Writing => matches!(
                event,
                SendEvent::Sent(_) | SendEvent::WouldBlock | SendEvent::SendFailed
            ),
            SendPhase::Finished => false,
        }
    }

    /// Take in what came of the last action, and say what to do next.
    pub fn step(&mut self, event: SendEvent<F>) -> (action: SendAction)
        requires
            send_accepts(old(self)@, event@),
        ensures
            (final(self)@, action) == send_next(old(self)@, event@),
    {
        proof {
            use_type_invariant(&*self);
        }
        match event {
            SendEvent::Event(queued) => {
                let buffer: Vec<u8> = encode_event(&queued);
                *self = EventWriter {
                    buffer,
                    bytes_sent: 0,
                    fds: queued.fds,
                    fds_sent: false,
                    phase: SendPhase::Waiting,
                };
                assert(self@.unsent =~= buffer@);
                SendAction::WaitWritable
            },
            SendEvent::Writable => {
                self.phase = SendPhase::Writing;
                SendAction::Write
            },
            SendEvent::WouldBlock => {
                self.phase = SendPhase::Waiting;
                SendAction::WaitWritable
            },
            SendEvent::Sent(n) => {
                if n < self.buffer.len() - self.bytes_sent {
                    let ghost unsent = self@.unsent;
                    self.bytes_sent = self.bytes_sent + n;
                    self.fds_sent = true;
                    self.phase = SendPhase::Waiting;
                    assert(self@.unsent =~= unsent.skip(n as int));
                    SendAction::WaitWritable
                } else {
                    *self = EventWriter::no_event();
                    SendAction::NextEvent
                }
            },
            SendEvent::QueueClosed
            | SendEvent::Cancelled
            | SendEvent::WaitFailed
            | SendEvent::SendFailed => {
                self.phase = SendPhase::Finished;
                SendAction::Finish
            },
        }
    }
}

} // verus!
