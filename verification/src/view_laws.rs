//! The mathematical values of the crate's types hold just what the types hold.

use crate::client::ClientAction;
use crate::client::ClientActionView;
use crate::client::ClientEvent;
use crate::client::ClientEventView;
use crate::listener::ListenerAction;
use crate::listener::ListenerActionView;
use crate::listener::ListenerEvent;
use crate::listener::ListenerEventView;
use crate::messages::request_views;
use crate::messages::SocketMessageView;
use crate::messages::WaylandEvent;
use crate::messages::WaylandRequest;
use crate::messages::WaylandSocketMessage;
use crate::naming::SearchStep;
use crate::naming::SearchStepView;
use crate::naming::SocketNameError;
use crate::naming::SocketNameErrorView;
use crate::sender::SendEvent;
use crate::sender::SendEventView;
use vstd::prelude::*;

verus! {

/// A request's value has the request's fields.
pub proof fn law_request_value(request: WaylandRequest)
    ensures
        request@.object_id == request.object_id,
        request@.op_code == request.op_code,
        request@.args == request.args@,
{
}

/// The values of several requests are those of each, in order.
pub proof fn law_request_values(requests: Seq<WaylandRequest>)
    ensures
        request_views(requests).len() == requests.len(),
        forall|i: int| 0 <= i < requests.len() ==> #[trigger] request_views(requests)[i] == requests[i]@,
{
}

/// An event's value has the event's fields.
pub proof fn law_event_value<F>(event: WaylandEvent<F>)
    ensures
        event@.message.object_id == event.object_id,
        event@.message.op_code == event.op_code,
        event@.message.args == event.args@,
        event@.fds == event.fds@,
{
}

/// The value of a message to the compositor has the message's fields.
pub proof fn law_socket_message_value<F>(message: WaylandSocketMessage<F>)
    ensures
        message matches WaylandSocketMessage::NewClient(new_client) ==> message@ == (
        SocketMessageView::NewClient {
            client_id: new_client.client_id,
            socket_sender: new_client.socket_sender,
            client_cancel_token: new_client.client_cancel_token,
        }),
        message matches WaylandSocketMessage::Read(batch) ==> message@ == (
        SocketMessageView::Read {
            client_id: batch.client_id,
            fds: batch.fds@,
            messages: request_views(batch.messages@),
        }),
        message matches WaylandSocketMessage::ClientDisconnected { client_id } ==> message@ == (
        SocketMessageView::<F>::ClientDisconnected { client_id }),
{
}

/// The value of what a client's reader is told says the same thing.
pub proof fn law_client_event_value<F>(event: ClientEvent<F>)
    ensures
        event matches ClientEvent::QueueOpened { socket_sender } ==> event@ == (
        ClientEventView::QueueOpened { socket_sender }),
        event matches ClientEvent::Read { bytes, fds } ==> event@ == (ClientEventView::Read {
            bytes: bytes@,
            fds: fds@,
        }),
        event is Delivered <==> event@ is Delivered,
        event is CompositorGone <==> event@ is CompositorGone,
        event is SendingStarted <==> event@ is SendingStarted,
        event is Cancelled <==> event@ is Cancelled,
        event is WaitFailed <==> event@ is WaitFailed,
        event is Readable <==> event@ is Readable,
        event is WouldBlock <==> event@ is WouldBlock,
        event is ReadFailed <==> event@ is ReadFailed,
{
}

/// The value of what a client's reader asks for says the same thing.
pub proof fn law_client_action_value<F>(action: ClientAction<F>)
    ensures
        action matches ClientAction::OpenQueue { limit } ==> action@ == (
        ClientActionView::<F>::OpenQueue { limit: limit as nat }),
        action matches ClientAction::Send(message) ==> action@ == ClientActionView::Send(message@),
        action matches ClientAction::Read { bytes, fds, close_on_exec } ==> action@ == (
        ClientActionView::<F>::Read {
            bytes: bytes as nat,
            fds: fds as nat,
            close_on_exec,
        }),
        action is StartSending <==> action@ is StartSending,
        action is Wait <==> action@ is Wait,
        action is Finish <==> action@ is Finish,
{
}

/// The value of what a writer is told says the same thing.
pub proof fn law_send_event_value<F>(event: SendEvent<F>)
    ensures
        event matches SendEvent::Event(queued) ==> event@ == SendEventView::Event(queued@),
        event matches SendEvent::Sent(n) ==> event@ == SendEventView::<F>::Sent(n as nat),
        event is QueueClosed <==> event@ is QueueClosed,
        event is Cancelled <==> event@ is Cancelled,
        event is Writable <==> event@ is Writable,
        event is WaitFailed <==> event@ is WaitFailed,
        event is WouldBlock <==> event@ is WouldBlock,
        event is SendFailed <==> event@ is SendFailed,
{
}

/// The value of what a listener is told says the same thing.
pub proof fn law_listener_event_value<E>(event: ListenerEvent<E>)
    ensures
        event matches ListenerEvent::Named { socket_path } ==> event@ == (
        ListenerEventView::<E>::Named { socket_path: socket_path@ }),
        event matches ListenerEvent::Found(found) ==> event@ == ListenerEventView::<E>::Found(
            found,
        ),
        event matches ListenerEvent::Failed(error) ==> event@ == ListenerEventView::Failed(error),
        event is Done <==> event@ is Done,
        event is Accepted <==> event@ is Accepted,
        event is AcceptFailed <==> event@ is AcceptFailed,
        event is Cancelled <==> event@ is Cancelled,
{
}

/// The value of what a listener asks for says the same thing.
pub proof fn law_listener_action_value<E>(action: ListenerAction<E>)
    ensures
        action matches ListenerAction::Claim(path) ==> action@ == ListenerActionView::<E>::Claim(
            path@,
        ),
        action matches ListenerAction::Listen { backlog } ==> action@ == (
        ListenerActionView::<E>::Listen { backlog: backlog as nat }),
        action matches ListenerAction::Report(path) ==> action@ == ListenerActionView::<
            E,
        >::Report(path@),
        action matches ListenerAction::Finish(outcome) ==> action@ == ListenerActionView::Finish(
            outcome,
        ),
        action is Search <==> action@ is Search,
        action is Inspect <==> action@ is Inspect,
        action is Clear <==> action@ is Clear,
        action is Bind <==> action@ is Bind,
        action is Accept <==> action@ is Accept,
        action is Admit <==> action@ is Admit,
        action is Drain <==> action@ is Drain,
        action is Remove <==> action@ is Remove,
{
}

/// The value of an error on a name has the error's fields.
pub proof fn law_name_error_value(error: SocketNameError)
    ensures
        error matches SocketNameError::CannotOpenLock { lock_path, cause } ==> error@ == (
        SocketNameErrorView::CannotOpenLock { lock_path: lock_path@, cause: cause@ }),
        error matches SocketNameError::InUse { socket_path, cause } ==> error@ == (
        SocketNameErrorView::InUse { socket_path: socket_path@, cause: cause@ }),
        error is NoRuntimeDir <==> error@ is NoRuntimeDir,
        error matches SocketNameError::AllTaken { runtime_dir } ==> error@ == (
        SocketNameErrorView::AllTaken { runtime_dir: runtime_dir@ }),
{
}

/// The value of what a search does next says the same thing.
pub proof fn law_search_step_value<L>(step: SearchStep<L>)
    ensures
        step matches SearchStep::Try(path) ==> step@ == SearchStepView::<L>::Try(path@),
        step matches SearchStep::Claimed { socket_path, lock } ==> step@ == (
        SearchStepView::Claimed { socket_path: socket_path@, lock }),
        step matches SearchStep::Failed(error) ==> step@ == SearchStepView::<L>::Failed(error@),
{
}

} // verus!
