//! What holds of a client's connection from its first event to its last.

use crate::client::client_accepts;
use crate::client::client_next;
use crate::client::new_client;
use crate::client::ClientActionView;
use crate::client::ClientEventView;
use crate::client::ClientPhase;
use crate::client::ClientState;
use crate::messages::RequestView;
use crate::messages::SocketMessageView;
use crate::wire::framing;
use crate::wire::is_malformed;
use crate::wire::law_framing_ignores_splits;
use crate::wire::law_rest_holds_no_message;
use tokio_util::sync::CancellationToken;
use vstd::prelude::*;

verus! {

/// A connection after some events, and the actions that they called for.
pub open spec fn client_run<F>(s: ClientState, events: Seq<ClientEventView<F>>) -> (
    ClientState,
    Seq<ClientActionView<F>>,
)
    decreases events.len(),
{
    if events.len() == 0 {
        (s, Seq::empty())
    } else {
        let before = client_run(s, events.drop_last());
        let after = client_next(before.0, events.last());
        (after.0, before.1.push(after.1))
    }
}

/// Each event answers the action before it.
pub open spec fn client_accepts_all<F>(s: ClientState, events: Seq<ClientEventView<F>>) -> bool
    decreases events.len(),
{
    events.len() == 0 || {
        &&& client_accepts_all(s, events.drop_last())
        &&& client_accepts(client_run(s, events.drop_last()).0, events.last())
    }
}

/// The messages to the compositor among some actions, in order.
pub open spec fn sent<F>(actions: Seq<ClientActionView<F>>) -> Seq<SocketMessageView<F>>
    decreases actions.len(),
{
    if actions.len() == 0 {
        Seq::empty()
    } else {
        match actions.last() {
            ClientActionView::Send(message) => sent(actions.drop_last()).push(message),
            _ => sent(actions.drop_last()),
        }
    }
}

/// The requests in some messages to the compositor, in order.
pub open spec fn requests<F>(messages: Seq<SocketMessageView<F>>) -> Seq<RequestView>
    decreases messages.len(),
{
    if messages.len() == 0 {
        Seq::empty()
    } else {
        match messages.last() {
            SocketMessageView::Read { messages: batch, .. } => requests(messages.drop_last())
                + batch,
            _ => requests(messages.drop_last()),
        }
    }
}

/// The descriptors in some messages to the compositor, in order.
pub open spec fn descriptors<F>(messages: Seq<SocketMessageView<F>>) -> Seq<F>
    decreases messages.len(),
{
    if messages.len() == 0 {
        Seq::empty()
    } else {
        match messages.last() {
            SocketMessageView::Read { fds, .. } => descriptors(messages.drop_last()) + fds,
            _ => descriptors(messages.drop_last()),
        }
    }
}

/// The bytes that were read from the client, in order.
pub open spec fn bytes_read<F>(events: Seq<ClientEventView<F>>) -> Seq<u8>
    decreases events.len(),
{
    if events.len() == 0 {
        Seq::empty()
    } else {
        match events.last() {
            ClientEventView::Read { bytes, .. } => bytes_read(events.drop_last()) + bytes,
            _ => bytes_read(events.drop_last()),
        }
    }
}

/// The descriptors that came with bytes from the client, in order.
pub open spec fn descriptors_read<F>(events: Seq<ClientEventView<F>>) -> Seq<F>
    decreases events.len(),
{
    if events.len() == 0 {
        Seq::empty()
    } else {
        match events.last() {
            ClientEventView::Read { bytes, fds } => if bytes.len() > 0 {
                descriptors_read(events.drop_last()) + fds
            } else {
                descriptors_read(events.drop_last())
            },
            _ => descriptors_read(events.drop_last()),
        }
    }
}

/// The compositor hears of a client in order: first that it is there, then of
/// its reads, none of them empty, and last, if at all, that it is gone.
pub open spec fn well_ordered<F>(
    client_id: u32,
    cancel_token: CancellationToken,
    messages: Seq<SocketMessageView<F>>,
) -> bool {
    forall|i: int|
        #![trigger messages[i]]
        0 <= i < messages.len() ==> {
            &&& messages[i].client_id() == client_id
            &&& messages[i] is NewClient <==> i == 0
            &&& messages[i] is ClientDisconnected ==> i == messages.len() - 1
            &&& match messages[i] {
                SocketMessageView::NewClient { client_cancel_token, .. } => client_cancel_token
                    == cancel_token,
                SocketMessageView::Read { fds, messages: batch, .. } => fds.len() > 0
                    || batch.len() > 0,
                SocketMessageView::ClientDisconnected { .. } => true,
            }
        }
}

/// A connection keeps its client id and its token.
pub proof fn lemma_identity_is_kept<F>(s: ClientState, events: Seq<ClientEventView<F>>)
    ensures
        client_run(s, events).0.client_id == s.client_id,
        client_run(s, events).0.cancel_token == s.cancel_token,
    decreases events.len(),
{
    if events.len() > 0 {
        lemma_identity_is_kept(s, events.drop_last());
    }
}

/// What the messages so far look like in each phase.
spec fn sent_so_far<F>(phase: ClientPhase, messages: Seq<SocketMessageView<F>>) -> bool {
    match phase {
        ClientPhase::Opening => messages.len() == 0,
        ClientPhase::Announcing => messages.len() == 1,
        ClientPhase::Starting
        | ClientPhase::Waiting
        | ClientPhase::Reading
        | ClientPhase::Delivering => messages.len() >= 1 && !(
        messages.last() is ClientDisconnected),
        ClientPhase::Leaving => messages.len() >= 2 && messages.last() is ClientDisconnected,
        ClientPhase::Finished => messages.len() == 1 || messages.last() is ClientDisconnected,
    }
}

/// Pushing a message keeps the order if it may stand there.
proof fn lemma_push_keeps_order<F>(
    client_id: u32,
    cancel_token: CancellationToken,
    messages: Seq<SocketMessageView<F>>,
    message: SocketMessageView<F>,
)
    requires
        well_ordered(client_id, cancel_token, messages),
        messages.len() > 0 ==> !(messages.last() is ClientDisconnected),
        message.client_id() == client_id,
        message is NewClient <==> messages.len() == 0,
        message matches SocketMessageView::NewClient { client_cancel_token, .. }
            ==> client_cancel_token == cancel_token,
        message matches SocketMessageView::Read { fds, messages: batch, .. } ==> fds.len() > 0
            || batch.len() > 0,
    ensures
        well_ordered(client_id, cancel_token, messages.push(message)),
{
    let all = messages.push(message);
    assert forall|i: int| #![trigger all[i]] 0 <= i < all.len() implies {
        &&& all[i].client_id() == client_id
        &&& all[i] is NewClient <==> i == 0
        &&& all[i] is ClientDisconnected ==> i == all.len() - 1
        &&& match all[i] {
            SocketMessageView::NewClient { client_cancel_token, .. } => client_cancel_token
                == cancel_token,
            SocketMessageView::Read { fds, messages: batch, .. } => fds.len() > 0 || batch.len()
                > 0,
            SocketMessageView::ClientDisconnected { .. } => true,
        }
    } by {
        if i < messages.len() {
            assert(all[i] == messages[i]);
        }
    }
}

/// The messages that one more action adds to those sent.
proof fn lemma_sent_push<F>(actions: Seq<ClientActionView<F>>, action: ClientActionView<F>)
    ensures
        sent(actions.push(action)) == (match action {
            ClientActionView::Send(message) => sent(actions).push(message),
            _ => sent(actions),
        }),
{
    assert(actions.push(action).drop_last() =~= actions);
}

proof fn lemma_order<F>(
    client_id: u32,
    cancel_token: CancellationToken,
    events: Seq<ClientEventView<F>>,
)
    requires
        client_accepts_all(new_client(client_id, cancel_token), events),
    ensures
        ({
            let run = client_run(new_client(client_id, cancel_token), events);
            &&& well_ordered(client_id, cancel_token, sent(run.1))
            &&& sent_so_far(run.0.phase, sent(run.1))
        }),
    decreases events.len(),
{
    let s = new_client(client_id, cancel_token);
    if events.len() > 0 {
        lemma_order(client_id, cancel_token, events.drop_last());
        lemma_identity_is_kept(s, events.drop_last());
        let before = client_run(s, events.drop_last());
        let after = client_next(before.0, events.last());
        lemma_sent_push(before.1, after.1);
        match after.1 {
            ClientActionView::Send(message) => {
                lemma_push_keeps_order(client_id, cancel_token, sent(before.1), message);
            },
            _ => {},
        }
    }
}

/// The compositor hears of a client in order: that it is there, with the token
/// that its tasks obey, then of its reads, and last that it is gone.
pub proof fn law_compositor_hears_in_order<F>(
    client_id: u32,
    cancel_token: CancellationToken,
    events: Seq<ClientEventView<F>>,
)
    requires
        client_accepts_all(new_client(client_id, cancel_token), events),
    ensures
        ({
            let run = client_run(new_client(client_id, cancel_token), events);
            &&& well_ordered(client_id, cancel_token, sent(run.1))
            &&& run.0.cancel_token == cancel_token
        }),
{
    lemma_order(client_id, cancel_token, events);
    lemma_identity_is_kept(new_client(client_id, cancel_token), events);
}

/// Once a connection is finished, the compositor has heard that the client is
/// gone if it ever took the news that the client is there. Else it was told
/// nothing but that, and nothing else was done: the client was not read, and
/// no task to write to it was started.
pub proof fn law_disconnect_is_reported_once<F>(
    client_id: u32,
    cancel_token: CancellationToken,
    events: Seq<ClientEventView<F>>,
)
    requires
        client_accepts_all(new_client(client_id, cancel_token), events),
        client_run(new_client(client_id, cancel_token), events).0.phase is Finished,
    ensures
        ({
            let messages = sent(client_run(new_client(client_id, cancel_token), events).1);
            &&& events.len() >= 2
            &&& messages.len() >= 1
            &&& messages[0] is NewClient
            &&& events[1] is Delivered || events[1] is CompositorGone
            &&& events[1] is Delivered ==> {
                &&& messages.len() >= 2
                &&& messages.last() == (SocketMessageView::<F>::ClientDisconnected { client_id })
                &&& forall|i: int|
                    0 <= i < messages.len() - 1 ==> !(
                    #[trigger] messages[i] is ClientDisconnected)
            }
            &&& events[1] is CompositorGone ==> messages.len() == 1 && events.len() == 2
        }),
{
    lemma_order(client_id, cancel_token, events);
    lemma_first_answer(client_id, cancel_token, events);
}

/// The answer to the announcement decides whether the client is served.
proof fn lemma_first_answer<F>(
    client_id: u32,
    cancel_token: CancellationToken,
    events: Seq<ClientEventView<F>>,
)
    requires
        client_accepts_all(new_client(client_id, cancel_token), events),
    ensures
        ({
            let run = client_run(new_client(client_id, cancel_token), events);
            &&& events.len() == 0 <==> run.0.phase is Opening
            &&& events.len() == 1 <==> run.0.phase is Announcing
            &&& events.len() >= 2 ==> {
                ||| events[1] is Delivered && (run.0.phase is Finished ==> sent(run.1).len() >= 2
                    && sent(run.1).last() is ClientDisconnected)
                ||| events[1] is CompositorGone && run.0.phase is Finished && sent(run.1).len()
                    == 1 && events.len() == 2
            }
        }),
    decreases events.len(),
{
    let s = new_client(client_id, cancel_token);
    if events.len() > 0 {
        lemma_first_answer(client_id, cancel_token, events.drop_last());
        lemma_order(client_id, cancel_token, events.drop_last());
        let before = client_run(s, events.drop_last());
        let after = client_next(before.0, events.last());
        lemma_sent_push(before.1, after.1);
        if events.len() > 2 {
            assert(events.drop_last()[1] == events[1]);
        }
    }
}

/// The compositor is sent exactly the requests that the client's bytes hold,
/// in order and however the bytes were split among reads, and exactly the
/// descriptors that came with bytes, in order.
pub proof fn law_requests_and_descriptors_pass_in_order<F>(
    client_id: u32,
    cancel_token: CancellationToken,
    events: Seq<ClientEventView<F>>,
)
    requires
        client_accepts_all(new_client(client_id, cancel_token), events),
    ensures
        ({
            let run = client_run(new_client(client_id, cancel_token), events);
            &&& requests(sent(run.1)) == framing(bytes_read(events)).messages
            &&& descriptors(sent(run.1)) == descriptors_read(events)
            &&& run.0.pending == framing(bytes_read(events)).rest
        }),
    decreases events.len(),
{
    let s = new_client(client_id, cancel_token);
    if events.len() > 0 {
        let earlier = events.drop_last();
        law_requests_and_descriptors_pass_in_order(client_id, cancel_token, earlier);
        let before = client_run(s, earlier);
        let after = client_next(before.0, events.last());
        lemma_sent_push(before.1, after.1);
        match after.1 {
            ClientActionView::Send(message) => {
                assert(sent(before.1).push(message).drop_last() =~= sent(before.1));
            },
            _ => {},
        }
        match events.last() {
            ClientEventView::Read { bytes, fds } => {
                law_framing_ignores_splits(bytes_read(earlier), bytes);
                if bytes.len() == 0 {
                    assert(bytes_read(earlier) + bytes =~= bytes_read(earlier));
                } else {
                    let batch = framing(before.0.pending + bytes).messages;
                    if fds.len() == 0 && batch.len() == 0 {
                        assert(requests(sent(before.1)) + batch =~= requests(sent(before.1)));
                        assert(descriptors_read(earlier) + fds =~= descriptors_read(earlier));
                    }
                }
            },
            _ => {},
        }
    }
}

/// The descriptors that a read brought with bytes go to the compositor with
/// the batch of that read, all of them and no others, whatever came before.
pub proof fn law_descriptors_stay_with_their_read<F>(
    s: ClientState,
    bytes: Seq<u8>,
    fds: Seq<F>,
)
    requires
        client_accepts(s, ClientEventView::Read { bytes, fds }),
        bytes.len() > 0,
        fds.len() > 0,
    ensures
        ({
            let action = client_next(s, ClientEventView::Read { bytes, fds }).1;
            action == ClientActionView::Send(
                SocketMessageView::Read {
                    client_id: s.client_id,
                    fds,
                    messages: framing(s.pending + bytes).messages,
                },
            )
        }),
{
}

/// Every read asks for at most 4096 bytes and 28 descriptors, and to have the
/// descriptors marked close-on-exec.
pub proof fn law_every_read_marks_descriptors<F>(
    client_id: u32,
    cancel_token: CancellationToken,
    events: Seq<ClientEventView<F>>,
    i: int,
)
    requires
        client_accepts_all(new_client(client_id, cancel_token), events),
        0 <= i < events.len(),
        client_run(new_client(client_id, cancel_token), events).1[i] is Read,
    ensures
        client_run(new_client(client_id, cancel_token), events).1[i] == (
        ClientActionView::<F>::Read { bytes: 4096, fds: 28, close_on_exec: true }),
    decreases events.len(),
{
    let s = new_client(client_id, cancel_token);
    lemma_one_action_per_event(s, events);
    lemma_one_action_per_event(s, events.drop_last());
    if i < events.len() - 1 {
        law_every_read_marks_descriptors(client_id, cancel_token, events.drop_last(), i);
    }
}

/// Each event calls for one action.
proof fn lemma_one_action_per_event<F>(s: ClientState, events: Seq<ClientEventView<F>>)
    ensures
        client_run(s, events).1.len() == events.len(),
    decreases events.len(),
{
    if events.len() > 0 {
        lemma_one_action_per_event(s, events.drop_last());
    }
}

/// A client that learns that its token is cancelled reports itself gone, and
/// with the answer to that it is finished.
pub proof fn law_cancelled_client_leaves<F>(
    client_id: u32,
    cancel_token: CancellationToken,
    events: Seq<ClientEventView<F>>,
    answer: ClientEventView<F>,
)
    requires
        client_accepts_all(new_client(client_id, cancel_token), events),
        events.len() > 0,
        events.last() is Cancelled,
        client_accepts(client_run(new_client(client_id, cancel_token), events).0, answer),
    ensures
        ({
            let run = client_run(new_client(client_id, cancel_token), events);
            &&& run.1.last() == ClientActionView::Send(
                SocketMessageView::<F>::ClientDisconnected { client_id },
            )
            &&& client_next(run.0, answer).0.phase is Finished
            &&& client_next(run.0, answer).1 is Finish
        }),
{
    lemma_identity_is_kept(new_client(client_id, cancel_token), events.drop_last());
}

/// A client whose stream turns out malformed is never read again: what it sent
/// before is handed over, and then it is reported gone.
pub proof fn law_malformed_stream_is_given_up<F>(
    client_id: u32,
    cancel_token: CancellationToken,
    events: Seq<ClientEventView<F>>,
)
    requires
        client_accepts_all(new_client(client_id, cancel_token), events),
        is_malformed(framing(bytes_read(events)).rest),
    ensures
        ({
            let phase = client_run(new_client(client_id, cancel_token), events).0.phase;
            phase is Delivering || phase is Leaving || phase is Finished
        }),
    decreases events.len(),
{
    let s = new_client(client_id, cancel_token);
    law_requests_and_descriptors_pass_in_order(client_id, cancel_token, events);
    if events.len() > 0 {
        let earlier = events.drop_last();
        law_requests_and_descriptors_pass_in_order(client_id, cancel_token, earlier);
        if is_malformed(framing(bytes_read(earlier)).rest) {
            law_malformed_stream_is_given_up(client_id, cancel_token, earlier);
        }
    }
}

/// While a client is waited for, less than one message of the greatest length
/// is kept of what it sent, and no whole message.
pub proof fn law_pending_bytes_are_bounded<F>(
    client_id: u32,
    cancel_token: CancellationToken,
    events: Seq<ClientEventView<F>>,
)
    requires
        client_accepts_all(new_client(client_id, cancel_token), events),
        client_run(new_client(client_id, cancel_token), events).0.phase is Waiting,
    ensures
        ({
            let s = client_run(new_client(client_id, cancel_token), events).0;
            &&& s.pending.len() < u16::MAX
            &&& !crate::wire::has_message(s.pending)
        }),
{
    law_requests_and_descriptors_pass_in_order(client_id, cancel_token, events);
    law_rest_holds_no_message(bytes_read(events));
    if is_malformed(framing(bytes_read(events)).rest) {
        law_malformed_stream_is_given_up(client_id, cancel_token, events);
    }
}

/// A new client has its id and its token, no bytes, and its queue to open.
pub proof fn law_new_client_has_nothing_pending(client_id: u32, cancel_token: CancellationToken)
    ensures
        new_client(client_id, cancel_token).client_id == client_id,
        new_client(client_id, cancel_token).cancel_token == cancel_token,
        new_client(client_id, cancel_token).pending.len() == 0,
        new_client(client_id, cancel_token).phase is Opening,
{
}

/// Every answer to the action that is out is accepted, whatever the client
/// has sent, and no other event is.
pub proof fn law_client_takes_every_answer<F>(s: ClientState, event: ClientEventView<F>)
    ensures
        s.phase is Opening ==> (client_accepts(s, event) <==> event is QueueOpened),
        s.phase is Announcing || s.phase is Delivering || s.phase is Leaving ==> (client_accepts(
            s,
            event,
        ) <==> event is Delivered || event is CompositorGone),
        s.phase is Starting ==> (client_accepts(s, event) <==> event is SendingStarted),
        s.phase is Waiting ==> (client_accepts(s, event) <==> event is Cancelled
            || event is WaitFailed || event is Readable),
        s.phase is Reading ==> (client_accepts(s, event) <==> event is Read
            || event is WouldBlock || event is ReadFailed),
        s.phase is Finished ==> !client_accepts(s, event),
{
}

/// The phase tells which action is out.
pub proof fn law_client_phase_is_that_of_its_action<F>(
    s: ClientState,
    event: ClientEventView<F>,
)
    requires
        client_accepts(s, event),
    ensures
        ({
            let (t, action) = client_next(s, event);
            match action {
                ClientActionView::OpenQueue { .. } => false,
                ClientActionView::Send(SocketMessageView::NewClient { .. }) => t.phase
                    is Announcing,
                ClientActionView::Send(SocketMessageView::Read { .. }) => t.phase is Delivering,
                ClientActionView::Send(SocketMessageView::ClientDisconnected { .. }) => t.phase
                    is Leaving,
                ClientActionView::StartSending => t.phase is Starting,
                ClientActionView::Wait => t.phase is Waiting,
                ClientActionView::Read { .. } => t.phase is Reading,
                ClientActionView::Finish => t.phase is Finished,
            }
        }),
{
}

/// A client keeps its id, its token and the bytes that it has not used. A read
/// adds what it brought, and whole messages are cut off.
pub proof fn law_client_keeps_unused_bytes<F>(s: ClientState, event: ClientEventView<F>)
    requires
        client_accepts(s, event),
    ensures
        client_next(s, event).0.client_id == s.client_id,
        client_next(s, event).0.cancel_token == s.cancel_token,
        client_next(s, event).0.pending == (match event {
            ClientEventView::Read { bytes, .. } if bytes.len() > 0 => framing(
                s.pending + bytes,
            ).rest,
            _ => s.pending,
        }),
{
}

/// A client is reported gone if and only if its stream ended, waiting for it
/// or reading it failed, its token was cancelled, the compositor did not take
/// a batch, or its stream is malformed and nothing is left to hand over. In
/// particular, a request that has arrived in part is no reason.
pub proof fn law_client_leaves_only_for_a_reason<F>(s: ClientState, event: ClientEventView<F>)
    requires
        client_accepts(s, event),
    ensures
        ({
            let (t, action) = client_next(s, event);
            let rest = t.pending;
            let malformed = rest.len() >= 8 && rest[6] + 0x100 * rest[7] < 8;
            let nothing_to_hand_over = match event {
                ClientEventView::Read { bytes, fds } => fds.len() == 0 && framing(
                    s.pending + bytes,
                ).messages.len() == 0,
                ClientEventView::Delivered => s.phase is Delivering,
                _ => false,
            };
            let gone = action == ClientActionView::Send(
                SocketMessageView::<F>::ClientDisconnected { client_id: s.client_id },
            );
            &&& gone <==> {
                ||| event matches ClientEventView::Read { bytes, .. } && bytes.len() == 0
                ||| event is WaitFailed
                ||| event is ReadFailed
                ||| event is Cancelled
                ||| event is CompositorGone && s.phase is Delivering
                ||| malformed && nothing_to_hand_over
            }
            &&& match action {
                ClientActionView::Send(SocketMessageView::ClientDisconnected { .. }) => gone,
                _ => true,
            }
        }),
{
}

/// What a read brought is handed over if it completed a request or came with
/// descriptors: the requests that the bytes pending and read hold, and the
/// descriptors of this read.
pub proof fn law_client_hands_over_each_read<F>(s: ClientState, event: ClientEventView<F>)
    requires
        client_accepts(s, event),
    ensures
        ({
            let action = client_next(s, event).1;
            match event {
                ClientEventView::Read { bytes, fds } => {
                    let messages = framing(s.pending + bytes).messages;
                    let handed_over = action == ClientActionView::Send(
                        SocketMessageView::Read { client_id: s.client_id, fds, messages },
                    );
                    &&& handed_over <==> bytes.len() > 0 && (fds.len() > 0 || messages.len() > 0)
                    &&& match action {
                        ClientActionView::Send(SocketMessageView::Read { .. }) => handed_over,
                        _ => true,
                    }
                },
                _ => match action {
                    ClientActionView::Send(SocketMessageView::Read { .. }) => false,
                    _ => true,
                },
            }
        }),
{
}

/// The client is waited for again whenever there is nothing else to do: once
/// it is served, after a read that came to nothing, after one that brought
/// only part of a request, and after a batch was taken, unless its stream is
/// malformed.
pub proof fn law_client_is_waited_for_again<F>(s: ClientState, event: ClientEventView<F>)
    requires
        client_accepts(s, event),
    ensures
        ({
            let (t, action) = client_next(s, event);
            let rest = t.pending;
            let malformed = rest.len() >= 8 && rest[6] + 0x100 * rest[7] < 8;
            &&& action is Wait <==> match event {
                ClientEventView::SendingStarted => true,
                ClientEventView::WouldBlock => true,
                ClientEventView::Delivered => s.phase is Delivering && !malformed,
                ClientEventView::Read { bytes, fds } => {
                    &&& bytes.len() > 0
                    &&& fds.len() == 0
                    &&& framing(s.pending + bytes).messages.len() == 0
                    &&& !malformed
                },
                _ => false,
            }
            &&& action is Wait ==> t.phase is Waiting
        }),
{
}

/// The client is announced, with its id, its queue and its token, as soon as
/// the queue is open. Once that is taken, events are written to it. It is read
/// when there is something to read. It is done with when the news that it is
/// gone was answered or the compositor did not take the announcement.
pub proof fn law_client_is_served_in_turn<F>(s: ClientState, event: ClientEventView<F>)
    requires
        client_accepts(s, event),
    ensures
        ({
            let action = client_next(s, event).1;
            &&& event matches ClientEventView::QueueOpened { socket_sender } ==> action
                == ClientActionView::Send(
                SocketMessageView::NewClient {
                    client_id: s.client_id,
                    socket_sender,
                    client_cancel_token: s.cancel_token,
                },
            )
            &&& match action {
                ClientActionView::Send(SocketMessageView::NewClient { .. }) => event
                    is QueueOpened,
                _ => true,
            }
            &&& action is StartSending <==> event is Delivered && s.phase is Announcing
            &&& action is Read <==> event is Readable
            &&& action is Read ==> action == (ClientActionView::<F>::Read {
                bytes: 4096,
                fds: 28,
                close_on_exec: true,
            })
            &&& action is Finish <==> {
                ||| event is CompositorGone && s.phase is Announcing
                ||| (event is Delivered || event is CompositorGone) && s.phase is Leaving
            }
            &&& !(action is OpenQueue)
        }),
{
}

/// A client whose stream goes on, is well formed so far and meets no failure
/// stays connected, however its requests are split among reads.
pub proof fn law_well_behaved_client_stays<F>(
    client_id: u32,
    cancel_token: CancellationToken,
    events: Seq<ClientEventView<F>>,
)
    requires
        client_accepts_all(new_client(client_id, cancel_token), events),
        forall|i: int|
            #![trigger events[i]]
            0 <= i < events.len() ==> {
                &&& !(events[i] is WaitFailed)
                &&& !(events[i] is ReadFailed)
                &&& !(events[i] is Cancelled)
                &&& !(events[i] is CompositorGone)
                &&& events[i] matches ClientEventView::Read { bytes, .. } ==> bytes.len() > 0
            },
        ({
            let rest = framing(bytes_read(events)).rest;
            rest.len() < 8 || rest[6] + 0x100 * rest[7] >= 8
        }),
    ensures
        ({
            let run = client_run(new_client(client_id, cancel_token), events);
            &&& !(run.0.phase is Leaving)
            &&& !(run.0.phase is Finished)
            &&& forall|i: int|
                0 <= i < sent(run.1).len() ==> !(#[trigger] sent(run.1)[i] is ClientDisconnected)
        }),
    decreases events.len(),
{
    let s = new_client(client_id, cancel_token);
    lemma_order(client_id, cancel_token, events);
    law_requests_and_descriptors_pass_in_order(client_id, cancel_token, events);
    if events.len() > 0 {
        let earlier = events.drop_last();
        law_requests_and_descriptors_pass_in_order(client_id, cancel_token, earlier);
        assert forall|i: int| #![trigger earlier[i]] 0 <= i < earlier.len() implies {
            &&& !(earlier[i] is WaitFailed)
            &&& !(earlier[i] is ReadFailed)
            &&& !(earlier[i] is Cancelled)
            &&& !(earlier[i] is CompositorGone)
            &&& earlier[i] matches ClientEventView::Read { bytes, .. } ==> bytes.len() > 0
        } by {
            assert(earlier[i] == events[i]);
        }
        assert(events.last() == events[events.len() - 1]);
        if is_malformed(framing(bytes_read(earlier)).rest) {
            match events.last() {
                ClientEventView::Read { bytes, .. } => {
                    crate::wire::law_malformed_stays_malformed(bytes_read(earlier), bytes);
                },
                _ => {},
            }
        }
        law_well_behaved_client_stays(client_id, cancel_token, earlier);
    }
}

} // verus!
