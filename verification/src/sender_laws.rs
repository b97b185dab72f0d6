//! What holds of the events written to a client, from the first to the last.

use crate::messages::EventView;
use crate::messages::RequestView;
use crate::sender::idle;
use crate::sender::send_accepts;
use crate::sender::send_next;
use crate::sender::SendEventView;
use crate::sender::SendState;
use crate::wire::encoding;
use crate::wire::encodings;
use crate::wire::fits_length_field;
use crate::wire::framing;
use crate::wire::law_framing_ignores_splits;
use crate::wire::law_written_messages_are_read_back;
use crate::wire::lemma_encodings_concat;
use vstd::prelude::*;

verus! {

/// The writing of events after some events.
pub open spec fn send_run<F>(events: Seq<SendEventView<F>>) -> SendState<F>
    decreases events.len(),
{
    if events.len() == 0 {
        idle()
    } else {
        send_next(send_run(events.drop_last()), events.last()).0
    }
}

/// Each event answers the action before it.
pub open spec fn send_accepts_all<F>(events: Seq<SendEventView<F>>) -> bool
    decreases events.len(),
{
    events.len() == 0 || {
        &&& send_accepts_all(events.drop_last())
        &&& send_accepts(send_run(events.drop_last()), events.last())
    }
}

/// The events that the compositor queued, in order.
pub open spec fn queued<F>(events: Seq<SendEventView<F>>) -> Seq<EventView<F>>
    decreases events.len(),
{
    if events.len() == 0 {
        Seq::empty()
    } else {
        match events.last() {
            SendEventView::Event(event) => queued(events.drop_last()).push(event),
            _ => queued(events.drop_last()),
        }
    }
}

/// The bytes that the socket took, in order. Of what it is offered, it takes
/// the front.
pub open spec fn bytes_written<F>(events: Seq<SendEventView<F>>) -> Seq<u8>
    decreases events.len(),
{
    if events.len() == 0 {
        Seq::empty()
    } else {
        let offered = send_run(events.drop_last()).unsent;
        match events.last() {
            SendEventView::Sent(n) => bytes_written(events.drop_last()) + (if n < offered.len() {
                offered.take(n as int)
            } else {
                offered
            }),
            _ => bytes_written(events.drop_last()),
        }
    }
}

/// The descriptors that the socket took, in order.
pub open spec fn descriptors_written<F>(events: Seq<SendEventView<F>>) -> Seq<F>
    decreases events.len(),
{
    if events.len() == 0 {
        Seq::empty()
    } else {
        match events.last() {
            SendEventView::Sent(_) => descriptors_written(events.drop_last()) + send_run(
                events.drop_last(),
            ).attached,
            _ => descriptors_written(events.drop_last()),
        }
    }
}

/// The wayland messages of some events, in order.
pub open spec fn messages_of<F>(events: Seq<EventView<F>>) -> Seq<RequestView> {
    Seq::new(events.len(), |i: int| events[i].message)
}

/// The descriptors of some events, in order.
pub open spec fn descriptors_of<F>(events: Seq<EventView<F>>) -> Seq<F>
    decreases events.len(),
{
    if events.len() == 0 {
        Seq::empty()
    } else {
        descriptors_of(events.drop_last()) + events.last().fds
    }
}

/// What is in hand in each phase.
proof fn lemma_in_hand<F>(events: Seq<SendEventView<F>>)
    requires
        send_accepts_all(events),
    ensures
        ({
            let s = send_run(events);
            &&& s.phase is Idle ==> s.unsent.len() == 0 && s.attached.len() == 0
            &&& s.phase is Waiting || s.phase is Writing ==> s.unsent.len() > 0
        }),
    decreases events.len(),
{
    if events.len() > 0 {
        lemma_in_hand(events.drop_last());
    }
}

/// Nothing of an event is lost, repeated or reordered: what the socket took,
/// followed by what is still to be written, is the bytes of the queued events
/// in order, and so for their descriptors.
pub proof fn law_events_are_written_in_order<F>(events: Seq<SendEventView<F>>)
    requires
        send_accepts_all(events),
    ensures
        bytes_written(events) + send_run(events).unsent == encodings(
            messages_of(queued(events)),
        ),
        descriptors_written(events) + send_run(events).attached == descriptors_of(queued(events)),
        send_run(events).phase is Idle ==> bytes_written(events) == encodings(
            messages_of(queued(events)),
        ) && descriptors_written(events) == descriptors_of(queued(events)),
    decreases events.len(),
{
    lemma_in_hand(events);
    if events.len() > 0 {
        let earlier = events.drop_last();
        law_events_are_written_in_order(earlier);
        lemma_in_hand(earlier);
        let before = send_run(earlier);
        match events.last() {
            SendEventView::Event(event) => {
                let old_messages = messages_of(queued(earlier));
                let one = seq![event.message];
                assert(messages_of(queued(events)) =~= old_messages + one);
                lemma_encodings_concat(old_messages, one);
                assert(one.skip(1) =~= Seq::empty());
                assert(encodings(one.skip(1)) =~= Seq::empty());
                assert(encodings(one) =~= encoding(event.message));
                assert(before.unsent =~= Seq::empty());
                assert(bytes_written(earlier) + before.unsent =~= bytes_written(earlier));
                assert(before.attached =~= Seq::empty());
                assert(descriptors_written(earlier) + before.attached =~= descriptors_written(
                    earlier,
                ));
                assert(queued(events).drop_last() =~= queued(earlier));
            },
            SendEventView::Sent(n) => {
                let after = send_run(events);
                let taken = if n < before.unsent.len() {
                    before.unsent.take(n as int)
                } else {
                    before.unsent
                };
                assert(taken + after.unsent =~= before.unsent);
                assert((bytes_written(earlier) + taken) + after.unsent =~= bytes_written(earlier)
                    + (taken + after.unsent));
                assert((descriptors_written(earlier) + before.attached) + after.attached
                    =~= descriptors_written(earlier) + before.attached);
            },
            _ => {},
        }
    }
    assert(bytes_written(events) + Seq::<u8>::empty() =~= bytes_written(events));
    assert(descriptors_written(events) + Seq::<F>::empty() =~= descriptors_written(events));
    if send_run(events).phase is Idle {
        assert(send_run(events).unsent =~= Seq::empty());
        assert(send_run(events).attached =~= Seq::empty());
    }
}

/// Descriptors never trail their event: a write that attaches any attaches all
/// descriptors of the event in hand, and begins with the event's first byte.
pub proof fn law_descriptors_travel_with_first_bytes<F>(events: Seq<SendEventView<F>>)
    requires
        send_accepts_all(events),
        send_run(events).attached.len() > 0,
    ensures
        queued(events).len() > 0,
        send_run(events).attached == queued(events).last().fds,
        send_run(events).unsent == encoding(queued(events).last().message),
    decreases events.len(),
{
    if events.len() > 0 {
        let earlier = events.drop_last();
        match events.last() {
            SendEventView::Event(_) | SendEventView::Sent(_) => {},
            _ => {
                law_descriptors_travel_with_first_bytes(earlier);
            },
        }
    }
}

/// Once the client's token is cancelled, nothing more is written to it.
pub proof fn law_cancelled_writer_stops<F>(events: Seq<SendEventView<F>>)
    requires
        send_accepts_all(events),
        events.len() > 0,
        events.last() is Cancelled,
    ensures
        send_next(send_run(events.drop_last()), events.last()).1 is Finish,
        send_run(events).phase is Finished,
        forall|event: SendEventView<F>| !send_accepts(send_run(events), event),
{
}

/// A client that frames the bytes it was sent finds the messages of the queued
/// events, in order, up to some point, and all of them once none is in hand.
/// This is stated of events whose length fits the header's length field.
pub proof fn law_client_reads_back_the_events<F>(events: Seq<SendEventView<F>>)
    requires
        send_accepts_all(events),
        forall|i: int|
            0 <= i < queued(events).len() ==> fits_length_field(
                (#[trigger] queued(events)[i]).message,
            ),
    ensures
        framing(bytes_written(events)).messages.is_prefix_of(messages_of(queued(events))),
        send_run(events).phase is Idle ==> framing(bytes_written(events)).messages == messages_of(
            queued(events),
        ) && framing(bytes_written(events)).rest.len() == 0,
{
    law_events_are_written_in_order(events);
    let messages = messages_of(queued(events));
    let written = bytes_written(events);
    let unsent = send_run(events).unsent;
    assert forall|i: int| 0 <= i < messages.len() implies fits_length_field(
        #[trigger] messages[i],
    ) by {
        assert(messages[i] == queued(events)[i].message);
    }
    law_written_messages_are_read_back(messages, Seq::empty());
    assert(encodings(messages) + Seq::<u8>::empty() =~= encodings(messages));
    assert(messages + framing(Seq::empty()).messages =~= messages);
    law_framing_ignores_splits(written, unsent);
    assert(framing(written).messages.is_prefix_of(messages));
}

/// A writer begins with nothing in hand.
pub proof fn law_idle_writer_has_nothing_in_hand<F>()
    ensures
        idle::<F>().unsent.len() == 0,
        idle::<F>().attached.len() == 0,
        idle::<F>().phase is Idle,
{
}

/// Every answer to the action that is out is accepted, and no other event is.
/// An event of any length that a 32 bit number can hold is taken from the
/// queue.
pub proof fn law_writer_takes_every_answer<F>(s: SendState<F>, event: SendEventView<F>)
    ensures
        s.phase is Idle ==> (send_accepts(s, event) <==> {
            ||| event matches SendEventView::Event(queued) && 8 + queued.message.args.len()
                < 0x1_0000_0000
            ||| event is QueueClosed
            ||| event is Cancelled
        }),
        s.phase is Waiting ==> (send_accepts(s, event) <==> event is Writable
            || event is Cancelled || event is WaitFailed),
        s.phase is Writing ==> (send_accepts(s, event) <==> event is Sent || event is WouldBlock
            || event is SendFailed),
        s.phase is Finished ==> !send_accepts(s, event),
{
}

/// The phase tells which action is out.
pub proof fn law_writer_phase_is_that_of_its_action<F>(s: SendState<F>, event: SendEventView<F>)
    requires
        send_accepts(s, event),
    ensures
        ({
            let (t, action) = send_next(s, event);
            &&& action is NextEvent <==> t.phase is Idle
            &&& action is WaitWritable <==> t.phase is Waiting
            &&& action is Write <==> t.phase is Writing
            &&& action is Finish <==> t.phase is Finished
        }),
{
}

/// A writer stops if and only if the queue is closed, the token is cancelled,
/// or waiting or writing failed.
pub proof fn law_writer_stops_only_for_a_reason<F>(s: SendState<F>, event: SendEventView<F>)
    requires
        send_accepts(s, event),
    ensures
        send_next(s, event).1 is Finish <==> event is QueueClosed || event is Cancelled
            || event is WaitFailed || event is SendFailed,
{
}

/// An event of any length is taken in hand whole: all its bytes and all its
/// descriptors are to be written.
pub proof fn law_writer_takes_an_event_in_hand<F>(s: SendState<F>, event: EventView<F>)
    requires
        send_accepts(s, SendEventView::Event(event)),
    ensures
        ({
            let (t, action) = send_next(s, SendEventView::Event(event));
            let b = t.unsent;
            &&& action is WaitWritable
            &&& b.len() == 8 + event.message.args.len()
            &&& b[0] + 0x100 * b[1] + 0x1_0000 * b[2] + 0x100_0000 * b[3]
                == event.message.object_id
            &&& b[4] + 0x100 * b[5] == event.message.op_code
            &&& b[6] + 0x100 * b[7] == (8 + event.message.args.len()) % 0x1_0000
            &&& b.skip(8) == event.message.args
            &&& t.attached == event.fds
        }),
{
    crate::wire::law_message_is_encoded_by_its_fields(event.message);
}

/// Only what the socket takes leaves the hand: the front of the bytes, and all
/// descriptors with the first write that succeeds. Waiting, blocking and
/// stopping change nothing.
pub proof fn law_writer_lets_go_of_what_was_sent<F>(s: SendState<F>, event: SendEventView<F>)
    requires
        send_accepts(s, event),
        !(event is Event),
    ensures
        ({
            let (t, action) = send_next(s, event);
            match event {
                SendEventView::Sent(n) => {
                    &&& t.attached.len() == 0
                    &&& n < s.unsent.len() ==> t.unsent == s.unsent.skip(n as int) && action
                        is WaitWritable
                    &&& n >= s.unsent.len() ==> t.unsent.len() == 0 && action is NextEvent
                },
                _ => {
                    &&& t.unsent == s.unsent
                    &&& t.attached == s.attached
                    &&& event is Writable <==> action is Write
                    &&& event is WouldBlock <==> action is WaitWritable
                },
            }
        }),
{
}

/// A writer goes on for as long as nothing stops it.
pub proof fn law_writer_goes_on<F>(events: Seq<SendEventView<F>>)
    requires
        send_accepts_all(events),
        forall|i: int|
            #![trigger events[i]]
            0 <= i < events.len() ==> !(events[i] is QueueClosed) && !(events[i] is Cancelled)
                && !(events[i] is WaitFailed) && !(events[i] is SendFailed),
    ensures
        !(send_run(events).phase is Finished),
    decreases events.len(),
{
    if events.len() > 0 {
        let earlier = events.drop_last();
        assert forall|i: int| #![trigger earlier[i]] 0 <= i < earlier.len() implies !(earlier[i]
            is QueueClosed) && !(earlier[i] is Cancelled) && !(earlier[i] is WaitFailed) && !(
        earlier[i] is SendFailed) by {
            assert(earlier[i] == events[i]);
        }
        law_writer_goes_on(earlier);
        assert(events.last() == events[events.len() - 1]);
    }
}

/// An event that is queued while none is in hand, on a socket that takes all
/// bytes, is written whole, and the next event is waited for.
pub proof fn law_queued_event_is_written<F>(
    events: Seq<SendEventView<F>>,
    event: EventView<F>,
    n: nat,
)
    requires
        send_accepts_all(events),
        send_run(events).phase is Idle,
        8 + event.message.args.len() < 0x1_0000_0000,
        n >= 8 + event.message.args.len(),
    ensures
        ({
            let after = events.push(SendEventView::Event(event)).push(
                SendEventView::Writable,
            ).push(SendEventView::Sent(n));
            &&& send_accepts_all(after)
            &&& send_run(after).phase is Idle
            &&& bytes_written(after) == bytes_written(events) + encoding(event.message)
            &&& descriptors_written(after) == descriptors_written(events) + event.fds
        }),
{
    let e1 = events.push(SendEventView::Event(event));
    let e2 = e1.push(SendEventView::Writable);
    let e3 = e2.push(SendEventView::Sent(n));
    assert(e1.drop_last() =~= events);
    assert(e2.drop_last() =~= e1);
    assert(e3.drop_last() =~= e2);
    crate::wire::law_message_is_encoded_by_its_fields(event.message);
    assert(send_accepts_all(e1));
    assert(send_accepts_all(e2));
    assert(send_accepts_all(e3));
    assert(bytes_written(e1) == bytes_written(events));
    assert(bytes_written(e2) == bytes_written(events));
    assert(descriptors_written(e1) == descriptors_written(events));
    assert(descriptors_written(e2) == descriptors_written(events));
}

} // verus!
