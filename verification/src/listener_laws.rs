//! What holds of a listening socket from its first event to its last.

use crate::listener::listener_accepts;
use crate::listener::listener_next;
use crate::listener::new_listener;
use crate::listener::ListenerActionView;
use crate::listener::ListenerEventView;
use crate::listener::ListenerPhase;
use crate::listener::ListenerState;
use crate::naming::grants;
use crate::naming::lock_name;
use crate::naming::LockAttempt;
use crate::naming_laws::law_released_name_can_be_claimed;
use crate::naming_laws::obeys_locks;
use vstd::prelude::*;

verus! {

/// A listening socket after some events, and all actions so far.
pub open spec fn listener_run<E>(
    requested: Option<Seq<char>>,
    events: Seq<ListenerEventView<E>>,
) -> (ListenerState, Seq<ListenerActionView<E>>)
    decreases events.len(),
{
    if events.len() == 0 {
        let first = new_listener(requested);
        (first.0, seq![first.1])
    } else {
        let before = listener_run(requested, events.drop_last());
        let after = listener_next(before.0, events.last());
        (after.0, before.1.push(after.1))
    }
}

/// Each event answers the action before it.
pub open spec fn listener_accepts_all<E>(
    requested: Option<Seq<char>>,
    events: Seq<ListenerEventView<E>>,
) -> bool
    decreases events.len(),
{
    events.len() == 0 || {
        &&& listener_accepts_all(requested, events.drop_last())
        &&& listener_accepts(listener_run(requested, events.drop_last()).0, events.last())
    }
}

/// The names that were reported ready, in order.
pub open spec fn reports<E>(actions: Seq<ListenerActionView<E>>) -> Seq<Seq<char>>
    decreases actions.len(),
{
    if actions.len() == 0 {
        Seq::empty()
    } else {
        match actions.last() {
            ListenerActionView::Report(path) => reports(actions.drop_last()).push(path),
            _ => reports(actions.drop_last()),
        }
    }
}

/// How many clients connected.
pub open spec fn clients_accepted<E>(events: Seq<ListenerEventView<E>>) -> nat
    decreases events.len(),
{
    if events.len() == 0 {
        0
    } else {
        clients_accepted(events.drop_last()) + (if events.last() is Accepted {
            1nat
        } else {
            0
        })
    }
}

/// How many clients were to be given an id and tasks.
pub open spec fn clients_admitted<E>(actions: Seq<ListenerActionView<E>>) -> nat
    decreases actions.len(),
{
    if actions.len() == 0 {
        0
    } else {
        clients_admitted(actions.drop_last()) + (if actions.last() is Admit {
            1nat
        } else {
            0
        })
    }
}

/// The socket listens, or did.
pub open spec fn has_listened(phase: ListenerPhase) -> bool {
    match phase {
        ListenerPhase::Reporting
        | ListenerPhase::Accepting
        | ListenerPhase::Admitting
        | ListenerPhase::Draining
        | ListenerPhase::Removing => true,
        _ => false,
    }
}

/// Reports and the outcome, as they are in each phase.
proof fn lemma_reports<E>(requested: Option<Seq<char>>, events: Seq<ListenerEventView<E>>)
    requires
        listener_accepts_all(requested, events),
    ensures
        ({
            let run = listener_run(requested, events);
            let finished_well = run.1.last() == ListenerActionView::<E>::Finish(Ok(()));
            &&& run.1.len() == events.len() + 1
            &&& run.0.phase is Finished <==> run.1.last() is Finish
            &&& reports(run.1) == (if has_listened(run.0.phase) || finished_well {
                seq![run.0.socket_path]
            } else {
                Seq::empty()
            })
        }),
    decreases events.len(),
{
    if events.len() > 0 {
        lemma_reports(requested, events.drop_last());
        let before = listener_run(requested, events.drop_last());
        let after = listener_next(before.0, events.last());
        assert(before.1.push(after.1).drop_last() =~= before.1);
        assert(reports(before.1).push(before.0.socket_path) =~= reports(before.1) + seq![
            before.0.socket_path,
        ]);
        assert(Seq::<Seq<char>>::empty().push(before.0.socket_path) =~= seq![
            before.0.socket_path,
        ]);
    } else {
        reveal_with_fuel(reports, 2);
    }
}

/// The name is reported once the socket listens and not before, before any
/// client is waited for, and only once. It is the name that was asked for, unchanged, or the
/// one that was found.
pub proof fn law_name_is_reported_once<E>(
    requested: Option<Seq<char>>,
    events: Seq<ListenerEventView<E>>,
)
    requires
        listener_accepts_all(requested, events),
    ensures
        ({
            let run = listener_run(requested, events);
            &&& reports(run.1).len() <= 1
            &&& reports(run.1).len() == 1 <==> has_listened(run.0.phase) || run.1.last()
                == ListenerActionView::<E>::Finish(Ok(()))
            &&& reports(run.1).len() == 1 ==> {
                &&& requested matches Some(path) ==> reports(run.1)[0] == path
                &&& requested is None ==> events[0] == (ListenerEventView::<E>::Named {
                    socket_path: reports(run.1)[0],
                })
            }
        }),
{
    lemma_reports(requested, events);
    lemma_name(requested, events);
}

/// A listener has the name that was asked for, or the one that was found.
proof fn lemma_name<E>(requested: Option<Seq<char>>, events: Seq<ListenerEventView<E>>)
    requires
        listener_accepts_all(requested, events),
    ensures
        ({
            let run = listener_run(requested, events);
            let searched = events.len() > 0 && events[0] is Named;
            &&& requested matches Some(path) ==> run.0.socket_path == path && !(run.0.phase
                is Searching)
            &&& requested is None ==> !(run.0.phase is Claiming) && (run.0.phase is Searching
                <==> events.len() == 0)
            &&& requested is None && searched ==> events[0] == (ListenerEventView::<E>::Named {
                socket_path: run.0.socket_path,
            })
            &&& requested is None && !searched ==> run.0.phase is Searching || (run.0.phase
                is Finished && run.1.last() matches ListenerActionView::Finish(Err(_)))
        }),
    decreases events.len(),
{
    if events.len() > 0 {
        lemma_name(requested, events.drop_last());
        if events.len() > 1 {
            assert(events.drop_last()[0] == events[0]);
        }
    }
}

/// A listener that stops has succeeded if and only if it came to listen, and
/// else fails with the error of the step that failed.
pub proof fn law_outcome_is_that_of_the_setup<E>(
    requested: Option<Seq<char>>,
    events: Seq<ListenerEventView<E>>,
)
    requires
        listener_accepts_all(requested, events),
        listener_run(requested, events).0.phase is Finished,
    ensures
        ({
            let actions = listener_run(requested, events).1;
            &&& events.len() > 0
            &&& match events.last() {
                ListenerEventView::Failed(error) => {
                    &&& actions.last() == ListenerActionView::<E>::Finish(Err(error))
                    &&& reports(actions).len() == 0
                },
                _ => {
                    &&& actions.last() == ListenerActionView::<E>::Finish(Ok(()))
                    &&& reports(actions).len() == 1
                },
            }
        }),
{
    lemma_reports(requested, events);
    if events.len() > 0 {
        lemma_reports(requested, events.drop_last());
    }
}

/// A listener that came to listen stops only after waiting for a client failed
/// or was cancelled. Then it waits for the tasks of all clients to end, and
/// then it removes the socket file.
pub proof fn law_shutdown_waits_for_clients<E>(
    requested: Option<Seq<char>>,
    events: Seq<ListenerEventView<E>>,
)
    requires
        listener_accepts_all(requested, events),
        listener_run(requested, events).1.last() == ListenerActionView::<E>::Finish(Ok(())),
    ensures
        ({
            let actions = listener_run(requested, events).1;
            let n = actions.len();
            &&& n >= 4
            &&& events.len() == n - 1
            &&& actions[n - 4] is Accept
            &&& events[n - 4] is AcceptFailed || events[n - 4] is Cancelled
            &&& actions[n - 3] is Drain
            &&& actions[n - 2] is Remove
        }),
{
    reveal_with_fuel(listener_accepts_all, 4);
    lemma_reports(requested, events);
    let e1 = events.drop_last();
    assert(listener_run(requested, e1).0.phase is Removing);
    assert(e1.len() > 0);
    lemma_reports(requested, e1);
    lemma_last_action(requested, e1);
    let e2 = e1.drop_last();
    assert(listener_run(requested, e2).0.phase is Draining);
    assert(e2.len() > 0);
    lemma_reports(requested, e2);
    lemma_last_action(requested, e2);
    let e3 = e2.drop_last();
    assert(listener_run(requested, e3).0.phase is Accepting);
    lemma_reports(requested, e3);
    lemma_last_action(requested, e3);
}

/// The last action is the one that belongs to the phase.
proof fn lemma_last_action<E>(requested: Option<Seq<char>>, events: Seq<ListenerEventView<E>>)
    requires
        listener_accepts_all(requested, events),
    ensures
        ({
            let run = listener_run(requested, events);
            &&& run.0.phase is Accepting <==> run.1.last() is Accept
            &&& run.0.phase is Draining <==> run.1.last() is Drain
            &&& run.0.phase is Removing <==> run.1.last() is Remove
        }),
{
}

/// Every client that connected is given an id and tasks.
pub proof fn law_every_client_is_admitted<E>(
    requested: Option<Seq<char>>,
    events: Seq<ListenerEventView<E>>,
)
    requires
        listener_accepts_all(requested, events),
    ensures
        clients_admitted(listener_run(requested, events).1) == clients_accepted(events),
    decreases events.len(),
{
    if events.len() > 0 {
        law_every_client_is_admitted(requested, events.drop_last());
        let before = listener_run(requested, events.drop_last());
        let after = listener_next(before.0, events.last());
        assert(before.1.push(after.1).drop_last() =~= before.1);
    } else {
        reveal_with_fuel(clients_admitted, 2);
    }
}

/// The file under the name is removed, or a socket bound to it, only once the
/// name is claimed. If the claim fails, the listener does nothing more.
pub proof fn law_file_is_touched_only_under_a_claim<E>(
    requested: Option<Seq<char>>,
    events: Seq<ListenerEventView<E>>,
)
    requires
        listener_accepts_all(requested, events),
    ensures
        ({
            let actions = listener_run(requested, events).1;
            &&& forall|i: int|
                #![trigger actions[i]]
                0 <= i < actions.len() && (actions[i] is Clear || actions[i] is Bind
                    || actions[i] is Remove) ==> {
                    &&& events.len() > 0
                    &&& events[0] is Done || events[0] is Named
                }
            &&& events.len() > 0 && events[0] is Failed ==> {
                &&& actions.len() == 2
                &&& actions[1] == ListenerActionView::<E>::Finish(Err(events[0]->Failed_0))
            }
        }),
    decreases events.len(),
{
    let run = listener_run(requested, events);
    if events.len() > 0 {
        let earlier = events.drop_last();
        law_file_is_touched_only_under_a_claim(requested, earlier);
        lemma_reports(requested, events);
        lemma_reports(requested, earlier);
        let before = listener_run(requested, earlier);
        if earlier.len() > 0 {
            assert(earlier[0] == events[0]);
            lemma_first_event(requested, earlier);
        }
        assert forall|i: int|
            #![trigger run.1[i]]
            0 <= i < run.1.len() && (run.1[i] is Clear || run.1[i] is Bind
                || run.1[i] is Remove) implies events[0] is Done || events[0] is Named by {
            if i < before.1.len() {
                assert(run.1[i] == before.1[i]);
            }
        }
    }
}

/// The first event is the answer to the claim.
proof fn lemma_first_event<E>(requested: Option<Seq<char>>, events: Seq<ListenerEventView<E>>)
    requires
        listener_accepts_all(requested, events),
        events.len() > 0,
    ensures
        events[0] is Done || events[0] is Named || events[0] is Failed,
        events[0] is Failed ==> events.len() == 1 && listener_run(requested, events).0.phase
            is Finished,
    decreases events.len(),
{
    if events.len() > 1 {
        assert(events.drop_last()[0] == events[0]);
        lemma_first_event(requested, events.drop_last());
    } else {
        assert(listener_run(requested, events.drop_last()).0 == new_listener::<E>(requested).0);
    }
}

/// The answers of a setup in which no step fails: the name is claimed, a file
/// is left over under it or not, and all else is performed.
pub open spec fn unhindered_setup<E>(
    claimed: ListenerEventView<E>,
    left_over: bool,
) -> Seq<ListenerEventView<E>> {
    if left_over {
        seq![
            claimed,
            ListenerEventView::Found(true),
            ListenerEventView::Done,
            ListenerEventView::Done,
            ListenerEventView::Done,
        ]
    } else {
        seq![
            claimed,
            ListenerEventView::Found(false),
            ListenerEventView::Done,
            ListenerEventView::Done,
        ]
    }
}

/// A listener whose name is claimed and of whose setup no step fails comes up
/// and reports the name, whether or not a file was left over under it.
pub proof fn law_unhindered_setup_comes_up<E>(
    requested: Option<Seq<char>>,
    claimed: ListenerEventView<E>,
    left_over: bool,
)
    requires
        listener_accepts(new_listener::<E>(requested).0, claimed),
        !(claimed is Failed),
    ensures
        ({
            let events = unhindered_setup(claimed, left_over);
            let name = match requested {
                Some(path) => path,
                None => claimed->socket_path,
            };
            let run = listener_run(requested, events);
            &&& listener_accepts_all(requested, events)
            &&& run.0.phase is Reporting
            &&& run.1.last() == ListenerActionView::<E>::Report(name)
        }),
{
    reveal_with_fuel(listener_run, 6);
    reveal_with_fuel(listener_accepts_all, 6);
    let events = unhindered_setup(claimed, left_over);
    let e1 = seq![claimed];
    let e2 = e1.push(ListenerEventView::Found(left_over));
    let e3 = e2.push(ListenerEventView::Done);
    let e4 = e3.push(ListenerEventView::Done);
    let e5 = e4.push(ListenerEventView::Done);
    assert(e1.drop_last() =~= Seq::empty());
    assert(e2.drop_last() =~= e1);
    assert(e3.drop_last() =~= e2);
    assert(e4.drop_last() =~= e3);
    assert(e5.drop_last() =~= e4);
    assert(listener_accepts_all(requested, e1));
    assert(listener_accepts_all(requested, e2));
    assert(listener_accepts_all(requested, e3));
    assert(listener_accepts_all(requested, e4));
    if left_over {
        assert(events =~= e5);
    } else {
        assert(events =~= e4);
    }
}

/// Whether a file stands under the name after some actions, if each of them
/// does what it is for.
pub open spec fn file_stands<E>(left_over: bool, actions: Seq<ListenerActionView<E>>) -> bool
    decreases actions.len(),
{
    if actions.len() == 0 {
        left_over
    } else {
        match actions.last() {
            ListenerActionView::Bind => true,
            ListenerActionView::Clear | ListenerActionView::Remove => false,
            _ => file_stands(left_over, actions.drop_last()),
        }
    }
}

/// A listener that came to listen and stopped leaves no file under its name,
/// unless removing it failed.
pub proof fn law_shutdown_leaves_no_file<E>(
    requested: Option<Seq<char>>,
    events: Seq<ListenerEventView<E>>,
    left_over: bool,
)
    requires
        listener_accepts_all(requested, events),
        listener_run(requested, events).1.last() == ListenerActionView::<E>::Finish(Ok(())),
    ensures
        !file_stands(left_over, listener_run(requested, events).1),
{
    law_shutdown_waits_for_clients(requested, events);
    reveal_with_fuel(file_stands, 2);
}

/// A name can be used again: once a listener has stopped and given up its
/// lock, no file stands under the name, the lock is granted, and a second
/// listener of whose setup no step fails comes up under it.
pub proof fn law_name_can_be_used_again<E, L>(
    socket_path: Seq<char>,
    events: Seq<ListenerEventView<E>>,
    left_over: bool,
    held: Set<Seq<char>>,
    attempt: LockAttempt<L>,
)
    requires
        listener_accepts_all(Some(socket_path), events),
        listener_run(Some(socket_path), events).1.last() == ListenerActionView::<E>::Finish(
            Ok(()),
        ),
        obeys_locks(held.remove(lock_name(socket_path)), socket_path, attempt),
    ensures
        ({
            let found = file_stands(left_over, listener_run(Some(socket_path), events).1);
            let again = unhindered_setup(ListenerEventView::<E>::Done, found);
            &&& !found
            &&& grants(attempt)
            &&& listener_accepts_all(Some(socket_path), again)
            &&& listener_run(Some(socket_path), again).1.last() == ListenerActionView::<
                E,
            >::Report(socket_path)
        }),
{
    law_shutdown_leaves_no_file(Some(socket_path), events, left_over);
    law_released_name_can_be_claimed(held, socket_path, attempt);
    law_unhindered_setup_comes_up(Some(socket_path), ListenerEventView::<E>::Done, false);
}

/// A listener begins by claiming the very name that was asked for, or else by
/// searching for one.
pub proof fn law_listener_begins_with_its_name<E>(path: Seq<char>)
    ensures
        ({
            let (s, action) = new_listener::<E>(Some(path));
            &&& action == ListenerActionView::<E>::Claim(path)
            &&& s.socket_path == path
            &&& s.phase is Claiming
        }),
        new_listener::<E>(None).0.socket_path.len() == 0,
        new_listener::<E>(None).1 is Search,
        new_listener::<E>(None).0.phase is Searching,
{
}

/// Every answer to the action that is out is accepted, whatever the name is,
/// and no other event is.
pub proof fn law_listener_takes_every_answer<E>(s: ListenerState, event: ListenerEventView<E>)
    ensures
        s.phase is Claiming || s.phase is Clearing || s.phase is Binding || s.phase is Opening
            ==> (listener_accepts(s, event) <==> event is Done || event is Failed),
        s.phase is Searching ==> (listener_accepts(s, event) <==> event is Named
            || event is Failed),
        s.phase is Inspecting ==> (listener_accepts(s, event) <==> event is Found),
        s.phase is Reporting || s.phase is Admitting || s.phase is Draining || s.phase is Removing
            ==> (listener_accepts(s, event) <==> event is Done),
        s.phase is Accepting ==> (listener_accepts(s, event) <==> event is Accepted
            || event is AcceptFailed || event is Cancelled),
        s.phase is Finished ==> !listener_accepts(s, event),
{
}

/// The phase tells which action is out.
pub proof fn law_listener_phase_is_that_of_its_action<E>(
    s: ListenerState,
    event: ListenerEventView<E>,
)
    requires
        listener_accepts(s, event),
    ensures
        ({
            let (t, action) = listener_next(s, event);
            &&& action is Inspect <==> t.phase is Inspecting
            &&& action is Clear <==> t.phase is Clearing
            &&& action is Bind <==> t.phase is Binding
            &&& action is Listen <==> t.phase is Opening
            &&& action is Report <==> t.phase is Reporting
            &&& action is Accept <==> t.phase is Accepting
            &&& action is Admit <==> t.phase is Admitting
            &&& action is Drain <==> t.phase is Draining
            &&& action is Remove <==> t.phase is Removing
            &&& action is Finish <==> t.phase is Finished
            &&& !(action is Claim)
            &&& !(action is Search)
        }),
{
}

/// The setup goes on step by step, whatever the name is: a file is looked for
/// once the name is claimed, removed if and only if it is there, then the
/// socket is bound, made to listen with room for 1024 pending clients, and
/// reported under its name.
pub proof fn law_setup_goes_step_by_step<E>(s: ListenerState, event: ListenerEventView<E>)
    requires
        listener_accepts(s, event),
    ensures
        ({
            let (t, action) = listener_next(s, event);
            &&& t.socket_path == (match event {
                ListenerEventView::Named { socket_path } => socket_path,
                _ => s.socket_path,
            })
            &&& action is Inspect <==> event is Named || (event is Done && s.phase is Claiming)
            &&& action is Clear <==> event == ListenerEventView::<E>::Found(true)
            &&& action is Bind <==> event == ListenerEventView::<E>::Found(false) || (event
                is Done && s.phase is Clearing)
            &&& action is Listen <==> event is Done && s.phase is Binding
            &&& action matches ListenerActionView::Listen { backlog } ==> backlog == 1024
            &&& action is Report <==> event is Done && s.phase is Opening
            &&& action matches ListenerActionView::Report(path) ==> path == s.socket_path
        }),
{
}

/// Clients are waited for once the name was reported and after each client is
/// admitted, and each client that connects is admitted. Whatever the name is,
/// a cancellation or a failure to accept, and nothing else, brings the
/// shutdown: the clients' tasks are waited for, the file is removed, and the
/// listener succeeds. It fails if and only if a step of the setup failed, with
/// the error of that step.
pub proof fn law_listener_serves_until_told_to_stop<E>(
    s: ListenerState,
    event: ListenerEventView<E>,
)
    requires
        listener_accepts(s, event),
    ensures
        ({
            let action = listener_next(s, event).1;
            &&& action is Accept <==> event is Done && (s.phase is Reporting || s.phase
                is Admitting)
            &&& action is Admit <==> event is Accepted
            &&& action is Drain <==> event is Cancelled || event is AcceptFailed
            &&& action is Remove <==> event is Done && s.phase is Draining
            &&& action is Finish <==> event is Failed || (event is Done && s.phase is Removing)
            &&& event matches ListenerEventView::Failed(error) ==> action
                == ListenerActionView::Finish(Err(error))
            &&& event is Done && s.phase is Removing ==> action == ListenerActionView::<
                E,
            >::Finish(Ok(()))
        }),
{
}

/// A listener that is told to stop shuts down: it waits for its clients'
/// tasks, removes its file and succeeds.
pub proof fn law_cancelled_listener_shuts_down<E>(
    requested: Option<Seq<char>>,
    events: Seq<ListenerEventView<E>>,
)
    requires
        listener_accepts_all(requested, events),
        events.len() > 0,
        events.last() is Cancelled || events.last() is AcceptFailed,
    ensures
        ({
            let done = ListenerEventView::<E>::Done;
            let drained = events.push(done);
            let removed = drained.push(done);
            &&& listener_run(requested, events).1.last() is Drain
            &&& listener_accepts_all(requested, drained)
            &&& listener_run(requested, drained).1.last() is Remove
            &&& listener_accepts_all(requested, removed)
            &&& listener_run(requested, removed).1.last() == ListenerActionView::<E>::Finish(
                Ok(()),
            )
        }),
{
    let done = ListenerEventView::<E>::Done;
    let drained = events.push(done);
    let removed = drained.push(done);
    assert(drained.drop_last() =~= events);
    assert(removed.drop_last() =~= drained);
    assert(listener_accepts_all(requested, drained));
    assert(listener_accepts_all(requested, removed));
}

/// A listener that listens stays up while it is not told to stop and waiting
/// for clients does not fail.
pub proof fn law_listener_stays_up<E>(
    requested: Option<Seq<char>>,
    events: Seq<ListenerEventView<E>>,
)
    requires
        listener_accepts_all(requested, events),
        forall|i: int|
            #![trigger events[i]]
            0 <= i < events.len() ==> !(events[i] is Failed) && !(events[i] is Cancelled) && !(
            events[i] is AcceptFailed),
    ensures
        ({
            let phase = listener_run(requested, events).0.phase;
            !(phase is Draining) && !(phase is Removing) && !(phase is Finished)
        }),
    decreases events.len(),
{
    if events.len() > 0 {
        let earlier = events.drop_last();
        assert forall|i: int| #![trigger earlier[i]] 0 <= i < earlier.len() implies !(earlier[i]
            is Failed) && !(earlier[i] is Cancelled) && !(earlier[i] is AcceptFailed) by {
            assert(earlier[i] == events[i]);
        }
        law_listener_stays_up(requested, earlier);
        assert(events.last() == events[events.len() - 1]);
    }
}

} // verus!
