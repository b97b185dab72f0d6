//! The life of a listening socket.
//!
//! [`Listener`] decides what happens next. The caller performs each action
//! that it asks for and answers with the event that came of it. [`ClientIds`]
//! gives out the ids of clients, and [`retain_running`] keeps track of the
//! clients' tasks.

use vstd::prelude::*;

verus! {

/// Maximum number of pending clients on the unix socket
pub const SOCKET_CLIENT_BACKLOG: u32 = 1024;

/// The id of the first client
pub const FIRST_CLIENT_ID: u32 = 1;

/// The id that follows an id. Behind the greatest, ids begin again at zero.
pub open spec fn following_id(id: u32) -> u32 {
    if id == u32::MAX {
        0
    } else {
        (id + 1) as u32
    }
}

/// The client ID counter, assigned as clients connect
pub struct ClientIds {
    next: u32,
}

impl View for ClientIds {
    type V = u32;

    closed spec fn view(&self) -> u32 {
        self.next
    }
}

impl ClientIds {
    /// A counter that has given out no id.
    pub fn new() -> (ids: ClientIds)
        ensures
            ids@ == FIRST_CLIENT_ID,
            ids@ == 1,
    {
        ClientIds { next: FIRST_CLIENT_ID }
    }

    /// Give out the next id.
    pub fn assign(&mut self) -> (id: u32)
        ensures
            id == old(self)@,
            final(self)@ == following_id(old(self)@),
            final(self)@ == (old(self)@ + 1) % 0x1_0000_0000,
    {
        let id: u32 = self.next;
        self.next = id.wrapping_add(1);
        id
    }
}

/// The id that a counter gives out after it has given out `n`.
pub open spec fn nth_client_id(n: nat) -> u32
    decreases n,
{
    if n == 0 {
        FIRST_CLIENT_ID
    } else {
        following_id(nth_client_id((n - 1) as nat))
    }
}

/// Ids are given out in order, from one, each the next higher number. Behind
/// the greatest number of 32 bits they begin again at zero.
pub proof fn law_client_ids_count_up(n: nat)
    ensures
        nth_client_id(n) == (1 + n) % 0x1_0000_0000,
        n < u32::MAX ==> nth_client_id(n) == 1 + n,
    decreases n,
{
    if n > 0 {
        law_client_ids_count_up((n - 1) as nat);
    }
}

/// Two clients have different ids unless 2^32 clients or more lie between
/// them.
pub proof fn law_client_ids_are_distinct(i: nat, j: nat)
    requires
        i < j < i + 0x1_0000_0000,
    ensures
        nth_client_id(i) != nth_client_id(j),
{
    law_client_ids_count_up(i);
    law_client_ids_count_up(j);
}

/// The tasks that have not finished, in order.
pub open spec fn running<H>(handles: Seq<H>, finished: Seq<bool>) -> Seq<H>
    recommends
        handles.len() == finished.len(),
    decreases handles.len(),
{
    if handles.len() == 0 {
        Seq::empty()
    } else {
        let others = running(handles.skip(1), finished.skip(1));
        if finished[0] {
            others
        } else {
            seq![handles[0]] + others
        }
    }
}

/// Forget the tasks that have finished, by a mark for each task that says
/// whether it has.
pub fn retain_running<H>(handles: &mut Vec<H>, finished: &Vec<bool>)
    requires
        old(handles)@.len() == finished@.len(),
    ensures
        final(handles)@ == running(old(handles)@, finished@),
{
    let ghost all = handles@;
    let mut i: usize = finished.len();
    assert(all.take(i as int) + running(all.skip(i as int), finished@.skip(i as int)) =~= all);
    while i > 0
        invariant
            i <= all.len() == finished@.len(),
            handles@ == all.take(i as int) + running(
                all.skip(i as int),
                finished@.skip(i as int),
            ),
        decreases i,
    {
        let ghost others = running(all.skip(i as int), finished@.skip(i as int));
        i = i - 1;
        assert(all.skip(i as int).skip(1) =~= all.skip(i + 1));
        assert(finished@.skip(i as int).skip(1) =~= finished@.skip(i + 1));
        if finished[i] {
            handles.remove(i);
            assert(handles@ =~= all.take(i as int) + others);
        } else {
            assert(handles@ =~= all.take(i as int) + (seq![all[i as int]] + others));
        }
    }
    assert(all.skip(0) =~= all);
    assert(finished@.skip(0) =~= finished@);
    assert(handles@ =~= running(all, finished@));
}

/// Which tasks are kept is decided for each by its own mark alone, and their
/// order stays.
pub proof fn law_each_task_is_kept_by_its_own_mark<H>(
    a: Seq<H>,
    marks: Seq<bool>,
    h: H,
    finished: bool,
)
    requires
        a.len() == marks.len(),
    ensures
        running(Seq::<H>::empty(), Seq::empty()).len() == 0,
        running(a.push(h), marks.push(finished)) == (if finished {
            running(a, marks)
        } else {
            running(a, marks).push(h)
        }),
    decreases a.len(),
{
    let all = a.push(h);
    let all_marks = marks.push(finished);
    if a.len() == 0 {
        assert(all.skip(1) =~= Seq::empty());
        assert(running(all.skip(1), all_marks.skip(1)) =~= Seq::empty());
        assert(running(a, marks) =~= Seq::empty());
        assert(running(all, all_marks) =~= (if finished {
            running(a, marks)
        } else {
            running(a, marks).push(h)
        }));
    } else {
        law_each_task_is_kept_by_its_own_mark(a.skip(1), marks.skip(1), h, finished);
        assert(all.skip(1) =~= a.skip(1).push(h));
        assert(all_marks.skip(1) =~= marks.skip(1).push(finished));
        assert(running(all, all_marks) =~= (if finished {
            running(a, marks)
        } else {
            running(a, marks).push(h)
        }));
    }
}

/// The id that follows an id is the next higher number of 32 bits.
pub proof fn law_following_id_is_the_next_number(id: u32)
    ensures
        following_id(id) == (id + 1) % 0x1_0000_0000,
{
}

/// A task is forgotten only once it has finished.
pub proof fn law_unfinished_tasks_are_kept<H>(handles: Seq<H>, finished: Seq<bool>, i: int)
    requires
        handles.len() == finished.len(),
        0 <= i < handles.len(),
        !finished[i],
    ensures
        running(handles, finished).contains(handles[i]),
    decreases handles.len(),
{
    let others = running(handles.skip(1), finished.skip(1));
    let kept = running(handles, finished);
    if i == 0 {
        assert(kept[0] == handles[0]);
    } else {
        law_unfinished_tasks_are_kept(handles.skip(1), finished.skip(1), i - 1);
        assert(handles.skip(1)[i - 1] == handles[i]);
        let at = choose|at: int| 0 <= at < others.len() && others[at] == handles[i];
        if finished[0] {
            assert(kept[at] == handles[i]);
        } else {
            assert(kept[at + 1] == handles[i]);
        }
    }
}

/// How far a listening socket has come.
#[derive(Clone, Copy, Debug, PartialEq, Eq, Structural)]
pub enum ListenerPhase {
    /// The name that was asked for is being claimed
    Claiming,
    /// A name is being searched for
    Searching,
    /// Looking whether a file is left over under the name
    Inspecting,
    /// The file that was left over is being removed
    Clearing,
    /// The socket is being made and bound to the name
    Binding,
    /// The socket is being made to listen
    Opening,
    /// The name is being reported
    Reporting,
    /// Waiting for a client
    Accepting,
    /// The tasks of a new client are being started
    Admitting,
    /// Waiting for the tasks of all clients to end
    Draining,
    /// The socket file is being removed
    Removing,
    /// There is nothing left to do
    Finished,
}

/// What came of an action.
pub enum ListenerEvent<E> {
    /// A name was found and claimed
    Named {
        /// The path of the socket
        socket_path: String,
    },
    /// The file was left over or was not
    Found(bool),
    /// The action was performed
    Done,
    /// The action failed
    Failed(E),
    /// A client connected
    Accepted,
    /// Waiting for a client failed
    AcceptFailed,
    /// The listener's token was cancelled
    Cancelled,
}

/// What the caller is to do next.
pub enum ListenerAction<E> {
    /// Claim this name
    Claim(String),
    /// Search for a name and claim it
    Search,
    /// Look whether a file is left over under the name
    Inspect,
    /// Remove the file that was left over
    Clear,
    /// Make a socket and bind it to the name
    Bind,
    /// Make the socket listen
    Listen {
        /// How many clients may be pending
        backlog: u32,
    },
    /// Report that the socket of this name is ready. Nobody needs to hear it
    Report(String),
    /// Wait for a client to connect or for the listener's token
    Accept,
    /// Give the new client an id and start its tasks
    Admit,
    /// Wait for the tasks of all clients to end
    Drain,
    /// Remove the socket file. It does not matter whether that succeeds
    Remove,
    /// Stop with this outcome
    Finish(Result<(), E>),
}

/// A listening socket as a mathematical value.
#[verifier::ext_equal]
pub struct ListenerState {
    /// The path of the socket, once it is known
    pub socket_path: Seq<char>,
    pub phase: ListenerPhase,
}

/// An event as a mathematical value.
#[verifier::ext_equal]
pub enum ListenerEventView<E> {
    Named { socket_path: Seq<char> },
    Found(bool),
    Done,
    Failed(E),
    Accepted,
    AcceptFailed,
    Cancelled,
}

/// An action as a mathematical value.
#[verifier::ext_equal]
pub enum ListenerActionView<E> {
    Claim(Seq<char>),
    Search,
    Inspect,
    Clear,
    Bind,
    Listen { backlog: nat },
    Report(Seq<char>),
    Accept,
    Admit,
    Drain,
    Remove,
    Finish(Result<(), E>),
}

impl<E> View for ListenerEvent<E> {
    type V = ListenerEventView<E>;

    open spec fn view(&self) -> ListenerEventView<E> {
        match self {
            ListenerEvent::Named { socket_path } => ListenerEventView::Named {
                socket_path: socket_path@,
            },
            ListenerEvent::Found(found) => ListenerEventView::Found(*found),
            ListenerEvent::Done => ListenerEventView::Done,
            ListenerEvent::Failed(error) => ListenerEventView::Failed(*error),
            ListenerEvent::Accepted => ListenerEventView::Accepted,
            ListenerEvent::AcceptFailed => ListenerEventView::AcceptFailed,
            ListenerEvent::Cancelled => ListenerEventView::Cancelled,
        }
    }
}

impl<E> View for ListenerAction<E> {
    type V = ListenerActionView<E>;

    open spec fn view(&self) -> ListenerActionView<E> {
        match self {
            ListenerAction::Claim(path) => ListenerActionView::Claim(path@),
            ListenerAction::Search => ListenerActionView::Search,
            ListenerAction::Inspect => ListenerActionView::Inspect,
            ListenerAction::Clear => ListenerActionView::Clear,
            ListenerAction::Bind => ListenerActionView::Bind,
            ListenerAction::Listen { backlog } => ListenerActionView::Listen {
                backlog: *backlog as nat,
            },
            ListenerAction::Report(path) => ListenerActionView::Report(path@),
            ListenerAction::Accept => ListenerActionView::Accept,
            ListenerAction::Admit => ListenerActionView::Admit,
            ListenerAction::Drain => ListenerActionView::Drain,
            ListenerAction::Remove => ListenerActionView::Remove,
            ListenerAction::Finish(outcome) => ListenerActionView::Finish(*outcome),
        }
    }
}

/// A listening socket of which nothing has happened yet, and what is to be
/// done first: claim the name that was asked for, or search for one.
pub open spec fn new_listener<E>(requested: Option<Seq<char>>) -> (
    ListenerState,
    ListenerActionView<E>,
) {
    match requested {
        Some(path) => (
            ListenerState { socket_path: path, phase: ListenerPhase::Claiming },
            ListenerActionView::Claim(path),
        ),
        None => (
            ListenerState { socket_path: Seq::empty(), phase: ListenerPhase::Searching },
            ListenerActionView::Search,
        ),
    }
}

/// Whether an event can come of the action that was last asked for.
pub open spec fn listener_accepts<E>(s: ListenerState, event: ListenerEventView<E>) -> bool {
    match s.phase {
        ListenerPhase::Claiming
        | ListenerPhase::Clearing
        | ListenerPhase::Binding
        | ListenerPhase::Opening => event is Done || event is Failed,
        ListenerPhase::Searching => event is Named || event is Failed,
        ListenerPhase::Inspecting => event is Found,
        ListenerPhase::Reporting
        | ListenerPhase::Admitting
        | ListenerPhase::Draining
        | ListenerPhase::Removing => event is Done,
        ListenerPhase::Accepting => {
            event is Accepted || event is AcceptFailed || event is Cancelled
        },
        ListenerPhase::Finished => false,
    }
}

/// The phase behind an action that was performed, and the action that
/// belongs to it.
pub open spec fn proceed<E>(s: ListenerState) -> (ListenerPhase, ListenerActionView<E>) {
    match s.phase {
        ListenerPhase::Claiming => (ListenerPhase::Inspecting, ListenerActionView::Inspect),
        ListenerPhase::Clearing => (ListenerPhase::Binding, ListenerActionView::Bind),
        ListenerPhase::Binding => (
            ListenerPhase::Opening,
            ListenerActionView::Listen { backlog: SOCKET_CLIENT_BACKLOG as nat },
        ),
        ListenerPhase::Opening => (
            ListenerPhase::Reporting,
            ListenerActionView::Report(s.socket_path),
        ),
        ListenerPhase::Reporting | ListenerPhase::Admitting => (
            ListenerPhase::Accepting,
            ListenerActionView::Accept,
        ),
        ListenerPhase::Draining => (ListenerPhase::Removing, ListenerActionView::Remove),
        _ => (ListenerPhase::Finished, ListenerActionView::Finish(Ok(()))),
    }
}

/// What a listening socket becomes upon an event, and what is to be done next.
pub open spec fn listener_next<E>(s: ListenerState, event: ListenerEventView<E>) -> (
    ListenerState,
    ListenerActionView<E>,
)
    recommends
        listener_accepts(s, event),
{
    match event {
        ListenerEventView::Named { socket_path } => (
            ListenerState { socket_path, phase: ListenerPhase::Inspecting },
            ListenerActionView::Inspect,
        ),
        ListenerEventView::Found(found) => if found {
            (ListenerState { phase: ListenerPhase::Clearing, ..s }, ListenerActionView::Clear)
        } else {
            (ListenerState { phase: ListenerPhase::Binding, ..s }, ListenerActionView::Bind)
        },
        ListenerEventView::Done => {
            let (phase, action) = proceed(s);
            (ListenerState { phase, ..s }, action)
        },
        ListenerEventView::Failed(error) => (
            ListenerState { phase: ListenerPhase::Finished, ..s },
            ListenerActionView::Finish(Err(error)),
        ),
        ListenerEventView::Accepted => (
            ListenerState { phase: ListenerPhase::Admitting, ..s },
            ListenerActionView::Admit,
        ),
        ListenerEventView::AcceptFailed | ListenerEventView::Cancelled => (
            ListenerState { phase: ListenerPhase::Draining, ..s },
            ListenerActionView::Drain,
        ),
    }
}

/// The life of a listening socket.
pub struct Listener {
    socket_path: String,
    phase: ListenerPhase,
}

impl View for Listener {
    type V = ListenerState;

    closed spec fn view(&self) -> ListenerState {
        ListenerState { socket_path: self.socket_path@, phase: self.phase }
    }
}

impl Listener {
    /// Begin to listen under the name that is asked for, or under any.
    pub fn start<E>(requested: Option<String>) -> (started: (Listener, ListenerAction<E>))
        ensures
            (started.0@, started.1@) == new_listener::<E>(
                match requested {
                    Some(path) => Some(path@),
                    None => None,
                },
            ),
    {
        match requested {
            Some(path) => (
                Listener { socket_path: path.clone(), phase: ListenerPhase::Claiming },
                ListenerAction::Claim(path),
            ),
            None => (
                Listener { socket_path: String::new(), phase: ListenerPhase::Searching },
                ListenerAction::Search,
            ),
        }
    }

    /// The path of the socket, once it is known.
    pub fn socket_path(&self) -> (path: &str)
        ensures
            path@ == self@.socket_path,
    {
        self.socket_path.as_str()
    }

    /// Whether an event can come of the action that was last asked for.
    pub fn accepts<E>(&self, event: &ListenerEvent<E>) -> (accepted: bool)
        ensures
            accepted == listener_accepts(self@, event@),
    {
        match self.phase {
            ListenerPhase::Claiming
            | ListenerPhase::Clearing
            | ListenerPhase::Binding
            | ListenerPhase::Opening => {
                matches!(event, ListenerEvent::Done | ListenerEvent::Failed(_))
            },
            ListenerPhase::Searching => {
                matches!(event, ListenerEvent::Named { .. } | ListenerEvent::Failed(_))
            },
            ListenerPhase::Inspecting => matches!(event, ListenerEvent::Found(_)),
            ListenerPhase::Reporting
            | ListenerPhase::Admitting
            | ListenerPhase::Draining
            | ListenerPhase::Removing => matches!(event, ListenerEvent::Done),
            ListenerPhase::Accepting => matches!(
                event,
                ListenerEvent::Accepted | ListenerEvent::AcceptFailed | ListenerEvent::Cancelled
            ),
            ListenerPhase::Finished => false,
        }
    }

    fn proceed<E>(&mut self) -> (action: ListenerAction<E>)
        ensures
            (final(self)@.phase, action@) == proceed::<E>(old(self)@),
            final(self)@.socket_path == old(self)@.socket_path,
    {
        match self.phase {
            ListenerPhase::Claiming => {
                self.phase = ListenerPhase::Inspecting;
                ListenerAction::Inspect
            },
            ListenerPhase::Clearing => {
                self.phase = ListenerPhase::Binding;
                ListenerAction::Bind
            },
            ListenerPhase::Binding => {
                self.phase = ListenerPhase::Opening;
                ListenerAction::Listen { backlog: SOCKET_CLIENT_BACKLOG }
            },
            ListenerPhase::Opening => {
                self.phase = ListenerPhase::Reporting;
                ListenerAction::Report(self.socket_path.clone())
            },
            ListenerPhase::Reporting | ListenerPhase::Admitting => {
                self.phase = ListenerPhase::Accepting;
                ListenerAction::Accept
            },
            ListenerPhase::Draining => {
                self.phase = ListenerPhase::Removing;
                ListenerAction::Remove
            },
            _ => {
                self.phase = ListenerPhase::Finished;
                ListenerAction::Finish(Ok(()))
            },
        }
    }

    /// Take in what came of the last action, and say what to do next.
    pub fn step<E>(&mut self, event: ListenerEvent<E>) -> (action: ListenerAction<E>)
        requires
            listener_accepts(old(self)@, event@),
        ensures
            (final(self)@, action@) == listener_next(old(self)@, event@),
    {
        match event {
            ListenerEvent::Named { socket_path } => {
                self.socket_path = socket_path;
                self.phase = ListenerPhase::Inspecting;
                ListenerAction::Inspect
            },
            ListenerEvent::Found(found) => if found {
                self.phase = ListenerPhase::Clearing;
                ListenerAction::Clear
            } else {
                self.phase = ListenerPhase::Binding;
                ListenerAction::Bind
            },
            ListenerEvent::Done => self.proceed(),
            ListenerEvent::Failed(error) => {
                self.phase = ListenerPhase::Finished;
                ListenerAction::Finish(Err(error))
            },
            ListenerEvent::Accepted => {
                self.phase = ListenerPhase::Admitting;
                ListenerAction::Admit
            },
            ListenerEvent::AcceptFailed | ListenerEvent::Cancelled => {
                self.phase = ListenerPhase::Draining;
                ListenerAction::Drain
            },
        }
    }
}

} // verus!
