//! The task as one state machine: every event that can reach it, the state
//! that follows and the messages that go out, and what holds of whole runs.

use vstd::prelude::*;
use crate::context::Context;
use crate::dispatch::IoOutcome;
use crate::error::SocketError;
use crate::laws::{
    all_about, close_names_its_handle, dropped_handle_is_retired, history_is_monotone, is_history,
};
use crate::messages::{
    Confirm, ConnHandle, Delivery, Incoming, Indication, ListenHandle, Message, Request, Response,
};
use crate::task::{zero_or_one, AcceptOutcome, BindOutcome, TaskState};

verus! {

/// Everything that can happen to a task, each with the outcome of the I/O
/// that it calls for.
pub enum TaskEvent {
    /// A message of the control channel: `TaskContext::handle_message`.
    Message(Incoming, IoOutcome),
    /// A listener was readable, and accepting and registering went like
    /// this: `TaskContext::accept_new_connection`.
    Accept(ListenHandle, AcceptOutcome),
    /// A connection was readable and a read into the buffer returned this:
    /// `TaskContext::read_from_socket`.
    Read(ConnHandle, Result<usize, std::io::Error>, Vec<u8>),
    /// A connection was writable and writing its pending slice returned
    /// this: `TaskContext::pending_writes`.
    Drain(ConnHandle, Result<usize, std::io::Error>),
}

impl TaskState {
    /// Whether the event can happen in this state: what its handler asks of
    /// its caller.
    pub open spec fn admits(self, e: TaskEvent) -> bool {
        match e {
            TaskEvent::Message(Incoming::Request(req, _), io) => {
                &&& io.answers(self.plan_request(req))
                &&& TaskState::request_takes_handle(req, io) ==> self.next_handle < usize::MAX
            },
            TaskEvent::Message(Incoming::Response(rsp), io) => io.answers(self.plan_response(rsp)),
            TaskEvent::Accept(ls, outcome) => {
                &&& self.listeners.contains_key(ls@)
                &&& !(outcome is AcceptFailed) ==> self.next_handle < usize::MAX
            },
            TaskEvent::Read(k, read, buffer) => {
                &&& self.connections.contains_key(k@)
                &&& read matches Ok(n) ==> n <= buffer@.len()
            },
            TaskEvent::Drain(k, _) => self.connections.contains_key(k@),
        }
    }

    /// The state after the event.
    pub open spec fn next(self, e: TaskEvent) -> TaskState {
        match e {
            TaskEvent::Message(Incoming::Request(req, user), io) => self.after_request(
                req,
                user,
                io,
            ),
            TaskEvent::Message(Incoming::Response(rsp), io) => self.after_response(rsp, io),
            TaskEvent::Accept(ls, outcome) => self.after_accept(ls@, outcome),
            TaskEvent::Read(k, read, _) => self.after_read(k@, read),
            TaskEvent::Drain(k, wrote) => self.with_connection(
                k@,
                self.connections[k@].after_drain(wrote),
            ),
        }
    }

    /// Whether `out` is what the event delivers.
    pub open spec fn delivers(self, e: TaskEvent, out: Seq<Delivery>) -> bool {
        match e {
            TaskEvent::Message(Incoming::Request(req, user), io) => out == self.request_output(
                req,
                user,
                io,
            ),
            TaskEvent::Message(Incoming::Response(rsp), io) => self.is_response_output(
                rsp,
                io,
                out,
            ),
            TaskEvent::Accept(ls, outcome) => out == self.accept_output(ls@, outcome),
            TaskEvent::Read(k, read, buffer) => self.is_read_output(k@, read, buffer@, out),
            TaskEvent::Drain(k, wrote) => out == zero_or_one(
                self.connections[k@].drain_confirm(wrote),
            ),
        }
    }
}

impl TaskEvent {
    /// Whether this is the Response that acknowledges a Received Indication
    /// of the connection `k`.
    pub open spec fn acknowledges(self, k: usize) -> bool {
        self matches TaskEvent::Message(Incoming::Response(Response::Received(r)), _) && r.handle@
            == k
    }
}

impl Delivery {
    /// Whether this is the cfm of a Send or a Close that named no
    /// connection.
    pub open spec fn is_bad_handle_confirm(self) -> bool {
        match self.message {
            Message::Confirm(Confirm::Send(c)) => c.result == Err::<usize, SocketError>(
                SocketError::BadHandle,
            ),
            Message::Confirm(Confirm::Close(c)) => c.result == Err::<(), SocketError>(
                SocketError::BadHandle,
            ),
            _ => false,
        }
    }
}

/// Whether the task, started in `states[0]`, went through `events` in order,
/// reached `states[i + 1]` by `events[i]` and delivered `outs[i]` for it.
pub open spec fn is_run(
    states: Seq<TaskState>,
    events: Seq<TaskEvent>,
    outs: Seq<Seq<Delivery>>,
) -> bool {
    &&& states.len() == events.len() + 1
    &&& outs.len() == events.len()
    &&& states[0].wf()
    &&& forall|i: int|
        0 <= i < events.len() ==> {
            &&& states[i].admits(#[trigger] events[i])
            &&& states[i + 1] == states[i].next(events[i])
            &&& states[i].delivers(events[i], outs[i])
        }
}

/// Every event leaves the state well formed and gives out no handle twice.
pub proof fn event_keeps_state_sound(s: TaskState, e: TaskEvent)
    requires
        s.wf(),
        s.admits(e),
    ensures
        s.next(e).wf(),
        s.precedes(s.next(e)),
{
    match e {
        TaskEvent::Message(Incoming::Request(Request::Send(x), user), io) => {
            let k = x.handle@;
            if s.connections.contains_key(k) {
                crate::laws::send_keeps_byte_order(
                    s.connections[k],
                    TaskState::fresh_write(x, user),
                    io.wrote(),
                );
            }
        },
        TaskEvent::Drain(k, wrote) => {
            let c = s.connections[k@];
            if c.pending.len() > 0 {
                crate::laws::drain_keeps_byte_order(c, wrote);
            }
        },
        _ => {},
    }
}

/// The states of a run are a history: all well formed, the next handle
/// never going down. So what holds of histories holds of runs.
pub proof fn run_is_history(
    states: Seq<TaskState>,
    events: Seq<TaskEvent>,
    outs: Seq<Seq<Delivery>>,
)
    requires
        is_run(states, events, outs),
    ensures
        is_history(states),
{
    assert forall|i: int| 0 <= i < states.len() implies (#[trigger] states[i]).wf() by {
        run_reaches_sound_states(states, events, outs, i);
    }
    assert forall|i: int| 0 <= i < states.len() - 1 implies (#[trigger] states[i]).precedes(
        states[i + 1],
    ) by {
        run_reaches_sound_states(states, events, outs, i);
        assert(states[i].admits(events[i]));
        event_keeps_state_sound(states[i], events[i]);
    }
}

/// Every state of a run is well formed.
pub proof fn run_reaches_sound_states(
    states: Seq<TaskState>,
    events: Seq<TaskEvent>,
    outs: Seq<Seq<Delivery>>,
    i: int,
)
    requires
        is_run(states, events, outs),
        0 <= i < states.len(),
    ensures
        states[i].wf(),
    decreases i,
{
    if i > 0 {
        run_reaches_sound_states(states, events, outs, i - 1);
        assert(states[i - 1].admits(events[i - 1]));
        event_keeps_state_sound(states[i - 1], events[i - 1]);
    }
}

impl TaskEvent {
    /// The handle that the event gives out in the state `s`, if it gives
    /// one out: a Bind that succeeds reports it in its `CfmBind`, an accept
    /// that succeeds in its `IndConnected`.
    pub open spec fn issues(self, s: TaskState) -> Option<Context> {
        match self {
            TaskEvent::Message(
                Incoming::Request(Request::Bind(_), _),
                IoOutcome::Bind(BindOutcome::Registered),
            ) => Some(Context(s.next_handle)),
            TaskEvent::Accept(_, AcceptOutcome::Registered(_)) => Some(Context(s.next_handle)),
            _ => None,
        }
    }
}

/// What an event that gives out a handle delivers: the one message that
/// reports the handle, a `CfmBind` with `Ok` or an `IndConnected`.
pub proof fn issued_handle_is_reported(s: TaskState, e: TaskEvent, out: Seq<Delivery>)
    requires
        s.wf(),
        s.admits(e),
        s.delivers(e, out),
        e.issues(s) is Some,
    ensures
        out.len() == 1,
        match e {
            TaskEvent::Message(Incoming::Request(Request::Bind(b), user), _) => out[0]
                == Delivery::bind_confirm(user, b.context, Ok(e.issues(s)->Some_0)),
            TaskEvent::Accept(ls, outcome) => out[0] == Delivery::connected(
                s.listeners[ls@].ind_to,
                ls,
                e.issues(s)->Some_0,
                outcome->Registered_0,
            ),
            _ => false,
        },
        s.next(e).next_handle == s.next_handle + 1,
{
    match e {
        TaskEvent::Accept(ls, outcome) => {
            assert(s.listeners[ls@].handle@ == ls@);
        },
        _ => {},
    }
}

/// The handles given out in a run, to listeners and to connections, are
/// pairwise distinct, and none is the control channel's token.
pub proof fn issued_handles_differ(
    states: Seq<TaskState>,
    events: Seq<TaskEvent>,
    outs: Seq<Seq<Delivery>>,
    i: int,
    j: int,
)
    requires
        is_run(states, events, outs),
        0 <= i < j < events.len(),
        events[i].issues(states[i]) is Some,
        events[j].issues(states[j]) is Some,
    ensures
        events[i].issues(states[i]) != events[j].issues(states[j]),
        events[i].issues(states[i])->Some_0@ != 0,
        events[j].issues(states[j])->Some_0@ != 0,
{
    run_is_history(states, events, outs);
    history_is_monotone(states, i + 1, j);
    assert(states[i].admits(events[i]));
    assert(states[j].admits(events[j]));
    issued_handle_is_reported(states[i], events[i], outs[i]);
    assert(states[i].wf());
    assert(states[j].wf());
}

/// A handle that an event gives out is unused when it is given out: it is
/// not the control channel's token, and it names neither a listener nor a
/// connection of the state before.
pub proof fn issued_handle_is_unused(s: TaskState, e: TaskEvent)
    requires
        s.wf(),
        e.issues(s) is Some,
    ensures
        s.is_unused(e.issues(s)->Some_0@),
{
}

/// The first handle that a new task gives out is 1.
pub proof fn first_handle_is_one(e: TaskEvent)
    requires
        e.issues(TaskState::initial()) is Some,
    ensures
        TaskState::initial().wf(),
        e.issues(TaskState::initial()) == Some(Context(1)),
        TaskState::initial().bind_result(BindOutcome::Registered) == Ok::<Context, SocketError>(
            Context(1),
        ),
{
}

impl Delivery {
    /// Whether this is the `IndDropped` of the handle `h`.
    pub open spec fn is_dropped_of(self, h: usize) -> bool {
        self.message matches Message::Indication(Indication::Dropped(d)) && d.handle@ == h
    }
}

/// The `IndDropped` of a handle is the last message of the event that
/// delivers it, and the event leaves the handle retired.
pub proof fn ind_dropped_ends_its_event(
    s: TaskState,
    e: TaskEvent,
    out: Seq<Delivery>,
    h: usize,
    i: int,
)
    requires
        s.wf(),
        s.admits(e),
        s.delivers(e, out),
        0 <= i < out.len(),
        out[i].is_dropped_of(h),
    ensures
        i == out.len() - 1,
        s.connections.contains_key(h),
        s.next(e).retired(h),
{
    match e {
        TaskEvent::Message(Incoming::Request(Request::Bind(b), user), io) => {},
        TaskEvent::Message(Incoming::Request(Request::Close(c), user), io) => {
            close_names_its_handle(s, c, user);
        },
        TaskEvent::Message(Incoming::Request(Request::Send(x), user), io) => {},
        TaskEvent::Message(Incoming::Response(Response::Received(r)), io) => {
            let k = r.handle@;
            if s.connections.contains_key(k) {
                let acked = s.after_ack(k);
                read_ends_with_ind_dropped(acked, k, io->Read_0, io->Read_1@, out, i);
            }
        },
        TaskEvent::Accept(ls, outcome) => {},
        TaskEvent::Read(k, read, buffer) => {
            read_ends_with_ind_dropped(s, k@, read, buffer@, out, i);
        },
        TaskEvent::Drain(k, wrote) => {},
    }
}

/// Where a read delivers an `IndDropped`, it is that of its own connection,
/// the read has dropped the connection, and the message is the last.
pub proof fn read_ends_with_ind_dropped(
    s: TaskState,
    k: usize,
    read: Result<usize, std::io::Error>,
    buffer: Seq<u8>,
    out: Seq<Delivery>,
    i: int,
)
    requires
        s.wf(),
        s.connections.contains_key(k),
        s.is_read_output(k, read, buffer, out),
        0 <= i < out.len(),
        out[i].is_any_dropped(),
    ensures
        i == out.len() - 1,
        out[i].is_dropped_of(k),
        s.read_drops(k, read),
        s.after_read(k, read).retired(k),
{
    if s.read_drops(k, read) {
        dropped_handle_is_retired(s, k);
    }
}

/// After the `IndDropped` of a handle nothing is delivered about it, in the
/// event that delivers it or in any later one, but `BadHandle` in answer to
/// a Send or a Close that still names it.
pub proof fn ind_dropped_is_the_last_word(
    states: Seq<TaskState>,
    events: Seq<TaskEvent>,
    outs: Seq<Seq<Delivery>>,
    h: usize,
    at: int,
    i: int,
    later: int,
)
    requires
        is_run(states, events, outs),
        0 <= at < events.len(),
        0 <= i < outs[at].len(),
        outs[at][i].is_dropped_of(h),
        at < later < events.len(),
    ensures
        i == outs[at].len() - 1,
        forall|j: int|
            0 <= j < outs[later].len() && (#[trigger] outs[later][j]).subject() == Some(Context(h))
                ==> outs[later][j].is_bad_handle_confirm(),
{
    run_reaches_sound_states(states, events, outs, at);
    assert(states[at].admits(events[at]));
    ind_dropped_ends_its_event(states[at], events[at], outs[at], h, i);
    retired_handle_is_silent_for_good(states, events, outs, h, at + 1, later);
}

/// One event with a retired handle `h`: the handle stays retired, and the
/// only messages about it are `BadHandle` cfms, which answer a Send or a
/// Close that named it.
pub proof fn event_is_silent_about_retired(
    s: TaskState,
    e: TaskEvent,
    out: Seq<Delivery>,
    h: usize,
)
    requires
        s.wf(),
        s.admits(e),
        s.delivers(e, out),
        s.retired(h),
    ensures
        s.next(e).retired(h),
        forall|i: int|
            0 <= i < out.len() && (#[trigger] out[i]).subject() == Some(Context(h))
                ==> out[i].is_bad_handle_confirm(),
{
    match e {
        TaskEvent::Message(Incoming::Request(Request::Bind(b), user), io) => {},
        TaskEvent::Message(Incoming::Request(Request::Close(c), user), io) => {
            close_names_its_handle(s, c, user);
        },
        TaskEvent::Message(Incoming::Request(Request::Send(x), user), io) => {},
        TaskEvent::Message(Incoming::Response(Response::Received(r)), io) => {
            let k = r.handle@;
            if s.connections.contains_key(k) {
                let acked = s.after_ack(k);
                read_names_its_connection(acked, k, io->Read_0, io->Read_1@, out);
            }
        },
        TaskEvent::Accept(ls, outcome) => {},
        TaskEvent::Read(k, read, buffer) => {
            read_names_its_connection(s, k@, read, buffer@, out);
        },
        TaskEvent::Drain(k, wrote) => {
            assert(s.connections[k@].handle@ == k@);
        },
    }
}

/// What a read on the connection `k` delivers is about `k`.
pub proof fn read_names_its_connection(
    s: TaskState,
    k: usize,
    read: Result<usize, std::io::Error>,
    buffer: Seq<u8>,
    out: Seq<Delivery>,
)
    requires
        s.wf(),
        s.connections.contains_key(k),
        s.is_read_output(k, read, buffer, out),
    ensures
        all_about(out, k),
{
    if s.read_drops(k, read) {
        dropped_handle_is_retired(s, k);
    }
}

/// Once a handle is retired in a run, as it is when its `IndDropped` or the
/// `CfmClose` of its connection goes out, it stays retired to the end, and
/// no Indication and no cfm of a write on it follows: all that is ever said
/// about it again is `BadHandle`, in answer to a Request that still names
/// it.
pub proof fn retired_handle_is_silent_for_good(
    states: Seq<TaskState>,
    events: Seq<TaskEvent>,
    outs: Seq<Seq<Delivery>>,
    h: usize,
    from: int,
    at: int,
)
    requires
        is_run(states, events, outs),
        0 <= from <= at < events.len(),
        states[from].retired(h),
    ensures
        states[at].retired(h),
        states[at + 1].retired(h),
        forall|i: int|
            0 <= i < outs[at].len() && (#[trigger] outs[at][i]).subject() == Some(Context(h))
                ==> outs[at][i].is_bad_handle_confirm(),
    decreases at - from,
{
    if from < at {
        retired_handle_is_silent_for_good(states, events, outs, h, from, at - 1);
    }
    run_reaches_sound_states(states, events, outs, at);
    assert(states[at].admits(events[at]));
    event_is_silent_about_retired(states[at], events[at], outs[at], h);
}

/// One event and the Received Indications of the connection `k`: an event
/// delivers one at most; it delivers one only if none was outstanding or
/// the event is the Response that acknowledges the outstanding one; the one
/// delivered is outstanding afterwards; and only that Response ever clears
/// the mark. So no more than one is in flight at any moment.
pub proof fn event_keeps_one_received_in_flight(
    s: TaskState,
    e: TaskEvent,
    out: Seq<Delivery>,
    k: usize,
)
    requires
        s.wf(),
        s.admits(e),
        s.delivers(e, out),
        s.connections.contains_key(k),
    ensures
        forall|i: int, j: int|
            0 <= i < out.len() && 0 <= j < out.len() && (#[trigger] out[i]).is_any_received() && (
            #[trigger] out[j]).is_any_received() ==> i == j,
        forall|i: int|
            0 <= i < out.len() && (#[trigger] out[i]).is_any_received() && out[i].subject() == Some(
                Context(k),
            ) ==> {
                &&& !s.connections[k].outstanding || e.acknowledges(k)
                &&& s.next(e).connections.contains_key(k)
                &&& s.next(e).connections[k].outstanding
            },
        s.connections[k].outstanding && s.next(e).connections.contains_key(k) && !s.next(
            e,
        ).connections[k].outstanding ==> e.acknowledges(k),
{
    match e {
        TaskEvent::Message(Incoming::Request(Request::Bind(b), user), io) => {},
        TaskEvent::Message(Incoming::Request(Request::Close(c), user), io) => {
            close_names_its_handle(s, c, user);
        },
        TaskEvent::Message(Incoming::Request(Request::Send(x), user), io) => {},
        TaskEvent::Message(Incoming::Response(Response::Received(r)), io) => {
            let q = r.handle@;
            if s.connections.contains_key(q) {
                let acked = s.after_ack(q);
                read_delivers_one_at_most(acked, q, io->Read_0, io->Read_1@, out);
            }
        },
        TaskEvent::Accept(ls, outcome) => {},
        TaskEvent::Read(q, read, buffer) => {
            read_delivers_one_at_most(s, q@, read, buffer@, out);
        },
        TaskEvent::Drain(q, wrote) => {},
    }
}

/// A read on the connection `q` delivers one `IndReceived` at most, about
/// `q`, and only if it was not dropped by the read.
pub proof fn read_delivers_one_at_most(
    s: TaskState,
    q: usize,
    read: Result<usize, std::io::Error>,
    buffer: Seq<u8>,
    out: Seq<Delivery>,
)
    requires
        s.wf(),
        s.connections.contains_key(q),
        s.is_read_output(q, read, buffer, out),
    ensures
        all_about(out, q),
        forall|i: int|
            0 <= i < out.len() && (#[trigger] out[i]).is_any_received() ==> {
                &&& out.len() == 1
                &&& s.read_delivers(q, read)
            },
{
    read_names_its_connection(s, q, read, buffer, out);
    crate::laws::one_received_in_flight(s, q, read, buffer, out);
}

} // verus!
