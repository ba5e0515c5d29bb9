//! What holds of the task over any run: handles are never reused, one
//! Received Indication at most is in flight, bytes go out in the order they
//! were submitted, each Send is confirmed once, and a dropped handle stays
//! silent.

use vstd::prelude::*;
use crate::connection::{unsent_of, ConnState, PendingWrite};
use crate::context::Context;
use crate::dispatch::{IoOutcome, IoPlan, ReadableAction, WritableAction};
use crate::error::SocketError;
use crate::messages::{
    ConnHandle, Delivery, ReqClose, ReqSend, Request, Response, RspReceived, ServiceUserHandle,
};
use crate::task::{zero_or_one, AcceptOutcome, BindOutcome, TaskState};

verus! {

/// The states that a task went through, in order: each is well formed, and
/// none has its next handle below that of the one before. Every step of
/// `TaskContext` promises both of the state it leaves.
pub open spec fn is_history(trace: Seq<TaskState>) -> bool {
    &&& forall|i: int| 0 <= i < trace.len() ==> (#[trigger] trace[i]).wf()
    &&& forall|i: int|
        0 <= i < trace.len() - 1 ==> (#[trigger] trace[i]).precedes(trace[i + 1])
}

/// Whether the step out of the state `i` was a Bind for `user` that
/// succeeded.
pub open spec fn binds_at(trace: Seq<TaskState>, i: int, user: ServiceUserHandle) -> bool {
    &&& 0 <= i < trace.len() - 1
    &&& trace[i].next_handle < usize::MAX
    &&& trace[i + 1] == trace[i].after_bind(user, BindOutcome::Registered)
}

/// The next handle never goes down along a history.
pub proof fn history_is_monotone(trace: Seq<TaskState>, i: int, j: int)
    requires
        is_history(trace),
        0 <= i <= j < trace.len(),
    ensures
        trace[i].next_handle <= trace[j].next_handle,
    decreases j - i,
{
    if i < j {
        history_is_monotone(trace, i, j - 1);
        assert(trace[j - 1].precedes(trace[j - 1 + 1]));
    }
}

/// Two Binds that succeed in one history get different handles, and neither
/// handle is the control channel's token.
pub proof fn bind_handles_distinct(
    trace: Seq<TaskState>,
    i: int,
    j: int,
    user_i: ServiceUserHandle,
    user_j: ServiceUserHandle,
)
    requires
        is_history(trace),
        i < j,
        binds_at(trace, i, user_i),
        binds_at(trace, j, user_j),
    ensures
        trace[i].bind_result(BindOutcome::Registered) matches Ok(first),
        trace[j].bind_result(BindOutcome::Registered) matches Ok(second),
        trace[i].bind_result(BindOutcome::Registered) != trace[j].bind_result(
            BindOutcome::Registered,
        ),
        trace[i].next_handle != 0,
        trace[j].next_handle != 0,
{
    history_is_monotone(trace, i + 1, j);
    assert(trace[i].wf());
    assert(trace[j].wf());
}

/// A read delivers an `IndReceived` only while none is outstanding, delivers
/// one at most, and marks it outstanding; while one is outstanding a read
/// delivers nothing and changes nothing. So between a Received Indication
/// and its Response no second one is delivered.
pub proof fn one_received_in_flight(
    s: TaskState,
    k: usize,
    read: Result<usize, std::io::Error>,
    buffer: Seq<u8>,
    out: Seq<Delivery>,
)
    requires
        s.wf(),
        s.connections.contains_key(k),
        s.is_read_output(k, read, buffer, out),
    ensures
        s.connections[k].outstanding ==> out.len() == 0 && s.after_read(k, read) == s,
        forall|i: int|
            0 <= i < out.len() && (#[trigger] out[i]).is_any_received() ==> {
                &&& out.len() == 1
                &&& !s.connections[k].outstanding
                &&& s.after_read(k, read).connections.contains_key(k)
                &&& s.after_read(k, read).connections[k].outstanding
            },
        s.after_read(k, read).connections.contains_key(k) ==> (s.after_read(
            k,
            read,
        ).connections[k].outstanding <==> s.connections[k].outstanding || s.read_delivers(k, read)),
{
    if s.read_drops(k, read) {
        dropped_handle_is_retired(s, k);
    }
}

/// The Response clears the outstanding mark, and it leaves everything else
/// of the connection as it was.
pub proof fn response_clears_outstanding(s: TaskState, k: usize)
    requires
        s.wf(),
        s.connections.contains_key(k),
    ensures
        s.after_ack(k).wf(),
        !s.after_ack(k).connections[k].outstanding,
        s.after_ack(k).connections[k].pending == s.connections[k].pending,
{
}

/// A write leaves the queue exactly when its cfm is delivered, so a Send is
/// confirmed once at most while its connection lives; a cfm that reports
/// success reports the whole length of the data, and by then all of it has
/// gone out.
pub proof fn write_confirmed_as_it_leaves(
    write: PendingWrite,
    handle: ConnHandle,
    wrote: Result<usize, std::io::Error>,
)
    requires
        write.wf(),
    ensures
        write.kept_after(wrote) is None <==> write.confirm_after(handle, wrote) is Some,
        write.kept_after(wrote) matches Some(kept) ==> {
            &&& kept.wf()
            &&& kept.data == write.data
            &&& kept.context == write.context
            &&& kept.reply_to == write.reply_to
            &&& write.written_by(wrote) + kept.remaining() == write.remaining()
        },
        wrote is Ok && write.confirm_after(handle, wrote) is Some ==> {
            &&& write.confirm_after(handle, wrote) == Some(
                Delivery::send_confirm(
                    write.reply_to,
                    handle,
                    write.context,
                    Ok(write.data.len()),
                ),
            )
            &&& write.written_by(wrote) == write.remaining()
        },
{
    if write.kept_after(wrote) is Some {
        written_then_remaining(write, wrote);
    }
}

/// What a partial write put on the wire, then what it left, is what there
/// was to write.
pub proof fn written_then_remaining(write: PendingWrite, wrote: Result<usize, std::io::Error>)
    requires
        write.wf(),
        write.kept_after(wrote) is Some,
    ensures
        write.written_by(wrote) + write.kept_after(wrote)->Some_0.remaining() == write.remaining(),
{
    let n = wrote->Ok_0;
    let kept = write.kept_after(wrote)->Some_0;
    assert(write.data.len() == write.data@.len());
    assert(kept.sent == write.sent + n);
    assert(write.written_by(wrote) =~= write.data@.subrange(
        write.sent as int,
        write.sent + n,
    ));
    assert(write.written_by(wrote) + kept.remaining() =~= write.remaining());
}

/// When a connection ends, each write still queued on it gets one cfm, with
/// `Dropped`, addressed to its own sender and in the order of submission.
/// Each of them names the connection, and none is an Indication.
pub proof fn dropped_writes_confirmed_once(c: ConnState)
    ensures
        c.drop_confirms().len() == c.pending.len(),
        forall|i: int|
            0 <= i < c.pending.len() ==> {
                &&& (#[trigger] c.drop_confirms()[i]) == Delivery::send_confirm(
                    c.pending[i].reply_to,
                    c.handle,
                    c.pending[i].context,
                    Err(SocketError::Dropped),
                )
                &&& c.drop_confirms()[i].subject() == Some(c.handle)
                &&& !c.drop_confirms()[i].is_any_received()
                &&& !c.drop_confirms()[i].is_any_dropped()
            },
{
}

/// The unsent bytes of a queue are those of its oldest write, then those of
/// the rest.
pub proof fn unsent_front(pending: Seq<PendingWrite>)
    requires
        pending.len() > 0,
    ensures
        unsent_of(pending) == pending[0].remaining() + unsent_of(pending.skip(1)),
    decreases pending.len(),
{
    if pending.len() == 1 {
        assert(pending.drop_last() =~= pending.skip(1));
        assert(unsent_of(pending.skip(1)) =~= Seq::<u8>::empty());
        assert(unsent_of(pending) =~= pending[0].remaining() + unsent_of(pending.skip(1)));
    } else {
        unsent_front(pending.drop_last());
        assert(pending.drop_last().skip(1) =~= pending.skip(1).drop_last());
        assert(pending.drop_last()[0] == pending[0]);
        assert(pending.skip(1).last() == pending.last());
        assert(unsent_of(pending) =~= pending[0].remaining() + unsent_of(pending.skip(1)));
    }
}

/// A Send adds its data behind all that waits: what was unsent before, then
/// the data, is what the write put on the wire at once, then what is unsent
/// after. A Send whose immediate write failed puts nothing on the wire and
/// leaves nothing queued.
pub proof fn send_keeps_byte_order(
    c: ConnState,
    write: PendingWrite,
    wrote: Result<usize, std::io::Error>,
)
    requires
        c.wf(),
        write.wf(),
    ensures
        c.after_send(write, wrote).wf(),
        write.sent == 0 ==> write.remaining() == write.data@,
        !c.writes_at_once() ==> c.after_send(write, wrote).unsent() == c.unsent()
            + write.remaining(),
        c.writes_at_once() && wrote is Ok ==> write.written_by(wrote) + c.after_send(
            write,
            wrote,
        ).unsent() == c.unsent() + write.remaining(),
        c.writes_at_once() && wrote is Err ==> c.after_send(write, wrote) == c,
{
    if write.sent == 0 {
        assert(write.remaining() =~= write.data@);
    }
    let after = c.after_send(write, wrote);
    if !c.writes_at_once() {
        assert(after.pending.drop_last() =~= c.pending);
        assert(after.pending.last() == write);
    } else {
        assert(c.unsent() =~= Seq::<u8>::empty());
        match write.kept_after(wrote) {
            Some(kept) => {
                assert(after.pending.drop_last() =~= Seq::<PendingWrite>::empty());
                assert(unsent_of(after.pending.drop_last()) =~= Seq::<u8>::empty());
                assert(after.unsent() =~= kept.remaining());
                written_then_remaining(write, wrote);
                assert(write.written_by(wrote) + after.unsent() =~= c.unsent()
                    + write.remaining());
            },
            None => {
                if wrote is Ok {
                    assert(write.written_by(wrote) + after.unsent() =~= c.unsent()
                        + write.remaining());
                }
            },
        }
    }
}

/// Draining writes the unsent bytes from the front: what was unsent before
/// is what the write put on the wire, then what is unsent after. A write
/// that fails takes what was left of the oldest Send out of the stream, and
/// nothing else.
pub proof fn drain_keeps_byte_order(c: ConnState, wrote: Result<usize, std::io::Error>)
    requires
        c.wf(),
        c.pending.len() > 0,
    ensures
        c.after_drain(wrote).wf(),
        wrote is Ok ==> c.unsent() == c.pending[0].written_by(wrote) + c.after_drain(
            wrote,
        ).unsent(),
        wrote is Err ==> c.unsent() == c.pending[0].remaining() + c.after_drain(wrote).unsent(),
{
    let after = c.after_drain(wrote);
    let front = c.pending[0];
    assert(front.wf());
    unsent_front(c.pending);
    match front.kept_after(wrote) {
        Some(kept) => {
            unsent_front(after.pending);
            assert(after.pending.skip(1) =~= c.pending.skip(1));
            written_then_remaining(front, wrote);
            assert(c.unsent() =~= front.written_by(wrote) + after.unsent());
            assert forall|i: int| 0 <= i < after.pending.len() implies (#[trigger] after.pending[i]).wf() by {
                if i > 0 {
                    assert(c.pending[i].wf());
                }
            }
        },
        None => {
            assert forall|i: int| 0 <= i < after.pending.len() implies (#[trigger] after.pending[i]).wf() by {
                assert(c.pending[i + 1].wf());
            }
        },
    }
}

/// What happens on the write side of a connection.
pub enum WriteEvent {
    /// A Send arrives as this write; with nothing queued, what it holds is
    /// written to the socket with this outcome.
    Send(PendingWrite, Result<usize, std::io::Error>),
    /// The socket is writable; with something queued, what is left of the
    /// oldest write is written with this outcome.
    Drain(Result<usize, std::io::Error>),
}

impl WriteEvent {
    /// The connection after the event.
    pub open spec fn apply(self, c: ConnState) -> ConnState {
        match self {
            WriteEvent::Send(write, wrote) => c.after_send(write, wrote),
            WriteEvent::Drain(wrote) => c.after_drain(wrote),
        }
    }

    /// Whether the event makes a write to the socket.
    pub open spec fn writes(self, c: ConnState) -> bool {
        match self {
            WriteEvent::Send(_, _) => c.writes_at_once(),
            WriteEvent::Drain(_) => c.pending.len() > 0,
        }
    }

    /// The bytes that the event puts on the wire.
    pub open spec fn wire(self, c: ConnState) -> Seq<u8> {
        if !self.writes(c) {
            Seq::empty()
        } else {
            match self {
                WriteEvent::Send(write, wrote) => write.written_by(wrote),
                WriteEvent::Drain(wrote) => c.pending[0].written_by(wrote),
            }
        }
    }

    /// The bytes that the event submits for sending.
    pub open spec fn submits(self) -> Seq<u8> {
        match self {
            WriteEvent::Send(write, _) => write.remaining(),
            WriteEvent::Drain(_) => Seq::empty(),
        }
    }

    /// Whether the event makes a write that fails.
    pub open spec fn fails(self, c: ConnState) -> bool {
        &&& self.writes(c)
        &&& match self {
            WriteEvent::Send(_, wrote) => wrote is Err,
            WriteEvent::Drain(wrote) => wrote is Err,
        }
    }

    /// Whether the write of a Send is well formed.
    pub open spec fn wf(self) -> bool {
        self matches WriteEvent::Send(write, _) ==> write.wf()
    }
}

/// The connection after a run of events.
pub open spec fn run(c: ConnState, events: Seq<WriteEvent>) -> ConnState
    decreases events.len(),
{
    if events.len() == 0 {
        c
    } else {
        events.last().apply(run(c, events.drop_last()))
    }
}

/// All the bytes that a run of events puts on the wire, in order.
pub open spec fn wire_of(c: ConnState, events: Seq<WriteEvent>) -> Seq<u8>
    decreases events.len(),
{
    if events.len() == 0 {
        Seq::empty()
    } else {
        wire_of(c, events.drop_last()) + events.last().wire(run(c, events.drop_last()))
    }
}

/// All the bytes that a run of events submits, in the order of submission.
pub open spec fn submitted_by(events: Seq<WriteEvent>) -> Seq<u8>
    decreases events.len(),
{
    if events.len() == 0 {
        Seq::empty()
    } else {
        submitted_by(events.drop_last()) + events.last().submits()
    }
}

/// Whether a run is one of well-formed events in which no write fails.
pub open spec fn runs_clean(c: ConnState, events: Seq<WriteEvent>) -> bool
    decreases events.len(),
{
    events.len() == 0 || {
        &&& runs_clean(c, events.drop_last())
        &&& events.last().wf()
        &&& !events.last().fails(run(c, events.drop_last()))
    }
}

/// Over any run of Sends and writable events in which no write fails, what
/// was unsent at the start and then all the data submitted is what went on
/// the wire and then what is still queued: the wire carries the submitted
/// data in the order of submission, with nothing lost, repeated or moved.
pub proof fn wire_carries_submitted_stream(c: ConnState, events: Seq<WriteEvent>)
    requires
        c.wf(),
        runs_clean(c, events),
    ensures
        run(c, events).wf(),
        c.unsent() + submitted_by(events) == wire_of(c, events) + run(c, events).unsent(),
        c.pending.len() == 0 ==> submitted_by(events) == wire_of(c, events) + run(
            c,
            events,
        ).unsent(),
    decreases events.len(),
{
    if events.len() == 0 {
        assert(c.unsent() + submitted_by(events) =~= wire_of(c, events) + run(c, events).unsent());
    } else {
        let before = events.drop_last();
        let e = events.last();
        wire_carries_submitted_stream(c, before);
        let mid = run(c, before);
        let end = run(c, events);
        assert(mid.unsent() + e.submits() == e.wire(mid) + end.unsent() && end.wf()) by {
            match e {
                WriteEvent::Send(write, wrote) => {
                    send_keeps_byte_order(mid, write, wrote);
                    if mid.writes_at_once() {
                        assert(e.wire(mid) + end.unsent() =~= mid.unsent() + e.submits());
                    } else {
                        assert(e.wire(mid) + end.unsent() =~= mid.unsent() + e.submits());
                    }
                },
                WriteEvent::Drain(wrote) => {
                    if mid.pending.len() > 0 {
                        drain_keeps_byte_order(mid, wrote);
                    }
                    assert(mid.unsent() + e.submits() =~= e.wire(mid) + end.unsent());
                },
            }
        }
        assert(c.unsent() + submitted_by(events) =~= (c.unsent() + submitted_by(before))
            + e.submits());
        assert(wire_of(c, events) + end.unsent() =~= wire_of(c, before) + (e.wire(mid)
            + end.unsent()));
        assert((wire_of(c, before) + mid.unsent()) + e.submits() =~= wire_of(c, before) + (
        mid.unsent() + e.submits()));
    }
    if c.pending.len() == 0 {
        assert(c.unsent() + submitted_by(events) =~= submitted_by(events));
    }
}

/// The cfm that a write gets when all of its data has gone out.
pub open spec fn success_confirm(write: PendingWrite, handle: ConnHandle) -> Delivery {
    Delivery::send_confirm(write.reply_to, handle, write.context, Ok(write.data.len()))
}

/// The cfms that a queue of writes is still to get if all goes well, oldest
/// first.
pub open spec fn owed_to(pending: Seq<PendingWrite>, handle: ConnHandle) -> Seq<Delivery> {
    Seq::new(pending.len(), |i: int| success_confirm(pending[i], handle))
}

impl WriteEvent {
    /// The cfm, if any, that the event delivers.
    pub open spec fn confirms(self, c: ConnState) -> Seq<Delivery> {
        match self {
            WriteEvent::Send(write, wrote) => zero_or_one(c.send_confirm(c.handle, write, wrote)),
            WriteEvent::Drain(wrote) => zero_or_one(c.drain_confirm(wrote)),
        }
    }

    /// The cfm, if any, that the event makes the task owe.
    pub open spec fn owes(self, handle: ConnHandle) -> Seq<Delivery> {
        match self {
            WriteEvent::Send(write, _) => seq![success_confirm(write, handle)],
            WriteEvent::Drain(_) => Seq::empty(),
        }
    }
}

/// All the cfms that a run of events delivers, in order.
pub open spec fn confirms_of(c: ConnState, events: Seq<WriteEvent>) -> Seq<Delivery>
    decreases events.len(),
{
    if events.len() == 0 {
        Seq::empty()
    } else {
        confirms_of(c, events.drop_last()) + events.last().confirms(run(c, events.drop_last()))
    }
}

/// All the cfms that the Sends of a run call for, in the order of
/// submission.
pub open spec fn owed_by(events: Seq<WriteEvent>, handle: ConnHandle) -> Seq<Delivery>
    decreases events.len(),
{
    if events.len() == 0 {
        Seq::empty()
    } else {
        owed_by(events.drop_last(), handle) + events.last().owes(handle)
    }
}

/// One event keeps the account of cfms: what was owed before, then what the
/// event makes the task owe, is what the event delivers, then what is owed
/// after.
pub proof fn event_keeps_confirm_order(c: ConnState, e: WriteEvent)
    requires
        c.wf(),
        e.wf(),
        !e.fails(c),
    ensures
        e.apply(c).handle == c.handle,
        owed_to(c.pending, c.handle) + e.owes(c.handle) == e.confirms(c) + owed_to(
            e.apply(c).pending,
            c.handle,
        ),
{
    let h = c.handle;
    let after = e.apply(c);
    match e {
        WriteEvent::Send(write, wrote) => {
            if !c.writes_at_once() {
                assert(owed_to(c.pending, h) + e.owes(h) =~= e.confirms(c) + owed_to(
                    after.pending,
                    h,
                ));
            } else {
                assert(write.data.len() == write.data@.len());
                assert(owed_to(c.pending, h) + e.owes(h) =~= e.confirms(c) + owed_to(
                    after.pending,
                    h,
                ));
            }
        },
        WriteEvent::Drain(wrote) => {
            if c.pending.len() > 0 {
                assert(c.pending[0].wf());
                assert(c.pending[0].data.len() == c.pending[0].data@.len());
            }
            assert(owed_to(c.pending, h) + e.owes(h) =~= e.confirms(c) + owed_to(
                after.pending,
                h,
            ));
        },
    }
}

/// Over any run of Sends and writable events in which no write fails, each
/// Send is confirmed once at most, with the whole length of its data, and
/// the cfms come in the order of submission: those delivered, then those
/// still owed to the queued writes, are those of all the Sends in order. A
/// Send is never confirmed before one submitted earlier.
pub proof fn sends_confirmed_once_in_order(c: ConnState, events: Seq<WriteEvent>)
    requires
        c.wf(),
        runs_clean(c, events),
    ensures
        run(c, events).handle == c.handle,
        owed_to(c.pending, c.handle) + owed_by(events, c.handle) == confirms_of(c, events)
            + owed_to(run(c, events).pending, c.handle),
    decreases events.len(),
{
    let h = c.handle;
    if events.len() == 0 {
        assert(owed_to(c.pending, h) + owed_by(events, h) =~= confirms_of(c, events) + owed_to(
            run(c, events).pending,
            h,
        ));
    } else {
        let before = events.drop_last();
        let e = events.last();
        sends_confirmed_once_in_order(c, before);
        wire_carries_submitted_stream(c, before);
        let mid = run(c, before);
        let end = run(c, events);
        event_keeps_confirm_order(mid, e);
        assert(owed_to(c.pending, h) + owed_by(events, h) =~= (owed_to(c.pending, h) + owed_by(
            before,
            h,
        )) + e.owes(h));
        assert((confirms_of(c, before) + owed_to(mid.pending, h)) + e.owes(h) =~= confirms_of(
            c,
            before,
        ) + (owed_to(mid.pending, h) + e.owes(h)));
        assert(confirms_of(c, events) + owed_to(end.pending, h) =~= confirms_of(c, before) + (
        e.confirms(mid) + owed_to(end.pending, h)));
    }
}

/// A Bind and a Close are confirmed at once, once, with their context; a
/// Send is either confirmed at once, once, with its context, or queued as
/// the youngest write of its connection, to be confirmed when it leaves the
/// queue. The `CfmClose` is the last message of its Close: before it the
/// writes queued on the connection get their `Dropped` cfms, each to its
/// own sender, who may be the user that closes.
pub proof fn request_confirmed_or_queued(
    s: TaskState,
    req: Request,
    reply_to: ServiceUserHandle,
    io: IoOutcome,
)
    requires
        s.wf(),
        io.answers(s.plan_request(req)),
    ensures
        match req {
            Request::Bind(b) => s.request_output(req, reply_to, io) == seq![
                Delivery::bind_confirm(reply_to, b.context, s.bind_result(io->Bind_0)),
            ],
            Request::Close(c) => {
                let out = s.request_output(req, reply_to, io);
                &&& out.len() >= 1
                &&& out.last() == Delivery::close_confirm(
                    reply_to,
                    c.handle,
                    c.context,
                    if s.connections.contains_key(c.handle@) {
                        Ok(())
                    } else {
                        Err(SocketError::BadHandle)
                    },
                )
                &&& forall|i: int|
                    0 <= i < out.len() - 1 ==> #[trigger] out[i] == s.connections[c.handle@].pending[i].dropped_confirm(
                        c.handle,
                    )
            },
            Request::Send(x) => {
                let out = s.request_output(req, reply_to, io);
                let write = TaskState::fresh_write(x, reply_to);
                let k = x.handle@;
                if out.len() == 0 {
                    &&& s.connections.contains_key(k)
                    &&& s.after_request(req, reply_to, io).connections[k].pending.len()
                        == s.connections[k].pending.len() + 1
                    &&& s.after_request(req, reply_to, io).connections[k].pending.last().data
                        == x.data
                    &&& s.after_request(req, reply_to, io).connections[k].pending.last().context
                        == x.context
                    &&& s.after_request(req, reply_to, io).connections[k].pending.last().reply_to
                        == reply_to
                } else {
                    &&& out.len() == 1
                    &&& out[0].to == reply_to
                    &&& exists|result: Result<usize, SocketError>|
                        out[0] == Delivery::send_confirm(reply_to, x.handle, x.context, result)
                    &&& s.connections.contains_key(k) ==> s.after_request(
                        req,
                        reply_to,
                        io,
                    ).connections[k].pending == s.connections[k].pending
                }
            },
        },
{
    match req {
        Request::Bind(b) => {},
        Request::Close(c) => {
            let out = s.request_output(req, reply_to, io);
            if s.connections.contains_key(c.handle@) {
                assert(s.connections[c.handle@].handle == c.handle);
            }
        },
        Request::Send(x) => {
            let out = s.request_output(req, reply_to, io);
            let write = TaskState::fresh_write(x, reply_to);
            let k = x.handle@;
            let wrote = io.wrote();
            if s.connections.contains_key(k) {
                let c = s.connections[k];
                if c.writes_at_once() {
                    match write.confirm_after(x.handle, wrote) {
                        Some(d) => {
                            match wrote {
                                Ok(n) => {
                                    assert(out[0] == Delivery::send_confirm(
                                        reply_to,
                                        x.handle,
                                        x.context,
                                        Ok(write.data.len()),
                                    ));
                                },
                                Err(e) => {
                                    assert(out[0] == Delivery::send_confirm(
                                        reply_to,
                                        x.handle,
                                        x.context,
                                        Err(SocketError::IOError(crate::error::io_error_kind(e))),
                                    ));
                                },
                            }
                        },
                        None => {},
                    }
                }
            } else {
                assert(out[0] == Delivery::send_confirm(
                    reply_to,
                    x.handle,
                    x.context,
                    Err(SocketError::BadHandle),
                ));
            }
        },
    }
}

impl TaskState {
    /// Whether `h` was given out and names nothing any more: a connection
    /// that was dropped or closed.
    pub open spec fn retired(self, h: usize) -> bool {
        &&& 0 < h < self.next_handle
        &&& !self.listeners.contains_key(h)
        &&& !self.connections.contains_key(h)
    }
}

/// Whether every message of `out` that names a handle names `k`.
pub open spec fn all_about(out: Seq<Delivery>, k: usize) -> bool {
    forall|i: int| 0 <= i < out.len() ==> (#[trigger] out[i]).subject() == Some(Context(k))
}

/// A connection that the network ended, or that a Close ended, leaves a
/// retired handle behind. Of what the network's ending it delivers, the
/// `IndDropped` is the last message and the only Indication: before it come
/// the `Dropped` cfms of the queued writes, and nothing comes after it.
pub proof fn dropped_handle_is_retired(s: TaskState, k: usize)
    requires
        s.wf(),
        s.connections.contains_key(k),
    ensures
        s.without_connection(k).wf(),
        s.without_connection(k).retired(k),
        s.drop_output(k).len() == s.connections[k].pending.len() + 1,
        s.drop_output(k).last() == Delivery::dropped(s.connections[k].ind_to, Context(k)),
        forall|i: int|
            0 <= i < s.drop_output(k).len() - 1 ==> (#[trigger] s.drop_output(k)[i])
                == s.connections[k].pending[i].dropped_confirm(Context(k)),
        forall|i: int|
            0 <= i < s.drop_output(k).len() && (#[trigger] s.drop_output(k)[i]).is_any_dropped()
                ==> i == s.drop_output(k).len() - 1,
        forall|i: int|
            0 <= i < s.drop_output(k).len() ==> !(#[trigger] s.drop_output(k)[i]).is_any_received(),
        all_about(s.drop_output(k), k),
{
    let c = s.connections[k];
    let out = s.drop_output(k);
    dropped_writes_confirmed_once(c);
    assert(c.handle == Context(k));
    assert forall|i: int| 0 <= i < out.len() - 1 implies (#[trigger] out[i]) == c.drop_confirms()[i] by {}
}

/// A retired handle stays retired whatever the task does next: no Bind and
/// no accept gives it out again.
pub proof fn retired_handle_never_returns(
    s: TaskState,
    h: usize,
    user: ServiceUserHandle,
    outcome: BindOutcome,
    ls: usize,
    accepted: AcceptOutcome,
    k: usize,
    read: Result<usize, std::io::Error>,
    wrote: Result<usize, std::io::Error>,
    req_send: ReqSend,
)
    requires
        s.wf(),
        s.retired(h),
        s.next_handle < usize::MAX,
    ensures
        s.after_bind(user, outcome).retired(h),
        s.after_accept(ls, accepted).retired(h),
        s.connections.contains_key(k) ==> s.after_read(k, read).retired(h),
        s.after_close(k).retired(h),
        s.after_send(req_send, user, wrote).retired(h),
        s.after_ack(k).retired(h),
        s.connections.contains_key(k) ==> s.with_connection(
            k,
            s.connections[k].after_drain(wrote),
        ).retired(h),
{
}

/// What a Close delivers for a connection is the `Dropped` cfms of its
/// queued writes and then the `CfmClose`; all of it names the connection,
/// and none of it is an Indication.
pub proof fn close_names_its_handle(s: TaskState, req_close: ReqClose, user: ServiceUserHandle)
    requires
        s.wf(),
    ensures
        all_about(s.close_output(req_close, user), req_close.handle@),
        forall|i: int|
            0 <= i < s.close_output(req_close, user).len() ==> {
                &&& !(#[trigger] s.close_output(req_close, user)[i]).is_any_received()
                &&& !s.close_output(req_close, user)[i].is_any_dropped()
            },
{
    let q = req_close.handle@;
    let out = s.close_output(req_close, user);
    if s.connections.contains_key(q) {
        let c = s.connections[q];
        dropped_writes_confirmed_once(c);
        assert(c.handle == req_close.handle);
        assert forall|i: int| 0 <= i < out.len() - 1 implies (#[trigger] out[i])
            == c.drop_confirms()[i] by {}
    }
}

/// The messages of a step name the handle that the step is about: a read,
/// a drained write, a Send and a Close name their connection, an accept
/// names the connection it made. So a step about another handle delivers
/// nothing about a retired one.
pub proof fn messages_name_their_handle(
    s: TaskState,
    k: usize,
    read: Result<usize, std::io::Error>,
    buffer: Seq<u8>,
    out: Seq<Delivery>,
    wrote: Result<usize, std::io::Error>,
    ls: usize,
    accepted: AcceptOutcome,
    user: ServiceUserHandle,
    req_send: ReqSend,
    req_close: ReqClose,
)
    requires
        s.wf(),
        s.connections.contains_key(k),
        s.is_read_output(k, read, buffer, out),
    ensures
        all_about(out, k),
        all_about(zero_or_one(s.connections[k].drain_confirm(wrote)), k),
        all_about(s.accept_output(ls, accepted), s.next_handle),
        all_about(s.send_output(req_send, user, wrote), req_send.handle@),
        all_about(s.close_output(req_close, user), req_close.handle@),
{
    if s.read_drops(k, read) {
        dropped_handle_is_retired(s, k);
    }
    close_names_its_handle(s, req_close, user);
}

/// Once a handle is retired, the task says nothing of its own accord about
/// it: readiness on it is unknown, a Response for it changes nothing and
/// delivers nothing, and the handles of new connections differ from it. A
/// Request that still names it is answered, as every Request is, with its
/// one cfm: `BadHandle`.
pub proof fn retired_handle_stays_silent(
    s: TaskState,
    h: usize,
    io: IoOutcome,
    out: Seq<Delivery>,
    user: ServiceUserHandle,
    req_send: ReqSend,
    req_close: ReqClose,
    wrote: Result<usize, std::io::Error>,
)
    requires
        s.wf(),
        s.retired(h),
        req_send.handle@ == h,
        req_close.handle@ == h,
    ensures
        s.readable_action(h) == ReadableAction::Unknown,
        s.writable_action(h) == WritableAction::Unknown,
        s.plan_response(Response::Received(RspReceived { handle: Context(h) })) == IoPlan::Nothing,
        s.after_response(Response::Received(RspReceived { handle: Context(h) }), io) == s,
        s.is_response_output(Response::Received(RspReceived { handle: Context(h) }), io, out)
            ==> out.len() == 0,
        s.next_handle != h,
        s.after_send(req_send, user, wrote) == s,
        s.send_output(req_send, user, wrote) == seq![
            Delivery::send_confirm(
                user,
                req_send.handle,
                req_send.context,
                Err(SocketError::BadHandle),
            ),
        ],
        s.after_close(h).connections =~= s.connections,
        s.close_output(req_close, user) == seq![
            Delivery::close_confirm(
                user,
                req_close.handle,
                req_close.context,
                Err(SocketError::BadHandle),
            ),
        ],
{
}

} // verus!
