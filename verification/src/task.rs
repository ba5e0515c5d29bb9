//! The task state and its steps: every Request, Response and I/O outcome
//! turns one state into the next and into the messages to deliver.

use std::collections::HashMap;
use vstd::prelude::*;
use crate::connection::{ConnState, ConnectedSocket, PendingWrite};
use crate::context::Context;
use crate::error::{io_error_kind, is_would_block, kind_is_would_block, kind_of, SocketError};
use crate::messages::{
    CfmBind, CfmClose, CfmSend, Confirm, ConnHandle, ConnectionType, Delivery, IndConnected,
    IndDropped, IndReceived, Indication, ListenHandle, Message, ReqBind, ReqClose, ReqSend,
    RspReceived, ServiceUserHandle, SocketAddr,
};

verus! {

broadcast use vstd::std_specs::hash::group_hash_axioms;

/// The most that one read takes from a connection.
pub const MAX_READ_LEN: usize = 2048;

/// The poll token of the control channel. No handle has this value.
pub const MESSAGE_TOKEN: usize = 0;

/// Created for every bound (i.e. listening) socket
#[derive(Debug, Clone, Copy)]
pub struct ListenSocket {
    /// The handle of this listener
    pub handle: ListenHandle,
    /// Who hears about this listener and the connections accepted on it
    pub ind_to: ServiceUserHandle,
}

/// How binding a listener and registering it for readiness went.
#[derive(Debug)]
pub enum BindOutcome {
    /// The address could not be bound; nothing was registered.
    BindFailed(std::io::Error),
    /// The address was bound, but registering the socket failed.
    RegisterFailed(std::io::Error),
    /// The socket is bound and registered under the task's next handle.
    Registered,
}

/// How accepting on a listener and registering the new stream went.
#[derive(Debug, Clone, Copy, PartialEq, Eq)]
pub enum AcceptOutcome {
    /// The accept failed; there is no stream.
    AcceptFailed,
    /// A stream was accepted, but registering it failed; it has been let go.
    RegisterFailed,
    /// The stream of this peer is registered under the task's next handle.
    Registered(SocketAddr),
}

/// What the contracts see of the task: the listeners and the connections by
/// the number of their handle, and the number of the next handle.
pub struct TaskState {
    pub listeners: Map<usize, ListenSocket>,
    pub connections: Map<usize, ConnState>,
    pub next_handle: usize,
}

/// No message, or the one given.
pub open spec fn zero_or_one(d: Option<Delivery>) -> Seq<Delivery> {
    match d {
        Some(d) => seq![d],
        None => Seq::empty(),
    }
}

impl TaskState {
    /// What holds of every state that the task reaches: handles are not
    /// zero and lie below the next one, no handle names both a listener and
    /// a connection, each record sits under its own handle, and no queued
    /// write has sent more than it holds.
    pub open spec fn wf(self) -> bool {
        &&& self.next_handle >= 1
        &&& forall|k: usize| #[trigger]
            self.listeners.contains_key(k) ==> {
                &&& 0 < k < self.next_handle
                &&& self.listeners[k].handle@ == k
                &&& !self.connections.contains_key(k)
            }
        &&& forall|k: usize| #[trigger]
            self.connections.contains_key(k) ==> {
                &&& 0 < k < self.next_handle
                &&& self.connections[k].handle@ == k
                &&& self.connections[k].wf()
            }
    }

    /// Whether the number `h` can be given out as a handle: it is not the
    /// control channel's token and names neither a listener nor a
    /// connection.
    pub open spec fn is_unused(self, h: usize) -> bool {
        &&& h != MESSAGE_TOKEN
        &&& !self.listeners.contains_key(h)
        &&& !self.connections.contains_key(h)
    }

    /// The state at the start: nothing bound, nothing connected, the first
    /// handle is the one after the control channel's token.
    pub open spec fn initial() -> TaskState {
        TaskState { listeners: Map::empty(), connections: Map::empty(), next_handle: 1 }
    }

    /// The state with the connection `k` set to `cs`.
    pub open spec fn with_connection(self, k: usize, cs: ConnState) -> TaskState {
        TaskState { connections: self.connections.insert(k, cs), ..self }
    }

    /// The state without the connection `k`.
    pub open spec fn without_connection(self, k: usize) -> TaskState {
        TaskState { connections: self.connections.remove(k), ..self }
    }

    /// The state after a Bind with the given outcome. A failed bind takes no
    /// handle; a failed registration takes one and leaves it unused.
    pub open spec fn after_bind(self, reply_to: ServiceUserHandle, outcome: BindOutcome) -> TaskState {
        match outcome {
            BindOutcome::BindFailed(_) => self,
            BindOutcome::RegisterFailed(_) => TaskState {
                next_handle: (self.next_handle + 1) as usize,
                ..self
            },
            BindOutcome::Registered => TaskState {
                listeners: self.listeners.insert(
                    self.next_handle,
                    ListenSocket { handle: Context(self.next_handle), ind_to: reply_to },
                ),
                next_handle: (self.next_handle + 1) as usize,
                ..self
            },
        }
    }

    /// What the `CfmBind` says for the given outcome.
    pub open spec fn bind_result(self, outcome: BindOutcome) -> Result<ListenHandle, SocketError> {
        match outcome {
            BindOutcome::BindFailed(e) => Err(SocketError::IOError(io_error_kind(e))),
            BindOutcome::RegisterFailed(e) => Err(SocketError::IOError(io_error_kind(e))),
            BindOutcome::Registered => Ok(Context(self.next_handle)),
        }
    }

    /// The state after the listener `ls` tried to accept: with a registered
    /// stream, a new connection under the next handle that reports to the
    /// listener's user. A failed accept takes no handle; a failed
    /// registration takes one and leaves it unused.
    pub open spec fn after_accept(self, ls: usize, outcome: AcceptOutcome) -> TaskState {
        match outcome {
            AcceptOutcome::AcceptFailed => self,
            AcceptOutcome::RegisterFailed => TaskState {
                next_handle: (self.next_handle + 1) as usize,
                ..self
            },
            AcceptOutcome::Registered(_) => TaskState {
                connections: self.connections.insert(
                    self.next_handle,
                    ConnState {
                        ind_to: self.listeners[ls].ind_to,
                        handle: Context(self.next_handle),
                        outstanding: false,
                        pending: Seq::empty(),
                    },
                ),
                next_handle: (self.next_handle + 1) as usize,
                ..self
            },
        }
    }

    /// What an accept on the listener `ls` delivers: the `IndConnected` of a
    /// registered stream, and nothing else.
    pub open spec fn accept_output(self, ls: usize, outcome: AcceptOutcome) -> Seq<Delivery> {
        match outcome {
            AcceptOutcome::Registered(peer) => seq![
                Delivery::connected(
                    self.listeners[ls].ind_to,
                    self.listeners[ls].handle,
                    Context(self.next_handle),
                    peer,
                ),
            ],
            _ => Seq::empty(),
        }
    }

    /// What the end of the connection `k` delivers when the network ended
    /// it: a `Dropped` cfm for each queued write, oldest first, and then the
    /// `IndDropped`, which is the last message about the handle.
    pub open spec fn drop_output(self, k: usize) -> Seq<Delivery> {
        self.connections[k].drop_confirms().push(
            Delivery::dropped(self.connections[k].ind_to, Context(k)),
        )
    }

    /// Whether a read with this outcome ends the connection `k`: no
    /// Indication was outstanding, and the read met the end of the stream or
    /// an error other than "would block".
    pub open spec fn read_drops(self, k: usize, read: Result<usize, std::io::Error>) -> bool {
        &&& !self.connections[k].outstanding
        &&& match read {
            Ok(n) => n == 0,
            Err(e) => !is_would_block(io_error_kind(e)),
        }
    }

    /// Whether a read with this outcome is passed up as an `IndReceived`:
    /// no Indication was outstanding and bytes came.
    pub open spec fn read_delivers(self, k: usize, read: Result<usize, std::io::Error>) -> bool {
        &&& !self.connections[k].outstanding
        &&& read matches Ok(n)
        &&& n > 0
    }

    /// The state after a read on the connection `k` with this outcome.
    pub open spec fn after_read(self, k: usize, read: Result<usize, std::io::Error>) -> TaskState {
        if self.read_drops(k, read) {
            self.without_connection(k)
        } else if self.read_delivers(k, read) {
            self.with_connection(k, ConnState { outstanding: true, ..self.connections[k] })
        } else {
            self
        }
    }

    /// Whether `out` is what a read on the connection `k` delivers: the
    /// messages of a drop; or one `IndReceived` with the bytes read, to the
    /// connection's user; or nothing.
    pub open spec fn is_read_output(
        self,
        k: usize,
        read: Result<usize, std::io::Error>,
        buffer: Seq<u8>,
        out: Seq<Delivery>,
    ) -> bool {
        if self.read_drops(k, read) {
            out == self.drop_output(k)
        } else if self.read_delivers(k, read) {
            &&& out.len() == 1
            &&& out[0].is_received(
                self.connections[k].ind_to,
                self.connections[k].handle,
                buffer.take(read->Ok_0 as int),
            )
        } else {
            out.len() == 0
        }
    }

    /// The state after a Close of `k`.
    pub open spec fn after_close(self, k: usize) -> TaskState {
        self.without_connection(k)
    }

    /// What a Close delivers: for a connection, a `Dropped` cfm for each
    /// queued write and then the `CfmClose`; for anything else, `BadHandle`.
    pub open spec fn close_output(self, req: ReqClose, reply_to: ServiceUserHandle) -> Seq<Delivery> {
        if self.connections.contains_key(req.handle@) {
            self.connections[req.handle@].drop_confirms().push(
                Delivery::close_confirm(reply_to, req.handle, req.context, Ok(())),
            )
        } else {
            seq![
                Delivery::close_confirm(reply_to, req.handle, req.context, Err(SocketError::BadHandle)),
            ]
        }
    }

    /// The write that a Send starts as.
    pub open spec fn fresh_write(req: ReqSend, reply_to: ServiceUserHandle) -> PendingWrite {
        PendingWrite { context: req.context, sent: 0, data: req.data, reply_to }
    }

    /// Whether the write of a Send to `k` is attempted at once.
    pub open spec fn send_writes_at_once(self, k: usize) -> bool {
        self.connections.contains_key(k) && self.connections[k].writes_at_once()
    }

    /// The state after a Send whose write, if one was attempted, had the
    /// outcome `wrote`.
    pub open spec fn after_send(
        self,
        req: ReqSend,
        reply_to: ServiceUserHandle,
        wrote: Result<usize, std::io::Error>,
    ) -> TaskState {
        let k = req.handle@;
        if self.connections.contains_key(k) {
            self.with_connection(
                k,
                self.connections[k].after_send(Self::fresh_write(req, reply_to), wrote),
            )
        } else {
            self
        }
    }

    /// What a Send delivers at once.
    pub open spec fn send_output(
        self,
        req: ReqSend,
        reply_to: ServiceUserHandle,
        wrote: Result<usize, std::io::Error>,
    ) -> Seq<Delivery> {
        let k = req.handle@;
        if self.connections.contains_key(k) {
            zero_or_one(
                self.connections[k].send_confirm(
                    req.handle,
                    Self::fresh_write(req, reply_to),
                    wrote,
                ),
            )
        } else {
            seq![
                Delivery::send_confirm(reply_to, req.handle, req.context, Err(SocketError::BadHandle)),
            ]
        }
    }

    /// The state after the Response for `k` opened its read gate again.
    pub open spec fn after_ack(self, k: usize) -> TaskState {
        if self.connections.contains_key(k) {
            self.with_connection(k, ConnState { outstanding: false, ..self.connections[k] })
        } else {
            self
        }
    }

    /// No handle that is in use or was given out is given out again: the
    /// next handle of `later` is not below that of `self`.
    pub open spec fn precedes(self, later: TaskState) -> bool {
        self.next_handle <= later.next_handle
    }
}

/// One instance per task. Stores all the task data.
pub struct TaskContext {
    /// Set of all bound sockets
    listeners: HashMap<usize, ListenSocket>,
    /// Set of all connected sockets
    connections: HashMap<usize, ConnectedSocket>,
    /// The next handle we'll use for a bound/open socket
    next_handle: Context,
}

impl View for TaskContext {
    type V = TaskState;

    closed spec fn view(&self) -> TaskState {
        TaskState {
            listeners: self.listeners@,
            connections: self.connections@.map_values(|c: ConnectedSocket| c@),
            next_handle: self.next_handle@,
        }
    }
}

impl TaskContext {
    /// Init the context
    pub fn new() -> (t: TaskContext)
        ensures
            t@ == TaskState::initial(),
            t@.wf(),
    {
        let t = TaskContext {
            listeners: HashMap::new(),
            connections: HashMap::new(),
            next_handle: Context::new(MESSAGE_TOKEN + 1),
        };
        assert(t@.connections =~= Map::empty());
        t
    }

    /// A buffer for one read: `MAX_READ_LEN` bytes, all zero.
    pub fn read_buffer() -> (buffer: Vec<u8>)
        ensures
            buffer@ == Seq::new(MAX_READ_LEN as nat, |i: int| 0u8),
    {
        let mut buffer: Vec<u8> = Vec::new();
        while buffer.len() < MAX_READ_LEN
            invariant
                buffer@.len() <= MAX_READ_LEN,
                buffer@ == Seq::new(buffer@.len(), |i: int| 0u8),
            decreases MAX_READ_LEN - buffer@.len(),
        {
            buffer.push(0u8);
            assert(buffer@ =~= Seq::new(buffer@.len(), |i: int| 0u8));
        }
        buffer
    }

    /// The handle that the next listener or connection gets: the token to
    /// register its socket under.
    pub fn next_handle(&self) -> (h: Context)
        ensures
            h@ == self@.next_handle,
    {
        self.next_handle
    }

    /// Whether `handle` names a listener.
    pub fn is_listener(&self, handle: ListenHandle) -> (b: bool)
        ensures
            b == self@.listeners.contains_key(handle@),
    {
        let k = handle.as_usize();
        self.listeners.contains_key(&k)
    }

    /// Whether `handle` names a connection.
    pub fn is_connection(&self, handle: ConnHandle) -> (b: bool)
        ensures
            b == self@.connections.contains_key(handle@),
    {
        let k = handle.as_usize();
        self.connections.contains_key(&k)
    }

    /// Whether the read gate of the connection `handle` is open: it exists
    /// and no Received Indication awaits its Response.
    pub fn read_gate_open(&self, handle: ConnHandle) -> (b: bool)
        ensures
            b == (self@.connections.contains_key(handle@)
                && !self@.connections[handle@].outstanding),
    {
        let k = handle.as_usize();
        match self.connections.get(&k) {
            Some(cs) => !cs.outstanding,
            None => false,
        }
    }

    /// How many writes are queued on the connection `handle`, if it exists.
    pub fn pending_count(&self, handle: ConnHandle) -> (n: Option<usize>)
        ensures
            match n {
                Some(n) => self@.connections.contains_key(handle@)
                    && n == self@.connections[handle@].pending.len(),
                None => !self@.connections.contains_key(handle@),
            },
    {
        let k = handle.as_usize();
        match self.connections.get(&k) {
            Some(cs) => Some(cs.pending_writes.len()),
            None => None,
        }
    }

    /// Takes the connection `k` out of the map, if it is there.
    fn take_connection(&mut self, k: usize) -> (taken: Option<ConnectedSocket>)
        ensures
            match taken {
                Some(cs) => {
                    &&& old(self)@.connections.contains_key(k)
                    &&& cs@ == old(self)@.connections[k]
                    &&& final(self)@ == old(self)@.without_connection(k)
                },
                None => !old(self)@.connections.contains_key(k) && final(self)@ == old(self)@,
            },
    {
        let taken = self.connections.remove(&k);
        proof {
            assert(self.connections@ == old(self).connections@.remove(k));
            assert(self@.connections =~= old(self)@.without_connection(k).connections);
            if !old(self).connections@.contains_key(k) {
                assert(self.connections@ =~= old(self).connections@);
            }
        }
        taken
    }

    /// Puts the connection `cs` into the map under `k`.
    fn put_connection(&mut self, k: usize, cs: ConnectedSocket)
        ensures
            final(self)@ == old(self)@.with_connection(k, cs@),
    {
        self.connections.insert(k, cs);
        proof {
            assert(self@.connections =~= old(self)@.with_connection(k, cs@).connections);
        }
    }
}


impl TaskContext {
    /// Binds a stream listener. `outcome` says how binding `req_bind.addr`
    /// and registering the socket under `next_handle()` went.
    pub fn handle_stream_bind(
        &mut self,
        req_bind: ReqBind,
        reply_to: ServiceUserHandle,
        outcome: BindOutcome,
    ) -> (out: Vec<Delivery>)
        requires
            old(self)@.wf(),
            !(outcome is BindFailed) ==> old(self)@.next_handle < usize::MAX,
        ensures
            final(self)@ == old(self)@.after_bind(reply_to, outcome),
            out@ == seq![
                Delivery::bind_confirm(reply_to, req_bind.context, old(self)@.bind_result(outcome)),
            ],
            old(self)@.is_unused(old(self)@.next_handle),
            final(self)@.wf(),
            old(self)@.precedes(final(self)@),
    {
        let result = match outcome {
            BindOutcome::BindFailed(io_error) => Err(SocketError::from(io_error)),
            BindOutcome::RegisterFailed(io_error) => {
                let _unused = self.next_handle.take();
                Err(SocketError::from(io_error))
            },
            BindOutcome::Registered => {
                let h = self.next_handle.take();
                // Any future indications go to the same place as the CfmBind.
                let l = ListenSocket { handle: h, ind_to: reply_to };
                self.listeners.insert(h.as_usize(), l);
                Ok(h)
            },
        };
        let cfm = CfmBind { result, context: req_bind.context };
        let mut out: Vec<Delivery> = Vec::new();
        out.push(Delivery { to: reply_to, message: Message::Confirm(Confirm::Bind(cfm)) });
        assert(out@ =~= seq![
            Delivery::bind_confirm(reply_to, req_bind.context, old(self)@.bind_result(outcome)),
        ]);
        out
    }

    /// Open a new socket with the given parameters.
    pub fn handle_bind(
        &mut self,
        req_bind: ReqBind,
        reply_to: ServiceUserHandle,
        outcome: BindOutcome,
    ) -> (out: Vec<Delivery>)
        requires
            old(self)@.wf(),
            !(outcome is BindFailed) ==> old(self)@.next_handle < usize::MAX,
        ensures
            final(self)@ == old(self)@.after_bind(reply_to, outcome),
            out@ == seq![
                Delivery::bind_confirm(reply_to, req_bind.context, old(self)@.bind_result(outcome)),
            ],
            old(self)@.is_unused(old(self)@.next_handle),
            final(self)@.wf(),
            old(self)@.precedes(final(self)@),
    {
        match req_bind.conn_type {
            ConnectionType::Stream => self.handle_stream_bind(req_bind, reply_to, outcome),
        }
    }

    /// Takes the outcome of one accept on the listener `ls_handle`. A stream
    /// that was accepted is registered under `next_handle()`; if that
    /// registration fails the stream is let go, the task goes on, and the
    /// outcome says so. Lets the user know of a registered stream with an
    /// IndConnected.
    pub fn accept_new_connection(
        &mut self,
        ls_handle: ListenHandle,
        outcome: AcceptOutcome,
    ) -> (out: Vec<Delivery>)
        requires
            old(self)@.wf(),
            old(self)@.listeners.contains_key(ls_handle@),
            !(outcome is AcceptFailed) ==> old(self)@.next_handle < usize::MAX,
        ensures
            final(self)@ == old(self)@.after_accept(ls_handle@, outcome),
            out@ == old(self)@.accept_output(ls_handle@, outcome),
            old(self)@.is_unused(old(self)@.next_handle),
            final(self)@.wf(),
            old(self)@.precedes(final(self)@),
    {
        let mut out: Vec<Delivery> = Vec::new();
        let ls_key = ls_handle.as_usize();
        let found = self.listeners.get(&ls_key);
        let ls = *found.unwrap();
        match outcome {
            AcceptOutcome::AcceptFailed => {},
            AcceptOutcome::RegisterFailed => {
                let _unused = self.next_handle.take();
            },
            AcceptOutcome::Registered(conn_addr) => {
                let handle = self.next_handle.take();
                let cs = ConnectedSocket::new(ls.ind_to, handle);
                let ind = IndConnected {
                    listen_handle: ls.handle,
                    conn_handle: handle,
                    peer: conn_addr,
                };
                self.put_connection(handle.as_usize(), cs);
                out.push(
                    Delivery {
                        to: ls.ind_to,
                        message: Message::Indication(Indication::Connected(ind)),
                    },
                );
            },
        }
        assert(out@ =~= old(self)@.accept_output(ls_handle@, outcome));
        out
    }

    /// Connection has gone away. Clean up: each queued write is confirmed
    /// as dropped, oldest first, and the IndDropped goes out last.
    pub fn dropped(&mut self, cs_handle: ConnHandle) -> (out: Vec<Delivery>)
        requires
            old(self)@.wf(),
            old(self)@.connections.contains_key(cs_handle@),
        ensures
            final(self)@ == old(self)@.without_connection(cs_handle@),
            out@ == old(self)@.drop_output(cs_handle@),
            final(self)@.wf(),
            old(self)@.precedes(final(self)@),
    {
        let taken = self.take_connection(cs_handle.as_usize());
        let cs = taken.unwrap();
        // The queued writes hear of it first, so that the IndDropped is the
        // last word on the handle.
        let mut out = cs.drop_confirms();
        let ind = IndDropped { handle: cs_handle };
        out.push(Delivery { to: cs.ind_to, message: Message::Indication(Indication::Dropped(ind)) });
        out
    }

    /// Takes the outcome of one read of at most `MAX_READ_LEN` bytes from
    /// the connection into `buffer` and passes the data up. With an
    /// Indication outstanding nothing is to be read, and nothing happens.
    pub fn read_from_socket(
        &mut self,
        cs_handle: ConnHandle,
        read: Result<usize, std::io::Error>,
        buffer: Vec<u8>,
    ) -> (out: Vec<Delivery>)
        requires
            old(self)@.wf(),
            old(self)@.connections.contains_key(cs_handle@),
            read matches Ok(n) ==> n <= buffer@.len(),
        ensures
            final(self)@ == old(self)@.after_read(cs_handle@, read),
            old(self)@.is_read_output(cs_handle@, read, buffer@, out@),
            final(self)@.wf(),
            old(self)@.precedes(final(self)@),
    {
        let k = cs_handle.as_usize();
        let found = self.connections.get(&k);
        let gate_closed = found.unwrap().outstanding;
        // Only pass up one indication at a time
        if gate_closed {
            return Vec::new();
        }
        let need_close = match &read {
            // Reading nothing from a readable socket means it is closed
            Ok(len) => *len == 0,
            Err(err) => !kind_is_would_block(kind_of(err)),
        };
        if need_close {
            return self.dropped(cs_handle);
        }
        let mut out: Vec<Delivery> = Vec::new();
        if let Ok(len) = read {
            let taken = self.take_connection(k);
            let mut cs = taken.unwrap();
            let mut data = buffer;
            data.truncate(len);
            let ind = IndReceived { handle: cs.handle, data };
            cs.outstanding = true;
            out.push(
                Delivery { to: cs.ind_to, message: Message::Indication(Indication::Received(ind)) },
            );
            self.put_connection(k, cs);
            proof {
                assert(self@.connections =~= old(self)@.after_read(k, read).connections);
            }
        }
        out
    }

    /// Handle a ReqClose
    pub fn handle_close(&mut self, req_close: ReqClose, reply_to: ServiceUserHandle) -> (out: Vec<
        Delivery,
    >)
        requires
            old(self)@.wf(),
        ensures
            final(self)@ == old(self)@.after_close(req_close.handle@),
            out@ == old(self)@.close_output(req_close, reply_to),
            final(self)@.wf(),
            old(self)@.precedes(final(self)@),
    {
        let taken = self.take_connection(req_close.handle.as_usize());
        let mut out: Vec<Delivery> = Vec::new();
        let result = match taken {
            Some(cs) => {
                out = cs.drop_confirms();
                Ok(())
            },
            None => {
                proof {
                    assert(self@.connections =~= old(self)@.after_close(
                        req_close.handle@,
                    ).connections);
                }
                Err(SocketError::BadHandle)
            },
        };
        let cfm = CfmClose { result, handle: req_close.handle, context: req_close.context };
        out.push(Delivery { to: reply_to, message: Message::Confirm(Confirm::Close(cfm)) });
        assert(out@ =~= old(self)@.close_output(req_close, reply_to));
        out
    }

    /// Whether the data of a Send to `handle` is to be written to the socket
    /// before the Send is handed in: the connection is there and nothing is
    /// queued on it.
    pub fn send_writes_at_once(&self, handle: ConnHandle) -> (b: bool)
        ensures
            b == self@.send_writes_at_once(handle@),
    {
        let k = handle.as_usize();
        match self.connections.get(&k) {
            Some(cs) => cs.pending_writes.len() == 0,
            None => false,
        }
    }

    /// Handle a ReqSend. Where `send_writes_at_once` holds, `wrote` is the
    /// outcome of writing `req_send.data` to the socket; elsewhere nothing
    /// was written and `wrote` is not looked at.
    pub fn handle_send(
        &mut self,
        req_send: ReqSend,
        reply_to: ServiceUserHandle,
        wrote: Result<usize, std::io::Error>,
    ) -> (out: Vec<Delivery>)
        requires
            old(self)@.wf(),
        ensures
            final(self)@ == old(self)@.after_send(req_send, reply_to, wrote),
            out@ == old(self)@.send_output(req_send, reply_to, wrote),
            final(self)@.wf(),
            old(self)@.precedes(final(self)@),
    {
        let mut out: Vec<Delivery> = Vec::new();
        let k = req_send.handle.as_usize();
        match self.take_connection(k) {
            Some(cs) => {
                let mut cs = cs;
                let pw = PendingWrite {
                    sent: 0,
                    context: req_send.context,
                    data: req_send.data,
                    reply_to,
                };
                let cfm = cs.send(req_send.handle, pw, wrote);
                self.put_connection(k, cs);
                proof {
                    assert(self@.connections =~= old(self)@.after_send(
                        req_send,
                        reply_to,
                        wrote,
                    ).connections);
                }
                if let Some(d) = cfm {
                    out.push(d);
                }
            },
            None => {
                let cfm = CfmSend {
                    result: Err(SocketError::BadHandle),
                    context: req_send.context,
                    handle: req_send.handle,
                };
                out.push(Delivery { to: reply_to, message: Message::Confirm(Confirm::Send(cfm)) });
            },
        }
        assert(out@ =~= old(self)@.send_output(req_send, reply_to, wrote));
        out
    }

    /// The bytes to write next to the connection `cs_handle`: what is left
    /// of its oldest queued write. `None` with nothing queued, or with no
    /// such connection.
    pub fn pending_slice(&self, cs_handle: ConnHandle) -> (bytes: Option<&[u8]>)
        requires
            self@.wf(),
        ensures
            match bytes {
                Some(b) => {
                    &&& self@.connections.contains_key(cs_handle@)
                    &&& self@.connections[cs_handle@].pending.len() > 0
                    &&& b@ == self@.connections[cs_handle@].pending[0].remaining()
                },
                None => !self@.connections.contains_key(cs_handle@)
                    || self@.connections[cs_handle@].pending.len() == 0,
            },
    {
        let k = cs_handle.as_usize();
        match self.connections.get(&k) {
            Some(cs) => {
                assert(self@.connections.contains_key(k) && self@.connections[k] == cs@);
                cs.next_slice()
            },
            None => None,
        }
    }

    /// Data can be sent on a connected socket. Takes the outcome of writing
    /// `pending_slice(cs_handle)`; the second result says whether to write
    /// the next slice and come back. With nothing queued nothing happens.
    pub fn pending_writes(
        &mut self,
        cs_handle: ConnHandle,
        wrote: Result<usize, std::io::Error>,
    ) -> (res: (Vec<Delivery>, bool))
        requires
            old(self)@.wf(),
            old(self)@.connections.contains_key(cs_handle@),
        ensures
            final(self)@ == old(self)@.with_connection(
                cs_handle@,
                old(self)@.connections[cs_handle@].after_drain(wrote),
            ),
            res.0@ == zero_or_one(old(self)@.connections[cs_handle@].drain_confirm(wrote)),
            res.1 == old(self)@.connections[cs_handle@].drain_continues(wrote),
            final(self)@.wf(),
            old(self)@.precedes(final(self)@),
    {
        let k = cs_handle.as_usize();
        let taken = self.take_connection(k);
        let mut cs = taken.unwrap();
        let (cfm, more) = cs.drain(wrote);
        self.put_connection(k, cs);
        proof {
            assert(self@.connections =~= old(self)@.with_connection(
                k,
                old(self)@.connections[k].after_drain(wrote),
            ).connections);
        }
        let mut out: Vec<Delivery> = Vec::new();
        if let Some(d) = cfm {
            out.push(d);
        }
        assert(out@ =~= zero_or_one(old(self)@.connections[k].drain_confirm(wrote)));
        (out, more)
    }

    /// Someone wants more data. Opens the read gate of the connection again
    /// and takes the outcome of the read that follows at once, as
    /// `read_from_socket` does. A handle that names no connection may have
    /// crossed over with a disconnect: nothing happens.
    pub fn handle_received(
        &mut self,
        rsp_received: RspReceived,
        read: Result<usize, std::io::Error>,
        buffer: Vec<u8>,
    ) -> (out: Vec<Delivery>)
        requires
            old(self)@.wf(),
            read matches Ok(n) ==> n <= buffer@.len(),
        ensures
            final(self)@ == if old(self)@.connections.contains_key(rsp_received.handle@) {
                old(self)@.after_ack(rsp_received.handle@).after_read(rsp_received.handle@, read)
            } else {
                old(self)@
            },
            if old(self)@.connections.contains_key(rsp_received.handle@) {
                old(self)@.after_ack(rsp_received.handle@).is_read_output(
                    rsp_received.handle@,
                    read,
                    buffer@,
                    out@,
                )
            } else {
                out@.len() == 0
            },
            final(self)@.wf(),
            old(self)@.precedes(final(self)@),
    {
        let k = rsp_received.handle.as_usize();
        match self.take_connection(k) {
            Some(cs) => {
                let mut cs = cs;
                cs.outstanding = false;
                self.put_connection(k, cs);
                proof {
                    assert(self@.connections =~= old(self)@.after_ack(k).connections);
                }
                // Try and read it - won't hurt if we can't.
                self.read_from_socket(rsp_received.handle, read, buffer)
            },
            None => Vec::new(),
        }
    }
}

} // verus!
