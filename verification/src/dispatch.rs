//! Dispatch: which handler a readiness event or a message of the control
//! channel goes to, and which I/O has to happen first.

use vstd::prelude::*;
use crate::context::Context;
use crate::messages::{
    ConnHandle, Delivery, Incoming, ListenHandle, Request, Response, ServiceUserHandle,
};
use crate::task::{BindOutcome, TaskContext, TaskState, MESSAGE_TOKEN};

verus! {

/// What to do about a token that is readable.
#[derive(Debug, Clone, Copy, PartialEq, Eq)]
pub enum ReadableAction {
    /// The control channel: receive until it is empty, handling each message.
    DrainMessages,
    /// A listener: accept once and hand in the outcome.
    Accept(ListenHandle),
    /// A connection with its read gate open: read once and hand in the outcome.
    Read(ConnHandle),
    /// A connection whose Received Indication is outstanding: leave the data.
    Gated(ConnHandle),
    /// Nothing the task knows, such as a connection closed a moment ago.
    Unknown,
}

/// What to do about a token that is writable.
#[derive(Debug, Clone, Copy, PartialEq, Eq)]
pub enum WritableAction {
    /// A listener: nothing to write.
    Listener(ListenHandle),
    /// A connection: write its pending slices for as long as they go out.
    Drain(ConnHandle),
    /// Nothing the task knows, such as a connection closed a moment ago.
    Unknown,
}

/// The I/O that has to happen before a message is handed to its handler.
#[derive(Debug, Clone, Copy, PartialEq, Eq)]
pub enum IoPlan {
    /// None.
    Nothing,
    /// Bind the address of the Request and register the socket under `token`.
    Bind { token: Context },
    /// Write the data of the Request to the connection, once.
    Write { handle: ConnHandle },
    /// Read from the connection, once.
    Read { handle: ConnHandle },
}

/// The outcome of the I/O that a plan called for.
#[derive(Debug)]
pub enum IoOutcome {
    /// No I/O was done.
    Nothing,
    /// How the bind and the registration went.
    Bind(BindOutcome),
    /// What the write returned.
    Write(Result<usize, std::io::Error>),
    /// What the read returned, and the buffer it read into.
    Read(Result<usize, std::io::Error>, Vec<u8>),
}

impl IoOutcome {
    /// Whether this is an outcome of the I/O that `plan` calls for. Where
    /// the plan calls for none, any value will do: it is not looked at.
    pub open spec fn answers(self, plan: IoPlan) -> bool {
        match plan {
            IoPlan::Nothing => true,
            IoPlan::Bind { .. } => self is Bind,
            IoPlan::Write { .. } => self is Write,
            IoPlan::Read { .. } => {
                &&& self matches IoOutcome::Read(read, buffer)
                &&& (read matches Ok(n) ==> n <= buffer@.len())
            },
        }
    }

    /// The outcome of the write; where none was made, no byte was written.
    pub open spec fn wrote(self) -> Result<usize, std::io::Error> {
        match self {
            IoOutcome::Write(wrote) => wrote,
            _ => Ok(0),
        }
    }
}

impl TaskState {
    /// What a readable token calls for.
    pub open spec fn readable_action(self, token: usize) -> ReadableAction {
        if token == MESSAGE_TOKEN {
            ReadableAction::DrainMessages
        } else if self.listeners.contains_key(token) {
            ReadableAction::Accept(Context(token))
        } else if self.connections.contains_key(token) {
            if self.connections[token].outstanding {
                ReadableAction::Gated(Context(token))
            } else {
                ReadableAction::Read(Context(token))
            }
        } else {
            ReadableAction::Unknown
        }
    }

    /// What a writable token calls for.
    pub open spec fn writable_action(self, token: usize) -> WritableAction {
        if self.listeners.contains_key(token) {
            WritableAction::Listener(Context(token))
        } else if self.connections.contains_key(token) {
            WritableAction::Drain(Context(token))
        } else {
            WritableAction::Unknown
        }
    }

    /// The I/O that a Request calls for.
    pub open spec fn plan_request(self, req: Request) -> IoPlan {
        match req {
            Request::Bind(_) => IoPlan::Bind { token: Context(self.next_handle) },
            Request::Close(_) => IoPlan::Nothing,
            Request::Send(s) => if self.send_writes_at_once(s.handle@) {
                IoPlan::Write { handle: s.handle }
            } else {
                IoPlan::Nothing
            },
        }
    }

    /// The I/O that a Response calls for.
    pub open spec fn plan_response(self, rsp: Response) -> IoPlan {
        match rsp {
            Response::Received(r) => if self.connections.contains_key(r.handle@) {
                IoPlan::Read { handle: r.handle }
            } else {
                IoPlan::Nothing
            },
        }
    }

    /// The I/O that a message calls for.
    pub open spec fn plan(self, msg: Incoming) -> IoPlan {
        match msg {
            Incoming::Request(req, _) => self.plan_request(req),
            Incoming::Response(rsp) => self.plan_response(rsp),
        }
    }

    /// Whether a handler of the Request may take a new handle, so that one
    /// must be left.
    pub open spec fn request_takes_handle(req: Request, io: IoOutcome) -> bool {
        req is Bind && !(io matches IoOutcome::Bind(BindOutcome::BindFailed(_)))
    }

    /// The state after a Request whose I/O had the outcome `io`.
    pub open spec fn after_request(
        self,
        req: Request,
        reply_to: ServiceUserHandle,
        io: IoOutcome,
    ) -> TaskState {
        match req {
            Request::Bind(_) => self.after_bind(reply_to, io->Bind_0),
            Request::Close(c) => self.after_close(c.handle@),
            Request::Send(s) => self.after_send(s, reply_to, io.wrote()),
        }
    }

    /// What a Request whose I/O had the outcome `io` delivers.
    pub open spec fn request_output(
        self,
        req: Request,
        reply_to: ServiceUserHandle,
        io: IoOutcome,
    ) -> Seq<Delivery> {
        match req {
            Request::Bind(b) => seq![
                Delivery::bind_confirm(reply_to, b.context, self.bind_result(io->Bind_0)),
            ],
            Request::Close(c) => self.close_output(c, reply_to),
            Request::Send(s) => self.send_output(s, reply_to, io.wrote()),
        }
    }

    /// The state after a Response whose read had the outcome `io`.
    pub open spec fn after_response(self, rsp: Response, io: IoOutcome) -> TaskState {
        match rsp {
            Response::Received(r) => if self.connections.contains_key(r.handle@) {
                self.after_ack(r.handle@).after_read(r.handle@, io->Read_0)
            } else {
                self
            },
        }
    }

    /// Whether `out` is what a Response whose read had the outcome `io`
    /// delivers.
    pub open spec fn is_response_output(
        self,
        rsp: Response,
        io: IoOutcome,
        out: Seq<Delivery>,
    ) -> bool {
        match rsp {
            Response::Received(r) => if self.connections.contains_key(r.handle@) {
                self.after_ack(r.handle@).is_read_output(
                    r.handle@,
                    io->Read_0,
                    io->Read_1@,
                    out,
                )
            } else {
                out.len() == 0
            },
        }
    }
}

impl TaskContext {
    /// Called when the poller says that `token` is readable: says which of
    /// the control channel, a listener or a connection it is.
    pub fn process_readable(&self, token: usize) -> (action: ReadableAction)
        ensures
            action == self@.readable_action(token),
    {
        let handle = Context::new(token);
        if token == MESSAGE_TOKEN {
            ReadableAction::DrainMessages
        } else if self.is_listener(handle) {
            ReadableAction::Accept(handle)
        } else if self.is_connection(handle) {
            if self.read_gate_open(handle) {
                ReadableAction::Read(handle)
            } else {
                ReadableAction::Gated(handle)
            }
        } else {
            ReadableAction::Unknown
        }
    }

    /// Called when the poller says that `token` is writable, after what its
    /// being readable called for is done.
    pub fn process_writable(&self, token: usize) -> (action: WritableAction)
        ensures
            action == self@.writable_action(token),
    {
        let handle = Context::new(token);
        if self.is_listener(handle) {
            WritableAction::Listener(handle)
        } else if self.is_connection(handle) {
            WritableAction::Drain(handle)
        } else {
            WritableAction::Unknown
        }
    }

    /// The I/O to do before `msg` is handed to `handle_message`.
    pub fn plan_message(&self, msg: &Incoming) -> (plan: IoPlan)
        ensures
            plan == self@.plan(*msg),
    {
        match msg {
            Incoming::Request(Request::Bind(_), _) => IoPlan::Bind { token: self.next_handle() },
            Incoming::Request(Request::Close(_), _) => IoPlan::Nothing,
            Incoming::Request(Request::Send(s), _) => {
                if self.send_writes_at_once(s.handle) {
                    IoPlan::Write { handle: s.handle }
                } else {
                    IoPlan::Nothing
                }
            },
            Incoming::Response(Response::Received(r)) => {
                if self.is_connection(r.handle) {
                    IoPlan::Read { handle: r.handle }
                } else {
                    IoPlan::Nothing
                }
            },
        }
    }

    /// Handle requests
    pub fn handle_socket_req(
        &mut self,
        req: Request,
        reply_to: ServiceUserHandle,
        io: IoOutcome,
    ) -> (out: Vec<Delivery>)
        requires
            old(self)@.wf(),
            io.answers(old(self)@.plan_request(req)),
            TaskState::request_takes_handle(req, io) ==> old(self)@.next_handle < usize::MAX,
        ensures
            final(self)@ == old(self)@.after_request(req, reply_to, io),
            out@ == old(self)@.request_output(req, reply_to, io),
            final(self)@.wf(),
            old(self)@.precedes(final(self)@),
    {
        match req {
            Request::Bind(x) => match io {
                IoOutcome::Bind(outcome) => self.handle_bind(x, reply_to, outcome),
                // a Bind always comes with the outcome of its bind
                _ => Vec::new(),
            },
            Request::Close(x) => self.handle_close(x, reply_to),
            Request::Send(x) => match io {
                IoOutcome::Write(wrote) => self.handle_send(x, reply_to, wrote),
                // no write was called for, so none was made
                _ => self.handle_send(x, reply_to, Ok(0)),
            },
        }
    }

    /// Handle responses
    pub fn handle_socket_rsp(&mut self, rsp: Response, io: IoOutcome) -> (out: Vec<Delivery>)
        requires
            old(self)@.wf(),
            io.answers(old(self)@.plan_response(rsp)),
        ensures
            final(self)@ == old(self)@.after_response(rsp, io),
            old(self)@.is_response_output(rsp, io, out@),
            final(self)@.wf(),
            old(self)@.precedes(final(self)@),
    {
        match rsp {
            Response::Received(x) => match io {
                IoOutcome::Read(read, buffer) => {
                    if self.is_connection(x.handle) {
                        self.handle_received(x, read, buffer)
                    } else {
                        Vec::new()
                    }
                },
                // no read was called for: the handle names no connection
                _ => Vec::new(),
            },
        }
    }

    /// Called when our task has received a Message
    pub fn handle_message(&mut self, msg: Incoming, io: IoOutcome) -> (out: Vec<Delivery>)
        requires
            old(self)@.wf(),
            io.answers(old(self)@.plan(msg)),
            msg matches Incoming::Request(req, _) ==> (TaskState::request_takes_handle(req, io)
                ==> old(self)@.next_handle < usize::MAX),
        ensures
            match msg {
                Incoming::Request(req, reply_to) => {
                    &&& final(self)@ == old(self)@.after_request(req, reply_to, io)
                    &&& out@ == old(self)@.request_output(req, reply_to, io)
                },
                Incoming::Response(rsp) => {
                    &&& final(self)@ == old(self)@.after_response(rsp, io)
                    &&& old(self)@.is_response_output(rsp, io, out@)
                },
            },
            final(self)@.wf(),
            old(self)@.precedes(final(self)@),
    {
        match msg {
            // We only handle our own requests and responses
            Incoming::Request(req, reply_to) => self.handle_socket_req(req, reply_to, io),
            Incoming::Response(rsp) => self.handle_socket_rsp(rsp, io),
        }
    }
}

} // verus!
