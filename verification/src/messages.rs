//! The message surface: Requests and Responses that clients submit, Confirms
//! and Indications that the task delivers.

use vstd::prelude::*;
use crate::context::Context;
use crate::error::SocketError;

verus! {

/// Uniquely identifies a listening socket
pub type ListenHandle = Context;

/// Uniquely identifies an open socket
pub type ConnHandle = Context;

/// Names the socket service: its Requests, Confirms, Indications and
/// Responses are the four enums of this module.
#[derive(Debug, Clone, Copy, PartialEq, Eq)]
pub struct Service;

/// The sort of connections we can make.
#[derive(Debug, Copy, Clone, PartialEq, Eq)]
pub enum ConnectionType {
    /// Stream, aka a TCP connection
    Stream,
}

/// An IP address and a port, as plain numbers.
#[derive(Debug, Copy, Clone, PartialEq, Eq, Hash)]
pub enum SocketAddr {
    /// An IPv4 address, most significant octet first, and a port
    V4 { octets: [u8; 4], port: u16 },
    /// An IPv6 address, most significant segment first, and a port
    V6 { segments: [u16; 8], port: u16 },
}

/// Names a service user: the place where Confirms and Indications go. The
/// task copies it from a Bind to the listener and from the listener to each
/// connection accepted on it.
#[derive(Debug, Copy, Clone, PartialEq, Eq, Hash)]
pub struct ServiceUserHandle(pub usize);

/// Requests that can be sent to the Socket task
#[derive(Debug, PartialEq, Eq)]
pub enum Request {
    /// A Bind Request - Bind a listen socket
    Bind(ReqBind),
    /// A Close request - Close an open connection
    Close(ReqClose),
    /// A Send request - Send something on a connection
    Send(ReqSend),
}

/// Confirms sent from the Socket task in answer to a Request
#[derive(Debug, PartialEq, Eq)]
pub enum Confirm {
    /// A Bind Confirm - Bound a listen socket
    Bind(CfmBind),
    /// A Close Confirm - Closed an open connection
    Close(CfmClose),
    /// A Send Confirm - Sent something on a connection
    Send(CfmSend),
}

/// Asynchronous indications sent by the Socket task.
#[derive(Debug, PartialEq, Eq)]
pub enum Indication {
    /// A Connected Indication - Indicates that a listening socket has been
    /// connected to
    Connected(IndConnected),
    /// A Dropped Indication - Indicates that an open socket has been dropped
    Dropped(IndDropped),
    /// A Received Indication - Indicates that data has arrived on an open
    /// socket
    Received(IndReceived),
}

/// Responses to Indications required
#[derive(Debug, PartialEq, Eq)]
pub enum Response {
    /// A Received Response - unblocks the open socket so more IndReceived can
    /// be sent
    Received(RspReceived),
}

/// Bind a listen socket
#[derive(Debug, PartialEq, Eq)]
pub struct ReqBind {
    /// The address to bind to
    pub addr: SocketAddr,
    /// Reflected in the cfm
    pub context: Context,
    /// Type of connection to bind
    pub conn_type: ConnectionType,
}

/// Close an open connection
#[derive(Debug, PartialEq, Eq)]
pub struct ReqClose {
    /// The handle from a IndConnected
    pub handle: ConnHandle,
    /// Reflected in the cfm
    pub context: Context,
}

/// Send something on a connection
#[derive(Debug, PartialEq, Eq)]
pub struct ReqSend {
    /// The handle from a IndConnected
    pub handle: ConnHandle,
    /// Some (maybe) unique identifier
    pub context: Context,
    /// The data to be sent
    pub data: Vec<u8>,
}

/// Reply to a `ReqBind`.
#[derive(Debug, PartialEq, Eq)]
pub struct CfmBind {
    /// Either a new ListenHandle or an error
    pub result: Result<ListenHandle, SocketError>,
    /// Reflected from the req
    pub context: Context,
}

/// Reply to a `ReqClose`. Every write still queued on the connection has
/// been confirmed as dropped before it.
#[derive(Debug, PartialEq, Eq)]
pub struct CfmClose {
    /// The handle requested for closing
    pub handle: ConnHandle,
    /// Success or failed
    pub result: Result<(), SocketError>,
    /// Reflected from the req
    pub context: Context,
}

/// Reply to a `ReqSend`: all of the data went out, or none of what was left
/// of it will.
#[derive(Debug, PartialEq, Eq)]
pub struct CfmSend {
    /// The handle requested for sending
    pub handle: ConnHandle,
    /// Amount sent or error
    pub result: Result<usize, SocketError>,
    /// Some (maybe) unique identifier
    pub context: Context,
}

/// Indicates that a listening socket has been connected to.
#[derive(Debug, PartialEq, Eq)]
pub struct IndConnected {
    /// The listen handle the connection came in on
    pub listen_handle: ListenHandle,
    /// The handle for the new connection
    pub conn_handle: ConnHandle,
    /// Details about who connected
    pub peer: SocketAddr,
}

/// Indicates that a socket has been dropped.
#[derive(Debug, PartialEq, Eq)]
pub struct IndDropped {
    /// The handle that is no longer valid
    pub handle: ConnHandle,
}

/// Indicates that data has arrived on the socket. No further data will be
/// sent on this handle until `RspReceived` is sent back.
#[derive(Debug, PartialEq, Eq)]
pub struct IndReceived {
    /// The handle for the socket data came in on
    pub handle: ConnHandle,
    /// The data that came in (might be a limited to a small amount)
    pub data: Vec<u8>,
}

/// Tell the task that more data can now be sent.
#[derive(Debug, PartialEq, Eq)]
pub struct RspReceived {
    /// Which handle is now free to send up more data
    pub handle: ConnHandle,
}

/// What arrives on the task's control channel.
#[derive(Debug, PartialEq, Eq)]
pub enum Incoming {
    /// A Request, and the user to whom its Confirm goes
    Request(Request, ServiceUserHandle),
    /// A Response to an earlier Indication
    Response(Response),
}

/// What the task sends to a service user.
#[derive(Debug, PartialEq, Eq)]
pub enum Message {
    /// The answer to a Request
    Confirm(Confirm),
    /// An event on a listener or a connection
    Indication(Indication),
}

/// One message and the service user it is for.
#[derive(Debug, PartialEq, Eq)]
pub struct Delivery {
    /// Who gets it
    pub to: ServiceUserHandle,
    /// What they get
    pub message: Message,
}

impl Delivery {
    /// A `CfmBind` for `to`.
    pub open spec fn bind_confirm(
        to: ServiceUserHandle,
        context: Context,
        result: Result<ListenHandle, SocketError>,
    ) -> Delivery {
        Delivery { to, message: Message::Confirm(Confirm::Bind(CfmBind { result, context })) }
    }

    /// A `CfmClose` for `to`.
    pub open spec fn close_confirm(
        to: ServiceUserHandle,
        handle: ConnHandle,
        context: Context,
        result: Result<(), SocketError>,
    ) -> Delivery {
        Delivery {
            to,
            message: Message::Confirm(Confirm::Close(CfmClose { handle, result, context })),
        }
    }

    /// A `CfmSend` for `to`.
    pub open spec fn send_confirm(
        to: ServiceUserHandle,
        handle: ConnHandle,
        context: Context,
        result: Result<usize, SocketError>,
    ) -> Delivery {
        Delivery {
            to,
            message: Message::Confirm(Confirm::Send(CfmSend { handle, result, context })),
        }
    }

    /// An `IndConnected` for `to`.
    pub open spec fn connected(
        to: ServiceUserHandle,
        listen_handle: ListenHandle,
        conn_handle: ConnHandle,
        peer: SocketAddr,
    ) -> Delivery {
        Delivery {
            to,
            message: Message::Indication(
                Indication::Connected(IndConnected { listen_handle, conn_handle, peer }),
            ),
        }
    }

    /// An `IndDropped` for `to`.
    pub open spec fn dropped(to: ServiceUserHandle, handle: ConnHandle) -> Delivery {
        Delivery { to, message: Message::Indication(Indication::Dropped(IndDropped { handle })) }
    }

    /// Whether this is an `IndReceived` for `to` that carries `data` from
    /// the connection `handle`.
    pub open spec fn is_received(self, to: ServiceUserHandle, handle: ConnHandle, data: Seq<u8>) -> bool {
        &&& self.to == to
        &&& self.message matches Message::Indication(Indication::Received(ind))
        &&& ind.handle == handle
        &&& ind.data@ == data
    }

    /// Whether this is an `IndDropped`, whatever handle it names.
    pub open spec fn is_any_dropped(self) -> bool {
        self.message matches Message::Indication(Indication::Dropped(_))
    }

    /// Whether this is an `IndReceived`, whatever it carries.
    pub open spec fn is_any_received(self) -> bool {
        self.message matches Message::Indication(Indication::Received(_))
    }

    /// The handle that the message speaks about, where it names one: a
    /// `CfmBind` names none, an `IndConnected` names the new connection.
    pub open spec fn subject(self) -> Option<ConnHandle> {
        match self.message {
            Message::Confirm(Confirm::Bind(_)) => None,
            Message::Confirm(Confirm::Close(c)) => Some(c.handle),
            Message::Confirm(Confirm::Send(c)) => Some(c.handle),
            Message::Indication(Indication::Connected(i)) => Some(i.conn_handle),
            Message::Indication(Indication::Dropped(i)) => Some(i.handle),
            Message::Indication(Indication::Received(i)) => Some(i.handle),
        }
    }
}

impl From<ReqBind> for Request {
    /// Wraps the message as `Request::Bind`.
    fn from(m: ReqBind) -> (wrapped: Request) {
        Request::Bind(m)
    }
}

impl vstd::std_specs::convert::FromSpecImpl<ReqBind> for Request {
    open spec fn obeys_from_spec() -> bool {
        true
    }

    open spec fn from_spec(m: ReqBind) -> Request {
        Request::Bind(m)
    }
}

impl From<ReqClose> for Request {
    /// Wraps the message as `Request::Close`.
    fn from(m: ReqClose) -> (wrapped: Request) {
        Request::Close(m)
    }
}

impl vstd::std_specs::convert::FromSpecImpl<ReqClose> for Request {
    open spec fn obeys_from_spec() -> bool {
        true
    }

    open spec fn from_spec(m: ReqClose) -> Request {
        Request::Close(m)
    }
}

impl From<ReqSend> for Request {
    /// Wraps the message as `Request::Send`.
    fn from(m: ReqSend) -> (wrapped: Request) {
        Request::Send(m)
    }
}

impl vstd::std_specs::convert::FromSpecImpl<ReqSend> for Request {
    open spec fn obeys_from_spec() -> bool {
        true
    }

    open spec fn from_spec(m: ReqSend) -> Request {
        Request::Send(m)
    }
}

impl From<CfmBind> for Confirm {
    /// Wraps the message as `Confirm::Bind`.
    fn from(m: CfmBind) -> (wrapped: Confirm) {
        Confirm::Bind(m)
    }
}

impl vstd::std_specs::convert::FromSpecImpl<CfmBind> for Confirm {
    open spec fn obeys_from_spec() -> bool {
        true
    }

    open spec fn from_spec(m: CfmBind) -> Confirm {
        Confirm::Bind(m)
    }
}

impl From<CfmClose> for Confirm {
    /// Wraps the message as `Confirm::Close`.
    fn from(m: CfmClose) -> (wrapped: Confirm) {
        Confirm::Close(m)
    }
}

impl vstd::std_specs::convert::FromSpecImpl<CfmClose> for Confirm {
    open spec fn obeys_from_spec() -> bool {
        true
    }

    open spec fn from_spec(m: CfmClose) -> Confirm {
        Confirm::Close(m)
    }
}

impl From<CfmSend> for Confirm {
    /// Wraps the message as `Confirm::Send`.
    fn from(m: CfmSend) -> (wrapped: Confirm) {
        Confirm::Send(m)
    }
}

impl vstd::std_specs::convert::FromSpecImpl<CfmSend> for Confirm {
    open spec fn obeys_from_spec() -> bool {
        true
    }

    open spec fn from_spec(m: CfmSend) -> Confirm {
        Confirm::Send(m)
    }
}

impl From<IndConnected> for Indication {
    /// Wraps the message as `Indication::Connected`.
    fn from(m: IndConnected) -> (wrapped: Indication) {
        Indication::Connected(m)
    }
}

impl vstd::std_specs::convert::FromSpecImpl<IndConnected> for Indication {
    open spec fn obeys_from_spec() -> bool {
        true
    }

    open spec fn from_spec(m: IndConnected) -> Indication {
        Indication::Connected(m)
    }
}

impl From<IndDropped> for Indication {
    /// Wraps the message as `Indication::Dropped`.
    fn from(m: IndDropped) -> (wrapped: Indication) {
        Indication::Dropped(m)
    }
}

impl vstd::std_specs::convert::FromSpecImpl<IndDropped> for Indication {
    open spec fn obeys_from_spec() -> bool {
        true
    }

    open spec fn from_spec(m: IndDropped) -> Indication {
        Indication::Dropped(m)
    }
}

impl From<IndReceived> for Indication {
    /// Wraps the message as `Indication::Received`.
    fn from(m: IndReceived) -> (wrapped: Indication) {
        Indication::Received(m)
    }
}

impl vstd::std_specs::convert::FromSpecImpl<IndReceived> for Indication {
    open spec fn obeys_from_spec() -> bool {
        true
    }

    open spec fn from_spec(m: IndReceived) -> Indication {
        Indication::Received(m)
    }
}

impl From<RspReceived> for Response {
    /// Wraps the message as `Response::Received`.
    fn from(m: RspReceived) -> (wrapped: Response) {
        Response::Received(m)
    }
}

impl vstd::std_specs::convert::FromSpecImpl<RspReceived> for Response {
    open spec fn obeys_from_spec() -> bool {
        true
    }

    open spec fn from_spec(m: RspReceived) -> Response {
        Response::Received(m)
    }
}

} // verus!
