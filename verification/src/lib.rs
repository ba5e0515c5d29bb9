//! A socket service as a pure reactor core: clients submit Requests and
//! Responses, the network reports readiness and I/O outcomes, and the task
//! state answers each of them with the Confirms and Indications to deliver.
//!
//! The core owns no socket. Whoever drives it performs the I/O that a step
//! calls for and hands the outcome in; every decision about handles, flow
//! control and queued writes is taken, and verified, here.
//!
//! A driver works in rounds. For a token that the poller reports readable it
//! asks [`TaskContext::process_readable`], and then accepts, reads or
//! empties the control channel as the answer says; for a writable one it
//! asks [`TaskContext::process_writable`] and writes
//! [`TaskContext::pending_slice`] for as long as
//! [`TaskContext::pending_writes`] says to go on. For a message of the
//! control channel it asks [`TaskContext::plan_message`] which I/O comes
//! first, performs it, and calls [`TaskContext::handle_message`]. Each
//! handler returns the Confirms and Indications to deliver, in order. When
//! a handler has ended a connection, so that [`TaskContext::is_connection`]
//! no longer holds of its handle, the driver takes the stream off the
//! poller and closes it.
//!
//! The modules `laws` and `machine` hold what is proved of whole runs.

pub mod connection;
pub mod context;
pub mod dispatch;
pub mod error;
pub mod laws;
pub mod machine;
pub mod messages;
pub mod task;

pub use connection::{ConnectedSocket, PendingWrite};
pub use context::Context;
pub use dispatch::{IoOutcome, IoPlan, ReadableAction, WritableAction};
pub use error::SocketError;
pub use task::{AcceptOutcome, BindOutcome, ListenSocket, TaskContext, MAX_READ_LEN, MESSAGE_TOKEN};
pub use messages::{
    CfmBind, CfmClose, CfmSend, Confirm, ConnHandle, ConnectionType, Delivery, Incoming,
    IndConnected, IndDropped, IndReceived, Indication, ListenHandle, Message, ReqBind, ReqClose,
    ReqSend, Request, Response, RspReceived, Service, ServiceUserHandle, SocketAddr,
};
