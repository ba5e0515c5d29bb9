use grease_socket::{
    AcceptOutcome, BindOutcome, Confirm, ConnectionType, Context, Delivery, Incoming, Indication, IoOutcome,
    IoPlan, Message, ReadableAction, ReqBind, ReqSend, Request, Response, RspReceived,
    ServiceUserHandle, SocketAddr, SocketError, TaskContext, WritableAction, MAX_READ_LEN,
};
use rand::Rng;
use std::io;

fn test_port(port: u16) -> SocketAddr {
    SocketAddr::V4 { octets: [127, 0, 1, 1], port }
}

fn peer_addr(port: u16) -> SocketAddr {
    SocketAddr::V4 { octets: [127, 0, 0, 1], port }
}

fn bind(task: &mut TaskContext, addr: SocketAddr, context: usize, user: ServiceUserHandle) -> Vec<Delivery> {
    let bind_req = ReqBind { addr, context: Context::new(context), conn_type: ConnectionType::Stream };
    let msg = Incoming::Request(Request::Bind(bind_req), user);
    assert_eq!(task.plan_message(&msg), IoPlan::Bind { token: task.next_handle() });
    task.handle_message(msg, IoOutcome::Bind(BindOutcome::Registered))
}

fn bind_refused(
    task: &mut TaskContext,
    addr: SocketAddr,
    context: usize,
    user: ServiceUserHandle,
    kind: io::ErrorKind,
) -> Vec<Delivery> {
    let bind_req = ReqBind { addr, context: Context::new(context), conn_type: ConnectionType::Stream };
    let msg = Incoming::Request(Request::Bind(bind_req), user);
    task.handle_message(msg, IoOutcome::Bind(BindOutcome::BindFailed(io::Error::from(kind))))
}

fn bytes(count: usize) -> Vec<u8> {
    rand::thread_rng().gen_iter().take(count).collect::<Vec<u8>>()
}

/// One read by the task from a peer that has `wire` still to deliver and
/// hands over at most `chunk` bytes at a time.
fn read_from(wire: &mut Vec<u8>, chunk: usize) -> (io::Result<usize>, Vec<u8>) {
    let mut buffer = TaskContext::read_buffer();
    if wire.is_empty() {
        return (Err(io::Error::from(io::ErrorKind::WouldBlock)), buffer);
    }
    let n: usize = wire.len().min(chunk).min(buffer.len());
    let rest = wire.split_off(n);
    buffer[..n].copy_from_slice(wire);
    *wire = rest;
    (Ok(n), buffer)
}

#[test]
fn bind_port_ok() {
    let mut task = TaskContext::new();
    let handle = ServiceUserHandle(1);
    let out = bind(&mut task, test_port(8000), 1234, handle);
    assert_eq!(out.len(), 1);
    assert_eq!(out[0].to, handle);
    match out[0].message {
        Message::Confirm(Confirm::Bind(ref x)) => {
            assert_eq!(x.context, Context::new(1234));
            assert!(x.result.is_ok());
        }
        _ => panic!("Bad match"),
    }
}

#[test]
/// Fails to bind same port twice
fn bind_port_fail() {
    let port = test_port(8001);
    let mut task = TaskContext::new();
    let handle = ServiceUserHandle(1);
    let out = bind(&mut task, port, 1234, handle);
    match out[0].message {
        Message::Confirm(Confirm::Bind(ref x)) => {
            assert_eq!(x.context, Context::new(1234));
            assert!(x.result.is_ok());
        }
        _ => panic!("Bad match"),
    }
    // Can't bind same socket twice
    let out = bind_refused(&mut task, port, 5678, handle, io::ErrorKind::AddrInUse);
    assert_eq!(out.len(), 1);
    match out[0].message {
        Message::Confirm(Confirm::Bind(ref x)) => {
            assert_eq!(x.context, Context::new(5678));
            assert!(x.result.is_err());
            assert_eq!(x.result, Err(SocketError::IOError(io::ErrorKind::AddrInUse)));
        }
        _ => panic!("Bad match"),
    }
}

#[test]
/// Fails to bind 8.8.8.8:8000 (because you don't have that i/f)
fn bind_if_fail() {
    let mut task = TaskContext::new();
    let handle = ServiceUserHandle(1);
    let addr = SocketAddr::V4 { octets: [8, 8, 8, 8], port: 8000 };
    let out = bind_refused(&mut task, addr, 6666, handle, io::ErrorKind::AddrNotAvailable);
    assert_eq!(out.len(), 1);
    match out[0].message {
        Message::Confirm(Confirm::Bind(ref x)) => {
            assert_eq!(x.context, Context::new(6666));
            assert!(x.result.is_err());
        }
        _ => panic!("Bad match"),
    }
    // nothing was bound and no handle was used up
    assert_eq!(task.next_handle(), Context::new(1));
}

fn bound_handle(out: &[Delivery], context: usize) -> Context {
    match out[0].message {
        Message::Confirm(Confirm::Bind(ref x)) => {
            assert_eq!(x.context, Context::new(context));
            x.result.unwrap()
        }
        _ => panic!("Bad match"),
    }
}

fn connected_handle(out: &[Delivery], listen_handle: Context, peer: SocketAddr) -> Context {
    assert_eq!(out.len(), 1);
    match out[0].message {
        Message::Indication(Indication::Connected(ref x)) => {
            assert_eq!(x.listen_handle, listen_handle);
            assert_eq!(x.peer, peer);
            x.conn_handle
        }
        _ => panic!("Bad match"),
    }
}

fn expect_dropped(out: &[Delivery], conn_handle: Context) {
    assert_eq!(out.len(), 1);
    match out[0].message {
        Message::Indication(Indication::Dropped(ref x)) => {
            assert_eq!(x.handle, conn_handle);
        }
        _ => panic!("Bad match"),
    }
}

/// The peer has shut down: the connection is readable and reads nothing.
fn peer_shutdown(task: &mut TaskContext, conn_handle: Context) -> Vec<Delivery> {
    assert_eq!(task.process_readable(conn_handle.as_usize()), ReadableAction::Read(conn_handle));
    let out = task.read_from_socket(conn_handle, Ok(0), TaskContext::read_buffer());
    assert_eq!(task.process_writable(conn_handle.as_usize()), WritableAction::Unknown);
    out
}

#[test]
/// Connects to a socket and disconnects
fn connect() {
    let mut task = TaskContext::new();
    let handle = ServiceUserHandle(1);
    let out = bind(&mut task, test_port(8002), 5678, handle);
    let listen_handle = bound_handle(&out, 5678);

    // Make a TCP connection
    let stream = peer_addr(40000);
    assert_eq!(task.process_readable(listen_handle.as_usize()), ReadableAction::Accept(listen_handle));
    let out = task.accept_new_connection(listen_handle, AcceptOutcome::Registered(stream));

    // Check we get an IndConnected
    assert_eq!(out[0].to, handle);
    let conn_handle = connected_handle(&out, listen_handle, stream);

    // Check we get an IndDropped
    let out = peer_shutdown(&mut task, conn_handle);
    assert_eq!(out[0].to, handle);
    expect_dropped(&out, conn_handle);
}

#[test]
/// Makes two connections and drops them
fn two_connections() {
    let mut task = TaskContext::new();
    let handle = ServiceUserHandle(1);

    let out = bind(&mut task, test_port(8003), 5678, handle);
    let listen_handle_a = bound_handle(&out, 5678);
    let out = bind(&mut task, test_port(8004), 5678, handle);
    let listen_handle_b = bound_handle(&out, 5678);
    assert_ne!(listen_handle_a, listen_handle_b);

    // Make two TCP connections
    let stream_b = peer_addr(40001);
    let stream_a = peer_addr(40002);

    // Check we get an IndConnected, twice
    let out = task.accept_new_connection(listen_handle_b, AcceptOutcome::Registered(stream_b));
    let conn_handle_b = connected_handle(&out, listen_handle_b, stream_b);
    let out = task.accept_new_connection(listen_handle_a, AcceptOutcome::Registered(stream_a));
    let conn_handle_a = connected_handle(&out, listen_handle_a, stream_a);
    assert_ne!(conn_handle_a, conn_handle_b);

    // Shutdown the A connection
    let out = peer_shutdown(&mut task, conn_handle_a);
    expect_dropped(&out, conn_handle_a);
    assert!(task.is_connection(conn_handle_b));

    // Shutdown the B connection
    let out = peer_shutdown(&mut task, conn_handle_b);
    expect_dropped(&out, conn_handle_b);
}

#[test]
/// The peer sends data, which comes up in pieces, each acknowledged
fn send_data() {
    let mut task = TaskContext::new();
    let handle = ServiceUserHandle(1);
    let out = bind(&mut task, test_port(8005), 5678, handle);
    let listen_handle = bound_handle(&out, 5678);

    let stream = peer_addr(40003);
    let out = task.accept_new_connection(listen_handle, AcceptOutcome::Registered(stream));
    let conn_handle = connected_handle(&out, listen_handle, stream);

    // Send some data
    let data = bytes(1024);
    let mut wire = data.clone();
    let mut rx_data: Vec<u8> = Vec::new();

    // Check we get data, in pieces of arbitrary length
    assert_eq!(task.process_readable(conn_handle.as_usize()), ReadableAction::Read(conn_handle));
    let (read, buffer) = read_from(&mut wire, 300);
    let mut out = task.read_from_socket(conn_handle, read, buffer);
    let mut pieces: usize = 0;
    while rx_data.len() < data.len() {
        assert_eq!(out.len(), 1);
        match out[0].message {
            Message::Indication(Indication::Received(ref x)) => {
                assert_eq!(x.handle, conn_handle);
                rx_data.extend_from_slice(&x.data);
                pieces += 1;
            }
            _ => panic!("Bad match"),
        }
        // until the Response comes, readiness reads nothing
        assert_eq!(task.process_readable(conn_handle.as_usize()), ReadableAction::Gated(conn_handle));
        let msg = Incoming::Response(Response::Received(RspReceived { handle: conn_handle }));
        assert_eq!(task.plan_message(&msg), IoPlan::Read { handle: conn_handle });
        let (read, buffer) = read_from(&mut wire, 300);
        out = task.handle_message(msg, IoOutcome::Read(read, buffer));
    }
    assert_eq!(pieces, 4);
    assert_eq!(rx_data, data);
    // the read after the last Response found nothing
    assert!(out.is_empty());

    // Check we get an IndDropped
    let out = peer_shutdown(&mut task, conn_handle);
    expect_dropped(&out, conn_handle);
}

#[test]
/// Sends data through the task to the peer
fn receive_data() {
    let mut task = TaskContext::new();
    let handle = ServiceUserHandle(1);
    let out = bind(&mut task, test_port(8006), 5678, handle);
    let listen_handle = bound_handle(&out, 5678);

    let stream = peer_addr(40004);
    let out = task.accept_new_connection(listen_handle, AcceptOutcome::Registered(stream));
    let conn_handle = connected_handle(&out, listen_handle, stream);

    // Send some data using the socket task
    let data = bytes(1024);
    let msg = Incoming::Request(
        Request::Send(ReqSend { handle: conn_handle, context: Context::new(1234), data: data.clone() }),
        handle,
    );
    assert_eq!(task.plan_message(&msg), IoPlan::Write { handle: conn_handle });

    // Read all the data: the socket takes 600 bytes of the first write, and
    // the rest when it is writable again
    let mut rx_data: Vec<u8> = Vec::new();
    match msg {
        Incoming::Request(Request::Send(ref x), _) => rx_data.extend_from_slice(&x.data[..600]),
        _ => panic!("Bad match"),
    }
    let out = task.handle_message(msg, IoOutcome::Write(Ok(600)));
    assert!(out.is_empty());
    assert_eq!(task.process_writable(conn_handle.as_usize()), WritableAction::Drain(conn_handle));
    let wrote: usize = match task.pending_slice(conn_handle) {
        Some(part) => {
            rx_data.extend_from_slice(part);
            part.len()
        }
        None => panic!("Zero read"),
    };
    let (out, more) = task.pending_writes(conn_handle, Ok(wrote));
    assert!(!more);
    assert_eq!(task.pending_slice(conn_handle), None);

    assert_eq!(rx_data, data);

    // Check we get cfm
    assert_eq!(out.len(), 1);
    assert_eq!(out[0].to, handle);
    match out[0].message {
        Message::Confirm(Confirm::Send(ref x)) => {
            assert_eq!(x.handle, conn_handle);
            if let Ok(len) = x.result {
                assert_eq!(len, data.len())
            } else {
                panic!("Didn't get OK in CfmSend");
            }
            assert_eq!(len_of(&x.result), 1024);
            assert_eq!(x.context, Context::new(1234));
        }
        _ => panic!("Bad match"),
    }

    // Check we get an IndDropped
    let out = peer_shutdown(&mut task, conn_handle);
    expect_dropped(&out, conn_handle);
}

fn len_of(result: &Result<usize, SocketError>) -> usize {
    match result {
        Ok(len) => *len,
        Err(_) => panic!("Didn't get OK in CfmSend"),
    }
}

#[test]
fn read_buffer_has_the_read_cap() {
    assert_eq!(MAX_READ_LEN, 2048);
    assert_eq!(TaskContext::read_buffer(), vec![0u8; 2048]);
}
