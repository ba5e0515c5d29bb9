use grease_socket::{
    AcceptOutcome, BindOutcome, CfmBind, CfmClose, CfmSend, Confirm, ConnectionType, Context, Delivery, Incoming,
    IndConnected, IndDropped, IndReceived, Indication, IoOutcome, IoPlan, Message, ReadableAction,
    ReqBind, ReqClose, ReqSend, Request, Response, RspReceived, ServiceUserHandle, SocketAddr,
    SocketError, TaskContext, WritableAction, MESSAGE_TOKEN,
};
use std::io;

fn addr(port: u16) -> SocketAddr {
    SocketAddr::V4 { octets: [127, 0, 0, 1], port }
}

fn bind_req(context: usize) -> ReqBind {
    ReqBind { addr: addr(9000), context: Context::new(context), conn_type: ConnectionType::Stream }
}

fn send_confirm(to: usize, handle: usize, context: usize, result: Result<usize, SocketError>) -> Delivery {
    Delivery {
        to: ServiceUserHandle(to),
        message: Message::Confirm(Confirm::Send(CfmSend {
            handle: Context::new(handle),
            result,
            context: Context::new(context),
        })),
    }
}

fn dropped(to: usize, handle: usize) -> Delivery {
    Delivery {
        to: ServiceUserHandle(to),
        message: Message::Indication(Indication::Dropped(IndDropped { handle: Context::new(handle) })),
    }
}

/// A task with a listener (handle 1, user 10) and one connection (handle 2).
fn task_with_connection() -> TaskContext {
    let mut task = TaskContext::new();
    task.handle_stream_bind(bind_req(1), ServiceUserHandle(10), BindOutcome::Registered);
    task.accept_new_connection(Context::new(1), AcceptOutcome::Registered(addr(50000)));
    task
}

fn send(task: &mut TaskContext, handle: usize, context: usize, data: Vec<u8>, user: usize, wrote: io::Result<usize>) -> Vec<Delivery> {
    let req = ReqSend { handle: Context::new(handle), context: Context::new(context), data };
    task.handle_send(req, ServiceUserHandle(user), wrote)
}

#[test]
fn new_task_knows_nothing() {
    let task = TaskContext::new();
    assert_eq!(task.next_handle(), Context::new(1));
    assert!(!task.is_listener(Context::new(1)));
    assert!(!task.is_connection(Context::new(1)));
    assert_eq!(task.process_readable(MESSAGE_TOKEN), ReadableAction::DrainMessages);
    assert_eq!(task.process_readable(1), ReadableAction::Unknown);
    assert_eq!(task.process_writable(0), WritableAction::Unknown);
    assert_eq!(task.process_writable(1), WritableAction::Unknown);
}

#[test]
fn bind_confirms_with_the_first_handle() {
    let mut task = TaskContext::new();
    let out = task.handle_bind(bind_req(1234), ServiceUserHandle(7), BindOutcome::Registered);
    let expected = Delivery {
        to: ServiceUserHandle(7),
        message: Message::Confirm(Confirm::Bind(CfmBind {
            result: Ok(Context::new(1)),
            context: Context::new(1234),
        })),
    };
    assert_eq!(out, vec![expected]);
    assert!(task.is_listener(Context::new(1)));
    assert!(!task.is_connection(Context::new(1)));
    assert_eq!(task.next_handle(), Context::new(2));
    assert_eq!(task.process_readable(1), ReadableAction::Accept(Context::new(1)));
    assert_eq!(task.process_writable(1), WritableAction::Listener(Context::new(1)));
}

#[test]
fn handles_are_distinct_and_never_zero() {
    let mut task = TaskContext::new();
    let mut seen: Vec<Context> = Vec::new();
    let mut i: usize = 0;
    while i < 5 {
        let out = task.handle_stream_bind(bind_req(i), ServiceUserHandle(1), BindOutcome::Registered);
        match out[0].message {
            Message::Confirm(Confirm::Bind(ref x)) => seen.push(x.result.unwrap()),
            _ => panic!("Bad match"),
        }
        let out = task.accept_new_connection(seen[0], AcceptOutcome::Registered(addr(50000)));
        match out[0].message {
            Message::Indication(Indication::Connected(ref x)) => seen.push(x.conn_handle),
            _ => panic!("Bad match"),
        }
        i += 1;
    }
    let numbers: Vec<usize> = seen.iter().map(|h| h.as_usize()).collect();
    assert_eq!(numbers, vec![1, 2, 3, 4, 5, 6, 7, 8, 9, 10]);
}

#[test]
fn failed_registration_uses_up_a_handle() {
    let mut task = TaskContext::new();
    let failed = BindOutcome::RegisterFailed(io::Error::from(io::ErrorKind::OutOfMemory));
    let out = task.handle_stream_bind(bind_req(3), ServiceUserHandle(1), failed);
    let expected = Delivery {
        to: ServiceUserHandle(1),
        message: Message::Confirm(Confirm::Bind(CfmBind {
            result: Err(SocketError::IOError(io::ErrorKind::OutOfMemory)),
            context: Context::new(3),
        })),
    };
    assert_eq!(out, vec![expected]);
    assert!(!task.is_listener(Context::new(1)));
    assert_eq!(task.next_handle(), Context::new(2));
}

#[test]
fn accept_reports_to_the_listeners_user() {
    let mut task = TaskContext::new();
    task.handle_stream_bind(bind_req(1), ServiceUserHandle(10), BindOutcome::Registered);
    let out = task.accept_new_connection(Context::new(1), AcceptOutcome::Registered(addr(50001)));
    let expected = Delivery {
        to: ServiceUserHandle(10),
        message: Message::Indication(Indication::Connected(IndConnected {
            listen_handle: Context::new(1),
            conn_handle: Context::new(2),
            peer: addr(50001),
        })),
    };
    assert_eq!(out, vec![expected]);
    assert!(task.is_connection(Context::new(2)));
    assert!(task.read_gate_open(Context::new(2)));
    assert_eq!(task.pending_count(Context::new(2)), Some(0));
}

#[test]
fn failed_accept_changes_nothing() {
    let mut task = TaskContext::new();
    task.handle_stream_bind(bind_req(1), ServiceUserHandle(10), BindOutcome::Registered);
    let out = task.accept_new_connection(Context::new(1), AcceptOutcome::AcceptFailed);
    assert!(out.is_empty());
    assert_eq!(task.next_handle(), Context::new(2));
}

#[test]
fn read_passes_data_up_and_shuts_the_gate() {
    let mut task = task_with_connection();
    let mut buffer = TaskContext::read_buffer();
    buffer[0] = 7;
    buffer[1] = 8;
    buffer[2] = 9;
    let out = task.read_from_socket(Context::new(2), Ok(3), buffer);
    let expected = Delivery {
        to: ServiceUserHandle(10),
        message: Message::Indication(Indication::Received(IndReceived {
            handle: Context::new(2),
            data: vec![7, 8, 9],
        })),
    };
    assert_eq!(out, vec![expected]);
    assert!(!task.read_gate_open(Context::new(2)));
    assert_eq!(task.process_readable(2), ReadableAction::Gated(Context::new(2)));

    // with the Indication outstanding a second read passes nothing
    let out = task.read_from_socket(Context::new(2), Ok(5), TaskContext::read_buffer());
    assert!(out.is_empty());
    let out = task.read_from_socket(Context::new(2), Ok(0), TaskContext::read_buffer());
    assert!(out.is_empty());
    assert!(task.is_connection(Context::new(2)));
}

#[test]
fn response_opens_the_gate_and_reads_at_once() {
    let mut task = task_with_connection();
    task.read_from_socket(Context::new(2), Ok(1), vec![1u8; 4]);
    let out = task.handle_received(RspReceived { handle: Context::new(2) }, Ok(2), vec![5u8, 6, 7]);
    let expected = Delivery {
        to: ServiceUserHandle(10),
        message: Message::Indication(Indication::Received(IndReceived {
            handle: Context::new(2),
            data: vec![5, 6],
        })),
    };
    assert_eq!(out, vec![expected]);
    assert!(!task.read_gate_open(Context::new(2)));

    let would_block = Err(io::Error::from(io::ErrorKind::WouldBlock));
    let out = task.handle_received(RspReceived { handle: Context::new(2) }, would_block, vec![0u8; 4]);
    assert!(out.is_empty());
    assert!(task.read_gate_open(Context::new(2)));
}

#[test]
fn stale_response_is_ignored() {
    let mut task = task_with_connection();
    let msg = Incoming::Response(Response::Received(RspReceived { handle: Context::new(99) }));
    assert_eq!(task.plan_message(&msg), IoPlan::Nothing);
    let out = task.handle_message(msg, IoOutcome::Nothing);
    assert!(out.is_empty());
    assert!(task.is_connection(Context::new(2)));
}

#[test]
fn would_block_read_is_no_event() {
    let mut task = task_with_connection();
    let would_block = Err(io::Error::from(io::ErrorKind::WouldBlock));
    let out = task.read_from_socket(Context::new(2), would_block, TaskContext::read_buffer());
    assert!(out.is_empty());
    assert!(task.is_connection(Context::new(2)));
    assert!(task.read_gate_open(Context::new(2)));
}

#[test]
fn read_error_drops_the_connection() {
    let mut task = task_with_connection();
    let reset = Err(io::Error::from(io::ErrorKind::ConnectionReset));
    let out = task.read_from_socket(Context::new(2), reset, TaskContext::read_buffer());
    assert_eq!(out, vec![dropped(10, 2)]);
    assert!(!task.is_connection(Context::new(2)));
}

#[test]
fn send_that_goes_out_whole_confirms_at_once() {
    let mut task = task_with_connection();
    assert!(task.send_writes_at_once(Context::new(2)));
    let out = send(&mut task, 2, 77, vec![1, 2, 3, 4], 20, Ok(4));
    assert_eq!(out, vec![send_confirm(20, 2, 77, Ok(4))]);
    assert_eq!(task.pending_count(Context::new(2)), Some(0));
}

#[test]
fn empty_send_confirms_zero() {
    let mut task = task_with_connection();
    let out = send(&mut task, 2, 77, Vec::new(), 20, Ok(0));
    assert_eq!(out, vec![send_confirm(20, 2, 77, Ok(0))]);
}

#[test]
fn send_error_is_confirmed_with_its_kind() {
    let mut task = task_with_connection();
    let broken = Err(io::Error::from(io::ErrorKind::BrokenPipe));
    let out = send(&mut task, 2, 77, vec![1, 2, 3], 20, broken);
    assert_eq!(out, vec![send_confirm(20, 2, 77, Err(SocketError::IOError(io::ErrorKind::BrokenPipe)))]);
    assert_eq!(task.pending_count(Context::new(2)), Some(0));
}

#[test]
fn send_to_unknown_handle_is_a_bad_handle() {
    let mut task = task_with_connection();
    assert!(!task.send_writes_at_once(Context::new(1)));
    // a listener is no connection
    let out = send(&mut task, 1, 5, vec![1], 20, Ok(0));
    assert_eq!(out, vec![send_confirm(20, 1, 5, Err(SocketError::BadHandle))]);
    let out = send(&mut task, 42, 6, vec![1], 20, Ok(0));
    assert_eq!(out, vec![send_confirm(20, 42, 6, Err(SocketError::BadHandle))]);
}

#[test]
fn partial_writes_queue_and_confirm_in_order() {
    let mut task = task_with_connection();
    let first: Vec<u8> = vec![1, 2, 3, 4, 5];
    let second: Vec<u8> = vec![6, 7, 8];
    let mut wire: Vec<u8> = Vec::new();

    // the socket takes two bytes of the first Send
    wire.extend_from_slice(&first[..2]);
    let out = send(&mut task, 2, 100, first.clone(), 20, Ok(2));
    assert!(out.is_empty());
    assert_eq!(task.pending_count(Context::new(2)), Some(1));
    assert_eq!(task.pending_slice(Context::new(2)), Some(&first[2..]));

    // the second Send waits behind it, and its write is not attempted
    assert!(!task.send_writes_at_once(Context::new(2)));
    let out = send(&mut task, 2, 101, second.clone(), 21, Ok(0));
    assert!(out.is_empty());
    assert_eq!(task.pending_count(Context::new(2)), Some(2));
    assert_eq!(task.pending_slice(Context::new(2)), Some(&first[2..]));

    // writable: one more byte goes out, then the socket is full
    assert_eq!(task.process_writable(2), WritableAction::Drain(Context::new(2)));
    wire.extend_from_slice(&first[2..3]);
    let (out, more) = task.pending_writes(Context::new(2), Ok(1));
    assert!(out.is_empty());
    assert!(!more);
    assert_eq!(task.pending_slice(Context::new(2)), Some(&first[3..]));

    // writable again: the rest of the first, then all of the second
    wire.extend_from_slice(&first[3..]);
    let (out, more) = task.pending_writes(Context::new(2), Ok(2));
    assert_eq!(out, vec![send_confirm(20, 2, 100, Ok(5))]);
    assert!(more);
    assert_eq!(task.pending_slice(Context::new(2)), Some(&second[..]));
    wire.extend_from_slice(&second);
    let (out, more) = task.pending_writes(Context::new(2), Ok(3));
    assert_eq!(out, vec![send_confirm(21, 2, 101, Ok(3))]);
    assert!(!more);
    assert_eq!(task.pending_slice(Context::new(2)), None);
    assert_eq!(task.pending_count(Context::new(2)), Some(0));

    assert_eq!(wire, vec![1, 2, 3, 4, 5, 6, 7, 8]);
}

#[test]
fn drain_with_nothing_queued_does_nothing() {
    let mut task = task_with_connection();
    let (out, more) = task.pending_writes(Context::new(2), Ok(9));
    assert!(out.is_empty());
    assert!(!more);
    assert_eq!(task.pending_count(Context::new(2)), Some(0));
}

#[test]
fn drain_error_confirms_and_stops() {
    let mut task = task_with_connection();
    send(&mut task, 2, 100, vec![1, 2, 3], 20, Ok(1));
    send(&mut task, 2, 101, vec![4, 5], 21, Ok(0));
    let broken = Err(io::Error::from(io::ErrorKind::BrokenPipe));
    let (out, more) = task.pending_writes(Context::new(2), broken);
    assert_eq!(out, vec![send_confirm(20, 2, 100, Err(SocketError::IOError(io::ErrorKind::BrokenPipe)))]);
    assert!(!more);
    // the younger write stays queued
    assert_eq!(task.pending_count(Context::new(2)), Some(1));
    assert_eq!(task.pending_slice(Context::new(2)), Some(&[4u8, 5][..]));
}

#[test]
fn drop_tells_the_senders_then_the_user() {
    let mut task = task_with_connection();
    send(&mut task, 2, 100, vec![1, 2, 3], 20, Ok(1));
    send(&mut task, 2, 101, vec![4, 5], 21, Ok(0));
    let out = task.read_from_socket(Context::new(2), Ok(0), TaskContext::read_buffer());
    // the IndDropped is the last message about the handle
    assert_eq!(
        out,
        vec![
            send_confirm(20, 2, 100, Err(SocketError::Dropped)),
            send_confirm(21, 2, 101, Err(SocketError::Dropped)),
            dropped(10, 2),
        ]
    );
    assert!(!task.is_connection(Context::new(2)));
}

#[test]
fn drop_after_a_response_keeps_the_same_order() {
    let mut task = task_with_connection();
    task.read_from_socket(Context::new(2), Ok(1), vec![1u8; 4]);
    send(&mut task, 2, 100, vec![1, 2, 3], 20, Ok(1));
    let reset = Err(io::Error::from(io::ErrorKind::ConnectionReset));
    let msg = Incoming::Response(Response::Received(RspReceived { handle: Context::new(2) }));
    let out = task.handle_message(msg, IoOutcome::Read(reset, vec![0u8; 4]));
    assert_eq!(out, vec![send_confirm(20, 2, 100, Err(SocketError::Dropped)), dropped(10, 2)]);
    assert!(!task.is_connection(Context::new(2)));
}

#[test]
fn explicit_drop_with_queued_writes_ends_with_the_indication() {
    let mut task = task_with_connection();
    send(&mut task, 2, 100, vec![1, 2, 3], 20, Ok(0));
    let out = task.dropped(Context::new(2));
    assert_eq!(out, vec![send_confirm(20, 2, 100, Err(SocketError::Dropped)), dropped(10, 2)]);
}

#[test]
fn failed_stream_registration_is_survived() {
    let mut task = TaskContext::new();
    task.handle_stream_bind(bind_req(1), ServiceUserHandle(10), BindOutcome::Registered);
    let out = task.accept_new_connection(Context::new(1), AcceptOutcome::RegisterFailed);
    assert!(out.is_empty());
    // the handle it was to get is used up, and names nothing
    assert_eq!(task.next_handle(), Context::new(3));
    assert!(!task.is_connection(Context::new(2)));
    assert_eq!(task.process_readable(2), ReadableAction::Unknown);
    // the listener goes on accepting
    assert!(task.is_listener(Context::new(1)));
    let out = task.accept_new_connection(Context::new(1), AcceptOutcome::Registered(addr(50003)));
    match out[0].message {
        Message::Indication(Indication::Connected(ref x)) => {
            assert_eq!(x.listen_handle, Context::new(1));
            assert_eq!(x.conn_handle, Context::new(3));
        }
        _ => panic!("Bad match"),
    }
}

#[test]
fn dropped_removes_the_connection() {
    let mut task = task_with_connection();
    let out = task.dropped(Context::new(2));
    assert_eq!(out, vec![dropped(10, 2)]);
    assert!(!task.is_connection(Context::new(2)));
    assert!(task.is_listener(Context::new(1)));
}

#[test]
fn close_confirms_after_flushing_the_queue() {
    let mut task = task_with_connection();
    send(&mut task, 2, 100, vec![1, 2, 3], 20, Ok(1));
    let req = ReqClose { handle: Context::new(2), context: Context::new(55) };
    let msg = Incoming::Request(Request::Close(req), ServiceUserHandle(30));
    assert_eq!(task.plan_message(&msg), IoPlan::Nothing);
    let out = task.handle_message(msg, IoOutcome::Nothing);
    let close = Delivery {
        to: ServiceUserHandle(30),
        message: Message::Confirm(Confirm::Close(CfmClose {
            handle: Context::new(2),
            result: Ok(()),
            context: Context::new(55),
        })),
    };
    assert_eq!(out, vec![send_confirm(20, 2, 100, Err(SocketError::Dropped)), close]);
    assert!(!task.is_connection(Context::new(2)));
}

#[test]
fn close_of_unknown_handle_is_a_bad_handle() {
    let mut task = task_with_connection();
    // a listener cannot be closed
    let out = task.handle_close(ReqClose { handle: Context::new(1), context: Context::new(8) }, ServiceUserHandle(30));
    let expected = Delivery {
        to: ServiceUserHandle(30),
        message: Message::Confirm(Confirm::Close(CfmClose {
            handle: Context::new(1),
            result: Err(SocketError::BadHandle),
            context: Context::new(8),
        })),
    };
    assert_eq!(out, vec![expected]);
    assert!(task.is_listener(Context::new(1)));
    assert!(task.is_connection(Context::new(2)));
}

#[test]
fn dropped_handle_stays_silent() {
    let mut task = task_with_connection();
    task.read_from_socket(Context::new(2), Ok(0), TaskContext::read_buffer());
    assert_eq!(task.process_readable(2), ReadableAction::Unknown);
    assert_eq!(task.process_writable(2), WritableAction::Unknown);
    let out = task.handle_socket_rsp(Response::Received(RspReceived { handle: Context::new(2) }), IoOutcome::Nothing);
    assert!(out.is_empty());
    // the next connection gets a new handle
    let out = task.accept_new_connection(Context::new(1), AcceptOutcome::Registered(addr(50002)));
    match out[0].message {
        Message::Indication(Indication::Connected(ref x)) => assert_eq!(x.conn_handle, Context::new(3)),
        _ => panic!("Bad match"),
    }
    // a Request that still names it gets its cfm
    let out = send(&mut task, 2, 9, vec![1], 20, Ok(0));
    assert_eq!(out, vec![send_confirm(20, 2, 9, Err(SocketError::BadHandle))]);
}

#[test]
fn requests_go_through_the_dispatcher() {
    let mut task = task_with_connection();
    let req = Request::Send(ReqSend { handle: Context::new(2), context: Context::new(3), data: vec![9, 9] });
    assert_eq!(task.plan_message(&Incoming::Request(Request::Send(ReqSend { handle: Context::new(2), context: Context::new(3), data: vec![9, 9] }), ServiceUserHandle(20))), IoPlan::Write { handle: Context::new(2) });
    let out = task.handle_socket_req(req, ServiceUserHandle(20), IoOutcome::Write(Ok(1)));
    assert!(out.is_empty());
    assert_eq!(task.pending_slice(Context::new(2)), Some(&[9u8][..]));
    let req = Request::Bind(bind_req(4));
    let out = task.handle_socket_req(req, ServiceUserHandle(20), IoOutcome::Bind(BindOutcome::Registered));
    match out[0].message {
        Message::Confirm(Confirm::Bind(ref x)) => assert_eq!(x.result, Ok(Context::new(3))),
        _ => panic!("Bad match"),
    }
}

#[test]
fn socket_error_from_io_error_keeps_the_kind() {
    let e = io::Error::new(io::ErrorKind::TimedOut, "late");
    assert_eq!(SocketError::from(e), SocketError::IOError(io::ErrorKind::TimedOut));
    assert_ne!(SocketError::BadHandle, SocketError::Dropped);
    assert_ne!(SocketError::NotImplemented, SocketError::Dropped);
}

#[test]
fn messages_wrap_into_their_enums() {
    let req: Request = bind_req(1).into();
    assert_eq!(req, Request::Bind(bind_req(1)));
    let req: Request = ReqClose { handle: Context::new(2), context: Context::new(3) }.into();
    assert_eq!(req, Request::Close(ReqClose { handle: Context::new(2), context: Context::new(3) }));
    let req: Request = ReqSend { handle: Context::new(2), context: Context::new(3), data: vec![1] }.into();
    assert!(matches!(req, Request::Send(_)));
    let rsp: Response = RspReceived { handle: Context::new(2) }.into();
    assert_eq!(rsp, Response::Received(RspReceived { handle: Context::new(2) }));
    let cfm: Confirm = CfmBind { result: Err(SocketError::NotImplemented), context: Context::new(1) }.into();
    assert!(matches!(cfm, Confirm::Bind(_)));
    let cfm: Confirm = CfmClose { handle: Context::new(1), result: Ok(()), context: Context::new(1) }.into();
    assert!(matches!(cfm, Confirm::Close(_)));
    let cfm: Confirm = CfmSend { handle: Context::new(1), result: Ok(1), context: Context::new(1) }.into();
    assert!(matches!(cfm, Confirm::Send(_)));
    let ind: Indication = IndConnected { listen_handle: Context::new(1), conn_handle: Context::new(2), peer: addr(1) }.into();
    assert!(matches!(ind, Indication::Connected(_)));
    let ind: Indication = IndDropped { handle: Context::new(2) }.into();
    assert_eq!(ind, Indication::Dropped(IndDropped { handle: Context::new(2) }));
    let ind: Indication = IndReceived { handle: Context::new(2), data: vec![1, 2] }.into();
    assert_eq!(ind, Indication::Received(IndReceived { handle: Context::new(2), data: vec![1, 2] }));
}
