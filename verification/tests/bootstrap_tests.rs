use netpipe::bootstrap::{Action, Bootstrap, Cause, Event, Phase, READ_SIZE};
use netpipe::byte_buf::ByteBuf;
use netpipe::context::PeerAddr;
use netpipe::error::BufError;
use netpipe::message::msg_decoder::MsgDecoder;
use netpipe::message::msg_encoder::MsgEncoder;
use netpipe::message::Msg;

type Engine = Bootstrap<MsgEncoder, MsgDecoder, Msg>;

fn engine() -> Engine {
    Bootstrap::build(PeerAddr { ip: 0x0a00_0001, port: 4000, v6: false }, MsgEncoder {}, MsgDecoder {})
}

fn active_engine() -> Engine {
    let mut e = engine();
    assert!(matches!(e.step(Event::Wake), Action::Activate));
    e
}

const HELLO: [u8; 11] = [0x86, 0x01, 0x00, 0x00, 0x00, 0x05, b'h', b'e', b'l', b'l', b'o'];

#[test]
fn build_gives_an_idle_engine() {
    let e = engine();
    assert_eq!(e.phase(), Phase::Idle);
    assert_eq!(e.read_size(), READ_SIZE);
    assert_eq!(READ_SIZE, 1024);
    assert!(e.context().is_run());
    assert_eq!(e.context().addr().port, 4000);
    assert_eq!(e.context().deliver_room(), 1024);
}

#[test]
fn capacity_sets_the_read_size() {
    let mut e = engine();
    e.capacity(64);
    assert_eq!(e.read_size(), 64);
    assert_eq!(e.phase(), Phase::Idle);
}

#[test]
fn first_step_activates() {
    let mut e = engine();
    assert!(matches!(e.step(Event::Wake), Action::Activate));
    assert_eq!(e.phase(), Phase::Active);
    assert!(matches!(e.step(Event::Wake), Action::Await));
}

#[test]
fn bytes_that_arrive_while_idle_are_kept() {
    let mut e = engine();
    assert!(matches!(e.step(Event::Received(HELLO.to_vec())), Action::Activate));
    match e.step(Event::Wake) {
        Action::Dispatch(msg) => assert_eq!(msg.data, b"hello".to_vec()),
        _ => panic!("expected a dispatch"),
    }
}

#[test]
fn received_frame_is_dispatched() {
    let mut e = active_engine();
    match e.step(Event::Received(HELLO.to_vec())) {
        Action::Dispatch(msg) => {
            assert_eq!(msg.msg_type, 1);
            assert_eq!(msg.data, b"hello".to_vec());
        }
        _ => panic!("expected a dispatch"),
    }
    assert!(matches!(e.step(Event::Wake), Action::Await));
}

#[test]
fn messages_of_one_read_are_dispatched_in_order() {
    let mut e = active_engine();
    let mut bytes = Vec::new();
    for i in 0..50u8 {
        bytes.extend_from_slice(&[0x86, i, 0, 0, 0, 1, i]);
    }
    let mut seen = Vec::new();
    let mut action = e.step(Event::Received(bytes));
    loop {
        match action {
            Action::Dispatch(msg) => seen.push(msg.msg_type),
            Action::Await => break,
            _ => panic!("unexpected action"),
        }
        action = e.step(Event::Wake);
    }
    assert_eq!(seen, (0..50u8).collect::<Vec<u8>>());
}

#[test]
fn more_frames_than_the_queue_holds_are_all_dispatched() {
    let mut e = active_engine();
    let mut bytes = Vec::new();
    for i in 0..1500u32 {
        bytes.extend_from_slice(&[0x86, (i % 251) as u8, 0, 0, 0, 0]);
    }
    let mut seen = 0u32;
    let mut action = e.step(Event::Received(bytes));
    loop {
        match action {
            Action::Dispatch(msg) => {
                assert_eq!(msg.msg_type, (seen % 251) as u8);
                seen += 1;
            }
            Action::Await => break,
            _ => panic!("unexpected action"),
        }
        action = e.step(Event::Wake);
    }
    assert_eq!(seen, 1500);
}

#[test]
fn split_frame_is_dispatched_once_whole() {
    let mut e = active_engine();
    assert!(matches!(e.step(Event::Received(HELLO[..4].to_vec())), Action::Await));
    assert_eq!(e.buffered(), 4);
    match e.step(Event::Received(HELLO[4..].to_vec())) {
        Action::Dispatch(msg) => assert_eq!(msg.data, b"hello".to_vec()),
        _ => panic!("expected a dispatch"),
    }
}

#[test]
fn written_message_is_transmitted_as_a_frame() {
    let mut e = active_engine();
    e.context_mut().write(Msg::new(1, b"hello".to_vec())).unwrap();
    match e.step(Event::Wake) {
        Action::Transmit(bytes) => assert_eq!(bytes, HELLO.to_vec()),
        _ => panic!("expected a transmit"),
    }
    assert!(matches!(e.step(Event::Wake), Action::Await));
}

#[test]
fn written_messages_are_transmitted_in_order() {
    let mut e = active_engine();
    for i in 0..5u8 {
        e.context_mut().write(Msg::new(i, vec![i])).unwrap();
    }
    for i in 0..5u8 {
        match e.step(Event::Wake) {
            Action::Transmit(bytes) => assert_eq!(bytes, vec![0x86, i, 0, 0, 0, 1, i]),
            _ => panic!("expected a transmit"),
        }
    }
    assert!(matches!(e.step(Event::Wake), Action::Await));
}

#[test]
fn close_request_ends_the_connection_once() {
    let mut e = active_engine();
    e.context_mut().write(Msg::new(1, vec![1])).unwrap();
    assert!(e.context_mut().close().is_ok());
    assert!(e.context_mut().close().is_ok());
    assert!(!e.context().is_run());
    let mut finishes = 0;
    for _ in 0..10 {
        match e.step(Event::Wake) {
            Action::Finish { shutdown, cause } => {
                assert!(shutdown);
                assert_eq!(cause, Cause::CloseRequested);
                finishes += 1;
            }
            Action::Done => {}
            _ => panic!("unexpected action"),
        }
    }
    assert_eq!(finishes, 1);
    assert_eq!(e.phase(), Phase::Closed);
    assert!(e.context_mut().close().is_err());
    assert!(e.context_mut().write(Msg::new(1, vec![1])).is_err());
}

#[test]
fn end_of_stream_ends_the_connection_once() {
    let mut e = active_engine();
    match e.step(Event::Received(Vec::new())) {
        Action::Finish { shutdown, cause } => {
            assert!(!shutdown);
            assert_eq!(cause, Cause::EndOfStream);
        }
        _ => panic!("expected a finish"),
    }
    assert!(matches!(e.step(Event::Received(Vec::new())), Action::Done));
    assert!(matches!(e.step(Event::Failed), Action::Done));
    assert!(matches!(e.step(Event::Wake), Action::Done));
}

#[test]
fn transport_failure_ends_the_connection_once() {
    let mut e = active_engine();
    match e.step(Event::Failed) {
        Action::Finish { shutdown, cause } => {
            assert!(!shutdown);
            assert_eq!(cause, Cause::IoError);
        }
        _ => panic!("expected a finish"),
    }
    assert!(matches!(e.step(Event::Failed), Action::Done));
    assert_eq!(e.phase(), Phase::Closed);
}

#[test]
fn failure_before_activation_still_finishes() {
    let mut e = engine();
    assert!(matches!(
        e.step(Event::Failed),
        Action::Finish { shutdown: false, cause: Cause::IoError }
    ));
    assert!(matches!(e.step(Event::Wake), Action::Done));
}

#[test]
fn malformed_bytes_end_the_connection() {
    let mut e = active_engine();
    match e.step(Event::Received(vec![0x00, 0x01])) {
        Action::Finish { shutdown, cause } => {
            assert!(shutdown);
            assert_eq!(cause, Cause::ProtocolError);
        }
        _ => panic!("expected a finish"),
    }
    assert!(matches!(e.step(Event::Wake), Action::Done));
}

#[test]
fn close_signal_wins_over_queued_messages() {
    let mut e = active_engine();
    e.context_mut().out(Msg::new(3, vec![])).unwrap();
    e.context_mut().close().unwrap();
    assert!(matches!(
        e.step(Event::Wake),
        Action::Finish { shutdown: true, cause: Cause::CloseRequested }
    ));
}

#[test]
fn emit_maps_the_encoder_result() {
    let mut staged = ByteBuf::new_with_capacity(4);
    staged.write_bytes(&[1, 2, 3]).unwrap();
    match Engine::emit(Ok(()), staged) {
        Action::Transmit(bytes) => assert_eq!(bytes, vec![1u8, 2, 3]),
        _ => panic!("expected a transmit"),
    }
    let empty = ByteBuf::new_with_capacity(4);
    match Engine::emit(Err(BufError::WidthExceeded), empty) {
        Action::Discard(e) => assert_eq!(e, BufError::WidthExceeded),
        _ => panic!("expected a discard"),
    }
}

#[test]
fn consumed_bytes_leave_the_inbound_buffer() {
    let mut e = active_engine();
    let mut bytes = HELLO.to_vec();
    bytes.extend_from_slice(&HELLO[..7]);
    assert!(matches!(e.step(Event::Received(bytes)), Action::Dispatch(_)));
    assert_eq!(e.buffered(), 7);
    assert!(matches!(e.step(Event::Wake), Action::Await));
    assert_eq!(e.buffered(), 7);
    assert!(matches!(e.step(Event::Received(HELLO[7..].to_vec())), Action::Dispatch(_)));
    assert_eq!(e.buffered(), 0);
}

#[test]
fn frames_held_back_by_a_full_queue_are_decoded_once_there_is_room() {
    let mut e = active_engine();
    let mut bytes = Vec::new();
    for _ in 0..1025u32 {
        bytes.extend_from_slice(&[0x86, 7, 0, 0, 0, 0]);
    }
    assert!(matches!(e.step(Event::Received(bytes)), Action::Dispatch(_)));
    assert_eq!(e.buffered(), 6);
    assert_eq!(e.context().deliver_room(), 1);
    for _ in 1..1024u32 {
        assert!(matches!(e.step(Event::Wake), Action::Dispatch(_)));
        assert_eq!(e.buffered(), 6);
    }
    assert_eq!(e.context().deliver_backlog(), 0);
    assert!(matches!(e.step(Event::Wake), Action::Dispatch(_)));
    assert_eq!(e.buffered(), 0);
    assert!(matches!(e.step(Event::Wake), Action::Await));
}

#[test]
fn queued_messages_are_dispatched_before_the_decoder_is_asked_again() {
    let mut e = active_engine();
    let mut bytes = Vec::new();
    for i in 0..3u8 {
        bytes.extend_from_slice(&[0x86, i, 0, 0, 0, 0]);
    }
    match e.step(Event::Received(bytes)) {
        Action::Dispatch(msg) => assert_eq!(msg.msg_type, 0),
        _ => panic!("expected a dispatch"),
    }
    match e.step(Event::Received(vec![0x00])) {
        Action::Dispatch(msg) => assert_eq!(msg.msg_type, 1),
        _ => panic!("expected a dispatch"),
    }
    match e.step(Event::Wake) {
        Action::Dispatch(msg) => assert_eq!(msg.msg_type, 2),
        _ => panic!("expected a dispatch"),
    }
    assert!(matches!(
        e.step(Event::Wake),
        Action::Finish { shutdown: true, cause: Cause::ProtocolError }
    ));
}

#[test]
fn bytes_that_arrive_while_messages_wait_are_decoded_after_them() {
    let mut e = active_engine();
    let mut two = HELLO.to_vec();
    two.extend_from_slice(&[0x86, 2, 0, 0, 0, 0]);
    assert!(matches!(e.step(Event::Received(two)), Action::Dispatch(_)));
    assert_eq!(e.context().deliver_backlog(), 1);
    match e.step(Event::Received(vec![0x86, 3, 0, 0, 0, 0])) {
        Action::Dispatch(msg) => assert_eq!(msg.msg_type, 2),
        _ => panic!("expected a dispatch"),
    }
    assert_eq!(e.buffered(), 6);
    match e.step(Event::Wake) {
        Action::Dispatch(msg) => assert_eq!(msg.msg_type, 3),
        _ => panic!("expected a dispatch"),
    }
    assert_eq!(e.buffered(), 0);
}

#[test]
fn messages_decoded_before_a_malformed_byte_are_still_dispatched() {
    let mut e = active_engine();
    let mut bytes = Vec::new();
    for i in 0..3u8 {
        bytes.extend_from_slice(&[0x86, i, 0, 0, 0, 1, i]);
    }
    bytes.push(0x17);
    for i in 0..3u8 {
        let event = if i == 0 { Event::Received(bytes.clone()) } else { Event::Wake };
        match e.step(event) {
            Action::Dispatch(msg) => {
                assert_eq!(msg.msg_type, i);
                assert_eq!(msg.data, vec![i]);
            }
            _ => panic!("expected a dispatch"),
        }
    }
    assert_eq!(e.phase(), Phase::Active);
    assert!(matches!(
        e.step(Event::Wake),
        Action::Finish { shutdown: true, cause: Cause::ProtocolError }
    ));
    assert!(matches!(e.step(Event::Wake), Action::Done));
}

#[test]
fn nothing_is_transmitted_once_the_decoder_has_failed() {
    let mut e = active_engine();
    e.context_mut().write(Msg::new(1, vec![1])).unwrap();
    let mut bytes = HELLO.to_vec();
    bytes.push(0x00);
    assert!(matches!(e.step(Event::Received(bytes)), Action::Dispatch(_)));
    assert!(matches!(
        e.step(Event::Wake),
        Action::Finish { shutdown: true, cause: Cause::ProtocolError }
    ));
    assert_eq!(e.context().send_backlog(), 1);
}
