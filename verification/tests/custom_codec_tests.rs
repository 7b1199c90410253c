use netpipe::bootstrap::{Action, Bootstrap, Cause, Event};
use netpipe::byte_buf::ByteBuf;
use netpipe::context::{Context, PeerAddr};
use netpipe::decoder::Decoder;
use netpipe::encoder::Encoder;
use netpipe::error::{BufError, DecodeError};

/// Encodes a number as one byte, and refuses what does not fit.
struct ByteEncoder {}

impl Encoder<u32> for ByteEncoder {
    fn encode(&mut self, _ctx: &Context<u32>, msg: u32, byte_buf: &mut ByteBuf) -> Result<(), BufError> {
        byte_buf.write_uint_be(msg as u64, 1).map(|_| ())
    }
}

/// Decodes each byte as one number; the byte 0xff asks for the end of the
/// connection.
struct ByteDecoder {}

impl Decoder<u32> for ByteDecoder {
    fn decode(&mut self, ctx: &mut Context<u32>, byte_buf: &mut ByteBuf) -> Result<usize, DecodeError> {
        let mut n = 0;
        while ctx.deliver_room() > 0 {
            match byte_buf.read_u8_be() {
                Ok(0xff) => {
                    let _ = ctx.close();
                }
                Ok(b) => {
                    ctx.out(b as u32).unwrap();
                    n += 1;
                }
                Err(_) => break,
            }
        }
        Ok(n)
    }
}

fn engine() -> Bootstrap<ByteEncoder, ByteDecoder, u32> {
    let mut e = Bootstrap::build(PeerAddr { ip: 1, port: 1, v6: false }, ByteEncoder {}, ByteDecoder {});
    assert!(matches!(e.step(Event::Wake), Action::Activate));
    e
}

#[test]
fn refused_message_is_discarded_and_the_loop_goes_on() {
    let mut e = engine();
    e.context_mut().write(300).unwrap();
    e.context_mut().write(7).unwrap();
    match e.step(Event::Wake) {
        Action::Discard(err) => assert_eq!(err, BufError::WidthExceeded),
        _ => panic!("expected a discard"),
    }
    match e.step(Event::Wake) {
        Action::Transmit(bytes) => assert_eq!(bytes, vec![7u8]),
        _ => panic!("expected a transmit"),
    }
    assert!(matches!(e.step(Event::Wake), Action::Await));
}

#[test]
fn custom_decoder_feeds_the_handler_in_order() {
    let mut e = engine();
    let mut seen = Vec::new();
    let mut action = e.step(Event::Received(vec![3, 1, 4, 1, 5]));
    loop {
        match action {
            Action::Dispatch(v) => seen.push(v),
            Action::Await => break,
            _ => panic!("unexpected action"),
        }
        action = e.step(Event::Wake);
    }
    assert_eq!(seen, vec![3, 1, 4, 1, 5]);
}

#[test]
fn handler_reply_follows_the_dispatch() {
    let mut e = engine();
    match e.step(Event::Received(vec![9])) {
        Action::Dispatch(v) => e.context_mut().write(v + 1).unwrap(),
        _ => panic!("expected a dispatch"),
    }
    match e.step(Event::Wake) {
        Action::Transmit(bytes) => assert_eq!(bytes, vec![10u8]),
        _ => panic!("expected a transmit"),
    }
    e.context_mut().close().unwrap();
    assert!(matches!(
        e.step(Event::Wake),
        Action::Finish { shutdown: true, cause: Cause::CloseRequested }
    ));
    assert!(matches!(e.step(Event::Received(vec![1])), Action::Done));
}

#[test]
fn close_asked_for_while_decoding_ends_the_connection() {
    let mut e = engine();
    assert!(matches!(
        e.step(Event::Received(vec![1, 0xff, 2])),
        Action::Finish { shutdown: true, cause: Cause::CloseRequested }
    ));
    assert!(!e.context().is_run());
    assert!(matches!(e.step(Event::Wake), Action::Done));
}
