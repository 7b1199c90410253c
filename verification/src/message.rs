//! A framed message and its wire format: one marker byte, one type byte,
//! the payload length in four bytes, most significant first, and the
//! payload.

use vstd::prelude::*;
use crate::byte_buf::{be_bytes, be_value, lemma_be_roundtrip, lemma_pow256_eight};

pub mod msg_encoder;
pub mod msg_decoder;

verus! {

/// First byte of every frame.
pub const MARKER: u8 = 0x86;

/// Bytes of a frame before its payload.
pub const HEADER_LEN: usize = 6;

/// One application message: a type tag and a payload.
#[derive(Debug)]
pub struct Msg {
    pub msg_type: u8,
    pub data: Vec<u8>,
}

impl View for Msg {
    type V = (u8, Seq<u8>);

    open spec fn view(&self) -> (u8, Seq<u8>) {
        (self.msg_type, self.data@)
    }
}

impl Msg {
    /// A message of type `msg_type` with payload `data`.
    pub fn new(msg_type: u8, data: Vec<u8>) -> (m: Msg)
        ensures
            m@ == (msg_type, data@),
    {
        Msg { msg_type, data }
    }
}

/// The views of a sequence of messages, in order.
pub open spec fn views(msgs: Seq<Msg>) -> Seq<(u8, Seq<u8>)> {
    Seq::new(msgs.len(), |i: int| msgs[i]@)
}

/// The bytes of the frame that carries a message.
pub open spec fn frame(msg_type: u8, data: Seq<u8>) -> Seq<u8> {
    seq![MARKER, msg_type] + be_bytes(data.len(), 4) + data
}

/// The payload length that the header at the start of `s` declares.
pub open spec fn declared_len(s: Seq<u8>) -> nat {
    be_value(s.subrange(2, 6))
}

/// `s` begins with a byte that is not the marker.
pub open spec fn malformed(s: Seq<u8>) -> bool {
    s.len() > 0 && s[0] != MARKER
}

/// `s` begins with a whole frame.
pub open spec fn complete(s: Seq<u8>) -> bool {
    &&& s.len() >= 6
    &&& s[0] == MARKER
    &&& s.len() >= 6 + declared_len(s)
}

/// The message of the frame that `s` begins with.
pub open spec fn first_message(s: Seq<u8>) -> (u8, Seq<u8>) {
    (s[1], s.subrange(6, (6 + declared_len(s)) as int))
}

/// What follows the frame that `s` begins with.
pub open spec fn after_first(s: Seq<u8>) -> Seq<u8> {
    s.subrange((6 + declared_len(s)) as int, s.len() as int)
}

/// The messages of the whole frames at the start of `s`, in order, at most
/// `room` of them.
pub open spec fn decoded(s: Seq<u8>, room: nat) -> Seq<(u8, Seq<u8>)>
    decreases room,
{
    if room == 0 || !complete(s) {
        Seq::empty()
    } else {
        seq![first_message(s)] + decoded(after_first(s), (room - 1) as nat)
    }
}

/// What is left of `s` behind the frames that `decoded` takes.
pub open spec fn remainder(s: Seq<u8>, room: nat) -> Seq<u8>
    decreases room,
{
    if room == 0 || !complete(s) {
        s
    } else {
        remainder(after_first(s), (room - 1) as nat)
    }
}

/// The frames of a sequence of messages, one behind the other.
pub open spec fn wire(msgs: Seq<(u8, Seq<u8>)>) -> Seq<u8>
    decreases msgs.len(),
{
    if msgs.len() == 0 {
        Seq::empty()
    } else {
        frame(msgs[0].0, msgs[0].1) + wire(msgs.subrange(1, msgs.len() as int))
    }
}

/// Bytes that begin with the frame of a message begin with a whole frame,
/// which carries that message and is followed by the rest.
pub proof fn lemma_frame_parses(msg_type: u8, data: Seq<u8>, rest: Seq<u8>)
    requires
        data.len() < 0x1_0000_0000,
    ensures
        complete(frame(msg_type, data) + rest),
        !malformed(frame(msg_type, data) + rest),
        declared_len(frame(msg_type, data) + rest) == data.len(),
        first_message(frame(msg_type, data) + rest) == (msg_type, data),
        after_first(frame(msg_type, data) + rest) == rest,
{
    let s = frame(msg_type, data) + rest;
    lemma_pow256_eight();
    lemma_be_roundtrip(data.len(), 4);
    assert(s.subrange(2, 6) =~= be_bytes(data.len(), 4));
    assert(s[0] == MARKER);
    assert(s[1] == msg_type);
    assert(s.subrange(6, (6 + data.len()) as int) =~= data);
    assert(s.subrange((6 + data.len()) as int, s.len() as int) =~= rest);
}

/// Decoding the frames of a sequence of messages, with room for all of
/// them, yields those messages in their order, none lost and none added, and
/// leaves nothing behind.
pub proof fn lemma_decode_wire(msgs: Seq<(u8, Seq<u8>)>, room: nat)
    requires
        msgs.len() <= room,
        forall|i: int| 0 <= i < msgs.len() ==> (#[trigger] msgs[i]).1.len() < 0x1_0000_0000,
    ensures
        decoded(wire(msgs), room) == msgs,
        remainder(wire(msgs), room) == Seq::<u8>::empty(),
    decreases msgs.len(),
{
    if msgs.len() == 0 {
        assert(!complete(wire(msgs)));
        assert(decoded(wire(msgs), room) =~= msgs);
    } else {
        let tail = msgs.subrange(1, msgs.len() as int);
        assert forall|i: int| 0 <= i < tail.len() implies (#[trigger] tail[i]).1.len()
            < 0x1_0000_0000 by {
            assert(tail[i] == msgs[i + 1]);
        }
        lemma_frame_parses(msgs[0].0, msgs[0].1, wire(tail));
        lemma_decode_wire(tail, (room - 1) as nat);
        assert(seq![msgs[0]] + tail =~= msgs);
    }
}

} // verus!
