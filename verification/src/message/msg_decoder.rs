//! The decoder of the framed message format.

use vstd::prelude::*;
use crate::byte_buf::{ByteBuf, be_value};
use crate::context::Context;
use crate::decoder::Decoder;
use crate::error::DecodeError;
use crate::message::{
    Msg, MARKER, views, malformed, complete, declared_len, first_message, after_first, decoded,
    remainder,
};

verus! {

/// The number of messages that the deliver-queue of `ctx` still takes.
pub open spec fn room_of(ctx: Context<Msg>) -> nat {
    if ctx.receiving() && ctx.delivered().len() < ctx.bound() {
        (ctx.bound() - ctx.delivered().len()) as nat
    } else {
        0
    }
}

/// A one-byte big-endian integer is that byte.
proof fn lemma_single_byte(s: Seq<u8>)
    requires
        s.len() == 1,
    ensures
        be_value(s) == s[0],
{
    reveal_with_fuel(be_value, 2);
}

/// The payload length of the frame at the read cursor, where a whole frame
/// is readable.
pub fn frame_ready(byte_buf: &ByteBuf) -> (r: Option<usize>)
    requires
        byte_buf.wf(),
    ensures
        r is Some <==> complete(byte_buf@),
        r is Some ==> r->Some_0 == declared_len(byte_buf@),
{
    let readable = byte_buf.readable_bytes();
    if readable < 6 {
        return None;
    }
    proof {
        lemma_single_byte(byte_buf@.subrange(0, 1));
    }
    match byte_buf.peek_uint_be(0, 1) {
        Ok(m) => {
            if m != 0x86 {
                return None;
            }
        },
        Err(_) => {
            return None;
        },
    }
    match byte_buf.peek_uint_be(2, 4) {
        Ok(len) => {
            if ((readable - 6) as u64) < len {
                None
            } else {
                Some(len as usize)
            }
        },
        Err(_) => None,
    }
}

/// Whether the byte at the read cursor cannot begin a frame.
pub fn starts_malformed(byte_buf: &ByteBuf) -> (r: bool)
    requires
        byte_buf.wf(),
    ensures
        r == malformed(byte_buf@),
{
    if byte_buf.readable_bytes() == 0 {
        return false;
    }
    proof {
        lemma_single_byte(byte_buf@.subrange(0, 1));
    }
    match byte_buf.peek_uint_be(0, 1) {
        Ok(m) => m != 0x86,
        Err(_) => false,
    }
}

/// Reads the frame at the read cursor, whose payload is `len` bytes long.
fn take_frame(byte_buf: &mut ByteBuf, len: usize) -> (msg: Msg)
    requires
        old(byte_buf).wf(),
        complete(old(byte_buf)@),
        len == declared_len(old(byte_buf)@),
    ensures
        final(byte_buf).wf(),
        msg@ == first_message(old(byte_buf)@),
        final(byte_buf)@ == after_first(old(byte_buf)@),
{
    let ghost s = byte_buf@;
    let _ = byte_buf.read_u8_be();
    let ghost s1 = byte_buf@;
    let tag = byte_buf.read_u8_be();
    let _ = byte_buf.read_u32_be();
    let ghost s6 = byte_buf@;
    assert(s6 =~= s.subrange(6, s.len() as int));
    let mut data: Vec<u8> = vec![0u8; len];
    let _ = byte_buf.read_bytes(&mut data);
    proof {
        lemma_single_byte(s1.subrange(0, 1));
        assert(s1.subrange(0, 1)[0] == s[1]);
        assert(data@ =~= s.subrange(6, 6 + len));
        assert(byte_buf@ =~= after_first(s));
    }
    match tag {
        Ok(t) => Msg { msg_type: t, data },
        Err(_) => Msg { msg_type: 0, data },
    }
}

/// Reads framed messages.
pub struct MsgDecoder {}

impl Decoder<Msg> for MsgDecoder {
    /// The whole frames at the front are delivered in order, as far as the
    /// deliver-queue has room; the rest stays; the call fails exactly where
    /// the rest begins with a byte that is not the frame marker.
    open spec fn decodes(
        &self,
        before: Context<Msg>,
        bytes: Seq<u8>,
        after: Context<Msg>,
        rest: Seq<u8>,
        r: Result<usize, DecodeError>,
    ) -> bool {
        &&& after.unchanged_but_delivered(before)
        &&& views(after.delivered()) == views(before.delivered()) + decoded(
            bytes,
            room_of(before),
        )
        &&& rest == remainder(bytes, room_of(before))
        &&& malformed(rest) ==> r == Err::<usize, DecodeError>(DecodeError::Malformed)
        &&& !malformed(rest) ==> r is Ok && r->Ok_0 == decoded(bytes, room_of(before)).len()
    }

    /// Delivers the messages of the whole frames at the read cursor, in
    /// order, as far as the deliver-queue has room, and leaves the rest of
    /// the buffer unread. Fails where what is left begins with a byte that is
    /// not the frame marker; the frames before it are delivered all the same.
    fn decode(&mut self, ctx: &mut Context<Msg>, byte_buf: &mut ByteBuf) -> (r: Result<
        usize,
        DecodeError,
    >)
        ensures
            final(ctx).unchanged_but_delivered(*old(ctx)),
            views(final(ctx).delivered()) == views(old(ctx).delivered()) + decoded(
                old(byte_buf)@,
                room_of(*old(ctx)),
            ),
            final(byte_buf)@ == remainder(old(byte_buf)@, room_of(*old(ctx))),
            malformed(final(byte_buf)@) ==> r == Err::<usize, DecodeError>(DecodeError::Malformed),
            !malformed(final(byte_buf)@) ==> r is Ok && r->Ok_0 == decoded(
                old(byte_buf)@,
                room_of(*old(ctx)),
            ).len(),
    {
        let mut count: usize = 0;
        let mut room: usize = if ctx.is_receiving() {
            ctx.deliver_room()
        } else {
            0
        };
        let ghost all = decoded(old(byte_buf)@, room_of(*old(ctx)));
        while room > 0
            invariant
                ctx.wf(),
                byte_buf.wf(),
                ctx.unchanged_but_delivered(*old(ctx)),
                old(ctx).delivered().is_prefix_of(ctx.delivered()),
                byte_buf@.is_suffix_of(old(byte_buf)@),
                ctx.delivered().len() == old(ctx).delivered().len() + count,
                room == room_of(*ctx),
                all == decoded(old(byte_buf)@, room_of(*old(ctx))),
                count + decoded(byte_buf@, room as nat).len() == all.len(),
                count + room <= usize::MAX,
                views(ctx.delivered()) + decoded(byte_buf@, room as nat) == views(
                    old(ctx).delivered(),
                ) + all,
                remainder(byte_buf@, room as nat) == remainder(
                    old(byte_buf)@,
                    room_of(*old(ctx)),
                ),
            ensures
                room == 0 || !complete(byte_buf@),
            decreases room,
        {
            let ghost s = byte_buf@;
            let ghost queued = ctx.delivered();
            match frame_ready(byte_buf) {
                None => {
                    break ;
                },
                Some(len) => {
                    let msg = take_frame(byte_buf, len);
                    let _ = ctx.out(msg);
                    proof {
                        assert(views(queued.push(msg)) =~= views(queued).push(msg@));
                        assert(views(queued).push(msg@) + decoded(after_first(s), (room - 1) as nat)
                            =~= views(queued) + decoded(s, room as nat));
                    }
                    room = room - 1;
                    count = count + 1;
                },
            }
        }
        if starts_malformed(byte_buf) {
            Err(DecodeError::Malformed)
        } else {
            Ok(count)
        }
    }
}

} // verus!
