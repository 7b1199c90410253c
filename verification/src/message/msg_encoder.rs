//! The encoder of the framed message format.

use vstd::prelude::*;
use crate::byte_buf::{ByteBuf, be_bytes};
use crate::context::Context;
use crate::encoder::Encoder;
use crate::error::BufError;
use crate::message::{Msg, frame, MARKER};

verus! {

/// Writes each message as one frame.
pub struct MsgEncoder {}

impl Encoder<Msg> for MsgEncoder {
    /// The frame of `msg` is appended, unless its payload is too long for
    /// the four-byte length field: then nothing is.
    open spec fn encodes(
        &self,
        ctx: Context<Msg>,
        msg: Msg,
        written: Seq<u8>,
        refused: Option<BufError>,
    ) -> bool {
        if msg.data@.len() < 0x1_0000_0000 {
            refused is None && written == frame(msg.msg_type, msg.data@)
        } else {
            refused == Some(BufError::WidthExceeded) && written == Seq::<u8>::empty()
        }
    }

    /// Appends the frame of `msg` to the buffer. A payload too long for the
    /// four-byte length field is refused, and then nothing is written.
    fn encode(&mut self, ctx: &Context<Msg>, msg: Msg, byte_buf: &mut ByteBuf) -> (r: Result<
        (),
        BufError,
    >)
        ensures
            final(byte_buf).read_cursor() == old(byte_buf).read_cursor(),
            msg.data@.len() < 0x1_0000_0000 ==> r is Ok && final(byte_buf)@ == old(byte_buf)@
                + frame(msg.msg_type, msg.data@),
            msg.data@.len() >= 0x1_0000_0000 ==> r == Err::<(), BufError>(
                BufError::WidthExceeded,
            ) && *final(byte_buf) == *old(byte_buf),
    {
        let len = msg.data.len();
        if len > 0xffff_ffff {
            assert(byte_buf@.skip(byte_buf@.len() as int) =~= Seq::<u8>::empty());
            return Err(BufError::WidthExceeded);
        }
        let _ = byte_buf.write_u8_be(MARKER);
        let _ = byte_buf.write_u8_be(msg.msg_type);
        let _ = byte_buf.write_u32_be(len as u32);
        let _ = byte_buf.write_bytes(msg.data.as_slice());
        proof {
            reveal_with_fuel(be_bytes, 2);
            assert(be_bytes(MARKER as nat, 1) =~= seq![MARKER]);
            assert(be_bytes(msg.msg_type as nat, 1) =~= seq![msg.msg_type]);
            assert(byte_buf@ =~= old(byte_buf)@ + frame(msg.msg_type, msg.data@));
            assert(byte_buf@.skip(old(byte_buf)@.len() as int) =~= frame(
                msg.msg_type,
                msg.data@,
            ));
        }
        Ok(())
    }
}

} // verus!
