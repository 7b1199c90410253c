//! The encoder capability: turns an application message into bytes.

use vstd::prelude::*;
use crate::byte_buf::ByteBuf;
use crate::context::Context;
use crate::error::BufError;

verus! {

/// Writes a representation of a message into a buffer, behind what the
/// buffer holds. A failure of the buffer is reported, never swallowed, and a
/// message that is refused leaves nothing behind in the buffer.
pub trait Encoder<T> {
    /// What this encoder promises of one call of `encode` for `msg` on a
    /// connection in state `ctx`: that it may append `written` and succeed,
    /// where `refused` is `None`, or fail with the error in `refused`. An
    /// encoder that promises no more than the capability asks keeps this as
    /// it is.
    open spec fn encodes(
        &self,
        ctx: Context<T>,
        msg: T,
        written: Seq<u8>,
        refused: Option<BufError>,
    ) -> bool {
        true
    }

    /// Appends the bytes that stand for `msg` to `byte_buf`, or refuses
    /// `msg` with the reason.
    fn encode(&mut self, ctx: &Context<T>, msg: T, byte_buf: &mut ByteBuf) -> (r: Result<
        (),
        BufError,
    >)
        requires
            old(byte_buf).wf(),
        ensures
            final(byte_buf).wf(),
            old(byte_buf)@.is_prefix_of(final(byte_buf)@),
            r is Err ==> final(byte_buf)@ == old(byte_buf)@,
            old(self).encodes(
                *ctx,
                msg,
                final(byte_buf)@.skip(old(byte_buf)@.len() as int),
                match r {
                    Ok(_) => None,
                    Err(e) => Some(e),
                },
            ),
    ;
}

} // verus!
