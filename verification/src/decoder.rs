//! The decoder capability: turns accumulated bytes into messages.

use vstd::prelude::*;
use crate::byte_buf::ByteBuf;
use crate::context::Context;
use crate::error::DecodeError;

verus! {

/// Reads the complete frames that the buffer holds, hands each message to
/// the deliver-queue of the handle, and leaves a trailing partial frame
/// unread. Returns the number of messages delivered. A decoder reads from
/// the front of the buffer and writes nothing into it: what it leaves is the
/// end of what it found. A decoder only adds to
/// the deliver-queue: what was queued before stays queued, in its order, in
/// front of what the decoder adds. It works on the handle it is given and
/// does not put another in its place: the peer address and the bound of the
/// queues stay, and a cleared liveness flag stays cleared.
pub trait Decoder<T> {
    /// What this decoder promises of one call of `decode` that finds the
    /// handle as `before` and the readable bytes `bytes`: that it may leave
    /// the handle as `after` and the bytes `rest`, and return `r`. A decoder
    /// that promises no more than the capability asks keeps this as it is.
    open spec fn decodes(
        &self,
        before: Context<T>,
        bytes: Seq<u8>,
        after: Context<T>,
        rest: Seq<u8>,
        r: Result<usize, DecodeError>,
    ) -> bool {
        true
    }

    fn decode(&mut self, ctx: &mut Context<T>, byte_buf: &mut ByteBuf) -> (r: Result<
        usize,
        DecodeError,
    >)
        requires
            old(ctx).wf(),
            old(byte_buf).wf(),
        ensures
            final(ctx).wf(),
            final(byte_buf).wf(),
            final(ctx).peer() == old(ctx).peer(),
            final(ctx).bound() == old(ctx).bound(),
            final(ctx).active() ==> old(ctx).active(),
            old(ctx).delivered().is_prefix_of(final(ctx).delivered()),
            final(byte_buf)@.is_suffix_of(old(byte_buf)@),
            r is Ok ==> final(ctx).delivered().len() == old(ctx).delivered().len() + r->Ok_0,
            old(self).decodes(*old(ctx), old(byte_buf)@, *final(ctx), final(byte_buf)@, r),
    ;
}

} // verus!
