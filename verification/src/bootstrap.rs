//! The connection engine: the decisions of the per-connection event loop.
//! The engine owns the connection handle and the accumulated inbound bytes.
//! Its caller performs each action that the engine returns (a handler
//! callback, a write to the transport, a wait for the transport) and reports
//! back what happened as the next event.

use vstd::prelude::*;
use crate::byte_buf::ByteBuf;
use crate::context::{AttrValue, Context, PeerAddr, QUEUE_CAPACITY};
use crate::decoder::Decoder;
use crate::encoder::Encoder;
use crate::error::{BufError, DecodeError};

verus! {

/// Default size of one transport read, and of a fresh encode buffer.
pub const READ_SIZE: usize = 1024;

/// Where a connection stands in its life.
#[derive(Clone, Copy, Debug, PartialEq, Eq, Structural)]
pub enum Phase {
    /// Built, the handler not yet told.
    Idle,
    /// The handler was told that the connection is active.
    Active,
    /// The connection has ended.
    Closed,
}

/// Why a connection ended.
#[derive(Clone, Copy, Debug, PartialEq, Eq, Structural)]
pub enum Cause {
    /// A close was requested through the handle.
    CloseRequested,
    /// The transport reported the end of the stream.
    EndOfStream,
    /// The transport failed.
    IoError,
    /// The decoder met bytes that are no frame.
    ProtocolError,
}

/// What the caller observed since the last action.
pub enum Event {
    /// The last action is done; nothing came from the transport.
    Wake,
    /// A transport read completed with these bytes; none means end of stream.
    Received(Vec<u8>),
    /// A transport read or write failed.
    Failed,
}

/// What the caller is to do next.
pub enum Action<T> {
    /// Tell the handler that the connection is active.
    Activate,
    /// Hand this message to the handler.
    Dispatch(T),
    /// Write these bytes to the transport.
    Transmit(Vec<u8>),
    /// A message could not be encoded and was dropped.
    Discard(BufError),
    /// Wait for the transport to complete a read.
    Await,
    /// Shut down the write half if `shutdown` says so, tell the handler
    /// that the connection is closed, and stop.
    Finish { shutdown: bool, cause: Cause },
    /// The connection ended before; there is nothing to do.
    Done,
}

/// The steps that the engine may take from one phase to the next, and
/// whether the step ends the connection: a closed connection stays closed
/// and ends no more, an active one never becomes idle again, and a step ends
/// the connection exactly if it closes a connection that was not closed.
pub open spec fn legal_step(before: Phase, after: Phase, finishes: bool) -> bool {
    &&& before == Phase::Closed ==> after == Phase::Closed
    &&& before == Phase::Active ==> after != Phase::Idle
    &&& finishes <==> (before != Phase::Closed && after == Phase::Closed)
}

/// How many steps of a run ended the connection.
pub open spec fn finish_count(finishes: Seq<bool>) -> nat
    decreases finishes.len(),
{
    if finishes.len() == 0 {
        0
    } else {
        finish_count(finishes.drop_last()) + if finishes.last() {
            1nat
        } else {
            0nat
        }
    }
}

/// Over any run of legal steps the connection ends at most once, and
/// exactly once if and only if the run starts with a connection that is not
/// closed and leaves it closed.
pub proof fn lemma_finish_once(phases: Seq<Phase>, finishes: Seq<bool>)
    requires
        phases.len() == finishes.len() + 1,
        forall|i: int|
            0 <= i < finishes.len() ==> legal_step(
                phases[i],
                phases[i + 1],
                #[trigger] finishes[i],
            ),
    ensures
        finish_count(finishes) <= 1,
        phases[0] == Phase::Closed ==> phases.last() == Phase::Closed,
        finish_count(finishes) == 1 <==> (phases[0] != Phase::Closed && phases.last()
            == Phase::Closed),
    decreases finishes.len(),
{
    if finishes.len() > 0 {
        let n = finishes.len() as int;
        let head_phases = phases.drop_last();
        let head = finishes.drop_last();
        assert forall|i: int| 0 <= i < head.len() implies legal_step(
            head_phases[i],
            head_phases[i + 1],
            #[trigger] head[i],
        ) by {
            assert(head[i] == finishes[i]);
            assert(legal_step(phases[i], phases[i + 1], finishes[i]));
        }
        lemma_finish_once(head_phases, head);
        assert(finishes.last() == finishes[n - 1]);
        assert(legal_step(phases[n - 1], phases[n], finishes[n - 1]));
        assert(head_phases.last() == phases[n - 1]);
        assert(head_phases[0] == phases[0]);
    }
}

/// The bytes that an event brings from the transport.
pub open spec fn arrived(event: Event) -> Seq<u8> {
    match event {
        Event::Received(bytes) => bytes@,
        _ => Seq::empty(),
    }
}

/// The event reports the end of the stream: a read of no bytes.
pub open spec fn ends_stream(event: Event) -> bool {
    event is Received && arrived(event).len() == 0
}

/// The event ends the connection whatever is queued.
pub open spec fn fatal(event: Event) -> bool {
    event is Failed || ends_stream(event)
}

/// What an active connection does once the decoder has run and left the
/// handle as `before`. `failing` says that the decoder has failed, now or in
/// an earlier turn. A pending close signal ends the connection; else the
/// oldest delivered message goes to the handler, so that what a decoder
/// delivered is handed on even where it failed behind it; else a decoder
/// failure ends the connection; else the oldest outgoing message goes to the
/// encoder `coder`, and what it staged is transmitted, or the message is
/// dropped with the encoder's reason; else the engine waits. `after` is the
/// handle as this leaves it.
pub open spec fn settled<E: Encoder<T>, T>(
    coder: E,
    before: Context<T>,
    failing: bool,
    after: Context<T>,
    action: Action<T>,
) -> bool {
    if before.pending_close() > 0 || (failing && before.delivered().len() == 0) {
        &&& action == (Action::<T>::Finish {
            shutdown: true,
            cause: if before.pending_close() > 0 {
                Cause::CloseRequested
            } else {
                Cause::ProtocolError
            },
        })
        &&& !after.receiving()
        &&& after.delivered() == before.delivered()
        &&& after.outgoing() == before.outgoing()
        &&& after.pending_close() == before.pending_close()
        &&& after.attributes() == before.attributes()
        &&& after.active() == before.active()
        &&& after.peer() == before.peer()
        &&& after.bound() == before.bound()
    } else if before.delivered().len() > 0 {
        &&& action == Action::Dispatch(before.delivered()[0])
        &&& after.delivered() == before.delivered().skip(1)
        &&& after.unchanged_but_delivered(before)
    } else if before.outgoing().len() > 0 {
        &&& after.outgoing() == before.outgoing().skip(1)
        &&& after.delivered() == before.delivered()
        &&& after.unchanged_but_outgoing(before)
        &&& match action {
            Action::Transmit(bytes) => coder.encodes(
                after,
                before.outgoing()[0],
                bytes@,
                None::<BufError>,
            ),
            Action::Discard(e) => coder.encodes(
                after,
                before.outgoing()[0],
                Seq::<u8>::empty(),
                Some(e),
            ),
            _ => false,
        }
    } else {
        &&& action is Await
        &&& after.delivered() == before.delivered()
        &&& after.outgoing() == before.outgoing()
        &&& after.unchanged_but_outgoing(before)
    }
}

/// Messages reach the handler in the order in which they were delivered,
/// none lost and none twice: over any run of turns that starts with no close
/// signal pending, in which each turn finds the handle as the turn before
/// left it, the turns dispatch the queued messages one by one from the
/// oldest on, as many as there are turns, and leave the others queued in
/// their order. This holds whether or not the decoder has failed
/// (`failing`). The first handle is the one that the decoder left, so the
/// run may begin with the turn in which the messages were decoded.
pub proof fn lemma_dispatch_in_order<E: Encoder<T>, T>(
    coders: Seq<E>,
    handles: Seq<Context<T>>,
    failing: Seq<bool>,
    actions: Seq<Action<T>>,
)
    requires
        handles.len() == actions.len() + 1,
        coders.len() == actions.len(),
        failing.len() == actions.len(),
        actions.len() <= handles[0].delivered().len(),
        handles[0].pending_close() == 0,
        forall|i: int|
            0 <= i < actions.len() ==> settled(
                coders[i],
                handles[i],
                failing[i],
                handles[i + 1],
                #[trigger] actions[i],
            ),
    ensures
        forall|i: int|
            0 <= i < actions.len() ==> #[trigger] actions[i] == Action::Dispatch(
                handles[0].delivered()[i],
            ),
        handles.last().delivered() == handles[0].delivered().skip(actions.len() as int),
        handles.last().pending_close() == 0,
    decreases actions.len(),
{
    let queued = handles[0].delivered();
    if actions.len() == 0 {
        assert(queued.skip(0) =~= queued);
    } else {
        let n = actions.len() as int;
        let head_handles = handles.drop_last();
        let head_actions = actions.drop_last();
        let head_coders = coders.drop_last();
        let head_failing = failing.drop_last();
        assert forall|i: int| 0 <= i < head_actions.len() implies settled(
            head_coders[i],
            head_handles[i],
            head_failing[i],
            head_handles[i + 1],
            #[trigger] head_actions[i],
        ) by {
            assert(head_actions[i] == actions[i]);
        }
        lemma_dispatch_in_order(head_coders, head_handles, head_failing, head_actions);
        assert(head_handles.last() == handles[n - 1]);
        assert(actions[n - 1] == actions.last());
        assert(settled(coders[n - 1], handles[n - 1], failing[n - 1], handles[n], actions[n - 1]));
        assert(queued.skip(n - 1).skip(1) =~= queued.skip(n));
        assert(queued.skip(n - 1)[0] == queued[n - 1]);
        assert forall|i: int| 0 <= i < actions.len() implies #[trigger] actions[i]
            == Action::Dispatch(queued[i]) by {
            if i < n - 1 {
                assert(head_actions[i] == actions[i]);
            }
        }
    }
}

/// The engine of one connection.
pub struct Bootstrap<E, D, T> where E: Encoder<T>, D: Decoder<T> {
    encoder: E,
    decoder: D,
    ctx: Context<T>,
    inbound: ByteBuf,
    undecoded: bool,
    failed: bool,
    phase: Phase,
    read_size: usize,
}

impl<E, D, T> Bootstrap<E, D, T> where E: Encoder<T>, D: Decoder<T> {
    /// The handle and the inbound buffer are well formed, and a closed
    /// connection receives no more.
    pub closed spec fn wf(&self) -> bool {
        &&& self.ctx.wf()
        &&& self.inbound.wf()
        &&& self.phase == Phase::Closed ==> !self.ctx.receiving()
    }

    /// The phase of the connection.
    pub closed spec fn stage(&self) -> Phase {
        self.phase
    }

    /// The connection handle.
    pub closed spec fn handle(&self) -> Context<T> {
        self.ctx
    }

    /// The inbound bytes not yet decoded.
    pub closed spec fn pending(&self) -> Seq<u8> {
        self.inbound@
    }

    /// The configured read size.
    pub closed spec fn chunk(&self) -> usize {
        self.read_size
    }

    /// Whether inbound bytes arrived that the decoder has not seen, or
    /// could not take for want of room in the deliver-queue.
    pub closed spec fn stale(&self) -> bool {
        self.undecoded
    }

    /// The encoder, as it stands.
    pub closed spec fn enc(&self) -> E {
        self.encoder
    }

    /// The decoder, as it stands.
    pub closed spec fn dec(&self) -> D {
        self.decoder
    }

    /// Whether the decoder has failed. The connection then ends as soon as
    /// the messages delivered before are handed on.
    pub closed spec fn broken(&self) -> bool {
        self.failed
    }

    /// What one turn does on an active connection with no close signal
    /// pending, for an event that does not end it. The bytes that arrived
    /// stand behind the inbound bytes. The decoder is asked when bytes wait
    /// that it has not seen, or could not take, no delivered message waits
    /// for the handler, and it has not failed before; `mid` is the handle
    /// and `decoded` the result that it leaves, and the bytes count as seen
    /// unless the deliver-queue is then filled to its bound. Else `mid` is
    /// the handle as it was. From `mid` the turn goes on as `settled` says.
    /// `self` is the engine after the turn, `before` the engine before it.
    pub open spec fn turned(
        &self,
        before: Self,
        event: Event,
        mid: Context<T>,
        decoded: Result<usize, DecodeError>,
        action: Action<T>,
    ) -> bool {
        let fresh = before.stale() || event is Received;
        &&& if fresh && before.handle().delivered().len() == 0 && !before.broken() {
            &&& before.dec().decodes(
                before.handle(),
                before.pending() + arrived(event),
                mid,
                self.pending(),
                decoded,
            )
            &&& self.stale() == (mid.delivered().len() == mid.bound())
        } else {
            &&& mid == before.handle()
            &&& decoded == Ok::<usize, DecodeError>(0usize)
            &&& self.pending() == before.pending() + arrived(event)
            &&& self.stale() == fresh
        }
        &&& self.broken() == (before.broken() || decoded is Err)
        &&& settled(before.enc(), mid, self.broken(), self.handle(), action)
    }

    /// An idle engine for the connection to `addr`, with empty queues of
    /// the default bound and the default read size.
    pub fn build(addr: PeerAddr, e: E, d: D) -> (engine: Self)
        ensures
            engine.wf(),
            engine.stage() == Phase::Idle,
            engine.chunk() == READ_SIZE,
            engine.pending() == Seq::<u8>::empty(),
            !engine.stale(),
            !engine.broken(),
            engine.handle().peer() == addr,
            engine.handle().bound() == QUEUE_CAPACITY,
            engine.handle().delivered() == Seq::<T>::empty(),
            engine.handle().outgoing() == Seq::<T>::empty(),
            engine.handle().pending_close() == 0,
            engine.handle().active(),
            engine.handle().receiving(),
            engine.handle().attributes() == Map::<Seq<char>, AttrValue>::empty(),
            engine.enc() == e,
            engine.dec() == d,
    {
        Bootstrap {
            encoder: e,
            decoder: d,
            ctx: Context::new(addr, QUEUE_CAPACITY),
            inbound: ByteBuf::new_with_capacity(READ_SIZE),
            undecoded: false,
            failed: false,
            phase: Phase::Idle,
            read_size: READ_SIZE,
        }
    }

    /// Sets the read size: the size of one transport read and the initial
    /// capacity of each encode buffer.
    pub fn capacity(&mut self, size: usize)
        ensures
            final(self).chunk() == size,
            final(self).enc() == old(self).enc(),
            final(self).dec() == old(self).dec(),
            final(self).wf() == old(self).wf(),
            final(self).stage() == old(self).stage(),
            final(self).handle() == old(self).handle(),
            final(self).pending() == old(self).pending(),
            final(self).stale() == old(self).stale(),
            final(self).broken() == old(self).broken(),
    {
        self.read_size = size;
    }

    /// The read size.
    pub fn read_size(&self) -> (n: usize)
        ensures
            n == self.chunk(),
    {
        self.read_size
    }

    /// Number of inbound bytes that wait for the rest of their frame.
    pub fn buffered(&self) -> (n: usize)
        requires
            self.wf(),
        ensures
            n == self.pending().len(),
    {
        self.inbound.readable_bytes()
    }

    /// The phase of the connection.
    pub fn phase(&self) -> (p: Phase)
        ensures
            p == self.stage(),
    {
        self.phase
    }

    /// The connection handle, to read.
    pub fn context(&self) -> (ctx: &Context<T>)
        ensures
            *ctx == self.handle(),
            self.wf() ==> ctx.wf(),
    {
        &self.ctx
    }

    /// Ends the connection: the handle receives no more.
    fn finish(&mut self, shutdown: bool, cause: Cause) -> (action: Action<T>)
        requires
            old(self).wf(),
        ensures
            final(self).wf(),
            final(self).phase == Phase::Closed,
            action == (Action::<T>::Finish { shutdown, cause }),
            !final(self).ctx.receiving(),
            final(self).encoder == old(self).encoder,
            final(self).decoder == old(self).decoder,
            final(self).inbound == old(self).inbound,
            final(self).undecoded == old(self).undecoded,
            final(self).failed == old(self).failed,
            final(self).read_size == old(self).read_size,
            final(self).ctx.delivered() == old(self).ctx.delivered(),
            final(self).ctx.outgoing() == old(self).ctx.outgoing(),
            final(self).ctx.pending_close() == old(self).ctx.pending_close(),
            final(self).ctx.attributes() == old(self).ctx.attributes(),
            final(self).ctx.active() == old(self).ctx.active(),
            final(self).ctx.peer() == old(self).ctx.peer(),
            final(self).ctx.bound() == old(self).ctx.bound(),
    {
        self.phase = Phase::Closed;
        self.ctx.shut();
        Action::Finish { shutdown, cause }
    }

    /// The connection handle, to change: for the handler's callbacks.
    pub fn context_mut(&mut self) -> (ctx: &mut Context<T>)
        ensures
            *ctx == old(self).handle(),
            old(self).wf() ==> ctx.wf(),
            final(self).handle() == *final(ctx),
            final(self).stage() == old(self).stage(),
            final(self).pending() == old(self).pending(),
            final(self).chunk() == old(self).chunk(),
            final(self).stale() == old(self).stale(),
            final(self).broken() == old(self).broken(),
            final(self).enc() == old(self).enc(),
            final(self).dec() == old(self).dec(),
            old(self).wf() && final(ctx).wf() && (old(self).stage() == Phase::Closed ==> !final(ctx).receiving()) ==> final(self).wf(),
    {
        &mut self.ctx
    }

    /// Takes in an event and decides what can be decided without the
    /// codecs: a closed connection stays closed; a failure or the end of the
    /// stream ends the connection; bytes that arrived are appended to the
    /// inbound buffer; an idle connection becomes active; a pending close
    /// signal ends an active connection. Otherwise nothing is decided.
    pub fn absorb(&mut self, event: Event) -> (decided: Option<Action<T>>)
        requires
            old(self).wf(),
        ensures
            final(self).wf(),
            final(self).chunk() == old(self).chunk(),
            final(self).enc() == old(self).enc(),
            final(self).dec() == old(self).dec(),
            final(self).broken() == old(self).broken(),
            old(self).stage() == Phase::Closed ==> decided == Some(Action::<T>::Done) && *final(self) == *old(self),
            old(self).stage() != Phase::Closed && event is Failed ==> decided == Some(
                Action::<T>::Finish { shutdown: false, cause: Cause::IoError },
            ) && final(self).stage() == Phase::Closed,
            old(self).stage() != Phase::Closed && ends_stream(event) ==> decided == Some(
                Action::<T>::Finish { shutdown: false, cause: Cause::EndOfStream },
            ) && final(self).stage() == Phase::Closed,
            final(self).handle().delivered() == old(self).handle().delivered(),
            final(self).handle().outgoing() == old(self).handle().outgoing(),
            final(self).handle().pending_close() == old(self).handle().pending_close(),
            final(self).handle().attributes() == old(self).handle().attributes(),
            final(self).handle().active() == old(self).handle().active(),
            final(self).handle().peer() == old(self).handle().peer(),
            final(self).handle().bound() == old(self).handle().bound(),
            old(self).stage() != Phase::Closed && fatal(event) ==> final(self).pending() == old(self).pending(),
            old(self).stage() != Phase::Closed && !fatal(event) ==> {
                &&& final(self).pending() == old(self).pending() + arrived(event)
                &&& final(self).stale() == (old(self).stale() || event is Received)
                &&& final(self).broken() == old(self).broken()
            },
            old(self).stage() == Phase::Idle && !fatal(event) ==> {
                &&& decided == Some(Action::<T>::Activate)
                &&& final(self).stage() == Phase::Active
                &&& final(self).handle() == old(self).handle()
            },
            old(self).stage() == Phase::Active && !fatal(event) && old(self).handle().pending_close() > 0 ==> decided == Some(
                Action::<T>::Finish { shutdown: true, cause: Cause::CloseRequested },
            ) && final(self).stage() == Phase::Closed,
            old(self).stage() == Phase::Active && !fatal(event) && old(self).handle().pending_close() == 0 ==> {
                &&& decided is None
                &&& final(self).stage() == Phase::Active
                &&& final(self).handle() == old(self).handle()
            },
    {
        if self.phase == Phase::Closed {
            return Some(Action::Done);
        }
        match event {
            Event::Failed => {
                return Some(self.finish(false, Cause::IoError));
            },
            Event::Received(bytes) => {
                if bytes.len() == 0 {
                    return Some(self.finish(false, Cause::EndOfStream));
                }
                let _ = self.inbound.write_bytes(bytes.as_slice());
                self.undecoded = true;
            },
            Event::Wake => {
                assert(self.inbound@ =~= old(self).inbound@ + arrived(event));
            },
        }
        if self.phase == Phase::Idle {
            self.phase = Phase::Active;
            return Some(Action::Activate);
        }
        if self.ctx.close_requested() {
            return Some(self.finish(true, Cause::CloseRequested));
        }
        None
    }

    /// Lets the decoder see the inbound bytes, if bytes wait that it has
    /// not seen, or could not take for want of room, no delivered message
    /// waits for the handler, and the decoder has not failed before: so the
    /// messages of one call are all handed on before the decoder is asked
    /// again. It hands on what the decoder
    /// returned. After that the consumed bytes are dropped from the inbound
    /// buffer, and the bytes count as seen unless the deliver-queue is
    /// filled to its bound. Else nothing happens.
    fn refill(&mut self) -> (r: Result<usize, DecodeError>)
        requires
            old(self).wf(),
            old(self).phase == Phase::Active,
        ensures
            final(self).wf(),
            final(self).phase == Phase::Active,
            final(self).read_size == old(self).read_size,
            final(self).encoder == old(self).encoder,
            old(self).ctx.delivered().is_prefix_of(final(self).ctx.delivered()),
            final(self).inbound@.is_suffix_of(old(self).inbound@),
            final(self).ctx.peer() == old(self).ctx.peer(),
            final(self).ctx.bound() == old(self).ctx.bound(),
            final(self).ctx.active() ==> old(self).ctx.active(),
            final(self).failed == old(self).failed,
            !(old(self).undecoded && old(self).ctx.delivered().len() == 0 && !old(self).failed)
                ==> r == Ok::<usize, DecodeError>(0usize) && *final(self) == *old(self),
            old(self).undecoded && old(self).ctx.delivered().len() == 0 && !old(self).failed ==> {
                &&& old(self).decoder.decodes(
                    old(self).ctx,
                    old(self).inbound@,
                    final(self).ctx,
                    final(self).inbound@,
                    r,
                )
                &&& final(self).undecoded == (final(self).ctx.delivered().len() == final(self).ctx.bound())
                &&& final(self).inbound.read_cursor() == 0
            },
    {
        if self.undecoded && self.ctx.deliver_backlog() == 0 && !self.failed {
            let r = self.decoder.decode(&mut self.ctx, &mut self.inbound);
            self.inbound.compact();
            self.undecoded = self.ctx.deliver_room() == 0;
            r
        } else {
            Ok(0)
        }
    }

    /// The action for an encoded message: the bytes that the encoder left
    /// in `staged` are to be transmitted; a message that it refused is
    /// dropped, with the reason.
    pub fn emit(result: Result<(), BufError>, staged: ByteBuf) -> (action: Action<T>)
        requires
            staged.wf(),
        ensures
            result is Ok ==> action is Transmit && action->Transmit_0@ == staged@,
            result is Err ==> action == Action::<T>::Discard(result->Err_0),
    {
        match result {
            Ok(_) => {
                let mut staged = staged;
                Action::Transmit(staged.read_all())
            },
            Err(e) => Action::Discard(e),
        }
    }

    /// Decides the next action of an active connection once the decoder
    /// has run, as `settled` says, and keeps in mind a failure of the
    /// decoder: a pending close signal ends the connection; else the oldest
    /// delivered message goes to the handler; else a failure of the decoder,
    /// now or before, ends the connection; else the oldest outgoing message
    /// is encoded into a fresh buffer, and what the encoder staged is
    /// transmitted, or the message is dropped with the encoder's reason; else
    /// the engine waits for the transport.
    pub fn settle(&mut self, decoded: Result<usize, DecodeError>) -> (action: Action<T>)
        requires
            old(self).wf(),
            old(self).stage() == Phase::Active,
        ensures
            final(self).wf(),
            final(self).broken() == (old(self).broken() || decoded is Err),
            settled(
                old(self).enc(),
                old(self).handle(),
                final(self).broken(),
                final(self).handle(),
                action,
            ),
            final(self).dec() == old(self).dec(),
            final(self).chunk() == old(self).chunk(),
            final(self).pending() == old(self).pending(),
            final(self).stale() == old(self).stale(),
            final(self).stage() == (if action is Finish {
                Phase::Closed
            } else {
                Phase::Active
            }),
    {
        if decoded.is_err() {
            self.failed = true;
        }
        if self.ctx.close_requested() {
            return self.finish(true, Cause::CloseRequested);
        }
        match self.ctx.take_delivered() {
            Some(msg) => {
                return Action::Dispatch(msg);
            },
            None => {},
        }
        if self.failed {
            return self.finish(true, Cause::ProtocolError);
        }
        match self.ctx.take_outgoing() {
            Some(msg) => {
                let mut staged = ByteBuf::new_with_capacity(self.read_size);
                let result = self.encoder.encode(&self.ctx, msg, &mut staged);
                assert(staged@.skip(0) =~= staged@);
                Self::emit(result, staged)
            },
            None => Action::Await,
        }
    }

    /// One turn of the event loop: takes in what the caller observed and
    /// returns what it is to do next. A closed connection ignores every
    /// event. A failure of the transport and the end of the stream end the
    /// connection at once. Bytes that arrived are appended to the inbound
    /// buffer. An idle connection becomes active. On an active connection a
    /// pending close signal comes first and ends it; then the decoder sees
    /// the inbound bytes, if new ones wait and no delivered message does;
    /// then, in this order, the oldest delivered message goes to the handler,
    /// a failure of the decoder ends the connection, the oldest outgoing
    /// message is encoded for the transport, or the engine waits. No
    /// delivered message is lost or overtaken on the way.
    pub fn step(&mut self, event: Event) -> (action: Action<T>)
        requires
            old(self).wf(),
        ensures
            final(self).wf(),
            final(self).chunk() == old(self).chunk(),
            legal_step(old(self).stage(), final(self).stage(), action is Finish),
            final(self).handle().peer() == old(self).handle().peer(),
            final(self).handle().bound() == old(self).handle().bound(),
            final(self).handle().active() ==> old(self).handle().active(),
            action is Dispatch ==> old(self).handle().delivered().is_prefix_of(
                seq![action->Dispatch_0] + final(self).handle().delivered(),
            ),
            !(action is Dispatch) ==> old(self).handle().delivered().is_prefix_of(
                final(self).handle().delivered(),
            ),
            action is Done <==> old(self).stage() == Phase::Closed,
            action is Activate <==> old(self).stage() == Phase::Idle && !fatal(event),
            old(self).stage() != Phase::Closed && !(action is Finish) ==> final(self).stage()
                == Phase::Active,
            old(self).stage() == Phase::Closed ==> *final(self) == *old(self),
            old(self).stage() != Phase::Closed && event is Failed ==> action == (
                Action::<T>::Finish { shutdown: false, cause: Cause::IoError }),
            old(self).stage() != Phase::Closed && ends_stream(event) ==> action == (
                Action::<T>::Finish { shutdown: false, cause: Cause::EndOfStream }),
            old(self).stage() == Phase::Idle && !fatal(event) ==> {
                &&& final(self).handle() == old(self).handle()
                &&& final(self).pending() == old(self).pending() + arrived(event)
                &&& final(self).stale() == (old(self).stale() || event is Received)
                &&& final(self).broken() == old(self).broken()
            },
            old(self).stage() == Phase::Active && !fatal(event) && old(self).handle().pending_close() > 0 ==> action == (
                Action::<T>::Finish { shutdown: true, cause: Cause::CloseRequested }),
            final(self).stage() == Phase::Closed ==> !final(self).handle().receiving(),
            old(self).stage() != Phase::Closed ==> final(self).pending().is_suffix_of(
                old(self).pending() + arrived(event),
            ),
            old(self).stage() == Phase::Active && !fatal(event) && old(self).handle().pending_close()
                == 0 ==> exists|mid: Context<T>, decoded: Result<usize, DecodeError>|
                final(self).turned(*old(self), event, mid, decoded, action),
            old(self).stage() == Phase::Active && !fatal(event) && old(self).handle().pending_close()
                == 0 && old(self).handle().delivered().len() > 0 ==> settled(
                old(self).enc(),
                old(self).handle(),
                old(self).broken(),
                final(self).handle(),
                action,
            ),
            action is Await ==> {
                &&& final(self).stage() == Phase::Active
                &&& final(self).handle().delivered().len() == 0
                &&& final(self).handle().outgoing().len() == 0
                &&& final(self).handle().pending_close() == 0
            },
    {
        let ghost all = old(self).inbound@ + arrived(event);
        assert(all.subrange(0, all.len() as int) =~= all);
        assert(old(self).inbound@ + Seq::<u8>::empty() =~= old(self).inbound@);
        match self.absorb(event) {
            Some(action) => {
                assert(old(self).phase != Phase::Closed ==> self.inbound@.is_suffix_of(all));
                action
            },
            None => {
                assert(self.inbound@ == all);
                let decoded = self.refill();
                let ghost mid = self.ctx;
                let ghost queued = self.ctx.delivered();
                let action = self.settle(decoded);
                proof {
                    if action is Dispatch {
                        assert(seq![action->Dispatch_0] + self.ctx.delivered() =~= queued);
                    }
                    assert(self.turned(*old(self), event, mid, decoded, action));
                }
                action
            },
        }
    }
}

} // verus!
