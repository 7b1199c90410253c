//! The connection handle: the coordination state of one connection. It
//! holds the bounded queue of decoded messages awaiting the handler, the
//! bounded queue of messages awaiting transmission, the pending close
//! signals, the attribute store, the liveness flag and the peer address.

use vstd::prelude::*;
use std::collections::VecDeque;

verus! {

/// Default bound of the deliver-queue and of the send-queue.
pub const QUEUE_CAPACITY: usize = 1024;

/// Bound of the close-signal queue.
pub const CLOSE_CAPACITY: usize = 128;

/// Text of the error returned once the receiving side is gone, as tokio
/// words it for its channels.
pub open spec fn closed_text() -> Seq<char> {
    "channel closed"@
}

/// Text of the error returned when a bounded queue has no room, as tokio
/// words it for its channels.
pub open spec fn full_text() -> Seq<char> {
    "no available capacity"@
}

/// The words with which tokio reports a send on a channel whose receiver
/// is gone: `Display` of `tokio::sync::mpsc::error::SendError` writes the
/// fixed text "channel closed", whatever value the error carries. Trusted.
#[verifier::external_body]
fn send_error_text() -> (s: String)
    ensures
        s@ == closed_text(),
{
    tokio::sync::mpsc::error::SendError(()).to_string()
}

/// The words with which tokio reports a send that found a bounded channel
/// full: `Display` of `tokio::sync::mpsc::error::TrySendError` writes the
/// fixed text "no available capacity" for its variant `Full`. Trusted.
#[verifier::external_body]
fn full_error_text() -> (s: String)
    ensures
        s@ == full_text(),
{
    tokio::sync::mpsc::error::TrySendError::Full(()).to_string()
}

/// A failed operation on the connection handle, with its reason in words.
#[derive(Debug)]
pub struct ContextError {
    details: String,
}

impl View for ContextError {
    type V = Seq<char>;

    closed spec fn view(&self) -> Seq<char> {
        self.details@
    }
}

impl ContextError {
    /// An error that carries `msg` as its reason.
    pub fn new(msg: String) -> (e: ContextError)
        ensures
            e@ == msg@,
    {
        ContextError { details: msg }
    }

    /// The reason, as text.
    pub fn to_string(&self) -> (s: String)
        ensures
            s@ == self@,
    {
        self.details.clone()
    }

    /// The error of a queue whose receiving side has terminated.
    pub fn closed() -> (e: ContextError)
        ensures
            e@ == closed_text(),
    {
        ContextError::new(send_error_text())
    }

    /// The error of a queue that is filled to its bound.
    pub fn full() -> (e: ContextError)
        ensures
            e@ == full_text(),
    {
        ContextError::new(full_error_text())
    }
}

/// Address of the peer: an IPv4 address in the low 32 bits of `ip`, or an
/// IPv6 address in all of it, and the port.
#[derive(Clone, Copy, Debug, PartialEq, Eq, Structural)]
pub struct PeerAddr {
    pub ip: u128,
    pub port: u16,
    pub v6: bool,
}

/// A typed attribute value. `Empty` is what a key without a value yields.
#[derive(Clone, Debug, PartialEq, Eq)]
pub enum AttrValue {
    Empty,
    Flag(bool),
    Int(i64),
    Uint(u64),
    Text(String),
}

impl AttrValue {
    /// Whether this is the placeholder of a missing key.
    pub fn is_empty(&self) -> (r: bool)
        ensures
            r == (*self == AttrValue::Empty),
    {
        match self {
            AttrValue::Empty => true,
            _ => false,
        }
    }

    /// The boolean held, if this value is one.
    pub fn as_flag(&self) -> (r: Option<bool>)
        ensures
            r == (match *self {
                AttrValue::Flag(b) => Some(b),
                _ => None,
            }),
    {
        match self {
            AttrValue::Flag(b) => Some(*b),
            _ => None,
        }
    }

    /// The signed integer held, if this value is one.
    pub fn as_int(&self) -> (r: Option<i64>)
        ensures
            r == (match *self {
                AttrValue::Int(v) => Some(v),
                _ => None,
            }),
    {
        match self {
            AttrValue::Int(v) => Some(*v),
            _ => None,
        }
    }

    /// The text held, if this value is one.
    pub fn as_text(&self) -> (r: Option<String>)
        ensures
            r == (match *self {
                AttrValue::Text(t) => Some(t),
                _ => None,
            }),
    {
        match self {
            AttrValue::Text(t) => Some(t.clone()),
            _ => None,
        }
    }

    /// A value equal to this one.
    pub fn duplicate(&self) -> (r: AttrValue)
        ensures
            r == *self,
    {
        match self {
            AttrValue::Empty => AttrValue::Empty,
            AttrValue::Flag(b) => AttrValue::Flag(*b),
            AttrValue::Int(v) => AttrValue::Int(*v),
            AttrValue::Uint(v) => AttrValue::Uint(*v),
            AttrValue::Text(t) => AttrValue::Text(t.clone()),
        }
    }

    /// The unsigned integer held, if this value is one.
    pub fn as_uint(&self) -> (r: Option<u64>)
        ensures
            r == (match *self {
                AttrValue::Uint(v) => Some(v),
                _ => None,
            }),
    {
        match self {
            AttrValue::Uint(v) => Some(*v),
            _ => None,
        }
    }
}

/// One stored attribute.
pub struct Attribute {
    pub key: String,
    pub value: AttrValue,
}

/// The mapping that a list of attributes stands for: a later entry of a key
/// replaces an earlier one.
pub open spec fn attribute_map(entries: Seq<Attribute>) -> Map<Seq<char>, AttrValue>
    decreases entries.len(),
{
    if entries.len() == 0 {
        Map::empty()
    } else {
        attribute_map(entries.drop_last()).insert(entries.last().key@, entries.last().value)
    }
}

/// The value that a mapping yields for `key`: the stored one, or the empty
/// placeholder.
pub open spec fn attribute_or_empty(m: Map<Seq<char>, AttrValue>, key: Seq<char>) -> AttrValue {
    if m.contains_key(key) {
        m[key]
    } else {
        AttrValue::Empty
    }
}

/// A value stored under a key is what a lookup of that key yields right
/// after, whatever was stored before; other keys yield what they did.
pub proof fn lemma_set_then_get(
    store: Map<Seq<char>, AttrValue>,
    key: Seq<char>,
    value: AttrValue,
    other: Seq<char>,
)
    ensures
        attribute_or_empty(store.insert(key, value), key) == value,
        other != key ==> attribute_or_empty(store.insert(key, value), other)
            == attribute_or_empty(store, other),
{
}

/// A key that was never stored, or was removed, yields the empty
/// placeholder.
pub proof fn lemma_missing_is_empty(store: Map<Seq<char>, AttrValue>, key: Seq<char>)
    ensures
        attribute_or_empty(Map::<Seq<char>, AttrValue>::empty(), key) == AttrValue::Empty,
        attribute_or_empty(store.remove(key), key) == AttrValue::Empty,
{
}

/// What is left of a queue once its `n` oldest items were taken, one at a
/// time.
pub open spec fn after_takes<T>(queue: Seq<T>, n: nat) -> Seq<T>
    decreases n,
{
    if n == 0 || queue.len() == 0 {
        queue
    } else {
        after_takes(queue.subrange(1, queue.len() as int), (n - 1) as nat)
    }
}

/// Taking `n` items off a queue removes its first `n` items.
pub proof fn lemma_after_takes<T>(queue: Seq<T>, n: nat)
    requires
        n <= queue.len(),
    ensures
        after_takes(queue, n) == queue.subrange(n as int, queue.len() as int),
    decreases n,
{
    if n == 0 {
        assert(queue.subrange(0, queue.len() as int) =~= queue);
    } else {
        let rest = queue.subrange(1, queue.len() as int);
        lemma_after_takes(rest, (n - 1) as nat);
        assert(rest.subrange(n - 1, rest.len() as int) =~= queue.subrange(
            n as int,
            queue.len() as int,
        ));
    }
}

/// Items leave a queue in the order in which they entered it: once
/// `added` was queued item by item behind `queued`, the take that follows
/// `queued.len() + i` earlier takes yields `added[i]`.
pub proof fn lemma_queue_order<T>(queued: Seq<T>, added: Seq<T>, i: int)
    requires
        0 <= i < added.len(),
    ensures
        after_takes(queued + added, (queued.len() + i) as nat).len() > 0,
        after_takes(queued + added, (queued.len() + i) as nat)[0] == added[i],
{
    lemma_after_takes(queued + added, (queued.len() + i) as nat);
}

/// The shared coordination state of one connection.
pub struct Context<T> {
    addr: PeerAddr,
    deliver: VecDeque<T>,
    send: VecDeque<T>,
    close_signals: usize,
    capacity: usize,
    attributes: Vec<Attribute>,
    is_run: bool,
    open: bool,
}

impl<T> Context<T> {
    /// Both queues and the close signals are within their bounds.
    pub closed spec fn wf(&self) -> bool {
        &&& self.deliver@.len() <= self.capacity
        &&& self.send@.len() <= self.capacity
        &&& self.close_signals <= CLOSE_CAPACITY
    }

    /// The peer address.
    pub closed spec fn peer(&self) -> PeerAddr {
        self.addr
    }

    /// The deliver-queue, oldest message first.
    pub closed spec fn delivered(&self) -> Seq<T> {
        self.deliver@
    }

    /// The send-queue, oldest message first.
    pub closed spec fn outgoing(&self) -> Seq<T> {
        self.send@
    }

    /// The bound of each of the two message queues.
    pub closed spec fn bound(&self) -> nat {
        self.capacity as nat
    }

    /// Number of close signals not yet taken by the engine.
    pub closed spec fn pending_close(&self) -> nat {
        self.close_signals as nat
    }

    /// The liveness flag.
    pub closed spec fn active(&self) -> bool {
        self.is_run
    }

    /// Whether the engine still receives from the queues.
    pub closed spec fn receiving(&self) -> bool {
        self.open
    }

    /// The attribute store as a mapping from key to value.
    pub closed spec fn attributes(&self) -> Map<Seq<char>, AttrValue> {
        attribute_map(self.attributes@)
    }

    /// A handle for the connection to `addr`, with empty queues of bound
    /// `capacity`, no attributes, and the liveness flag set.
    pub fn new(addr: PeerAddr, capacity: usize) -> (ctx: Context<T>)
        ensures
            ctx.wf(),
            ctx.peer() == addr,
            ctx.bound() == capacity,
            ctx.delivered() == Seq::<T>::empty(),
            ctx.outgoing() == Seq::<T>::empty(),
            ctx.pending_close() == 0,
            ctx.active(),
            ctx.receiving(),
            ctx.attributes() == Map::<Seq<char>, AttrValue>::empty(),
    {
        Context {
            addr,
            deliver: VecDeque::new(),
            send: VecDeque::new(),
            close_signals: 0,
            capacity,
            attributes: Vec::new(),
            is_run: true,
            open: true,
        }
    }

    /// The peer address, which never changes.
    pub fn addr(&self) -> (a: PeerAddr)
        ensures
            a == self.peer(),
    {
        self.addr
    }

    /// Whether two handles name the same peer.
    pub fn same_peer(&self, other: &Context<T>) -> (r: bool)
        ensures
            r == (self.peer() == other.peer()),
    {
        self.addr == other.addr
    }

    /// The liveness flag: true until a close is requested.
    pub fn is_run(&self) -> (r: bool)
        ensures
            r == self.active(),
    {
        self.is_run
    }

    /// How many messages wait in the deliver-queue.
    pub fn deliver_backlog(&self) -> (n: usize)
        ensures
            n == self.delivered().len(),
    {
        self.deliver.len()
    }

    /// How many messages wait in the send-queue.
    pub fn send_backlog(&self) -> (n: usize)
        ensures
            n == self.outgoing().len(),
    {
        self.send.len()
    }

    /// How many more messages the deliver-queue takes.
    pub fn deliver_room(&self) -> (n: usize)
        requires
            self.wf(),
        ensures
            n == self.bound() - self.delivered().len(),
    {
        self.capacity - self.deliver.len()
    }

    /// Whether the engine still receives from the queues.
    pub fn is_receiving(&self) -> (r: bool)
        ensures
            r == self.receiving(),
    {
        self.open
    }

    /// Queues a decoded message for the handler, behind those already
    /// queued. Fails, and queues nothing, exactly when the receiving side has
    /// terminated. A full queue is no failure: the caller waits until
    /// `deliver_room` reports room and calls then, so a call with a live
    /// receiver and a full queue is left out.
    pub fn out(&mut self, msg: T) -> (r: Result<(), ContextError>)
        requires
            old(self).wf(),
            !old(self).receiving() || old(self).delivered().len() < old(self).bound(),
        ensures
            final(self).wf(),
            final(self).unchanged_but_delivered(*old(self)),
            r is Err <==> !old(self).receiving(),
            r is Err ==> r->Err_0@ == closed_text() && final(self).delivered() == old(self).delivered(),
            r is Ok ==> final(self).delivered() == old(self).delivered().push(msg),
    {
        if !self.open {
            return Err(ContextError::closed());
        }
        self.deliver.push_back(msg);
        Ok(())
    }

    /// Queues a message for encoding and transmission, behind those already
    /// queued. Never waits: fails at once, and queues nothing, once the
    /// receiving side has terminated or while the queue is filled to its
    /// bound.
    pub fn write(&mut self, msg: T) -> (r: Result<(), ContextError>)
        requires
            old(self).wf(),
        ensures
            final(self).wf(),
            final(self).unchanged_but_outgoing(*old(self)),
            !old(self).receiving() ==> r is Err && r->Err_0@ == closed_text() && final(self).outgoing() == old(self).outgoing(),
            old(self).receiving() && old(self).outgoing().len() >= old(self).bound() ==> r is Err
                && r->Err_0@ == full_text() && final(self).outgoing() == old(self).outgoing(),
            old(self).receiving() && old(self).outgoing().len() < old(self).bound() ==> r is Ok
                && final(self).outgoing() == old(self).outgoing().push(msg),
    {
        if !self.open {
            return Err(ContextError::closed());
        }
        if self.send.len() >= self.capacity {
            return Err(ContextError::full());
        }
        self.send.push_back(msg);
        Ok(())
    }

    /// Requests the end of the connection: clears the liveness flag and
    /// queues one close signal. Fails, with the flag cleared all the same,
    /// once the receiving side has terminated or while the signal queue is
    /// filled to its bound.
    pub fn close(&mut self) -> (r: Result<(), ContextError>)
        requires
            old(self).wf(),
        ensures
            final(self).wf(),
            !final(self).active(),
            final(self).peer() == old(self).peer(),
            final(self).bound() == old(self).bound(),
            final(self).delivered() == old(self).delivered(),
            final(self).outgoing() == old(self).outgoing(),
            final(self).attributes() == old(self).attributes(),
            final(self).receiving() == old(self).receiving(),
            !old(self).receiving() ==> r is Err && r->Err_0@ == closed_text() && final(self).pending_close() == old(self).pending_close(),
            old(self).receiving() && old(self).pending_close() >= CLOSE_CAPACITY ==> r is Err
                && r->Err_0@ == full_text() && final(self).pending_close() == old(self).pending_close(),
            old(self).receiving() && old(self).pending_close() < CLOSE_CAPACITY ==> r is Ok
                && final(self).pending_close() == old(self).pending_close() + 1,
    {
        self.is_run = false;
        if !self.open {
            return Err(ContextError::closed());
        }
        if self.close_signals >= CLOSE_CAPACITY {
            return Err(ContextError::full());
        }
        self.close_signals = self.close_signals + 1;
        Ok(())
    }

    /// Takes the oldest message off the deliver-queue, if there is one. Only
    /// the engine takes: everyone else holds the sending side alone.
    pub(crate) fn take_delivered(&mut self) -> (r: Option<T>)
        requires
            old(self).wf(),
        ensures
            final(self).wf(),
            final(self).unchanged_but_delivered(*old(self)),
            old(self).delivered().len() == 0 ==> r is None && final(self).delivered() == old(self).delivered(),
            old(self).delivered().len() > 0 ==> r == Some(old(self).delivered()[0]) && final(self).delivered() == old(self).delivered().subrange(
                1,
                old(self).delivered().len() as int,
            ),
    {
        self.deliver.pop_front()
    }

    /// Takes the oldest message off the send-queue, if there is one.
    pub(crate) fn take_outgoing(&mut self) -> (r: Option<T>)
        requires
            old(self).wf(),
        ensures
            final(self).wf(),
            final(self).unchanged_but_outgoing(*old(self)),
            old(self).outgoing().len() == 0 ==> r is None && final(self).outgoing() == old(self).outgoing(),
            old(self).outgoing().len() > 0 ==> r == Some(old(self).outgoing()[0]) && final(self).outgoing() == old(self).outgoing().subrange(1, old(self).outgoing().len() as int),
    {
        self.send.pop_front()
    }

    /// Whether a close signal is pending.
    pub fn close_requested(&self) -> (r: bool)
        ensures
            r == (self.pending_close() > 0),
    {
        self.close_signals > 0
    }

    /// Ends the receiving side: from now on `out`, `write` and `close` fail.
    /// What is queued stays where it is and is never handed out.
    pub(crate) fn shut(&mut self)
        ensures
            !final(self).receiving(),
            final(self).wf() == old(self).wf(),
            final(self).peer() == old(self).peer(),
            final(self).bound() == old(self).bound(),
            final(self).delivered() == old(self).delivered(),
            final(self).outgoing() == old(self).outgoing(),
            final(self).pending_close() == old(self).pending_close(),
            final(self).attributes() == old(self).attributes(),
            final(self).active() == old(self).active(),
    {
        self.open = false;
    }

    /// Drops every entry of `key` from the store.
    fn purge(&mut self, key: &String)
        ensures
            final(self).unchanged_but_attributes(*old(self)),
            final(self).attributes() == old(self).attributes().remove(key@),
    {
        let mut kept: Vec<Attribute> = Vec::new();
        let n = self.attributes.len();
        let mut i: usize = 0;
        assert(self.attributes@.subrange(0, 0) =~= Seq::<Attribute>::empty());
        assert(attribute_map(kept@) =~= attribute_map(self.attributes@.subrange(0, 0)).remove(
            key@,
        ));
        while i < n
            invariant
                i <= n,
                n == self.attributes@.len(),
                *self == *old(self),
                attribute_map(kept@) == attribute_map(self.attributes@.subrange(0, i as int)).remove(
                    key@,
                ),
            decreases n - i,
        {
            let ghost seen = self.attributes@.subrange(0, i as int);
            let ghost kept_before = kept@;
            let entry = &self.attributes[i];
            if !(entry.key == *key) {
                kept.push(Attribute { key: entry.key.clone(), value: entry.value.duplicate() });
                assert(kept@.drop_last() =~= kept_before);
            }
            i = i + 1;
            proof {
                let next = self.attributes@.subrange(0, i as int);
                assert(next.drop_last() =~= seen);
                assert(attribute_map(kept@) =~= attribute_map(next).remove(key@));
            }
        }
        assert(self.attributes@.subrange(0, n as int) =~= self.attributes@);
        self.attributes = kept;
    }

    /// Stores `value` under `key`, in place of any value stored there.
    pub fn set_attribute(&mut self, key: String, value: AttrValue)
        ensures
            final(self).unchanged_but_attributes(*old(self)),
            final(self).attributes() == old(self).attributes().insert(key@, value),
    {
        self.purge(&key);
        let ghost purged = self.attributes@;
        self.attributes.push(Attribute { key, value });
        assert(self.attributes@.drop_last() =~= purged);
        assert(self.attributes() =~= old(self).attributes().insert(key@, value));
    }

    /// Removes what is stored under `key`; without such a key nothing
    /// changes.
    pub fn remove_attribute(&mut self, key: String)
        ensures
            final(self).unchanged_but_attributes(*old(self)),
            final(self).attributes() == old(self).attributes().remove(key@),
    {
        self.purge(&key);
    }

    /// The value stored under `key`, or the empty placeholder where nothing
    /// is stored under it.
    pub fn get_attribute(&self, key: String) -> (v: AttrValue)
        ensures
            v == attribute_or_empty(self.attributes(), key@),
    {
        let mut i: usize = self.attributes.len();
        assert(self.attributes@.subrange(0, i as int) =~= self.attributes@);
        while i > 0
            invariant
                i <= self.attributes@.len(),
                attribute_or_empty(
                    attribute_map(self.attributes@.subrange(0, i as int)),
                    key@,
                ) == attribute_or_empty(self.attributes(), key@),
            decreases i,
        {
            let ghost seen = self.attributes@.subrange(0, i as int);
            i = i - 1;
            assert(seen.drop_last() =~= self.attributes@.subrange(0, i as int));
            let entry = &self.attributes[i];
            if entry.key == key {
                return entry.value.duplicate();
            }
        }
        AttrValue::Empty
    }

    /// Everything but the deliver-queue is as in `before`.
    pub open spec fn unchanged_but_delivered(&self, before: Context<T>) -> bool {
        &&& self.peer() == before.peer()
        &&& self.outgoing() == before.outgoing()
        &&& self.pending_close() == before.pending_close()
        &&& self.bound() == before.bound()
        &&& self.attributes() == before.attributes()
        &&& self.active() == before.active()
        &&& self.receiving() == before.receiving()
    }

    /// Everything but the send-queue is as in `before`.
    pub open spec fn unchanged_but_outgoing(&self, before: Context<T>) -> bool {
        &&& self.peer() == before.peer()
        &&& self.delivered() == before.delivered()
        &&& self.pending_close() == before.pending_close()
        &&& self.bound() == before.bound()
        &&& self.attributes() == before.attributes()
        &&& self.active() == before.active()
        &&& self.receiving() == before.receiving()
    }

    /// Everything but the attribute store is as in `before`.
    pub open spec fn unchanged_but_attributes(&self, before: Context<T>) -> bool {
        &&& self.wf() == before.wf()
        &&& self.peer() == before.peer()
        &&& self.delivered() == before.delivered()
        &&& self.outgoing() == before.outgoing()
        &&& self.pending_close() == before.pending_close()
        &&& self.bound() == before.bound()
        &&& self.active() == before.active()
        &&& self.receiving() == before.receiving()
    }
}

} // verus!
