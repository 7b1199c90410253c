//! A growable byte buffer with a read cursor and a write cursor, and
//! big-endian accessors for unsigned integers of one to eight bytes.

use vstd::prelude::*;
use crate::error::BufError;

verus! {

/// 256 to the power `width`: the number of values that `width` bytes can hold.
pub open spec fn pow256(width: nat) -> nat
    decreases width,
{
    if width == 0 {
        1
    } else {
        256 * pow256((width - 1) as nat)
    }
}

/// The big-endian representation of `v` in exactly `width` bytes (the
/// low-order `width` bytes of `v`, most significant first).
pub open spec fn be_bytes(v: nat, width: nat) -> Seq<u8>
    decreases width,
{
    if width == 0 {
        Seq::<u8>::empty()
    } else {
        be_bytes(v / 256, (width - 1) as nat).push((v % 256) as u8)
    }
}

/// The unsigned integer that the bytes of `s` spell, most significant first.
pub open spec fn be_value(s: Seq<u8>) -> nat
    decreases s.len(),
{
    if s.len() == 0 {
        0
    } else {
        be_value(s.drop_last()) * 256 + s.last() as nat
    }
}

/// `be_bytes` yields exactly `width` bytes.
pub proof fn lemma_be_bytes_len(v: nat, width: nat)
    ensures
        be_bytes(v, width).len() == width,
    decreases width,
{
    if width > 0 {
        lemma_be_bytes_len(v / 256, (width - 1) as nat);
    }
}

/// The value spelled by `s` is below 256 to the power of its length.
pub proof fn lemma_be_value_bound(s: Seq<u8>)
    ensures
        be_value(s) < pow256(s.len()),
    decreases s.len(),
{
    if s.len() > 0 {
        lemma_be_value_bound(s.drop_last());
    }
}

/// `pow256` grows with its argument.
pub proof fn lemma_pow256_mono(a: nat, b: nat)
    requires
        a <= b,
    ensures
        pow256(a) <= pow256(b),
        pow256(a) >= 1,
    decreases b,
{
    if a < b {
        lemma_pow256_mono(a, (b - 1) as nat);
    } else if a > 0 {
        lemma_pow256_mono((a - 1) as nat, (a - 1) as nat);
    }
}

/// Eight bytes hold exactly the values of a `u64`.
pub proof fn lemma_pow256_eight()
    ensures
        pow256(1) == 0x100,
        pow256(2) == 0x1_0000,
        pow256(4) == 0x1_0000_0000,
        pow256(8) == 0x1_0000_0000_0000_0000,
{
    reveal_with_fuel(pow256, 9);
}

/// Decoding the big-endian bytes of a value that fits its width gives the
/// value back.
pub proof fn lemma_be_roundtrip(v: nat, width: nat)
    requires
        v < pow256(width),
    ensures
        be_bytes(v, width).len() == width,
        be_value(be_bytes(v, width)) == v,
    decreases width,
{
    lemma_be_bytes_len(v, width);
    if width > 0 {
        let head = be_bytes(v / 256, (width - 1) as nat);
        lemma_be_roundtrip(v / 256, (width - 1) as nat);
        assert(head.push((v % 256) as u8).drop_last() =~= head);
    }
}

/// Encoding the value that `s` spells, in the length of `s`, gives `s` back.
pub proof fn lemma_be_value_inverse(s: Seq<u8>)
    ensures
        be_bytes(be_value(s), s.len()) == s,
    decreases s.len(),
{
    if s.len() > 0 {
        lemma_be_value_inverse(s.drop_last());
        let v = be_value(s);
        assert(v / 256 == be_value(s.drop_last()));
        assert(v % 256 == s.last() as nat);
        assert(s.drop_last().push(s.last()) =~= s);
    }
}

/// Writing a value of `width` bytes behind any content and then reading
/// `width` bytes at that place yields the value again, and the bytes written
/// are exactly `width` many.
pub proof fn lemma_write_then_read(before: Seq<u8>, v: nat, width: nat)
    requires
        v < pow256(width),
    ensures
        (before + be_bytes(v, width)).len() == before.len() + width,
        be_value(
            (before + be_bytes(v, width)).subrange(before.len() as int, (before.len() + width) as int),
        ) == v,
{
    lemma_be_roundtrip(v, width);
    assert((before + be_bytes(v, width)).subrange(before.len() as int, (before.len() + width) as int)
        =~= be_bytes(v, width));
}

/// Whether `value` can be written in `width` bytes.
pub fn fits_width(value: u64, width: usize) -> (r: bool)
    ensures
        r == (value < pow256(width as nat)),
    decreases width,
{
    if width == 0 {
        value == 0
    } else if width >= 8 {
        proof {
            lemma_pow256_eight();
            lemma_pow256_mono(8, width as nat);
        }
        true
    } else {
        fits_width(value / 256, width - 1)
    }
}

/// The capacity of a buffer of capacity `capacity` once `written` bytes
/// stand in it: the storage grows to hold them where it was smaller, and
/// never shrinks.
pub open spec fn grown(capacity: nat, written: nat) -> nat {
    if written > capacity {
        written
    } else {
        capacity
    }
}

/// A byte container with independent read and write cursors. Writes append
/// at the write cursor and grow the storage where it is too small; reads
/// consume from the read cursor.
pub struct ByteBuf {
    data: Vec<u8>,
    read_pos: usize,
    reserved: usize,
}

impl View for ByteBuf {
    type V = Seq<u8>;

    /// The readable bytes: those between the read and the write cursor.
    closed spec fn view(&self) -> Seq<u8> {
        self.data@.subrange(self.read_pos as int, self.data@.len() as int)
    }
}

impl ByteBuf {
    /// The cursors are in order and within the storage:
    /// `0 <= read cursor <= write cursor <= capacity`.
    pub closed spec fn wf(&self) -> bool {
        self.read_pos <= self.data@.len() <= self.reserved
    }

    /// Number of bytes that the storage holds without growing: the capacity
    /// that the buffer was made with, or the most that was ever written
    /// where that is more.
    pub closed spec fn capacity(&self) -> nat {
        self.reserved as nat
    }

    /// Number of bytes consumed so far.
    pub closed spec fn read_cursor(&self) -> nat {
        self.read_pos as nat
    }

    /// Number of bytes written so far.
    pub closed spec fn write_cursor(&self) -> nat {
        self.data@.len()
    }

    /// The cursors bound the readable bytes.
    pub proof fn lemma_cursors(&self)
        requires
            self.wf(),
        ensures
            self.read_cursor() <= self.write_cursor(),
            self.write_cursor() <= self.capacity(),
            self@.len() == self.write_cursor() - self.read_cursor(),
    {
    }

    /// An empty buffer with storage for `capacity` bytes. The capacity is
    /// where the buffer starts and no limit on what can be written.
    pub fn new_with_capacity(capacity: usize) -> (buf: ByteBuf)
        ensures
            buf.wf(),
            buf@ == Seq::<u8>::empty(),
            buf.read_cursor() == 0,
            buf.write_cursor() == 0,
            buf.capacity() == capacity,
    {
        let buf = ByteBuf { data: Vec::with_capacity(capacity), read_pos: 0, reserved: capacity };
        assert(buf@ =~= Seq::<u8>::empty());
        buf
    }

    /// Number of bytes that the storage holds without growing.
    pub fn reserved(&self) -> (n: usize)
        ensures
            n == self.capacity(),
    {
        self.reserved
    }

    /// Number of bytes that can be read.
    pub fn readable_bytes(&self) -> (n: usize)
        requires
            self.wf(),
        ensures
            n == self@.len(),
            n == self.write_cursor() - self.read_cursor(),
    {
        self.data.len() - self.read_pos
    }

    /// Appends all of `src` at the write cursor and returns how many bytes
    /// were written.
    pub fn write_bytes(&mut self, src: &[u8]) -> (r: Result<usize, BufError>)
        requires
            old(self).wf(),
        ensures
            final(self).wf(),
            r == Ok::<usize, BufError>(src@.len() as usize),
            final(self)@ == old(self)@ + src@,
            final(self).read_cursor() == old(self).read_cursor(),
            final(self).write_cursor() == old(self).write_cursor() + src@.len(),
            final(self).capacity() == grown(old(self).capacity(), final(self).write_cursor()),
    {
        let n = src.len();
        let mut i: usize = 0;
        while i < n
            invariant
                n == src@.len(),
                i <= n,
                self.read_pos == old(self).read_pos,
                self.reserved == old(self).reserved,
                self.data@ == old(self).data@ + src@.subrange(0, i as int),
            decreases n - i,
        {
            self.data.push(src[i]);
            i = i + 1;
            assert(self.data@ =~= old(self).data@ + src@.subrange(0, i as int));
        }
        if self.data.len() > self.reserved {
            self.reserved = self.data.len();
        }
        assert(src@.subrange(0, n as int) =~= src@);
        assert(self@ =~= old(self)@ + src@);
        Ok(n)
    }

    /// Fills the whole of `dest` from the read cursor and advances the cursor
    /// by the length of `dest`. With fewer readable bytes than `dest` holds,
    /// nothing is read: the buffer and `dest` stay as they were.
    pub fn read_bytes(&mut self, dest: &mut Vec<u8>) -> (r: Result<usize, BufError>)
        requires
            old(self).wf(),
        ensures
            final(self).wf(),
            final(dest)@.len() == old(dest)@.len(),
            final(self).write_cursor() == old(self).write_cursor(),
            final(self).capacity() == old(self).capacity(),
            old(dest)@.len() <= old(self)@.len() ==> {
                &&& r == Ok::<usize, BufError>(old(dest)@.len() as usize)
                &&& final(dest)@ == old(self)@.subrange(0, old(dest)@.len() as int)
                &&& final(self)@ == old(self)@.subrange(
                    old(dest)@.len() as int,
                    old(self)@.len() as int,
                )
                &&& final(self).read_cursor() == old(self).read_cursor() + old(dest)@.len()
            },
            old(dest)@.len() > old(self)@.len() ==> {
                &&& r == Err::<usize, BufError>(BufError::BufferUnderflow)
                &&& *final(self) == *old(self)
                &&& final(dest)@ == old(dest)@
            },
    {
        let n = dest.len();
        if n > self.data.len() - self.read_pos {
            return Err(BufError::BufferUnderflow);
        }
        let start = self.read_pos;
        let total = self.data.len();
        let mut i: usize = 0;
        while i < n
            invariant
                i <= n,
                total == self.data@.len(),
                n == dest@.len(),
                start + n <= self.data@.len() <= usize::MAX,
                start == old(self).read_pos,
                self.read_pos == start,
                self.data@ == old(self).data@,
                forall|j: int| 0 <= j < i ==> dest@[j] == self.data@[start + j],
            decreases n - i,
        {
            dest.set(i, self.data[start + i]);
            i = i + 1;
        }
        self.read_pos = start + n;
        assert(dest@ =~= old(self)@.subrange(0, n as int));
        assert(self@ =~= old(self)@.subrange(n as int, old(self)@.len() as int));
        Ok(n)
    }

    /// Reads every readable byte, in order, and leaves the buffer with
    /// nothing to read.
    pub fn read_all(&mut self) -> (out: Vec<u8>)
        requires
            old(self).wf(),
        ensures
            final(self).wf(),
            out@ == old(self)@,
            final(self)@ == Seq::<u8>::empty(),
            final(self).write_cursor() == old(self).write_cursor(),
            final(self).capacity() == old(self).capacity(),
            final(self).read_cursor() == old(self).write_cursor(),
    {
        let mut out: Vec<u8> = Vec::new();
        let end = self.data.len();
        let start = self.read_pos;
        let mut i: usize = start;
        while i < end
            invariant
                start <= i <= end,
                end == self.data@.len(),
                out@ == self.data@.subrange(start as int, i as int),
            decreases end - i,
        {
            out.push(self.data[i]);
            i = i + 1;
            assert(out@ =~= self.data@.subrange(start as int, i as int));
        }
        self.read_pos = end;
        assert(self@ =~= Seq::<u8>::empty());
        out
    }

    /// Drops the bytes already consumed from the storage. The readable bytes
    /// stay as they are; both cursors move down by the old read cursor, and
    /// the storage keeps its capacity.
    pub fn compact(&mut self)
        requires
            old(self).wf(),
        ensures
            final(self).wf(),
            final(self)@ == old(self)@,
            final(self).read_cursor() == 0,
            final(self).write_cursor() == old(self).write_cursor() - old(self).read_cursor(),
            final(self).capacity() == old(self).capacity(),
    {
        let mut rest = self.read_all();
        let mut data: Vec<u8> = Vec::with_capacity(self.reserved);
        data.append(&mut rest);
        self.data = data;
        self.read_pos = 0;
        assert(self@ =~= old(self)@);
    }

    /// Appends the `width` low-order bytes of `value`, most significant first.
    fn put_be(&mut self, value: u64, width: usize)
        requires
            old(self).wf(),
        ensures
            final(self).wf(),
            final(self).read_pos == old(self).read_pos,
            final(self).data@ == old(self).data@ + be_bytes(value as nat, width as nat),
            final(self).capacity() == grown(old(self).capacity(), final(self).write_cursor()),
        decreases width,
    {
        if width > 0 {
            self.put_be(value / 256, width - 1);
            self.data.push((value % 256) as u8);
            if self.data.len() > self.reserved {
                self.reserved = self.data.len();
            }
            assert(self.data@ =~= old(self).data@ + be_bytes(value as nat, width as nat));
        } else {
            assert(self.data@ =~= old(self).data@ + be_bytes(value as nat, width as nat));
        }
    }

    /// Writes `value` as a big-endian integer of `width` bytes. A width
    /// outside one to eight is refused, and so is a value that does not fit
    /// the width; in both cases the buffer stays as it was.
    pub fn write_uint_be(&mut self, value: u64, width: usize) -> (r: Result<usize, BufError>)
        requires
            old(self).wf(),
        ensures
            final(self).wf(),
            final(self).read_cursor() == old(self).read_cursor(),
            !(1 <= width <= 8) ==> r == Err::<usize, BufError>(BufError::BadWidth) && *final(self)
                == *old(self),
            1 <= width <= 8 && value >= pow256(width as nat) ==> r == Err::<usize, BufError>(
                BufError::WidthExceeded,
            ) && *final(self) == *old(self),
            1 <= width <= 8 && value < pow256(width as nat) ==> {
                &&& r == Ok::<usize, BufError>(width)
                &&& final(self)@ == old(self)@ + be_bytes(value as nat, width as nat)
                &&& final(self).write_cursor() == old(self).write_cursor() + width
                &&& final(self).capacity() == grown(
                    old(self).capacity(),
                    final(self).write_cursor(),
                )
            },
    {
        if width == 0 || width > 8 {
            return Err(BufError::BadWidth);
        }
        if !fits_width(value, width) {
            return Err(BufError::WidthExceeded);
        }
        self.put_be(value, width);
        proof {
            lemma_be_bytes_len(value as nat, width as nat);
            assert(self@ =~= old(self)@ + be_bytes(value as nat, width as nat));
        }
        Ok(width)
    }

    /// The big-endian integer of `width` bytes that starts `offset` bytes
    /// behind the read cursor, without consuming anything. A width outside
    /// one to eight is refused; where the readable bytes end before
    /// `offset + width`, the peek fails.
    pub fn peek_uint_be(&self, offset: usize, width: usize) -> (r: Result<u64, BufError>)
        requires
            self.wf(),
        ensures
            !(1 <= width <= 8) ==> r == Err::<u64, BufError>(BufError::BadWidth),
            1 <= width <= 8 && self@.len() < offset + width ==> r == Err::<u64, BufError>(
                BufError::BufferUnderflow,
            ),
            1 <= width <= 8 && self@.len() >= offset + width ==> {
                &&& r is Ok
                &&& r->Ok_0 as nat == be_value(self@.subrange(offset as int, offset + width))
                &&& r->Ok_0 < pow256(width as nat)
            },
    {
        if width == 0 || width > 8 {
            return Err(BufError::BadWidth);
        }
        let total = self.data.len();
        let readable = total - self.read_pos;
        if offset > readable || readable - offset < width {
            return Err(BufError::BufferUnderflow);
        }
        let start = self.read_pos + offset;
        let mut acc: u64 = 0;
        let mut i: usize = 0;
        while i < width
            invariant
                i <= width <= 8,
                total == self.data@.len(),
                start + width <= total,
                acc as nat == be_value(self.data@.subrange(start as int, start + i)),
            decreases width - i,
        {
            let ghost prefix = self.data@.subrange(start as int, start + i);
            proof {
                lemma_be_value_bound(prefix);
                lemma_pow256_mono(i as nat, 7);
                lemma_pow256_eight();
                assert(pow256(8) == 256 * pow256(7)) by {
                    reveal_with_fuel(pow256, 2);
                }
            }
            acc = acc * 256 + self.data[start + i] as u64;
            i = i + 1;
            proof {
                let next = self.data@.subrange(start as int, start + i);
                assert(next.drop_last() =~= prefix);
            }
        }
        proof {
            let taken = self@.subrange(offset as int, offset + width);
            assert(taken =~= self.data@.subrange(start as int, start + width));
            lemma_be_value_bound(taken);
        }
        Ok(acc)
    }

    /// Reads a big-endian integer of `width` bytes and advances the read
    /// cursor by `width`. A width outside one to eight is refused; with
    /// fewer than `width` readable bytes the read fails. In both cases the
    /// buffer stays as it was, so the read can be tried again later.
    pub fn read_uint_be(&mut self, width: usize) -> (r: Result<u64, BufError>)
        requires
            old(self).wf(),
        ensures
            final(self).wf(),
            final(self).write_cursor() == old(self).write_cursor(),
            final(self).capacity() == old(self).capacity(),
            !(1 <= width <= 8) ==> r == Err::<u64, BufError>(BufError::BadWidth) && *final(self)
                == *old(self),
            1 <= width <= 8 && old(self)@.len() < width ==> r == Err::<u64, BufError>(
                BufError::BufferUnderflow,
            ) && *final(self) == *old(self),
            1 <= width <= 8 && old(self)@.len() >= width ==> {
                &&& r is Ok
                &&& r->Ok_0 as nat == be_value(old(self)@.subrange(0, width as int))
                &&& r->Ok_0 < pow256(width as nat)
                &&& final(self)@ == old(self)@.subrange(width as int, old(self)@.len() as int)
                &&& final(self).read_cursor() == old(self).read_cursor() + width
            },
    {
        let total = self.data.len();
        match self.peek_uint_be(0, width) {
            Ok(v) => {
                assert(self.read_pos + width <= total);
                self.read_pos = self.read_pos + width;
                assert(self@ =~= old(self)@.subrange(width as int, old(self)@.len() as int));
                Ok(v)
            },
            Err(e) => Err(e),
        }
    }

    /// Writes `value` in one byte, most significant first.
    pub fn write_u8_be(&mut self, value: u8) -> (r: Result<usize, BufError>)
        requires
            old(self).wf(),
        ensures
            final(self).wf(),
            r == Ok::<usize, BufError>(1usize),
            final(self)@ == old(self)@ + be_bytes(value as nat, 1),
            final(self).read_cursor() == old(self).read_cursor(),
            final(self).write_cursor() == old(self).write_cursor() + 1,
            final(self).capacity() == grown(old(self).capacity(), final(self).write_cursor()),
    {
        proof {
            lemma_pow256_eight();
        }
        self.write_uint_be(value as u64, 1)
    }

    /// Reads one byte as a big-endian integer. With fewer readable bytes the
    /// read fails and the buffer stays as it was.
    pub fn read_u8_be(&mut self) -> (r: Result<u8, BufError>)
        requires
            old(self).wf(),
        ensures
            final(self).wf(),
            final(self).write_cursor() == old(self).write_cursor(),
            final(self).capacity() == old(self).capacity(),
            old(self)@.len() < 1 ==> r == Err::<u8, BufError>(BufError::BufferUnderflow)
                && *final(self) == *old(self),
            old(self)@.len() >= 1 ==> {
                &&& r is Ok
                &&& r->Ok_0 as nat == be_value(old(self)@.subrange(0, 1))
                &&& final(self)@ == old(self)@.subrange(1, old(self)@.len() as int)
                &&& final(self).read_cursor() == old(self).read_cursor() + 1
            },
    {
        proof {
            lemma_pow256_eight();
        }
        match self.read_uint_be(1) {
            Ok(v) => Ok(v as u8),
            Err(e) => Err(e),
        }
    }

    /// Writes `value` in two bytes, most significant first.
    pub fn write_u16_be(&mut self, value: u16) -> (r: Result<usize, BufError>)
        requires
            old(self).wf(),
        ensures
            final(self).wf(),
            r == Ok::<usize, BufError>(2usize),
            final(self)@ == old(self)@ + be_bytes(value as nat, 2),
            final(self).read_cursor() == old(self).read_cursor(),
            final(self).write_cursor() == old(self).write_cursor() + 2,
            final(self).capacity() == grown(old(self).capacity(), final(self).write_cursor()),
    {
        proof {
            lemma_pow256_eight();
        }
        self.write_uint_be(value as u64, 2)
    }

    /// Reads two bytes as a big-endian integer. With fewer readable bytes the
    /// read fails and the buffer stays as it was.
    pub fn read_u16_be(&mut self) -> (r: Result<u16, BufError>)
        requires
            old(self).wf(),
        ensures
            final(self).wf(),
            final(self).write_cursor() == old(self).write_cursor(),
            final(self).capacity() == old(self).capacity(),
            old(self)@.len() < 2 ==> r == Err::<u16, BufError>(BufError::BufferUnderflow)
                && *final(self) == *old(self),
            old(self)@.len() >= 2 ==> {
                &&& r is Ok
                &&& r->Ok_0 as nat == be_value(old(self)@.subrange(0, 2))
                &&& final(self)@ == old(self)@.subrange(2, old(self)@.len() as int)
                &&& final(self).read_cursor() == old(self).read_cursor() + 2
            },
    {
        proof {
            lemma_pow256_eight();
        }
        match self.read_uint_be(2) {
            Ok(v) => Ok(v as u16),
            Err(e) => Err(e),
        }
    }

    /// Writes `value` in four bytes, most significant first.
    pub fn write_u32_be(&mut self, value: u32) -> (r: Result<usize, BufError>)
        requires
            old(self).wf(),
        ensures
            final(self).wf(),
            r == Ok::<usize, BufError>(4usize),
            final(self)@ == old(self)@ + be_bytes(value as nat, 4),
            final(self).read_cursor() == old(self).read_cursor(),
            final(self).write_cursor() == old(self).write_cursor() + 4,
            final(self).capacity() == grown(old(self).capacity(), final(self).write_cursor()),
    {
        proof {
            lemma_pow256_eight();
        }
        self.write_uint_be(value as u64, 4)
    }

    /// Reads four bytes as a big-endian integer. With fewer readable bytes the
    /// read fails and the buffer stays as it was.
    pub fn read_u32_be(&mut self) -> (r: Result<u32, BufError>)
        requires
            old(self).wf(),
        ensures
            final(self).wf(),
            final(self).write_cursor() == old(self).write_cursor(),
            final(self).capacity() == old(self).capacity(),
            old(self)@.len() < 4 ==> r == Err::<u32, BufError>(BufError::BufferUnderflow)
                && *final(self) == *old(self),
            old(self)@.len() >= 4 ==> {
                &&& r is Ok
                &&& r->Ok_0 as nat == be_value(old(self)@.subrange(0, 4))
                &&& final(self)@ == old(self)@.subrange(4, old(self)@.len() as int)
                &&& final(self).read_cursor() == old(self).read_cursor() + 4
            },
    {
        proof {
            lemma_pow256_eight();
        }
        match self.read_uint_be(4) {
            Ok(v) => Ok(v as u32),
            Err(e) => Err(e),
        }
    }

    /// Writes `value` in eight bytes, most significant first.
    pub fn write_u64_be(&mut self, value: u64) -> (r: Result<usize, BufError>)
        requires
            old(self).wf(),
        ensures
            final(self).wf(),
            r == Ok::<usize, BufError>(8usize),
            final(self)@ == old(self)@ + be_bytes(value as nat, 8),
            final(self).read_cursor() == old(self).read_cursor(),
            final(self).write_cursor() == old(self).write_cursor() + 8,
            final(self).capacity() == grown(old(self).capacity(), final(self).write_cursor()),
    {
        proof {
            lemma_pow256_eight();
        }
        self.write_uint_be(value as u64, 8)
    }

    /// Reads eight bytes as a big-endian integer. With fewer readable bytes the
    /// read fails and the buffer stays as it was.
    pub fn read_u64_be(&mut self) -> (r: Result<u64, BufError>)
        requires
            old(self).wf(),
        ensures
            final(self).wf(),
            final(self).write_cursor() == old(self).write_cursor(),
            final(self).capacity() == old(self).capacity(),
            old(self)@.len() < 8 ==> r == Err::<u64, BufError>(BufError::BufferUnderflow)
                && *final(self) == *old(self),
            old(self)@.len() >= 8 ==> {
                &&& r is Ok
                &&& r->Ok_0 as nat == be_value(old(self)@.subrange(0, 8))
                &&& final(self)@ == old(self)@.subrange(8, old(self)@.len() as int)
                &&& final(self).read_cursor() == old(self).read_cursor() + 8
            },
    {
        proof {
            lemma_pow256_eight();
        }
        match self.read_uint_be(8) {
            Ok(v) => Ok(v as u64),
            Err(e) => Err(e),
        }
    }
}

} // verus!
