//! Fixed-capacity ring buffer for single-producer/single-consumer byte
//! forwarding: two cursors walk a byte store of `BUFFER_SIZE` cells, one
//! slot stays permanently free to tell a full buffer from an empty one,
//! and readers obtain borrowed views instead of copies.

use vstd::prelude::*;

verus! {

/// Buffer capacity in bytes: large enough for burst traffic, small enough
/// for a constrained target, and a power of two so that cursor-to-offset
/// mapping stays cheap.
pub const BUFFER_SIZE: usize = 32 * 1024;

/// Errors specific to buffer operations.
#[derive(Debug, Clone, Copy, PartialEq, Eq, Structural)]
pub enum BufferError {
    /// Attempted to write more data than available space.
    Overflow,
    /// Attempted to read more data than available.
    Underflow,
    /// Requested size exceeds buffer capacity.
    SizeExceedsCapacity,
}

/// A borrowed view of buffer contents: one or two contiguous spans, the
/// second non-empty only when the viewed range wraps past the end of the
/// backing store.
#[derive(Debug)]
pub struct BufferSlice<'a> {
    /// First contiguous chunk, before any wrap-around.
    pub first: &'a [u8],
    /// Second contiguous chunk, after the wrap-around; may be empty.
    pub second: &'a [u8],
}

impl<'a> BufferSlice<'a> {
    /// Total length across both chunks.
    pub fn len(&self) -> (r: usize)
        requires
            self.first@.len() + self.second@.len() <= usize::MAX,
        ensures
            r == self.first@.len() + self.second@.len(),
    {
        self.first.len() + self.second.len()
    }

    /// Whether the view holds no bytes at all.
    pub fn is_empty(&self) -> (r: bool)
        ensures
            r == (self.first@.len() == 0 && self.second@.len() == 0),
    {
        self.first.len() == 0 && self.second.len() == 0
    }
}

/// Ring buffer with two cursors over a fixed byte store. The producer
/// advances the write cursor, the consumer the read cursor; the bytes
/// between them, in cursor order, are the readable contents.
pub struct ZeroCopyBuffer {
    /// The backing store, always exactly `BUFFER_SIZE` bytes.
    data: Vec<u8>,
    /// Write cursor: the position the producer fills next.
    write_idx: usize,
    /// Read cursor: the position the consumer drains next.
    read_idx: usize,
}

impl ZeroCopyBuffer {
    /// The raw backing store.
    pub closed spec fn storage(&self) -> Seq<u8> {
        self.data@
    }

    /// The write cursor's position in the store.
    pub closed spec fn write_pos(&self) -> int {
        self.write_idx as int
    }

    /// The read cursor's position in the store.
    pub closed spec fn read_pos(&self) -> int {
        self.read_idx as int
    }

    /// Well-formedness: a full-size store and in-range cursors.
    pub open spec fn wf(&self) -> bool {
        &&& self.storage().len() == BUFFER_SIZE
        &&& 0 <= self.write_pos() < BUFFER_SIZE
        &&& 0 <= self.read_pos() < BUFFER_SIZE
    }

    /// The store position `i` cells past `base`, wrapping at the end.
    pub open spec fn spec_index_at(base: int, i: int) -> int {
        if base + i < BUFFER_SIZE {
            base + i
        } else {
            base + i - BUFFER_SIZE
        }
    }

    /// Number of readable bytes: the cursor distance, wrapped.
    pub open spec fn spec_readable_len(&self) -> int {
        if self.write_pos() >= self.read_pos() {
            self.write_pos() - self.read_pos()
        } else {
            self.write_pos() - self.read_pos() + BUFFER_SIZE
        }
    }

    /// Number of writable bytes: the rest of the store, less the one slot
    /// sacrificed to keep a full buffer distinguishable from an empty one.
    pub open spec fn spec_writable_len(&self) -> int {
        BUFFER_SIZE - 1 - self.spec_readable_len()
    }

    /// The readable contents, in the order the consumer will see them.
    pub open spec fn readable(&self) -> Seq<u8> {
        Seq::new(
            self.spec_readable_len() as nat,
            |i: int| self.storage()[Self::spec_index_at(self.read_pos(), i)],
        )
    }

    /// A new buffer: zero-initialized store, both cursors at the start.
    pub fn new() -> (r: Self)
        ensures
            r.wf(),
            r.readable() == Seq::<u8>::empty(),
            r.read_pos() == 0,
            r.write_pos() == 0,
            r.storage() == Seq::new(BUFFER_SIZE as nat, |i: int| 0u8),
    {
        let mut data: Vec<u8> = Vec::new();
        let mut i: usize = 0;
        while i < BUFFER_SIZE
            invariant
                i <= BUFFER_SIZE,
                data@ == Seq::new(i as nat, |j: int| 0u8),
            decreases BUFFER_SIZE - i,
        {
            data.push(0);
            assert(data@ =~= Seq::new(i as nat + 1, |j: int| 0u8));
            i = i + 1;
        }
        let r = ZeroCopyBuffer { data, write_idx: 0, read_idx: 0 };
        assert(r.readable() =~= Seq::<u8>::empty());
        r
    }

    /// The total capacity of the buffer.
    pub fn capacity(&self) -> (r: usize)
        ensures
            r == BUFFER_SIZE,
    {
        BUFFER_SIZE
    }

    /// The number of bytes available to read.
    pub fn readable_len(&self) -> (r: usize)
        requires
            self.wf(),
        ensures
            r == self.spec_readable_len(),
            r == self.readable().len(),
    {
        if self.write_idx >= self.read_idx {
            self.write_idx - self.read_idx
        } else {
            self.write_idx + BUFFER_SIZE - self.read_idx
        }
    }

    /// The number of bytes available to write.
    pub fn writable_len(&self) -> (r: usize)
        requires
            self.wf(),
        ensures
            r == self.spec_writable_len(),
    {
        BUFFER_SIZE - 1 - self.readable_len()
    }

    /// Whether no byte is readable.
    pub fn is_empty(&self) -> (r: bool)
        requires
            self.wf(),
        ensures
            r == (self.spec_readable_len() == 0),
    {
        self.readable_len() == 0
    }

    /// Whether no byte is writable.
    pub fn is_full(&self) -> (r: bool)
        requires
            self.wf(),
        ensures
            r == (self.spec_writable_len() == 0),
    {
        self.writable_len() == 0
    }

    /// The write cursor's position in the store, for direct-fill setup.
    pub fn write_offset(&self) -> (r: usize)
        requires
            self.wf(),
        ensures
            r == self.write_pos(),
    {
        self.write_idx
    }

    /// The length of the view `readable_slice` returns for `max_len`:
    /// up to `max_len` readable bytes, cut at the end of the store.
    pub open spec fn spec_view_len(&self, max_len: int) -> int {
        let len = if max_len <= self.spec_readable_len() {
            max_len
        } else {
            self.spec_readable_len()
        };
        if self.read_pos() + len <= BUFFER_SIZE {
            len
        } else {
            BUFFER_SIZE - self.read_pos()
        }
    }

    /// A borrowed view of up to `max_len` readable bytes, in one
    /// contiguous span; a range that wraps past the end of the store is
    /// cut there, and a further call would view the rest. Nothing is
    /// returned from an empty buffer. The view stays valid until the next
    /// `consume`.
    pub fn readable_slice(&self, max_len: usize) -> (r: Option<&[u8]>)
        requires
            self.wf(),
        ensures
            match r {
                Some(s) => {
                    &&& self.spec_readable_len() > 0
                    &&& s@.len() == self.spec_view_len(max_len as int)
                    &&& s@ == self.readable().take(s@.len() as int)
                },
                None => self.spec_readable_len() == 0,
            },
    {
        let available = self.readable_len();
        if available == 0 {
            return None;
        }
        let len = if max_len < available {
            max_len
        } else {
            available
        };
        let end = self.read_idx + len;
        if end <= BUFFER_SIZE {
            let s = vstd::slice::slice_subrange(self.data.as_slice(), self.read_idx, end);
            assert(s@ =~= self.readable().take(len as int));
            Some(s)
        } else {
            let s = vstd::slice::slice_subrange(self.data.as_slice(), self.read_idx, BUFFER_SIZE);
            assert(s@ =~= self.readable().take(BUFFER_SIZE - self.read_pos()));
            Some(s)
        }
    }

    /// A borrowed split view of up to `max_len` readable bytes: both spans
    /// together hold the bytes in consumer order, the second span non-empty
    /// exactly when the range wraps past the end of the store. Both spans
    /// are empty when nothing is readable. The view stays valid until the
    /// next `consume`.
    pub fn readable_split(&self, max_len: usize) -> (r: BufferSlice<'_>)
        requires
            self.wf(),
        ensures
            ({
                let len = if max_len <= self.spec_readable_len() {
                    max_len as int
                } else {
                    self.spec_readable_len()
                };
                &&& r.first@ + r.second@ == self.readable().take(len)
                &&& (r.second@.len() > 0 ==> self.read_pos() + len > BUFFER_SIZE)
            }),
    {
        let available = self.readable_len();
        let len = if max_len < available {
            max_len
        } else {
            available
        };
        if len == 0 {
            let r = BufferSlice { first: vstd::slice::slice_subrange(self.data.as_slice(), 0, 0), second: vstd::slice::slice_subrange(self.data.as_slice(), 0, 0) };
            assert(r.first@ + r.second@ =~= self.readable().take(0));
            return r;
        }
        let end = self.read_idx + len;
        if end <= BUFFER_SIZE {
            let first = vstd::slice::slice_subrange(self.data.as_slice(), self.read_idx, end);
            let second = vstd::slice::slice_subrange(self.data.as_slice(), 0, 0);
            assert(first@ + second@ =~= self.readable().take(len as int));
            BufferSlice { first, second }
        } else {
            let first = vstd::slice::slice_subrange(self.data.as_slice(), self.read_idx, BUFFER_SIZE);
            let second_len = len - (BUFFER_SIZE - self.read_idx);
            let second = vstd::slice::slice_subrange(self.data.as_slice(), 0, second_len);
            assert(first@ + second@ =~= self.readable().take(len as int));
            BufferSlice { first, second }
        }
    }

    /// Commit `len` bytes the producer has placed at and after the write
    /// cursor, making them readable. Fails with `Overflow`, changing
    /// nothing, exactly when `len` exceeds the writable space.
    pub fn commit(&mut self, len: usize) -> (r: Result<(), BufferError>)
        requires
            old(self).wf(),
        ensures
            final(self).wf(),
            match r {
                Ok(()) => {
                    &&& len <= old(self).spec_writable_len()
                    &&& final(self).storage() == old(self).storage()
                    &&& final(self).read_pos() == old(self).read_pos()
                    &&& final(self).spec_readable_len() == old(self).spec_readable_len() + len
                    &&& final(self).readable() == old(self).readable() + Seq::new(
                        len as nat,
                        |i: int| old(self).storage()[Self::spec_index_at(
                            old(self).write_pos(),
                            i,
                        )],
                    )
                },
                Err(e) => {
                    &&& e == BufferError::Overflow
                    &&& len > old(self).spec_writable_len()
                    &&& *final(self) == *old(self)
                },
            },
            r is Ok <==> len <= old(self).spec_writable_len(),
    {
        if len > self.writable_len() {
            return Err(BufferError::Overflow);
        }
        let end = self.write_idx + len;
        if end < BUFFER_SIZE {
            self.write_idx = end;
        } else {
            self.write_idx = end - BUFFER_SIZE;
        }
        assert(final(self).readable() =~= old(self).readable() + Seq::new(
            len as nat,
            |i: int| old(self).storage()[Self::spec_index_at(old(self).write_pos(), i)],
        ));
        Ok(())
    }

    /// Consume `len` readable bytes, freeing their space for the producer.
    /// Fails with `Underflow`, changing nothing, exactly when `len`
    /// exceeds the readable contents.
    pub fn consume(&mut self, len: usize) -> (r: Result<(), BufferError>)
        requires
            old(self).wf(),
        ensures
            final(self).wf(),
            match r {
                Ok(()) => {
                    &&& len <= old(self).spec_readable_len()
                    &&& final(self).storage() == old(self).storage()
                    &&& final(self).write_pos() == old(self).write_pos()
                    &&& final(self).readable() == old(self).readable().skip(len as int)
                },
                Err(e) => {
                    &&& e == BufferError::Underflow
                    &&& len > old(self).spec_readable_len()
                    &&& *final(self) == *old(self)
                },
            },
            r is Ok <==> len <= old(self).spec_readable_len(),
    {
        if len > self.readable_len() {
            return Err(BufferError::Underflow);
        }
        let end = self.read_idx + len;
        if end < BUFFER_SIZE {
            self.read_idx = end;
        } else {
            self.read_idx = end - BUFFER_SIZE;
        }
        assert(final(self).readable() =~= old(self).readable().skip(len as int));
        Ok(())
    }

    /// How far past the write cursor a store position lies, wrapped; a
    /// position is producer-owned when this offset is below the writable
    /// length.
    pub open spec fn spec_writable_offset(&self, pos: int) -> int {
        if pos >= self.write_pos() {
            pos - self.write_pos()
        } else {
            pos - self.write_pos() + BUFFER_SIZE
        }
    }

    /// The two store index ranges a producer may fill, as `(start, len)`
    /// pairs: together they cover up to `max_len` writable cells starting
    /// at the write cursor, the second range non-empty exactly when the
    /// span wraps past the end of the store. The ranges are disjoint by
    /// construction: the first ends at the store's end, the second starts
    /// at zero. Fails with `Overflow` exactly when no cell is writable.
    pub fn writable_ranges(&self, max_len: usize) -> (r: Result<
        ((usize, usize), (usize, usize)),
        BufferError,
    >)
        requires
            self.wf(),
        ensures
            match r {
                Ok(v) => {
                    let len = if max_len <= self.spec_writable_len() {
                        max_len as int
                    } else {
                        self.spec_writable_len()
                    };
                    &&& self.spec_writable_len() > 0
                    &&& v.0.0 == self.write_pos()
                    &&& v.0.1 + v.1.1 == len
                    &&& v.0.0 + v.0.1 <= BUFFER_SIZE
                    &&& v.1.0 == 0
                    &&& (v.1.1 > 0 ==> v.0.0 + v.0.1 == BUFFER_SIZE)
                    &&& (forall|j: int|
                        0 <= j < v.0.1 ==> Self::spec_index_at(self.write_pos(), j) == v.0.0 + j)
                    &&& (forall|j: int|
                        v.0.1 <= j < len ==> Self::spec_index_at(self.write_pos(), j) == j - v.0.1)
                },
                Err(e) => {
                    &&& e == BufferError::Overflow
                    &&& self.spec_writable_len() == 0
                },
            },
    {
        let available = self.writable_len();
        if available == 0 {
            return Err(BufferError::Overflow);
        }
        let len = if max_len < available {
            max_len
        } else {
            available
        };
        let end = self.write_idx + len;
        if end <= BUFFER_SIZE {
            Ok(((self.write_idx, len), (0, 0)))
        } else {
            let first_len = BUFFER_SIZE - self.write_idx;
            Ok(((self.write_idx, first_len), (0, len - first_len)))
        }
    }

    /// Store one byte at position `pos`, which must lie in the
    /// producer-owned region (as `writable_ranges` hands it out): the
    /// readable contents are untouched, and a later `commit` makes the
    /// byte visible. This is the safe arena-and-offset form of filling
    /// the buffer directly, cell by cell.
    pub fn write_at(&mut self, pos: usize, value: u8)
        requires
            old(self).wf(),
            pos < BUFFER_SIZE,
            old(self).spec_writable_offset(pos as int) < old(self).spec_writable_len(),
        ensures
            final(self).wf(),
            final(self).read_pos() == old(self).read_pos(),
            final(self).write_pos() == old(self).write_pos(),
            final(self).storage() == old(self).storage().update(pos as int, value),
            final(self).readable() == old(self).readable(),
    {
        self.data[pos] = value;
        assert(final(self).readable() =~= old(self).readable());
    }

    /// Copy `data` into the buffer and commit it, all or nothing: fails
    /// with `Overflow`, changing nothing, exactly when `data` exceeds the
    /// writable space; otherwise every byte of `data` is appended to the
    /// readable contents, in order.
    pub fn write(&mut self, data: &[u8]) -> (r: Result<usize, BufferError>)
        requires
            old(self).wf(),
        ensures
            final(self).wf(),
            match r {
                Ok(n) => {
                    &&& n == data@.len()
                    &&& data@.len() <= old(self).spec_writable_len()
                    &&& final(self).readable() == old(self).readable() + data@
                    &&& final(self).read_pos() == old(self).read_pos()
                },
                Err(e) => {
                    &&& e == BufferError::Overflow
                    &&& data@.len() > old(self).spec_writable_len()
                    &&& *final(self) == *old(self)
                },
            },
            r is Ok <==> data@.len() <= old(self).spec_writable_len(),
    {
        if data.len() > self.writable_len() {
            return Err(BufferError::Overflow);
        }
        let ghost w = self.write_pos();
        let ghost d = self.spec_readable_len();
        let mut i: usize = 0;
        let mut pos: usize = self.write_idx;
        while i < data.len()
            invariant
                self.wf(),
                i <= data@.len(),
                data@.len() <= self.spec_writable_len(),
                self.write_pos() == w,
                self.read_pos() == old(self).read_pos(),
                d == self.spec_readable_len(),
                pos == Self::spec_index_at(w, i as int),
                forall|j: int|
                    0 <= j < i ==> self.storage()[Self::spec_index_at(w, j)] == data@[j],
                forall|t: int|
                    0 <= t < d ==> self.storage()[Self::spec_index_at(self.read_pos(), t)] == old(
                        self,
                    ).storage()[Self::spec_index_at(self.read_pos(), t)],
            decreases data@.len() - i,
        {
            self.data[pos] = data[i];
            i = i + 1;
            if pos + 1 == BUFFER_SIZE {
                pos = 0;
            } else {
                pos = pos + 1;
            }
        }
        assert(self.readable() =~= old(self).readable());
        match self.commit(data.len()) {
            Ok(()) => {
                assert(final(self).readable() =~= old(self).readable() + data@);
                Ok(data.len())
            },
            Err(_) => {
                proof {
                    assert(false);
                }
                Err(BufferError::Overflow)
            },
        }
    }

    /// Copy readable bytes into the front of `buf` and consume them:
    /// as many as `buf` can hold and the buffer has, in order; zero from
    /// an empty buffer, which is not an error. Bytes of `buf` past the
    /// copied prefix are left as they were.
    pub fn read(&mut self, buf: &mut Vec<u8>) -> (r: Result<usize, BufferError>)
        requires
            old(self).wf(),
        ensures
            final(self).wf(),
            match r {
                Ok(n) => {
                    &&& n == if old(buf)@.len() <= old(self).spec_readable_len() {
                        old(buf)@.len() as int
                    } else {
                        old(self).spec_readable_len()
                    }
                    &&& final(buf)@ == old(self).readable().take(n as int) + old(buf)@.skip(
                        n as int,
                    )
                    &&& final(buf)@.len() == old(buf)@.len()
                    &&& final(self).readable() == old(self).readable().skip(n as int)
                    &&& final(self).storage() == old(self).storage()
                    &&& final(self).write_pos() == old(self).write_pos()
                },
                Err(_) => false,
            },
    {
        let available = self.readable_len();
        if available == 0 {
            assert(final(buf)@ =~= old(self).readable().take(0) + old(buf)@.skip(0));
            assert(self.readable() =~= self.readable().skip(0));
            return Ok(0);
        }
        let len = if buf.len() < available {
            buf.len()
        } else {
            available
        };
        let ghost rp = self.read_pos();
        let mut i: usize = 0;
        let mut pos: usize = self.read_idx;
        while i < len
            invariant
                self.wf(),
                i <= len,
                len <= self.spec_readable_len(),
                len <= buf@.len(),
                *self == *old(self),
                buf@.len() == old(buf)@.len(),
                pos == Self::spec_index_at(rp, i as int),
                rp == self.read_pos(),
                forall|j: int| 0 <= j < i ==> buf@[j] == self.readable()[j],
                forall|j: int| i <= j < buf@.len() ==> buf@[j] == old(buf)@[j],
            decreases len - i,
        {
            let b: u8 = self.data[pos];
            buf[i] = b;
            i = i + 1;
            if pos + 1 == BUFFER_SIZE {
                pos = 0;
            } else {
                pos = pos + 1;
            }
        }
        assert(buf@ =~= old(self).readable().take(len as int) + old(buf)@.skip(len as int));
        match self.consume(len) {
            Ok(()) => Ok(len),
            Err(_) => {
                proof {
                    assert(false);
                }
                Err(BufferError::Underflow)
            },
        }
    }

    /// Reset the buffer to the empty state with both cursors at the start.
    /// Only safe while no producer or consumer activity is in flight.
    pub fn reset(&mut self)
        requires
            old(self).wf(),
        ensures
            final(self).wf(),
            final(self).readable() == Seq::<u8>::empty(),
            final(self).read_pos() == 0,
            final(self).write_pos() == 0,
            final(self).storage() == old(self).storage(),
    {
        self.read_idx = 0;
        self.write_idx = 0;
        assert(final(self).readable() =~= Seq::<u8>::empty());
    }
}

impl Default for ZeroCopyBuffer {
    /// A new, empty buffer.
    fn default() -> (r: Self)
        ensures
            r.wf(),
            r.readable() == Seq::<u8>::empty(),
            r.read_pos() == 0,
            r.write_pos() == 0,
    {
        ZeroCopyBuffer::new()
    }
}

/// Law: however the cursors stand, readable and writable lengths always
/// partition the capacity less the one sacrificed slot.
pub proof fn lemma_capacity_invariant(b: &ZeroCopyBuffer)
    requires
        b.wf(),
    ensures
        b.spec_readable_len() + b.spec_writable_len() == BUFFER_SIZE - 1,
{
}

/// Law: the buffer is an exact byte FIFO across wrap-around. Starting from
/// an empty buffer, `write(d1)` makes `d1` readable; reading `m` bytes
/// returns `d1.take(m)` and leaves `d1.skip(m)` readable; a further
/// `write(d2)` — however it wraps — leaves `d1.skip(m) + d2` readable, so
/// reading everything back returns it; and the two reads together
/// reproduce exactly the bytes written, in order.
pub proof fn lemma_wrap_around_order(d1: Seq<u8>, m: int, d2: Seq<u8>)
    requires
        0 <= m <= d1.len(),
    ensures
        Seq::<u8>::empty() + d1 == d1,
        (d1.take(m)) + ((d1.skip(m) + d2)) == d1 + d2,
{
    assert(Seq::<u8>::empty() + d1 =~= d1);
    assert(d1.take(m) + (d1.skip(m) + d2) =~= d1 + d2);
}

} // verus!
