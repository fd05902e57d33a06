//! The byte buffer that an accessor hands to its background job and gets back:
//! a `SliceRingBuffer<u8>` that is filled at the back and drained at the front.

use slice_ring_buffer::SliceRingBuffer;
use vstd::prelude::*;

verus! {

#[verifier::external_type_specification]
#[verifier::external_body]
#[verifier::reject_recursive_types(T)]
pub struct ExSliceRingBuffer<T>(SliceRingBuffer<T>);

/// The bytes a ring buffer holds, front first.
pub uninterp spec fn ring_contents(b: SliceRingBuffer<u8>) -> Seq<u8>;

/// The most bytes one fill of the buffer takes in.
pub const BUFFER_MAX_SIZE: usize = 65536;

/// `SliceRingBuffer::new`: an empty buffer.
#[verifier::external_body]
fn ring_new() -> (b: SliceRingBuffer<u8>)
    ensures
        ring_contents(b) == Seq::<u8>::empty(),
{
    SliceRingBuffer::new()
}

/// `SliceRingBuffer::len`: the number of bytes held. The bytes are one slice
/// of memory, and no slice spans more than `isize::MAX` bytes.
#[verifier::external_body]
fn ring_len(b: &SliceRingBuffer<u8>) -> (n: usize)
    ensures
        n == ring_contents(*b).len(),
        n <= isize::MAX,
{
    b.len()
}

/// `SliceRingBuffer::as_slice`: the bytes held, front first.
#[verifier::external_body]
fn ring_as_slice(b: &SliceRingBuffer<u8>) -> (s: &[u8])
    ensures
        s@ == ring_contents(*b),
{
    b.as_slice()
}

/// `SliceRingBuffer::clear`: drops every byte.
#[verifier::external_body]
fn ring_clear(b: &mut SliceRingBuffer<u8>)
    ensures
        ring_contents(*final(b)) == Seq::<u8>::empty(),
{
    b.clear()
}

/// `SliceRingBuffer::extend_from_slice`: appends the bytes of `src` at the back.
/// It panics when the new length overflows the capacity arithmetic, which the
/// bound below rules out; running out of memory is not ruled out.
#[verifier::external_body]
fn ring_extend_from_slice(b: &mut SliceRingBuffer<u8>, src: &[u8])
    requires
        ring_contents(*old(b)).len() + src@.len() <= isize::MAX,
    ensures
        ring_contents(*final(b)) == ring_contents(*old(b)) + src@,
{
    b.extend_from_slice(src)
}

/// `SliceRingBuffer::drain(..n)`, collected: removes the first `n` bytes and
/// hands them out in order. It panics when `n` exceeds the length.
#[verifier::external_body]
fn ring_drain_front(b: &mut SliceRingBuffer<u8>, n: usize) -> (out: Vec<u8>)
    requires
        n <= ring_contents(*old(b)).len(),
    ensures
        out@ == ring_contents(*old(b)).take(n as int),
        ring_contents(*final(b)) == ring_contents(*old(b)).skip(n as int),
{
    b.drain(..n).collect()
}

/// How many bytes a fill from `src` takes: all of it, up to `BUFFER_MAX_SIZE`.
pub open spec fn fill_len(len: nat) -> nat {
    if len < BUFFER_MAX_SIZE { len } else { BUFFER_MAX_SIZE as nat }
}

/// The bytes a fill from `src` puts into an empty buffer.
pub open spec fn spec_read_from(src: Seq<u8>) -> Seq<u8> {
    src.take(fill_len(src.len()) as int)
}

/// How many bytes a delivery into room for `remaining` bytes hands out.
pub open spec fn delivery_len(held: nat, remaining: nat) -> nat {
    if held < remaining { held } else { remaining }
}

/// A delivery into room for `remaining` bytes: the bytes handed out, and the
/// bytes left in the buffer.
pub open spec fn spec_write_into(held: Seq<u8>, remaining: nat) -> (Seq<u8>, Seq<u8>) {
    let n = delivery_len(held.len(), remaining) as int;
    (held.take(n), held.skip(n))
}

/// How many bytes one read of a file of `size` bytes, positioned at `offset`,
/// takes into the buffer: the rest of the file, up to `BUFFER_MAX_SIZE`.
pub open spec fn spec_file_read_len(size: u64, offset: u64) -> nat {
    fill_len((size - offset) as nat)
}

/// The buffer of an accessor, filled at the back and drained at the front.
pub struct RingBuffer {
    buf: SliceRingBuffer<u8>,
}

impl View for RingBuffer {
    type V = Seq<u8>;

    closed spec fn view(&self) -> Seq<u8> {
        ring_contents(self.buf)
    }
}

impl RingBuffer {
    /// An empty buffer.
    pub fn new() -> (b: RingBuffer)
        ensures
            b@ == Seq::<u8>::empty(),
    {
        RingBuffer { buf: ring_new() }
    }

    /// The number of bytes held.
    pub fn len(&self) -> (n: usize)
        ensures
            n == self@.len(),
            n <= isize::MAX,
    {
        ring_len(&self.buf)
    }

    /// Whether no byte is held.
    pub fn is_empty(&self) -> (r: bool)
        ensures
            r == (self@.len() == 0),
    {
        ring_len(&self.buf) == 0
    }

    /// The bytes held, front first.
    pub fn as_slice(&self) -> (s: &[u8])
        ensures
            s@ == self@,
    {
        ring_as_slice(&self.buf)
    }

    /// Drops every byte.
    pub fn clear(&mut self)
        ensures
            final(self)@ == Seq::<u8>::empty(),
    {
        ring_clear(&mut self.buf)
    }

    /// Appends `src` at the back.
    pub fn extend_from_slice(&mut self, src: &[u8])
        requires
            old(self)@.len() + src@.len() <= isize::MAX,
        ensures
            final(self)@ == old(self)@ + src@,
    {
        ring_extend_from_slice(&mut self.buf, src)
    }

    /// Drops every byte held and returns minus their number: the distance the
    /// file cursor ran ahead of what was handed out.
    pub fn obsolete(&mut self) -> (mv: isize)
        ensures
            mv == -(old(self)@.len()),
            final(self)@ == Seq::<u8>::empty(),
    {
        let n = ring_len(&self.buf);
        ring_clear(&mut self.buf);
        -(n as isize)
    }

    /// Fills the empty buffer from `src`: takes its first bytes, up to
    /// `BUFFER_MAX_SIZE` of them, and returns how many it took.
    pub fn read_from(&mut self, src: &[u8]) -> (n: usize)
        requires
            old(self)@.len() == 0,
        ensures
            n == fill_len(src@.len()),
            final(self)@ == spec_read_from(src@),
    {
        let n = if src.len() < BUFFER_MAX_SIZE { src.len() } else { BUFFER_MAX_SIZE };
        let part = slice_take(src, n);
        ring_extend_from_slice(&mut self.buf, part);
        n
    }

    /// Hands out the first bytes held, as many as fit in room for `remaining`
    /// bytes, and keeps the rest for the next call.
    pub fn write_into(&mut self, remaining: usize) -> (out: Vec<u8>)
        ensures
            (out@, final(self)@) == spec_write_into(old(self)@, remaining as nat),
    {
        let held = ring_len(&self.buf);
        let n = if held < remaining { held } else { remaining };
        ring_drain_front(&mut self.buf, n)
    }

    /// Takes into the empty buffer what one read of the file brought: on
    /// success the bytes read, whose number it returns; on failure it stays
    /// empty and hands the failure on.
    pub fn read_file<E>(&mut self, outcome: Result<Vec<u8>, E>) -> (r: Result<usize, E>)
        requires
            old(self)@.len() == 0,
            outcome matches Ok(bytes) ==> bytes@.len() <= BUFFER_MAX_SIZE,
        ensures
            match outcome {
                Ok(bytes) => r == Ok::<usize, E>(bytes@.len() as usize) && final(self)@ == bytes@,
                Err(e) => r == Err::<usize, E>(e) && final(self)@ == Seq::<u8>::empty(),
            },
    {
        match outcome {
            Ok(bytes) => {
                ring_extend_from_slice(&mut self.buf, bytes.as_slice());
                Ok(bytes.len())
            },
            Err(e) => {
                ring_clear(&mut self.buf);
                Err(e)
            },
        }
    }
}

/// The first `n` bytes of `src`.
fn slice_take(src: &[u8], n: usize) -> (s: &[u8])
    requires
        n <= src@.len(),
    ensures
        s@ == src@.take(n as int),
{
    vstd::slice::slice_subrange(src, 0, n)
}

/// How many bytes one read of a file of `size` bytes, positioned at `offset`,
/// should take into the buffer: the rest of the file, up to `BUFFER_MAX_SIZE`.
pub fn file_read_len(size: u64, offset: u64) -> (n: usize)
    requires
        offset <= size,
    ensures
        n == spec_file_read_len(size, offset),
{
    let remain = size - offset;
    if remain < BUFFER_MAX_SIZE as u64 {
        remain as usize
    } else {
        BUFFER_MAX_SIZE
    }
}

/// A fill followed by a delivery into enough room hands out exactly the bytes
/// the fill took, and leaves the buffer empty.
pub proof fn lemma_fill_then_deliver(src: Seq<u8>, remaining: nat)
    requires
        remaining >= fill_len(src.len()),
    ensures
        spec_write_into(spec_read_from(src), remaining)
            == (src.take(fill_len(src.len()) as int), Seq::<u8>::empty()),
{
    let held = spec_read_from(src);
    assert(held.skip(held.len() as int) =~= Seq::<u8>::empty());
    assert(held.take(held.len() as int) =~= held);
}

/// What a loop of fills and deliveries hands out from `offset` on: each round
/// fills the empty buffer from what is left of `src` and delivers into room
/// for the rest of `src`.
pub open spec fn shipped(src: Seq<u8>, offset: int) -> Seq<u8>
    decreases src.len() - offset,
{
    if offset < 0 || offset >= src.len() {
        Seq::<u8>::empty()
    } else {
        let delivered = spec_write_into(spec_read_from(src.skip(offset)), (src.len() - offset) as nat);
        delivered.0 + shipped(src, offset + fill_len((src.len() - offset) as nat))
    }
}

/// Moving data through the buffer loses, adds and reorders nothing: every
/// round delivers all it filled, leaving the buffer empty, and the rounds
/// together hand out the rest of `src` unchanged and in order.
pub proof fn lemma_ship_loop(src: Seq<u8>, offset: int)
    requires
        0 <= offset <= src.len(),
    ensures
        shipped(src, offset) == src.skip(offset),
        offset < src.len() ==> spec_write_into(spec_read_from(src.skip(offset)), (src.len() - offset) as nat).1
            == Seq::<u8>::empty(),
    decreases src.len() - offset,
{
    if offset < src.len() {
        let rest = src.skip(offset);
        assert(rest.len() == src.len() - offset);
        lemma_fill_then_deliver(rest, (src.len() - offset) as nat);
        let m = fill_len(rest.len()) as int;
        lemma_ship_loop(src, offset + m);
        assert(rest.take(m) + src.skip(offset + m) =~= rest);
    } else {
        assert(src.skip(offset) =~= Seq::<u8>::empty());
    }
}

/// Reading hands out the file's bytes in order: when the buffered bytes are
/// the file's bytes just before `pos` (as a read job that read at `pos - len`
/// leaves them), a delivery hands out the file's bytes from where the user is,
/// and what it keeps is again the file's bytes just before `pos`.
pub proof fn lemma_delivery_follows_file(file: Seq<u8>, pos: int, held: Seq<u8>, remaining: nat)
    requires
        held.len() <= pos <= file.len(),
        held == file.subrange(pos - held.len(), pos),
    ensures
        ({
            let (out, kept) = spec_write_into(held, remaining);
            let at = pos - held.len();
            &&& out == file.subrange(at, at + out.len())
            &&& kept == file.subrange(pos - kept.len(), pos)
        }),
{
    let n = delivery_len(held.len(), remaining) as int;
    let at = pos - held.len();
    assert(held.take(n) =~= file.subrange(at, at + n));
    assert(held.skip(n) =~= file.subrange(at + n, pos));
}

/// A delivery loses no byte: what it hands out, followed by what it keeps, is
/// what the buffer held, and it keeps fewer bytes unless it had no room.
pub proof fn lemma_delivery_conserves(held: Seq<u8>, remaining: nat)
    ensures
        spec_write_into(held, remaining).0 + spec_write_into(held, remaining).1 == held,
        remaining > 0 && held.len() > 0 ==> spec_write_into(held, remaining).1.len() < held.len(),
{
    let n = delivery_len(held.len(), remaining) as int;
    assert(held.take(n) + held.skip(n) =~= held);
}

/// A delivery respects the caller's room: it hands out no more bytes than
/// there is room for, nor more than the buffer holds, and it leaves room
/// unused only when it empties the buffer.
pub proof fn lemma_delivery_fits_room(held: Seq<u8>, remaining: nat)
    ensures
        spec_write_into(held, remaining).0.len() <= remaining,
        spec_write_into(held, remaining).0.len() <= held.len(),
        spec_write_into(held, remaining).0.len() < remaining ==> spec_write_into(held, remaining).1.len() == 0,
{
}

/// A fill takes a prefix of its source: all of it when it fits in the
/// buffer, else exactly `BUFFER_MAX_SIZE` bytes, and never more than either;
/// the count it reports is the length of what it took.
pub proof fn lemma_fill_takes_prefix(src: Seq<u8>)
    ensures
        spec_read_from(src).len() == fill_len(src.len()),
        spec_read_from(src) == src.take(spec_read_from(src).len() as int),
        spec_read_from(src).len() <= BUFFER_MAX_SIZE,
        src.len() <= BUFFER_MAX_SIZE ==> spec_read_from(src) == src,
        src.len() > BUFFER_MAX_SIZE ==> spec_read_from(src).len() == BUFFER_MAX_SIZE,
{
    if src.len() <= BUFFER_MAX_SIZE {
        assert(src.take(src.len() as int) =~= src);
    }
}

/// One read of a file takes what is left of it from the offset, up to
/// `BUFFER_MAX_SIZE` bytes: all of the rest when it fits, else exactly that
/// many.
pub proof fn lemma_file_read_takes_rest(size: u64, offset: u64)
    requires
        offset <= size,
    ensures
        spec_file_read_len(size, offset) <= size - offset,
        spec_file_read_len(size, offset) <= BUFFER_MAX_SIZE,
        size - offset <= BUFFER_MAX_SIZE ==> spec_file_read_len(size, offset) == size - offset,
        size - offset > BUFFER_MAX_SIZE ==> spec_file_read_len(size, offset) == BUFFER_MAX_SIZE,
{
}

/// How many reads, each taking what `file_read_len` says, bring a file of
/// `size` bytes from `offset` to its end.
pub open spec fn read_rounds(size: u64, offset: u64) -> nat
    decreases size - offset,
{
    if offset >= size {
        0
    } else {
        1 + read_rounds(size, (offset + spec_file_read_len(size, offset)) as u64)
    }
}

/// A file is read in full-size chunks but for the last one: reading from
/// `offset` to the end takes the remaining length divided by
/// `BUFFER_MAX_SIZE`, rounded up, reads.
pub proof fn lemma_read_rounds(size: u64, offset: u64)
    requires
        offset <= size,
    ensures
        read_rounds(size, offset) == (size - offset + BUFFER_MAX_SIZE - 1) / (BUFFER_MAX_SIZE as int),
    decreases size - offset,
{
    let m = BUFFER_MAX_SIZE as int;
    let r = size - offset;
    if offset >= size {
        assert((0 + m - 1) / m == 0) by (nonlinear_arith)
            requires m == 65536;
    } else if r < m {
        assert(read_rounds(size, (offset + r) as u64) == 0);
        assert((r + m - 1) / m == 1) by (nonlinear_arith)
            requires m == 65536, 1 <= r < m;
    } else {
        lemma_read_rounds(size, (offset + m) as u64);
        assert((r + m - 1) / m == 1 + (r - m + m - 1) / m) by (nonlinear_arith)
            requires m == 65536, r >= m;
    }
}

} // verus!
