//! A fixed-length array of `u32` values packed at a shared bit width that
//! widens as larger values are written.
use vstd::prelude::*;
use vstd::arithmetic::power2::{pow2, lemma_pow2_unfold, lemma_pow2_pos, lemma2_to64};
use crate::bit_buffer::{
    buf_bit, fits, span_holds, read_bits, write_bits, lemma_fits_wider, lemma_span_unique,
};

verus! {

/// Widest element width, in bits.
pub const MAX_BITS: usize = 32;

/// Bytes kept past the packed contents, so that the eight-byte window read or
/// written for the last element stays inside the buffer.
pub const GUARD_BYTES: usize = 8;

/// Why an access to a packed array was refused.
#[derive(Clone, Copy, Debug, PartialEq, Eq, Structural)]
pub enum ArrayError {
    /// The index is not below the array's length.
    IndexOutOfBounds,
    /// The array has no buffer: it was never allocated or was deallocated.
    NotAllocated,
    /// The array already has a buffer.
    AlreadyAllocated,
}

/// Number of binary digits of `v` (zero for zero).
pub open spec fn bit_length(v: nat) -> nat
    decreases v,
{
    if v == 0 {
        0
    } else {
        1 + bit_length(v / 2)
    }
}

/// The least width, at least one bit, that holds `v`.
pub open spec fn min_width(v: u32) -> nat {
    if v == 0 {
        1
    } else {
        bit_length(v as nat)
    }
}

/// Bytes that `n` elements of `w` bits each occupy when packed.
pub open spec fn packed_bytes(w: nat, n: nat) -> nat {
    (w * n + 7) / 8
}

/// Most elements an array may hold: every bit index of the widest layout,
/// and the guard behind it, must fit in a `usize`.
pub open spec fn max_len() -> nat {
    ((usize::MAX - 64) / 32) as nat
}

proof fn lemma_bit_length_bounds(v: nat)
    ensures
        v < pow2(bit_length(v)),
        v > 0 ==> pow2((bit_length(v) - 1) as nat) <= v,
    decreases v,
{
    lemma_pow2_pos(0);
    if v > 0 {
        lemma_bit_length_bounds(v / 2);
        lemma_pow2_unfold(bit_length(v));
        if v / 2 > 0 {
            lemma_pow2_unfold((bit_length(v) - 1) as nat);
        } else {
            assert(pow2(0) == 1) by {
                lemma2_to64();
            }
        }
    } else {
        assert(pow2(0) == 1) by {
            lemma2_to64();
        }
    }
}

proof fn lemma_bit_length_at_most(v: nat, k: nat)
    requires
        v < pow2(k),
    ensures
        bit_length(v) <= k,
    decreases k,
{
    if v > 0 {
        if k == 0 {
            assert(pow2(0) == 1) by {
                lemma2_to64();
            }
        } else {
            lemma_pow2_unfold(k);
            lemma_bit_length_at_most(v / 2, (k - 1) as nat);
        }
    }
}

/// `min_width(v)` bits hold `v`, and no smaller nonzero width does.
pub proof fn lemma_min_width_is_least(v: u32)
    ensures
        1 <= min_width(v) <= 32,
        fits(v, min_width(v)),
        forall|m: nat| 1 <= m < min_width(v) ==> !fits(v, m),
{
    lemma_bit_length_bounds(v as nat);
    lemma2_to64();
    lemma_bit_length_at_most(v as nat, 32);
    if v == 0 {
        assert(fits(v, 1));
    }
    assert forall|m: nat| 1 <= m < min_width(v) implies !fits(v, m) by {
        if v > 0 && m < bit_length(v as nat) {
            if m < (bit_length(v as nat) - 1) as nat {
                vstd::arithmetic::power2::lemma_pow2_strictly_increases(
                    m,
                    (bit_length(v as nat) - 1) as nat,
                );
            }
        } else if v == 0 {
            assert(m == 0);
        }
    }
    if v == 0 {
        assert(bit_length(0) == 0);
    }
}

/// The least width that holds `value`: its bit length, and at least one.
fn required_bits(value: u32) -> (r: usize)
    ensures
        r == min_width(value),
        1 <= r <= MAX_BITS,
{
    proof {
        lemma_min_width_is_least(value);
    }
    let mut n: usize = 0;
    let mut x: u32 = value;
    while x > 0
        invariant
            n + bit_length(x as nat) == bit_length(value as nat),
            bit_length(value as nat) <= 32,
        decreases x,
    {
        x = x / 2;
        n = n + 1;
    }
    if n == 0 {
        1
    } else {
        n
    }
}

proof fn lemma_slot_in_buffer(i: nat, size: nat, w: nat)
    requires
        i < size,
        1 <= w <= 32,
    ensures
        i * w + w <= size * w,
        size * w <= 8 * packed_bytes(w, size),
        (i * w) / 8 + 8 <= packed_bytes(w, size) + GUARD_BYTES,
{
    assert(i * w + w <= size * w) by (nonlinear_arith)
        requires
            i < size,
    ;
    assert(size * w == w * size) by (nonlinear_arith);
    let t = w * size;
    assert(t <= 8 * ((t + 7) / 8));
    assert((i * w) / 8 <= (t + 7) / 8);
}

/// Every bit index, byte count and guard of a valid layout fits a `usize`.
proof fn lemma_layout_fits(w: nat, size: nat)
    requires
        w <= 32,
        size <= max_len(),
    ensures
        w * size + 71 <= usize::MAX,
{
    assert(w * size <= 32 * size) by (nonlinear_arith)
        requires
            w <= 32,
    ;
}

proof fn lemma_slots_apart(i: nat, j: nat, w: nat)
    requires
        i < j,
    ensures
        i * w + w <= j * w,
{
    assert(i * w + w <= j * w) by (nonlinear_arith)
        requires
            i < j,
    ;
}

/// A span that a write did not touch still holds its value.
proof fn lemma_span_kept(before: Seq<u8>, after: Seq<u8>, lo: int, hi: int, start: int, n: int, v: u32)
    requires
        0 <= start,
        start + n <= 8 * before.len(),
        start + n <= lo || hi <= start,
        span_holds(before, start, n, v),
        forall|p: int|
            0 <= p < 8 * before.len() && !(lo <= p < hi) ==> #[trigger] buf_bit(after, p) == buf_bit(
                before,
                p,
            ),
    ensures
        span_holds(after, start, n, v),
{
    assert forall|p: int| start <= p < start + n implies #[trigger] buf_bit(after, p) == crate::bit_buffer::word_bit(
        v as u64,
        (p - start) as u64,
    ) by {
        assert(buf_bit(after, p) == buf_bit(before, p));
    }
}

/// A fixed number of `u32` elements, each stored in the same number of bits,
/// in one byte buffer. The width starts at one bit (or a chosen width) and
/// grows to fit the largest value ever written, up to 32 bits. The buffer may
/// be absent (not yet allocated, or deallocated); every element then reads as
/// zero once it is allocated again.
pub struct PackedArrayU32 {
    buffer: Option<Vec<u8>>,
    bits: usize,
    size: usize,
    values: Ghost<Seq<u32>>,
}

impl View for PackedArrayU32 {
    type V = Seq<u32>;

    closed spec fn view(&self) -> Seq<u32> {
        self.values@
    }
}

impl PackedArrayU32 {
    /// Number of elements.
    pub closed spec fn len_spec(&self) -> nat {
        self.size as nat
    }

    /// Current element width in bits.
    pub closed spec fn width(&self) -> nat {
        self.bits as nat
    }

    /// Whether the array holds a buffer.
    pub closed spec fn allocated(&self) -> bool {
        self.buffer is Some
    }

    pub closed spec fn wf(&self) -> bool {
        &&& 1 <= self.bits <= MAX_BITS
        &&& self.size <= max_len()
        &&& self.values@.len() == self.size
        &&& forall|i: int| 0 <= i < self.size ==> fits(#[trigger] self.values@[i], self.bits as nat)
        &&& match self.buffer {
            None => forall|i: int| 0 <= i < self.size ==> #[trigger] self.values@[i] == 0,
            Some(buf) => {
                &&& buf.len() == packed_bytes(self.bits as nat, self.size as nat) + GUARD_BYTES
                &&& forall|i: int|
                    0 <= i < self.size ==> span_holds(
                        buf@,
                        i * self.bits,
                        self.bits as int,
                        #[trigger] self.values@[i],
                    )
            },
        }
    }

    /// A zeroed buffer of `n` bytes: every bit clear, so every span reads zero.
    fn zeroed_buffer(n: usize) -> (buf: Vec<u8>)
        ensures
            buf.len() == n,
            forall|p: int| 0 <= p < 8 * n ==> !#[trigger] buf_bit(buf@, p),
    {
        let buf = vec![0u8; n];
        proof {
            assert forall|p: int| 0 <= p < 8 * n implies !#[trigger] buf_bit(buf@, p) by {
                let k = (p % 8) as u8;
                assert(buf@[p / 8] == 0u8);
                assert((0u8 >> k) & 1u8 == 0u8) by (bit_vector);
            }
        }
        buf
    }

    proof fn lemma_zero_spans(buf: Seq<u8>, values: Seq<u32>, size: nat, w: nat)
        requires
            1 <= w <= 32,
            buf.len() == packed_bytes(w, size) + GUARD_BYTES,
            forall|p: int| 0 <= p < 8 * buf.len() ==> !#[trigger] buf_bit(buf, p),
            values.len() == size,
            forall|i: int| 0 <= i < size ==> #[trigger] values[i] == 0u32,
        ensures
            forall|i: int| 0 <= i < size ==> span_holds(buf, i * w, w as int, #[trigger] values[i]),
    {
        assert forall|i: int| 0 <= i < size implies span_holds(buf, i * w, w as int, #[trigger] values[i]) by {
            lemma_slot_in_buffer(i as nat, size, w);
            assert forall|p: int| i * w <= p < i * w + w implies #[trigger] buf_bit(buf, p)
                == crate::bit_buffer::word_bit(0u32 as u64, (p - i * w) as u64) by {
                let k = (p - i * w) as u64;
                assert((0u64 >> k) & 1u64 == 0u64) by (bit_vector);
                assert(0 <= i * w) by (nonlinear_arith)
                    requires
                        0 <= i,
                        1 <= w,
                ;
            }
        }
    }

    fn build(size: usize, bits: usize, allocate: bool) -> (r: Self)
        requires
            size <= max_len(),
            1 <= bits <= MAX_BITS,
        ensures
            r.wf(),
            r.len_spec() == size,
            r.width() == bits,
            r.allocated() == allocate,
            r@ == Seq::new(size as nat, |i: int| 0u32),
    {
        let ghost values = Seq::new(size as nat, |i: int| 0u32);
        proof {
            assert forall|i: int| 0 <= i < size implies fits(#[trigger] values[i], bits as nat) by {
                lemma_pow2_pos(bits as nat);
            }
        }
        if allocate {
            proof {
                lemma_layout_fits(bits as nat, size as nat);
            }
            let n = (bits * size + 7) / 8 + GUARD_BYTES;
            let buf = Self::zeroed_buffer(n);
            proof {
                Self::lemma_zero_spans(buf@, values, size as nat, bits as nat);
            }
            PackedArrayU32 { buffer: Some(buf), bits, size, values: Ghost(values) }
        } else {
            PackedArrayU32 { buffer: None, bits, size, values: Ghost(values) }
        }
    }

    /// `size` zero elements of one bit each, allocated.
    pub fn new(size: usize) -> (r: Self)
        requires
            size <= max_len(),
        ensures
            r.wf(),
            r.len_spec() == size,
            r.width() == 1,
            r.allocated(),
            r@ == Seq::new(size as nat, |i: int| 0u32),
    {
        Self::build(size, 1, true)
    }

    /// `size` zero elements of one bit each, with no buffer until `allocate`.
    pub fn zeroed(size: usize) -> (r: Self)
        requires
            size <= max_len(),
        ensures
            r.wf(),
            r.len_spec() == size,
            r.width() == 1,
            !r.allocated(),
            r@ == Seq::new(size as nat, |i: int| 0u32),
    {
        Self::build(size, 1, false)
    }

    /// `size` zero elements of `bits` bits each, allocated.
    pub fn with_bit_length(size: usize, bits: usize) -> (r: Self)
        requires
            size <= max_len(),
            1 <= bits <= MAX_BITS,
        ensures
            r.wf(),
            r.len_spec() == size,
            r.width() == bits,
            r.allocated(),
            r@ == Seq::new(size as nat, |i: int| 0u32),
    {
        Self::build(size, bits, true)
    }

    /// `size` zero elements of `bits` bits each, with no buffer until
    /// `allocate`.
    pub fn zeroed_with_bit_length(size: usize, bits: usize) -> (r: Self)
        requires
            size <= max_len(),
            1 <= bits <= MAX_BITS,
        ensures
            r.wf(),
            r.len_spec() == size,
            r.width() == bits,
            !r.allocated(),
            r@ == Seq::new(size as nat, |i: int| 0u32),
    {
        Self::build(size, bits, false)
    }

    /// Reads element `index`: `IndexOutOfBounds` past the end, `NotAllocated`
    /// without a buffer, else the element.
    pub fn get(&self, index: usize) -> (r: Result<u32, ArrayError>)
        requires
            self.wf(),
        ensures
            index >= self.len_spec() ==> r == Err::<u32, ArrayError>(ArrayError::IndexOutOfBounds),
            index < self.len_spec() && !self.allocated() ==> r == Err::<u32, ArrayError>(
                ArrayError::NotAllocated,
            ),
            index < self.len_spec() && self.allocated() ==> r == Ok::<u32, ArrayError>(
                self@[index as int],
            ),
    {
        if index >= self.size {
            return Err(ArrayError::IndexOutOfBounds);
        }
        if self.buffer.is_none() {
            return Err(ArrayError::NotAllocated);
        }
        Ok(self.get_unchecked(index))
    }

    /// Reads element `index` of an allocated array, with the bounds and the
    /// buffer established by the caller.
    pub fn get_unchecked(&self, index: usize) -> (r: u32)
        requires
            self.wf(),
            self.allocated(),
            index < self.len_spec(),
        ensures
            r == self@[index as int],
    {
        let buf = self.buffer.as_ref().unwrap();
        proof {
            lemma_slot_in_buffer(index as nat, self.size as nat, self.bits as nat);
            lemma_layout_fits(self.bits as nat, self.size as nat);
        }
        let v = read_bits(buf, index * self.bits, self.bits);
        proof {
            lemma_span_unique(buf@, index * self.bits, self.bits as nat, v, self.values@[index as int]);
        }
        v
    }

    /// Writes `value` at `index` of an allocated array at the current width,
    /// with the bounds, the buffer and a value that fits the width all
    /// established by the caller.
    pub fn set_unchecked(&mut self, index: usize, value: u32)
        requires
            old(self).wf(),
            old(self).allocated(),
            index < old(self).len_spec(),
            fits(value, old(self).width()),
        ensures
            final(self).wf(),
            final(self)@ == old(self)@.update(index as int, value),
            final(self).len_spec() == old(self).len_spec(),
            final(self).width() == old(self).width(),
            final(self).allocated(),
    {
        let bits = self.bits;
        let size = self.size;
        let ghost values = self.values@;
        proof {
            lemma_slot_in_buffer(index as nat, size as nat, bits as nat);
            lemma_layout_fits(bits as nat, size as nat);
        }
        let mut buf = self.buffer.take().unwrap();
        let ghost before = buf@;
        let start = index * bits;
        write_bits(&mut buf, start, bits, value);
        proof {
            assert forall|j: int| 0 <= j < size && j != index implies span_holds(
                buf@,
                j * bits,
                bits as int,
                #[trigger] values[j],
            ) by {
                lemma_slot_in_buffer(j as nat, size as nat, bits as nat);
                if j < index {
                    lemma_slots_apart(j as nat, index as nat, bits as nat);
                } else {
                    lemma_slots_apart(index as nat, j as nat, bits as nat);
                }
                lemma_span_kept(before, buf@, start as int, start + bits, j * bits, bits as int, values[j]);
            }
        }
        self.buffer = Some(buf);
        self.values = Ghost(values.update(index as int, value));
    }

    /// Writes `value` at `index`, first widening every element to
    /// `min_width(value)` bits if the current width is narrower.
    /// `IndexOutOfBounds` past the end and `NotAllocated` without a buffer,
    /// leaving the array as it was.
    pub fn set(&mut self, index: usize, value: u32) -> (r: Result<(), ArrayError>)
        requires
            old(self).wf(),
        ensures
            final(self).wf(),
            final(self).len_spec() == old(self).len_spec(),
            index >= old(self).len_spec() ==> r == Err::<(), ArrayError>(
                ArrayError::IndexOutOfBounds,
            ) && *final(self) == *old(self),
            index < old(self).len_spec() && !old(self).allocated() ==> r == Err::<(), ArrayError>(
                ArrayError::NotAllocated,
            ) && *final(self) == *old(self),
            index < old(self).len_spec() && old(self).allocated() ==> {
                &&& r == Ok::<(), ArrayError>(())
                &&& final(self)@ == old(self)@.update(index as int, value)
                &&& final(self).width() == if old(self).width() < min_width(value) {
                    min_width(value)
                } else {
                    old(self).width()
                }
                &&& final(self).allocated()
            },
    {
        if index >= self.size {
            return Err(ArrayError::IndexOutOfBounds);
        }
        if self.buffer.is_none() {
            return Err(ArrayError::NotAllocated);
        }
        let req = required_bits(value);
        if req > self.bits {
            self.grow_bits_by(req - self.bits);
        }
        proof {
            lemma_min_width_is_least(value);
            lemma_fits_wider(value, min_width(value), self.bits as nat);
        }
        self.set_unchecked(index, value);
        Ok(())
    }

    /// Widens every element to `new_bits` bits, keeping every value. Without
    /// a buffer only the width changes.
    fn resize_bits(&mut self, new_bits: usize)
        requires
            old(self).wf(),
            old(self).width() <= new_bits <= MAX_BITS,
        ensures
            final(self).wf(),
            final(self)@ == old(self)@,
            final(self).len_spec() == old(self).len_spec(),
            final(self).width() == new_bits,
            final(self).allocated() == old(self).allocated(),
    {
        let old_bits = self.bits;
        let size = self.size;
        let ghost values = self.values@;
        proof {
            lemma_layout_fits(new_bits as nat, size as nat);
            lemma_layout_fits(old_bits as nat, size as nat);
            assert forall|i: int| 0 <= i < size implies fits(#[trigger] values[i], new_bits as nat) by {
                lemma_fits_wider(values[i], old_bits as nat, new_bits as nat);
            }
        }
        match self.buffer.take() {
            None => {},
            Some(old_buf) => {
                let n = (new_bits * size + 7) / 8 + GUARD_BYTES;
                let mut new_buf = Self::zeroed_buffer(n);
                let mut i: usize = 0;
                let mut src: usize = 0;
                let mut dst: usize = 0;
                while i < size
                    invariant
                        1 <= old_bits <= new_bits <= MAX_BITS,
                        size <= max_len(),
                        values.len() == size,
                        i <= size,
                        src == i * old_bits,
                        dst == i * new_bits,
                        new_buf.len() == n,
                        n == packed_bytes(new_bits as nat, size as nat) + GUARD_BYTES,
                        old_buf.len() == packed_bytes(old_bits as nat, size as nat) + GUARD_BYTES,
                        forall|j: int|
                            0 <= j < size ==> fits(#[trigger] values[j], old_bits as nat),
                        forall|j: int|
                            0 <= j < size ==> fits(#[trigger] values[j], new_bits as nat),
                        forall|j: int|
                            0 <= j < size ==> span_holds(
                                old_buf@,
                                j * old_bits,
                                old_bits as int,
                                #[trigger] values[j],
                            ),
                        forall|j: int|
                            0 <= j < i ==> span_holds(
                                new_buf@,
                                j * new_bits,
                                new_bits as int,
                                #[trigger] values[j],
                            ),
                    decreases size - i,
                {
                    proof {
                        lemma_slot_in_buffer(i as nat, size as nat, old_bits as nat);
                        lemma_slot_in_buffer(i as nat, size as nat, new_bits as nat);
                        lemma_layout_fits(new_bits as nat, size as nat);
                        lemma_layout_fits(old_bits as nat, size as nat);
                    }
                    let v = read_bits(&old_buf, src, old_bits);
                    proof {
                        lemma_span_unique(old_buf@, src as int, old_bits as nat, v, values[i as int]);
                        lemma_fits_wider(v, old_bits as nat, new_bits as nat);
                    }
                    let ghost before = new_buf@;
                    write_bits(&mut new_buf, dst, new_bits, v);
                    proof {
                        assert forall|j: int| 0 <= j < i implies span_holds(
                            new_buf@,
                            j * new_bits,
                            new_bits as int,
                            #[trigger] values[j],
                        ) by {
                            lemma_slot_in_buffer(j as nat, size as nat, new_bits as nat);
                            lemma_slots_apart(j as nat, i as nat, new_bits as nat);
                            lemma_span_kept(
                                before,
                                new_buf@,
                                dst as int,
                                dst + new_bits,
                                j * new_bits,
                                new_bits as int,
                                values[j],
                            );
                        }
                        assert((i + 1) * old_bits == i * old_bits + old_bits) by (nonlinear_arith);
                        assert((i + 1) * new_bits == i * new_bits + new_bits) by (nonlinear_arith);
                    }
                    i = i + 1;
                    src = src + old_bits;
                    dst = dst + new_bits;
                }
                self.buffer = Some(new_buf);
            },
        }
        self.bits = new_bits;
    }

    /// Widens every element by `amount` bits, keeping every value.
    pub fn grow_bits_by(&mut self, amount: usize)
        requires
            old(self).wf(),
            old(self).width() + amount <= MAX_BITS,
        ensures
            final(self).wf(),
            final(self)@ == old(self)@,
            final(self).len_spec() == old(self).len_spec(),
            final(self).width() == old(self).width() + amount,
            final(self).allocated() == old(self).allocated(),
    {
        self.resize_bits(self.bits + amount);
    }

    /// Doubles the element width, keeping every value.
    pub fn grow_bits_by_powf2(&mut self)
        requires
            old(self).wf(),
            2 * old(self).width() <= MAX_BITS,
        ensures
            final(self).wf(),
            final(self)@ == old(self)@,
            final(self).len_spec() == old(self).len_spec(),
            final(self).width() == 2 * old(self).width(),
            final(self).allocated() == old(self).allocated(),
    {
        self.resize_bits(2 * self.bits);
    }

    /// Gives the array a zeroed buffer at its current width;
    /// `AlreadyAllocated`, changing nothing, when it has one.
    pub fn allocate(&mut self) -> (r: Result<(), ArrayError>)
        requires
            old(self).wf(),
        ensures
            final(self).wf(),
            old(self).allocated() ==> r == Err::<(), ArrayError>(ArrayError::AlreadyAllocated)
                && *final(self) == *old(self),
            !old(self).allocated() ==> {
                &&& r == Ok::<(), ArrayError>(())
                &&& final(self).allocated()
                &&& final(self)@ == old(self)@
                &&& final(self).len_spec() == old(self).len_spec()
                &&& final(self).width() == old(self).width()
            },
    {
        if self.buffer.is_some() {
            return Err(ArrayError::AlreadyAllocated);
        }
        proof {
            lemma_layout_fits(self.bits as nat, self.size as nat);
        }
        let n = (self.bits * self.size + 7) / 8 + GUARD_BYTES;
        let buf = Self::zeroed_buffer(n);
        proof {
            Self::lemma_zero_spans(buf@, self.values@, self.size as nat, self.bits as nat);
        }
        self.buffer = Some(buf);
        Ok(())
    }

    /// Releases the buffer; every element reads as zero once the array is
    /// allocated again. `NotAllocated`, changing nothing, without a buffer.
    pub fn deallocate(&mut self) -> (r: Result<(), ArrayError>)
        requires
            old(self).wf(),
        ensures
            final(self).wf(),
            !old(self).allocated() ==> r == Err::<(), ArrayError>(ArrayError::NotAllocated)
                && *final(self) == *old(self),
            old(self).allocated() ==> {
                &&& r == Ok::<(), ArrayError>(())
                &&& !final(self).allocated()
                &&& final(self)@ == Seq::new(old(self).len_spec(), |i: int| 0u32)
                &&& final(self).len_spec() == old(self).len_spec()
                &&& final(self).width() == old(self).width()
            },
    {
        if self.buffer.is_none() {
            return Err(ArrayError::NotAllocated);
        }
        self.buffer = None;
        let ghost zeros = Seq::new(self.size as nat, |i: int| 0u32);
        proof {
            assert forall|i: int| 0 <= i < self.size implies fits(#[trigger] zeros[i], self.bits as nat) by {
                lemma_pow2_pos(self.bits as nat);
            }
        }
        self.values = Ghost(zeros);
        Ok(())
    }

    /// Current element width in bits.
    pub fn bit_length(&self) -> (r: usize)
        ensures
            r == self.width(),
    {
        self.bits
    }

    /// Number of elements.
    pub fn len(&self) -> (r: usize)
        ensures
            r == self.len_spec(),
    {
        self.size
    }

    /// Whether the array has no buffer.
    pub fn is_empty(&self) -> (r: bool)
        ensures
            r == !self.allocated(),
    {
        self.buffer.is_none()
    }

    /// Bytes the packed elements take: `ceil(width * len / 8)` with a
    /// buffer, zero without. The guard bytes are not counted.
    pub fn allocated_memory(&self) -> (r: usize)
        requires
            self.wf(),
        ensures
            r == if self.allocated() {
                packed_bytes(self.width(), self.len_spec())
            } else {
                0
            },
    {
        proof {
            lemma_layout_fits(self.bits as nat, self.size as nat);
        }
        if self.buffer.is_some() {
            (self.bits * self.size + 7) / 8
        } else {
            0
        }
    }
}


/// The elements after writing each `(index, value)` of `writes` in order, as
/// successive `set` calls do.
pub open spec fn apply_writes(values: Seq<u32>, writes: Seq<(int, u32)>) -> Seq<u32>
    decreases writes.len(),
{
    if writes.len() == 0 {
        values
    } else {
        apply_writes(values, writes.drop_last()).update(writes.last().0, writes.last().1)
    }
}

/// The width after writing `writes` in order from width `w`, as successive
/// `set` calls widen it.
pub open spec fn width_after(w: nat, writes: Seq<(int, u32)>) -> nat
    decreases writes.len(),
{
    if writes.len() == 0 {
        w
    } else {
        let before = width_after(w, writes.drop_last());
        if before < min_width(writes.last().1) {
            min_width(writes.last().1)
        } else {
            before
        }
    }
}

/// The value last written at `index`, if any.
pub open spec fn last_write(writes: Seq<(int, u32)>, index: int) -> Option<u32>
    decreases writes.len(),
{
    if writes.len() == 0 {
        None
    } else if writes.last().0 == index {
        Some(writes.last().1)
    } else {
        last_write(writes.drop_last(), index)
    }
}

/// The largest value in `writes`; zero when there is none.
pub open spec fn max_written(writes: Seq<(int, u32)>) -> u32
    decreases writes.len(),
{
    if writes.len() == 0 {
        0
    } else {
        let before = max_written(writes.drop_last());
        if before < writes.last().1 {
            writes.last().1
        } else {
            before
        }
    }
}

proof fn lemma_bit_length_monotone(a: nat, b: nat)
    requires
        a <= b,
    ensures
        bit_length(a) <= bit_length(b),
    decreases b,
{
    if a > 0 {
        lemma_bit_length_monotone(a / 2, b / 2);
    }
}

/// A larger value never needs a narrower width.
pub proof fn lemma_min_width_monotone(a: u32, b: u32)
    requires
        a <= b,
    ensures
        min_width(a) <= min_width(b),
{
    lemma_bit_length_monotone(a as nat, b as nat);
    if b > 0 {
        lemma_bit_length_monotone(1, b as nat);
        assert(bit_length(1) == 1) by {
            assert(bit_length(0) == 0);
        }
    }
}

/// After any run of writes at valid indices, each element holds the last
/// value written to it (its old value where none was), and the width is the
/// larger of the starting width and the least width that holds the largest
/// value written.
pub proof fn lemma_writes_then_read(values: Seq<u32>, w: nat, writes: Seq<(int, u32)>)
    requires
        1 <= w,
        forall|k: int| 0 <= k < writes.len() ==> 0 <= #[trigger] writes[k].0 < values.len(),
    ensures
        apply_writes(values, writes).len() == values.len(),
        forall|j: int|
            0 <= j < values.len() ==> #[trigger] apply_writes(values, writes)[j] == match last_write(
                writes,
                j,
            ) {
                Some(v) => v,
                None => values[j],
            },
        width_after(w, writes) == if w < min_width(max_written(writes)) {
            min_width(max_written(writes))
        } else {
            w
        },
    decreases writes.len(),
{
    if writes.len() > 0 {
        let rest = writes.drop_last();
        assert forall|k: int| 0 <= k < rest.len() implies 0 <= #[trigger] rest[k].0 < values.len() by {
            assert(rest[k] == writes[k]);
        }
        lemma_writes_then_read(values, w, rest);
        let last = writes.last();
        assert(0 <= writes[writes.len() - 1].0 < values.len());
        let m = max_written(rest);
        if m < last.1 {
            lemma_min_width_monotone(m, last.1);
        } else {
            lemma_min_width_monotone(last.1, m);
        }
    } else {
        assert(min_width(0) == 1);
    }
}

/// Writing a value and then widening the array keeps it: with `set(index,
/// value)` taking `a` to `b` and a widening taking `b` to `c`, element
/// `index` of `c` is `value`, and every other element of `c` is that of `a`.
pub proof fn lemma_write_grow_read(
    a: PackedArrayU32,
    b: PackedArrayU32,
    c: PackedArrayU32,
    index: int,
    value: u32,
)
    requires
        0 <= index < a@.len(),
        b@ == a@.update(index, value),
        c@ == b@,
    ensures
        c@[index] == value,
        c@.len() == a@.len(),
        forall|j: int| 0 <= j < a@.len() && j != index ==> #[trigger] c@[j] == a@[j],
{
}

} // verus!
