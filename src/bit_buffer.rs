//! Bit spans of a byte buffer, read and written through the eight-byte window
//! that starts at the span's first byte.
use vstd::prelude::*;
use vstd::arithmetic::power2::{pow2, lemma_pow2_strictly_increases};
use vstd::bits::{lemma_u64_shl_is_mul, lemma_u64_pow2_no_overflow};

verus! {

/// Bit `k` of a byte, least significant first.
pub open spec fn byte_bit(b: u8, k: u8) -> bool {
    (b >> k) & 1u8 == 1u8
}

/// Bit `k` of a word, least significant first.
pub open spec fn word_bit(w: u64, k: u64) -> bool {
    (w >> k) & 1u64 == 1u64
}

/// Byte `j` of a word, least significant first.
pub open spec fn word_byte(w: u64, j: u64) -> u8 {
    (w >> ((j * 8) as u64)) as u8
}

/// The word whose bytes, least significant first, are `b0` to `b7`.
pub open spec fn word_of(b0: u8, b1: u8, b2: u8, b3: u8, b4: u8, b5: u8, b6: u8, b7: u8) -> u64 {
    (b0 as u64) | ((b1 as u64) << 8u64) | ((b2 as u64) << 16u64) | ((b3 as u64) << 24u64) | ((
    b4 as u64) << 32u64) | ((b5 as u64) << 40u64) | ((b6 as u64) << 48u64) | ((b7 as u64)
        << 56u64)
}

/// Bit `p` of a buffer read as one bit string: bit `p % 8` of byte `p / 8`.
pub open spec fn buf_bit(buf: Seq<u8>, p: int) -> bool {
    byte_bit(buf[p / 8], (p % 8) as u8)
}

/// Whether `v` has no bit set at or above bit `n`.
pub open spec fn fits(v: u32, n: nat) -> bool {
    (v as nat) < pow2(n)
}

/// Whether the `n` bits of `buf` from bit `start` on are the low bits of `v`.
pub open spec fn span_holds(buf: Seq<u8>, start: int, n: int, v: u32) -> bool {
    forall|p: int|
        start <= p < start + n ==> #[trigger] buf_bit(buf, p) == word_bit(v as u64, (p - start) as u64)
}

/// Whether the eight bytes of `buf` from byte `o` on are the bytes of `w`.
pub open spec fn window_holds(buf: Seq<u8>, o: int, w: u64) -> bool {
    forall|j: int| 0 <= j < 8 ==> #[trigger] buf[o + j] == word_byte(w, j as u64)
}

/// The mask of the low `n` bits.
pub open spec fn low_mask(n: u64) -> u64 {
    ((1u64 << n) - 1u64) as u64
}

proof fn lemma_word_bit_of_byte(w: u64, k: u64)
    by (bit_vector)
    requires
        k < 64,
    ensures
        word_bit(w, k) == byte_bit(word_byte(w, k / 8), (k % 8) as u8),
{
}

proof fn lemma_word_of_bytes(b0: u8, b1: u8, b2: u8, b3: u8, b4: u8, b5: u8, b6: u8, b7: u8)
    by (bit_vector)
    ensures
        word_byte(word_of(b0, b1, b2, b3, b4, b5, b6, b7), 0) == b0,
        word_byte(word_of(b0, b1, b2, b3, b4, b5, b6, b7), 1) == b1,
        word_byte(word_of(b0, b1, b2, b3, b4, b5, b6, b7), 2) == b2,
        word_byte(word_of(b0, b1, b2, b3, b4, b5, b6, b7), 3) == b3,
        word_byte(word_of(b0, b1, b2, b3, b4, b5, b6, b7), 4) == b4,
        word_byte(word_of(b0, b1, b2, b3, b4, b5, b6, b7), 5) == b5,
        word_byte(word_of(b0, b1, b2, b3, b4, b5, b6, b7), 6) == b6,
        word_byte(word_of(b0, b1, b2, b3, b4, b5, b6, b7), 7) == b7,
{
}

proof fn lemma_extract(w: u64, s: u64, n: u64, k: u64)
    by (bit_vector)
    requires
        s < 8,
        1 <= n <= 32,
        k < 64,
    ensures
        word_bit((w >> s) & low_mask(n), k) == (k < n && word_bit(w, (s + k) as u64)),
        (w >> s) & low_mask(n) < (1u64 << n),
        (1u64 << n) <= 0x1_0000_0000u64,
{
}

proof fn lemma_insert(w: u64, v: u64, s: u64, n: u64, k: u64)
    by (bit_vector)
    requires
        s < 8,
        1 <= n <= 32,
        v < (1u64 << n),
        k < 64,
    ensures
        word_bit((w & !(low_mask(n) << s)) | (v << s), k) == if s <= k && k < s + n {
            word_bit(v, (k - s) as u64)
        } else {
            word_bit(w, k)
        },
{
}

proof fn lemma_high_bits_clear(v: u64, n: u64, k: u64)
    by (bit_vector)
    requires
        v < (1u64 << n),
        n <= k < 64,
    ensures
        !word_bit(v, k),
{
}

proof fn lemma_shift_step(x: u64, i: u64)
    by (bit_vector)
    requires
        i < 64,
    ensures
        (x >> i) & 1u64 <= 1u64,
        i < 63 ==> x >> i == ((x >> ((i + 1) as u64)) << 1u64) | ((x >> i) & 1u64),
        i == 63 ==> x >> i == (x >> i) & 1u64,
        x >> 0u64 == x,
{
}

proof fn lemma_bits_determine_from(a: u64, b: u64, i: u64)
    requires
        i < 64,
        forall|k: u64| k < 64 ==> #[trigger] word_bit(a, k) == word_bit(b, k),
    ensures
        a >> i == b >> i,
    decreases 64 - i,
{
    lemma_shift_step(a, i);
    lemma_shift_step(b, i);
    assert(word_bit(a, i) == word_bit(b, i));
    if i < 63 {
        lemma_bits_determine_from(a, b, (i + 1) as u64);
    }
}

proof fn lemma_bits_determine(a: u64, b: u64)
    requires
        forall|k: u64| k < 64 ==> #[trigger] word_bit(a, k) == word_bit(b, k),
    ensures
        a == b,
{
    lemma_bits_determine_from(a, b, 0);
    lemma_shift_step(a, 0);
    lemma_shift_step(b, 0);
}

/// `fits` in the shift form that the bit-vector lemmas use.
proof fn lemma_fits_shift(v: u32, n: nat)
    requires
        n <= 32,
    ensures
        fits(v, n) <==> (v as u64) < (1u64 << (n as u64)),
        (1u64 << (n as u64)) == pow2(n),
{
    lemma_u64_pow2_no_overflow(n);
    lemma_u64_shl_is_mul(1u64, n as u64);
}

/// A value that fits `n` bits also fits any wider width.
pub proof fn lemma_fits_wider(v: u32, n: nat, m: nat)
    requires
        fits(v, n),
        n <= m,
    ensures
        fits(v, m),
{
    if n < m {
        lemma_pow2_strictly_increases(n, m);
    }
}

/// Two values that fit `n` bits and agree with the same span are equal.
pub proof fn lemma_span_unique(buf: Seq<u8>, start: int, n: nat, a: u32, b: u32)
    requires
        1 <= n <= 32,
        span_holds(buf, start, n as int, a),
        span_holds(buf, start, n as int, b),
        fits(a, n),
        fits(b, n),
    ensures
        a == b,
{
    lemma_fits_shift(a, n);
    lemma_fits_shift(b, n);
    assert forall|k: u64| k < 64 implies #[trigger] word_bit(a as u64, k) == word_bit(b as u64, k) by {
        if k < n {
            let p = start + k;
            assert(buf_bit(buf, p) == word_bit(a as u64, (p - start) as u64));
            assert(buf_bit(buf, p) == word_bit(b as u64, (p - start) as u64));
        } else {
            lemma_high_bits_clear(a as u64, n as u64, k);
            lemma_high_bits_clear(b as u64, n as u64, k);
        }
    }
    lemma_bits_determine(a as u64, b as u64);
}

proof fn lemma_mask_nonzero(n: u64)
    by (bit_vector)
    requires
        1 <= n <= 32,
    ensures
        (1u64 << n) >= 1u64,
{
}

/// The mask of the low `len` bits.
fn mask(len: usize) -> (r: u64)
    requires
        1 <= len <= 32,
    ensures
        r == low_mask(len as u64),
{
    proof {
        lemma_mask_nonzero(len as u64);
    }
    (1u64 << (len as u64)) - 1
}

/// Bits of the window word agree with the bits of the buffer it was read from.
proof fn lemma_window_bits(buf: Seq<u8>, o: int, w: u64)
    requires
        0 <= o,
        o + 8 <= buf.len(),
        window_holds(buf, o, w),
    ensures
        forall|k: u64| k < 64 ==> #[trigger] word_bit(w, k) == buf_bit(buf, 8 * o + k),
{
    assert forall|k: u64| k < 64 implies #[trigger] word_bit(w, k) == buf_bit(buf, 8 * o + k) by {
        lemma_word_bit_of_byte(w, k);
        let j = (k / 8) as int;
        assert(buf[o + j] == word_byte(w, j as u64));
        assert((8 * o + k) / 8 == o + j);
        assert((8 * o + k) % 8 == k % 8);
    }
}

/// The eight bytes of `buf` from byte `o` on, as one little-endian word.
fn read_window(buf: &Vec<u8>, o: usize) -> (w: u64)
    requires
        o + 8 <= buf.len(),
    ensures
        window_holds(buf@, o as int, w),
{
    let w = (buf[o] as u64) | ((buf[o + 1] as u64) << 8u64) | ((buf[o + 2] as u64) << 16u64) | ((
    buf[o + 3] as u64) << 24u64) | ((buf[o + 4] as u64) << 32u64) | ((buf[o + 5] as u64)
        << 40u64) | ((buf[o + 6] as u64) << 48u64) | ((buf[o + 7] as u64) << 56u64);
    proof {
        lemma_word_of_bytes(
            buf@[o as int],
            buf@[o + 1],
            buf@[o + 2],
            buf@[o + 3],
            buf@[o + 4],
            buf@[o + 5],
            buf@[o + 6],
            buf@[o + 7],
        );
        assert forall|j: int| 0 <= j < 8 implies #[trigger] buf@[o + j] == word_byte(w, j as u64) by {
            if j == 0 {
            } else if j == 1 {
            } else if j == 2 {
            } else if j == 3 {
            } else if j == 4 {
            } else if j == 5 {
            } else if j == 6 {
            } else {
            }
        }
    }
    w
}

/// Stores `w` as the eight bytes of `buf` from byte `o` on, least significant
/// byte first; every other byte stays.
fn write_window(buf: &mut Vec<u8>, o: usize, w: u64)
    requires
        o + 8 <= old(buf).len(),
    ensures
        final(buf).len() == old(buf).len(),
        window_holds(final(buf)@, o as int, w),
        forall|q: int|
            0 <= q < old(buf).len() && !(o <= q < o + 8) ==> #[trigger] final(buf)@[q] == old(
                buf,
            )@[q],
{
    buf.set(o, w as u8);
    buf.set(o + 1, (w >> 8u64) as u8);
    buf.set(o + 2, (w >> 16u64) as u8);
    buf.set(o + 3, (w >> 24u64) as u8);
    buf.set(o + 4, (w >> 32u64) as u8);
    buf.set(o + 5, (w >> 40u64) as u8);
    buf.set(o + 6, (w >> 48u64) as u8);
    buf.set(o + 7, (w >> 56u64) as u8);
    proof {
        assert(w >> 0u64 == w) by (bit_vector);
        assert forall|j: int| 0 <= j < 8 implies #[trigger] buf@[o + j] == word_byte(w, j as u64) by {
            if j == 0 {
            } else if j == 1 {
            } else if j == 2 {
            } else if j == 3 {
            } else if j == 4 {
            } else if j == 5 {
            } else if j == 6 {
            } else {
            }
        }
    }
}

/// Reads the `n` bits of `buf` from bit `bit_index` on: the one value that
/// fits `n` bits and agrees with that span.
pub fn read_bits(buf: &Vec<u8>, bit_index: usize, n: usize) -> (r: u32)
    requires
        1 <= n <= 32,
        bit_index / 8 + 8 <= buf.len(),
    ensures
        span_holds(buf@, bit_index as int, n as int, r),
        fits(r, n as nat),
{
    let o = bit_index / 8;
    let s = bit_index % 8;
    let w = read_window(buf, o);
    let row = (w >> (s as u64)) & mask(n);
    proof {
        lemma_window_bits(buf@, o as int, w);
        lemma_extract(w, s as u64, n as u64, 0);
        lemma_fits_shift(row as u32, n as nat);
        assert forall|p: int| bit_index <= p < bit_index + n implies #[trigger] buf_bit(buf@, p)
            == word_bit(row as u32 as u64, (p - bit_index) as u64) by {
            let k = (p - bit_index) as u64;
            lemma_extract(w, s as u64, n as u64, k);
            assert(word_bit(w, (s + k) as u64) == buf_bit(buf@, 8 * o + (s + k)));
            assert(8 * o + (s + k) == p);
        }
    }
    row as u32
}

/// Writes the low `n` bits of `value` over the `n` bits of `buf` from bit
/// `bit_index` on; every other bit of the buffer stays.
pub fn write_bits(buf: &mut Vec<u8>, bit_index: usize, n: usize, value: u32)
    requires
        1 <= n <= 32,
        bit_index / 8 + 8 <= old(buf).len(),
        fits(value, n as nat),
    ensures
        final(buf).len() == old(buf).len(),
        span_holds(final(buf)@, bit_index as int, n as int, value),
        forall|p: int|
            0 <= p < 8 * old(buf).len() && !(bit_index <= p < bit_index + n) ==> #[trigger] buf_bit(
                final(buf)@,
                p,
            ) == buf_bit(old(buf)@, p),
{
    let o = bit_index / 8;
    let s = bit_index % 8;
    let w = read_window(buf, o);
    let row = (w & !(mask(n) << (s as u64))) | ((value as u64) << (s as u64));
    proof {
        lemma_window_bits(buf@, o as int, w);
        lemma_fits_shift(value, n as nat);
    }
    let ghost before = buf@;
    write_window(buf, o, row);
    proof {
        lemma_window_bits(buf@, o as int, row);
        assert forall|p: int| bit_index <= p < bit_index + n implies #[trigger] buf_bit(buf@, p)
            == word_bit(value as u64, (p - bit_index) as u64) by {
            let k = (p - 8 * o) as u64;
            lemma_insert(w, value as u64, s as u64, n as u64, k);
            assert(8 * o + k == p);
        }
        assert forall|p: int|
            0 <= p < 8 * before.len() && !(bit_index <= p < bit_index + n) implies #[trigger] buf_bit(
            buf@,
            p,
        ) == buf_bit(before, p) by {
            if 8 * o <= p < 8 * o + 64 {
                let k = (p - 8 * o) as u64;
                lemma_insert(w, value as u64, s as u64, n as u64, k);
                assert(8 * o + k == p);
            } else {
                assert(p / 8 < o || p / 8 >= o + 8);
                assert(buf@[p / 8] == before[p / 8]);
            }
        }
    }
}

} // verus!
