//! A 3D Morton (Z-order) codec: three coordinate magnitudes of up to 21 bits
//! interleaved into one 64-bit key, and the 3-bit octant digit of each level.
use vstd::prelude::*;

verus! {

/// Mask of the 21 coordinate bits a key holds per axis.
pub const AXIS_MASK: u64 = 0x1f_ffff;

const DIGIT_MASK: u64 = 0x7;

/// Bit `i` of `x` moved to bit `3 * i`, for the 21 low bits of `x`.
pub open spec fn spread(x: u64) -> u64 {
    (x & 1) | ((x >> 1u64) & 1) << 3u64 | ((x >> 2u64) & 1) << 6u64 | ((x >> 3u64) & 1) << 9u64 | ((x
        >> 4u64) & 1) << 12u64 | ((x >> 5u64) & 1) << 15u64 | ((x >> 6u64) & 1) << 18u64 | ((x
        >> 7u64) & 1) << 21u64 | ((x >> 8u64) & 1) << 24u64 | ((x >> 9u64) & 1) << 27u64 | ((x
        >> 10u64) & 1) << 30u64 | ((x >> 11u64) & 1) << 33u64 | ((x >> 12u64) & 1) << 36u64 | ((x
        >> 13u64) & 1) << 39u64 | ((x >> 14u64) & 1) << 42u64 | ((x >> 15u64) & 1) << 45u64 | ((x
        >> 16u64) & 1) << 48u64 | ((x >> 17u64) & 1) << 51u64 | ((x >> 18u64) & 1) << 54u64 | ((x
        >> 19u64) & 1) << 57u64 | ((x >> 20u64) & 1) << 60u64
}

/// Bit `3 * i` of `m` moved to bit `i`, for `i` below 21.
pub open spec fn compact(m: u64) -> u64 {
    (m & 1) | ((m >> 3u64) & 1) << 1u64 | ((m >> 6u64) & 1) << 2u64 | ((m >> 9u64) & 1) << 3u64 | ((m
        >> 12u64) & 1) << 4u64 | ((m >> 15u64) & 1) << 5u64 | ((m >> 18u64) & 1) << 6u64 | ((m
        >> 21u64) & 1) << 7u64 | ((m >> 24u64) & 1) << 8u64 | ((m >> 27u64) & 1) << 9u64 | ((m
        >> 30u64) & 1) << 10u64 | ((m >> 33u64) & 1) << 11u64 | ((m >> 36u64) & 1) << 12u64 | ((m
        >> 39u64) & 1) << 13u64 | ((m >> 42u64) & 1) << 14u64 | ((m >> 45u64) & 1) << 15u64 | ((m
        >> 48u64) & 1) << 16u64 | ((m >> 51u64) & 1) << 17u64 | ((m >> 54u64) & 1) << 18u64 | ((m
        >> 57u64) & 1) << 19u64 | ((m >> 60u64) & 1) << 20u64
}

/// The key of the magnitudes `x`, `y`, `z`: their low 21 bits interleaved,
/// `x` at bits `3i`, `y` at `3i + 1`, `z` at `3i + 2`.
pub open spec fn key_of(x: u64, y: u64, z: u64) -> u64 {
    spread(x) | (spread(y) << 1u64) | (spread(z) << 2u64)
}

/// The 3-bit octant digit of `key` at `level`, level 0 being the lowest.
pub open spec fn digit(key: u64, level: u64) -> u64 {
    (key >> ((level * 3) as u64)) & 7
}

/// The magnitude of a signed component.
pub open spec fn magnitude_of(v: i64) -> u64 {
    if v < 0 {
        (-(v as int)) as u64
    } else {
        v as u64
    }
}

/// Bit `axis` of the digits of levels 0 to 6 of `key`, gathered into one
/// seven-bit number, level 0 lowest.
pub open spec fn axis_from_digits(key: u64, axis: u64) -> u64 {
    ((digit(key, 0) >> axis) & 1) | ((digit(key, 1) >> axis) & 1) << 1u64 | ((digit(key, 2) >> axis)
        & 1) << 2u64 | ((digit(key, 3) >> axis) & 1) << 3u64 | ((digit(key, 4) >> axis) & 1)
        << 4u64 | ((digit(key, 5) >> axis) & 1) << 5u64 | ((digit(key, 6) >> axis) & 1) << 6u64
}

/// A coordinate that can be encoded: three components, each taken by its
/// magnitude.
pub trait MortonEncodable {
    /// The magnitudes of the three components.
    spec fn magnitudes(&self) -> (u64, u64, u64);

    /// The key of this coordinate's magnitudes.
    fn encode_u64(&self) -> (r: u64)
        ensures
            r == key_of(self.magnitudes().0, self.magnitudes().1, self.magnitudes().2),
    ;
}

/// A coordinate that can be rebuilt from a key.
pub trait MortonDecodable: Sized {
    /// The three components, as integers.
    spec fn components(&self) -> (int, int, int);

    /// The coordinate whose components are the three axes of `morton`.
    fn decode_u64(morton: u64) -> (r: Self)
        ensures
            r.components() == (
                compact(morton) as int,
                compact(morton >> 1u64) as int,
                compact(morton >> 2u64) as int,
            ),
    ;
}

/// A 64-bit Morton key.
#[derive(Clone, Copy, Debug, PartialEq, Eq, Structural)]
pub struct Morton3D(pub u64);

impl Morton3D {
    /// The key of `value`'s magnitudes; the signs of signed components are
    /// dropped, and bits above the 21st of each magnitude are ignored.
    pub fn encode<T: MortonEncodable>(value: T) -> (r: Self)
        ensures
            r.0 == key_of(value.magnitudes().0, value.magnitudes().1, value.magnitudes().2),
    {
        Morton3D(value.encode_u64())
    }

    /// The coordinate whose components are this key's three axes; they are
    /// never negative.
    pub fn decode<T: MortonDecodable>(&self) -> (r: T)
        ensures
            r.components() == (
                compact(self.0) as int,
                compact(self.0 >> 1u64) as int,
                compact(self.0 >> 2u64) as int,
            ),
    {
        T::decode_u64(self.0)
    }

    /// The octant digit of level `index`: bits `3 * index` to `3 * index + 2`.
    pub fn get_morton_index(&self, index: usize) -> (r: usize)
        requires
            index <= 21,
        ensures
            r == digit(self.0, index as u64),
            r < 8,
    {
        let key = self.0;
        let shift = (index * 3) as u64;
        let d = (key >> shift) & DIGIT_MASK;
        assert(d < 8) by (bit_vector)
            requires
                d == (key >> shift) & 7u64,
        ;
        d as usize
    }

    /// Bit `i` of `n` moved to bit `3 * i`, for the 21 low bits of `n`.
    fn split_bits(n: u64) -> (r: u64)
        ensures
            r == spread(n),
    {
        let x0 = n & AXIS_MASK;
        let x1 = (x0 | x0 << 32u64) & 0x1f00000000ffff;
        let x2 = (x1 | x1 << 16u64) & 0x1f0000ff0000ff;
        let x3 = (x2 | x2 << 8u64) & 0x100f00f00f00f00f;
        let x4 = (x3 | x3 << 4u64) & 0x10c30c30c30c30c3;
        let r = (x4 | x4 << 2u64) & 0x1249249249249249;
        assert(r == spread(n)) by (bit_vector)
            requires
                x0 == n & 0x1f_ffff,
                x1 == (x0 | x0 << 32u64) & 0x1f00000000ffff,
                x2 == (x1 | x1 << 16u64) & 0x1f0000ff0000ff,
                x3 == (x2 | x2 << 8u64) & 0x100f00f00f00f00f,
                x4 == (x3 | x3 << 4u64) & 0x10c30c30c30c30c3,
                r == (x4 | x4 << 2u64) & 0x1249249249249249,
        ;
        r
    }

    /// Bit `3 * i` of `n` moved to bit `i`, for `i` below 21.
    fn join_bits(n: u64) -> (r: u64)
        ensures
            r == compact(n),
            r <= AXIS_MASK,
    {
        let x0 = n & 0x1249249249249249;
        let x1 = (x0 ^ x0 >> 2u64) & 0x10c30c30c30c30c3;
        let x2 = (x1 ^ x1 >> 4u64) & 0x100f00f00f00f00f;
        let x3 = (x2 ^ x2 >> 8u64) & 0x1f0000ff0000ff;
        let x4 = (x3 ^ x3 >> 16u64) & 0x1f00000000ffff;
        let r = (x4 ^ x4 >> 32u64) & AXIS_MASK;
        assert(r == compact(n) && r <= 0x1f_ffff) by (bit_vector)
            requires
                x0 == n & 0x1249249249249249,
                x1 == (x0 ^ x0 >> 2u64) & 0x10c30c30c30c30c3,
                x2 == (x1 ^ x1 >> 4u64) & 0x100f00f00f00f00f,
                x3 == (x2 ^ x2 >> 8u64) & 0x1f0000ff0000ff,
                x4 == (x3 ^ x3 >> 16u64) & 0x1f00000000ffff,
                r == (x4 ^ x4 >> 32u64) & 0x1f_ffff,
        ;
        r
    }

    /// The key of the magnitudes `x`, `y`, `z`.
    fn interleave(x: u64, y: u64, z: u64) -> (r: u64)
        ensures
            r == key_of(x, y, z),
    {
        Self::split_bits(x) | (Self::split_bits(y) << 1u64) | (Self::split_bits(z) << 2u64)
    }
}

/// The magnitude of `v`.
fn magnitude(v: i64) -> (r: u64)
    ensures
        r == magnitude_of(v),
{
    if v < 0 {
        (-(v as i128)) as u64
    } else {
        v as u64
    }
}

impl MortonEncodable for (i64, i64, i64) {
    open spec fn magnitudes(&self) -> (u64, u64, u64) {
        (magnitude_of(self.0), magnitude_of(self.1), magnitude_of(self.2))
    }

    fn encode_u64(&self) -> (r: u64) {
        Morton3D::interleave(magnitude(self.0), magnitude(self.1), magnitude(self.2))
    }
}

impl MortonDecodable for (i64, i64, i64) {
    open spec fn components(&self) -> (int, int, int) {
        (self.0 as int, self.1 as int, self.2 as int)
    }

    fn decode_u64(morton: u64) -> (r: Self) {
        (
            Morton3D::join_bits(morton) as i64,
            Morton3D::join_bits(morton >> 1u64) as i64,
            Morton3D::join_bits(morton >> 2u64) as i64,
        )
    }
}

impl MortonEncodable for [i64; 3] {
    open spec fn magnitudes(&self) -> (u64, u64, u64) {
        (magnitude_of(self@[0]), magnitude_of(self@[1]), magnitude_of(self@[2]))
    }

    fn encode_u64(&self) -> (r: u64) {
        Morton3D::interleave(magnitude(self[0]), magnitude(self[1]), magnitude(self[2]))
    }
}

impl MortonDecodable for [i64; 3] {
    open spec fn components(&self) -> (int, int, int) {
        (self@[0] as int, self@[1] as int, self@[2] as int)
    }

    fn decode_u64(morton: u64) -> (r: Self) {
        [
            Morton3D::join_bits(morton) as i64,
            Morton3D::join_bits(morton >> 1u64) as i64,
            Morton3D::join_bits(morton >> 2u64) as i64,
        ]
    }
}

impl MortonEncodable for (u64, u64, u64) {
    open spec fn magnitudes(&self) -> (u64, u64, u64) {
        *self
    }

    fn encode_u64(&self) -> (r: u64) {
        Morton3D::interleave(self.0, self.1, self.2)
    }
}

impl MortonDecodable for (u64, u64, u64) {
    open spec fn components(&self) -> (int, int, int) {
        (self.0 as int, self.1 as int, self.2 as int)
    }

    fn decode_u64(morton: u64) -> (r: Self) {
        (Morton3D::join_bits(morton), Morton3D::join_bits(morton >> 1u64), Morton3D::join_bits(morton >> 2u64))
    }
}

impl MortonEncodable for [u64; 3] {
    open spec fn magnitudes(&self) -> (u64, u64, u64) {
        (self@[0], self@[1], self@[2])
    }

    fn encode_u64(&self) -> (r: u64) {
        Morton3D::interleave(self[0], self[1], self[2])
    }
}

impl MortonDecodable for [u64; 3] {
    open spec fn components(&self) -> (int, int, int) {
        (self@[0] as int, self@[1] as int, self@[2] as int)
    }

    fn decode_u64(morton: u64) -> (r: Self) {
        [Morton3D::join_bits(morton), Morton3D::join_bits(morton >> 1u64), Morton3D::join_bits(morton >> 2u64)]
    }
}

impl From<u64> for Morton3D {
    fn from(value: u64) -> (r: Morton3D) {
        Morton3D(value)
    }
}

impl vstd::std_specs::convert::FromSpecImpl<u64> for Morton3D {
    open spec fn obeys_from_spec() -> bool {
        true
    }

    open spec fn from_spec(value: u64) -> Morton3D {
        Morton3D(value)
    }
}

impl From<Morton3D> for u64 {
    fn from(value: Morton3D) -> (r: u64) {
        value.0
    }
}

impl vstd::std_specs::convert::FromSpecImpl<Morton3D> for u64 {
    open spec fn obeys_from_spec() -> bool {
        true
    }

    open spec fn from_spec(value: Morton3D) -> u64 {
        value.0
    }
}


proof fn lemma_compact_key(x: u64, y: u64, z: u64)
    by (bit_vector)
    requires
        x <= 0x1f_ffff,
        y <= 0x1f_ffff,
        z <= 0x1f_ffff,
    ensures
        compact(key_of(x, y, z)) == x,
        compact(key_of(x, y, z) >> 1u64) == y,
        compact(key_of(x, y, z) >> 2u64) == z,
{
}

/// Encoding a coordinate whose component magnitudes are below 2^21 and then
/// decoding its key gives back those magnitudes, component by component:
/// with `key` what `Morton3D::encode(value)` returns and `decoded` what
/// `key.decode()` returns.
pub proof fn lemma_decode_encode<E: MortonEncodable, D: MortonDecodable>(
    value: E,
    key: Morton3D,
    decoded: D,
)
    requires
        value.magnitudes().0 <= AXIS_MASK,
        value.magnitudes().1 <= AXIS_MASK,
        value.magnitudes().2 <= AXIS_MASK,
        key.0 == key_of(value.magnitudes().0, value.magnitudes().1, value.magnitudes().2),
        decoded.components() == (
            compact(key.0) as int,
            compact(key.0 >> 1u64) as int,
            compact(key.0 >> 2u64) as int,
        ),
    ensures
        decoded.components() == (
            value.magnitudes().0 as int,
            value.magnitudes().1 as int,
            value.magnitudes().2 as int,
        ),
{
    lemma_compact_key(value.magnitudes().0, value.magnitudes().1, value.magnitudes().2);
}

/// Bit `a` of the octant digits of levels 0 to 6 of the key of `x`, `y`,
/// `z`, recombined level by level, is the low seven bits of the axis-`a`
/// magnitude (`a` = 0 for `x`, 1 for `y`, 2 for `z`).
pub proof fn lemma_digits_rebuild_axes(x: u64, y: u64, z: u64)
    by (bit_vector)
    ensures
        axis_from_digits(key_of(x, y, z), 0) == x & 0x7f,
        axis_from_digits(key_of(x, y, z), 1) == y & 0x7f,
        axis_from_digits(key_of(x, y, z), 2) == z & 0x7f,
{
}

} // verus!
