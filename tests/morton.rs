use bevycraft::{Morton3D, MortonDecodable, MortonEncodable};

#[test]
fn signed_round_trip_gives_magnitudes() {
    let key = Morton3D::encode((3i64, -5i64, 2i64));
    let back: (i64, i64, i64) = key.decode();
    assert_eq!(back, (3, 5, 2));
}

#[test]
fn sign_is_discarded() {
    assert_eq!(Morton3D::encode((3i64, -5i64, 2i64)), Morton3D::encode((-3i64, 5i64, -2i64)));
    assert_eq!(Morton3D::encode([-7i64, 0, 1]), Morton3D::encode((7u64, 0u64, 1u64)));
}

#[test]
fn interleaving_places_axes() {
    assert_eq!(u64::from(Morton3D::encode((1u64, 0u64, 0u64))), 0b001);
    assert_eq!(u64::from(Morton3D::encode((0u64, 1u64, 0u64))), 0b010);
    assert_eq!(u64::from(Morton3D::encode((0u64, 0u64, 1u64))), 0b100);
    assert_eq!(u64::from(Morton3D::encode((3u64, 5u64, 2u64))), 0b010_101_011);
    assert_eq!(u64::from(Morton3D::encode([0x1F_FFFFu64, 0, 0])), 0x1249_2492_4924_9249);
    assert_eq!((3u64, 5u64, 2u64).encode_u64(), 0b010_101_011);
}

#[test]
fn magnitudes_past_21_bits_are_truncated() {
    let key = Morton3D::encode((0x20_0001u64, 0u64, 0u64));
    let back: [u64; 3] = key.decode();
    assert_eq!(back, [1, 0, 0]);
}

#[test]
fn round_trip_at_edges() {
    let inputs: [(i64, i64, i64); 4] =
        [(0, 0, 0), (0x1F_FFFF, -0x1F_FFFF, 0x1F_FFFF), (-1, -1, -1), (123_456, -654_321, 1)];
    for &(x, y, z) in inputs.iter() {
        let back: [i64; 3] = Morton3D::encode((x, y, z)).decode();
        assert_eq!(back, [x.abs(), y.abs(), z.abs()]);
        let back_u: (u64, u64, u64) = Morton3D::encode([x, y, z]).decode();
        assert_eq!(back_u, (x.unsigned_abs(), y.unsigned_abs(), z.unsigned_abs()));
    }
    assert_eq!(<(i64, i64, i64)>::decode_u64(0b111), (1, 1, 1));
}

#[test]
fn digits_rebuild_axes() {
    let (x, y, z) = (0b101_1011u64, 0b011_0110u64, 0b110_0001u64);
    let key = Morton3D::encode((x, y, z));
    let mut axes = [0u64; 3];
    for level in 0..7 {
        let d = key.get_morton_index(level) as u64;
        assert!(d < 8);
        for axis in 0..3 {
            axes[axis] |= ((d >> axis) & 1) << level;
        }
    }
    assert_eq!(axes, [x, y, z]);
}

#[test]
fn digit_at_level() {
    let key = Morton3D::from(0o7654321u64);
    assert_eq!(key.get_morton_index(0), 1);
    assert_eq!(key.get_morton_index(1), 2);
    assert_eq!(key.get_morton_index(6), 7);
    assert_eq!(key.get_morton_index(7), 0);
    assert_eq!(Morton3D::from(u64::MAX).get_morton_index(21), 1);
}
