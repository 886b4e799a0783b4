use bevycraft::{ArrayError, PackedArrayU32};

#[test]
fn new_array_reads_zero_at_one_bit() {
    let a = PackedArrayU32::new(10);
    assert_eq!(a.bit_length(), 1);
    assert_eq!(a.len(), 10);
    assert!(!a.is_empty());
    for i in 0..10 {
        assert_eq!(a.get(i), Ok(0));
    }
    assert_eq!(a.allocated_memory(), 2);
}

#[test]
fn scenario_4096_elements() {
    let mut a = PackedArrayU32::new(4096);
    assert_eq!(a.set(562, 5), Ok(()));
    assert_eq!(a.get(1560), Ok(0));
    assert_eq!(a.get(562), Ok(5));
    assert!(a.bit_length() >= 3);
    assert_eq!(a.bit_length(), 3);
    assert_eq!(a.allocated_memory(), (a.bit_length() * 4096 + 7) / 8);
    assert_eq!(a.allocated_memory(), 1536);
}

#[test]
fn last_write_wins_and_width_is_minimal() {
    let mut a = PackedArrayU32::new(100);
    let writes: [(usize, u32); 8] =
        [(3, 1), (7, 200), (3, 9), (99, 0xFFFF), (0, 2), (7, 1), (50, 0x1_0000), (99, 4)];
    let mut expected = vec![0u32; 100];
    for &(i, v) in writes.iter() {
        assert_eq!(a.set(i, v), Ok(()));
        expected[i] = v;
        for j in 0..100 {
            assert_eq!(a.get(j), Ok(expected[j]));
        }
    }
    // largest value written is 0x1_0000, which needs 17 bits
    assert_eq!(a.bit_length(), 17);
}

#[test]
fn width_tracks_largest_value() {
    let mut a = PackedArrayU32::new(8);
    assert_eq!(a.set(0, 1), Ok(()));
    assert_eq!(a.bit_length(), 1);
    assert_eq!(a.set(1, 2), Ok(()));
    assert_eq!(a.bit_length(), 2);
    assert_eq!(a.set(2, 255), Ok(()));
    assert_eq!(a.bit_length(), 8);
    assert_eq!(a.set(3, 3), Ok(()));
    assert_eq!(a.bit_length(), 8);
    assert_eq!(a.set(4, u32::MAX), Ok(()));
    assert_eq!(a.bit_length(), 32);
    assert_eq!(a.get(0), Ok(1));
    assert_eq!(a.get(1), Ok(2));
    assert_eq!(a.get(2), Ok(255));
    assert_eq!(a.get(3), Ok(3));
    assert_eq!(a.get(4), Ok(u32::MAX));
    assert_eq!(a.get(7), Ok(0));
}

#[test]
fn grow_keeps_values() {
    let mut a = PackedArrayU32::with_bit_length(33, 3);
    for i in 0..33 {
        assert_eq!(a.set(i, (i % 8) as u32), Ok(()));
    }
    a.grow_bits_by(2);
    assert_eq!(a.bit_length(), 5);
    for i in 0..33 {
        assert_eq!(a.get(i), Ok((i % 8) as u32));
    }
    a.grow_bits_by_powf2();
    assert_eq!(a.bit_length(), 10);
    for i in 0..33 {
        assert_eq!(a.get(i), Ok((i % 8) as u32));
    }
    assert_eq!(a.allocated_memory(), (10 * 33 + 7) / 8);
}

#[test]
fn write_crossing_byte_boundary_leaves_neighbours() {
    let mut a = PackedArrayU32::with_bit_length(16, 7);
    assert_eq!(a.set(1, 0x7F), Ok(()));
    assert_eq!(a.get(0), Ok(0));
    assert_eq!(a.get(1), Ok(0x7F));
    assert_eq!(a.get(2), Ok(0));
    assert_eq!(a.set(15, 0x55), Ok(()));
    assert_eq!(a.get(14), Ok(0));
    assert_eq!(a.get(15), Ok(0x55));
    assert_eq!(a.set(1, 0), Ok(()));
    assert_eq!(a.get(1), Ok(0));
    assert_eq!(a.get(15), Ok(0x55));
}

#[test]
fn out_of_range_index_is_refused() {
    let mut a = PackedArrayU32::new(4);
    assert_eq!(a.get(4), Err(ArrayError::IndexOutOfBounds));
    assert_eq!(a.set(4, 1), Err(ArrayError::IndexOutOfBounds));
    assert_eq!(a.bit_length(), 1);
}

#[test]
fn unallocated_array_refuses_access() {
    let mut a = PackedArrayU32::zeroed(12);
    assert!(a.is_empty());
    assert_eq!(a.allocated_memory(), 0);
    assert_eq!(a.get(0), Err(ArrayError::NotAllocated));
    assert_eq!(a.set(0, 3), Err(ArrayError::NotAllocated));
    assert_eq!(a.deallocate(), Err(ArrayError::NotAllocated));
    assert_eq!(a.allocate(), Ok(()));
    assert_eq!(a.allocate(), Err(ArrayError::AlreadyAllocated));
    assert_eq!(a.allocated_memory(), 2);
    assert_eq!(a.set(0, 3), Ok(()));
    assert_eq!(a.get(0), Ok(3));
}

#[test]
fn deallocate_then_allocate_reads_zero() {
    let mut a = PackedArrayU32::new(5);
    assert_eq!(a.set(2, 6), Ok(()));
    assert_eq!(a.deallocate(), Ok(()));
    assert!(a.is_empty());
    assert_eq!(a.bit_length(), 3);
    assert_eq!(a.allocate(), Ok(()));
    assert_eq!(a.get(2), Ok(0));
    assert_eq!(a.allocated_memory(), 2);
}

#[test]
fn zeroed_with_bit_length_plans_width() {
    let mut a = PackedArrayU32::zeroed_with_bit_length(9, 4);
    assert_eq!(a.bit_length(), 4);
    assert!(a.is_empty());
    a.grow_bits_by(4);
    assert_eq!(a.bit_length(), 8);
    assert!(a.is_empty());
    assert_eq!(a.allocate(), Ok(()));
    assert_eq!(a.allocated_memory(), 9);
}

#[test]
fn empty_array_has_no_elements() {
    let mut a = PackedArrayU32::new(0);
    assert_eq!(a.len(), 0);
    assert_eq!(a.allocated_memory(), 0);
    assert_eq!(a.get(0), Err(ArrayError::IndexOutOfBounds));
    assert_eq!(a.set(0, 1), Err(ArrayError::IndexOutOfBounds));
}

#[test]
fn unchecked_accessors_at_current_width() {
    let mut a = PackedArrayU32::with_bit_length(20, 5);
    a.set_unchecked(19, 31);
    a.set_unchecked(0, 17);
    assert_eq!(a.get_unchecked(19), 31);
    assert_eq!(a.get_unchecked(0), 17);
    assert_eq!(a.get_unchecked(10), 0);
    assert_eq!(a.bit_length(), 5);
}
