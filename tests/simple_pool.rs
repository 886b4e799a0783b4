use bevycraft::{PoolError, SimplePool};

#[test]
fn bump_allocations_are_sequential_then_exhausted() {
    let n = 6;
    let mut pool: SimplePool<String> = SimplePool::new(n);
    for i in 0..n {
        assert_eq!(pool.allocate(format!("v{}", i), None), Ok(i));
    }
    assert_eq!(pool.allocate(String::from("extra"), None), Err(PoolError::PoolExhausted));
    for i in 0..n {
        assert_eq!(pool.get(i), &format!("v{}", i));
    }
}

#[test]
fn freed_slot_is_not_bumped_again() {
    let mut pool: SimplePool<u64> = SimplePool::new(3);
    assert_eq!(pool.allocate(10, None), Ok(0));
    assert_eq!(pool.allocate(11, None), Ok(1));
    pool.deallocate(0);
    assert_eq!(pool.allocate(12, None), Ok(2));
    assert_eq!(pool.allocate(13, None), Err(PoolError::PoolExhausted));
    assert_eq!(pool.allocate(14, Some(0)), Ok(0));
    assert_eq!(*pool.get(0), 14);
    assert_eq!(*pool.get(1), 11);
    assert_eq!(*pool.get(2), 12);
}

#[test]
fn get_mut_updates_in_place() {
    let mut pool: SimplePool<Vec<u8>> = SimplePool::new(2);
    assert_eq!(pool.allocate(vec![1, 2], None), Ok(0));
    pool.get_mut(0).push(3);
    assert_eq!(pool.get(0), &vec![1, 2, 3]);
    assert_eq!(pool.capacity(), 2);
}

#[test]
fn zero_capacity_pool_is_exhausted() {
    let mut pool: SimplePool<u8> = SimplePool::new(0);
    assert_eq!(pool.allocate(1, None), Err(PoolError::PoolExhausted));
}
