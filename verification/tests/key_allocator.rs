use joycombinerd::errors::Error;
use joycombinerd::key_allocator::KeyAllocator;

#[test]
fn allocates_distinct_values_in_range_until_exhausted() {
    let capacity: usize = 4;
    let mut allocator = KeyAllocator::new(capacity);
    let mut seen = [false; 4];
    for _ in 0..capacity {
        let key = allocator.allocate().expect("a slot should be free");
        assert!(key < capacity);
        assert!(!seen[key], "allocator handed the same slot out twice");
        seen[key] = true;
    }
    assert_eq!(allocator.allocate(), Err(Error::AllocationExhausted));
}

#[test]
fn allocate_scans_for_the_first_free_slot() {
    let mut allocator = KeyAllocator::new(8);
    assert_eq!(allocator.allocate(), Ok(0));
    assert_eq!(allocator.allocate(), Ok(1));
    assert_eq!(allocator.allocate(), Ok(2));
    allocator.release(1);
    assert_eq!(allocator.allocate(), Ok(1));
    assert_eq!(allocator.allocate(), Ok(3));
}

#[test]
fn released_slot_may_be_reused() {
    let capacity: usize = 3;
    let mut allocator = KeyAllocator::new(capacity);
    for _ in 0..capacity {
        allocator.allocate().expect("a slot should be free");
    }
    assert_eq!(allocator.allocate(), Err(Error::AllocationExhausted));
    allocator.release(2);
    assert_eq!(allocator.allocate(), Ok(2));
}

#[test]
fn occupy_reserves_a_specific_slot_and_rejects_taken_ones() {
    let mut allocator = KeyAllocator::new(8);
    assert_eq!(allocator.occupy(5), Ok(()));
    assert_eq!(allocator.occupy(5), Err(Error::AlreadyAllocated));
    assert_eq!(allocator.allocate(), Ok(0));
    assert_eq!(allocator.occupy(0), Err(Error::AlreadyAllocated));
}

#[test]
fn release_is_safe_to_call_redundantly() {
    let mut allocator = KeyAllocator::new(2);
    assert_eq!(allocator.allocate(), Ok(0));
    allocator.release(0);
    allocator.release(0);
    allocator.release(1);
    assert_eq!(allocator.allocate(), Ok(0));
    assert_eq!(allocator.allocate(), Ok(1));
}
