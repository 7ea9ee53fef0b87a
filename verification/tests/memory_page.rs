use render::gfx::memory_page::{Allocation, AllocationError, Allocations};

fn al(size: u64, offset: u64) -> Allocation {
    Allocation::new(offset, size)
}

fn layout(a: &Allocations) -> Vec<(u64, u64)> {
    a.allocations().iter().map(|x| (x.offset, x.size)).collect()
}

#[test]
fn alloc_and_dealloc() {
    let mut a = Allocations::new(24);
    let _first = a.try_alloc(4).expect("failed first");
    let second = a.try_alloc(8).expect("failed second");
    let _third = a.try_alloc(4).expect("failed third");
    let _fourth = a.try_alloc(8).expect("failed fourth");
    assert_eq!(
        *a.allocations(),
        vec![al(4, 0), al(8, 4), al(4, 12), al(8, 16)]
    );
    a.dealloc(second);
    assert_eq!(*a.allocations(), vec![al(4, 0), al(4, 12), al(8, 16)]);
}

#[test]
fn first_fit_reuses_the_lowest_gap() {
    let mut a = Allocations::new(24);
    let first = a.try_alloc(4).unwrap();
    let second = a.try_alloc(8).unwrap();
    let third = a.try_alloc(4).unwrap();
    assert_eq!((first, second, third), (0, 4, 12));
    a.dealloc(first);
    a.dealloc(second);
    // the gap [0, 12) takes a 6-byte request at its start
    assert_eq!(a.try_alloc(6), Ok(0));
    // [6, 12) is still free
    assert_eq!(a.try_alloc(6), Ok(6));
    // [16, 24) is the only room left
    assert_eq!(a.try_alloc(8), Ok(16));
    assert_eq!(layout(&a), vec![(0, 6), (6, 6), (12, 4), (16, 8)]);
}

#[test]
fn out_of_memory_leaves_the_page_unchanged() {
    let mut a = Allocations::new(16);
    assert_eq!(a.try_alloc(10), Ok(0));
    assert_eq!(a.try_alloc(7), Err(AllocationError::OutOfMemory));
    assert_eq!(layout(&a), vec![(0, 10)]);
    assert_eq!(a.try_alloc(6), Ok(10));
    assert_eq!(a.try_alloc(1), Err(AllocationError::OutOfMemory));
    assert_eq!(a.get_size(), 16);
}

#[test]
fn request_larger_than_the_page_fails() {
    let mut a = Allocations::new(8);
    assert_eq!(a.try_alloc(9), Err(AllocationError::OutOfMemory));
    assert_eq!(a.try_alloc(8), Ok(0));
}

#[test]
fn huge_request_on_huge_page_does_not_overflow() {
    let mut a = Allocations::new(u64::MAX);
    assert_eq!(a.try_alloc(10), Ok(0));
    assert_eq!(a.try_alloc(u64::MAX), Err(AllocationError::OutOfMemory));
    assert_eq!(a.try_alloc(u64::MAX - 10), Ok(10));
}

#[test]
fn dealloc_undoes_try_alloc() {
    let mut a = Allocations::new(64);
    a.try_alloc(8).unwrap();
    a.try_alloc(16).unwrap();
    a.try_alloc(8).unwrap();
    let middle = a.allocations()[1].offset;
    a.dealloc(middle);
    let before = layout(&a);
    let placed = a.try_alloc(12).unwrap();
    assert_eq!(placed, 8);
    a.dealloc(placed);
    assert_eq!(layout(&a), before);
}

#[test]
fn allocations_insert_sorted_by_offset() {
    let mut a = Allocations::new(100);
    a.try_alloc(10).unwrap();
    a.try_alloc(10).unwrap();
    a.try_alloc(10).unwrap();
    a.dealloc(0);
    assert_eq!(a.try_alloc(5), Ok(0));
    assert_eq!(layout(&a), vec![(0, 5), (10, 10), (20, 10)]);
}

#[test]
fn position_finds_offsets() {
    let mut a = Allocations::new(32);
    a.try_alloc(8).unwrap();
    a.try_alloc(8).unwrap();
    assert_eq!(a.position(8), Some(1));
    assert_eq!(a.position(0), Some(0));
    assert_eq!(a.position(4), None);
}

#[test]
fn compatibility_of_ranges() {
    assert!(Allocations::is_compatible(0..4, 4..8));
    assert!(Allocations::is_compatible(4..8, 0..4));
    assert!(!Allocations::is_compatible(0..5, 4..8));
    assert!(!Allocations::is_compatible(2..3, 0..8));
}

#[test]
fn allocations_compare_by_offset() {
    assert_eq!(al(4, 8), al(16, 8));
    assert_ne!(al(4, 8), al(4, 12));
    assert!(al(100, 0) < al(1, 4));
    assert_eq!(
        al(4, 8).partial_cmp(&al(2, 8)),
        Some(std::cmp::Ordering::Equal)
    );
    let r: std::ops::Range<u64> = (&al(4, 8)).into();
    assert_eq!(r, 8..12);
}
