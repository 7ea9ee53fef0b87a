use render::gfx::heapy::{
    get_page_info, mask_allows, round_up_to_nearest_multiple, Heapy, MemoryTypeInfo, PageInfo,
    PageInfoError, COHERENT, CPU_VISIBLE, DEVICE_LOCAL,
};
use render::resource::buffer::MemoryType;

#[test]
fn test_rounding() {
    assert_eq!(round_up_to_nearest_multiple(15, 8), 16);
    assert_eq!(round_up_to_nearest_multiple(0, 8), 0);
    assert_eq!(round_up_to_nearest_multiple(23, 8), 24);
    assert_eq!(round_up_to_nearest_multiple(9, 8), 16);
    assert_eq!(round_up_to_nearest_multiple(157, 8), 160);
}

#[test]
fn rounding_to_one_and_exact_multiples() {
    assert_eq!(round_up_to_nearest_multiple(7, 1), 7);
    assert_eq!(round_up_to_nearest_multiple(256, 256), 256);
    assert_eq!(round_up_to_nearest_multiple(257, 256), 512);
    assert_eq!(round_up_to_nearest_multiple(u64::MAX - 7, 8), u64::MAX - 7);
    assert_eq!(round_up_to_nearest_multiple(u64::MAX - 8, 8), u64::MAX - 7);
}

#[test]
fn heapy_offsets_are_aligned() {
    let (types, heaps) = device_types();
    let mut heapy = Heapy::new(&types, &heaps, 16).unwrap();
    for size in [1u64, 17, 5, 32, 3, 40] {
        let p = heapy.allocate(size, MemoryType::DeviceLocal, None);
        assert_eq!(p.index.offset() % 16, 0);
    }
}

fn device_types() -> (Vec<MemoryTypeInfo>, Vec<u64>) {
    (
        vec![
            MemoryTypeInfo { properties: DEVICE_LOCAL, heap_index: 0 },
            MemoryTypeInfo { properties: CPU_VISIBLE, heap_index: 1 },
            MemoryTypeInfo { properties: CPU_VISIBLE | COHERENT, heap_index: 1 },
        ],
        vec![1 << 30, 1 << 28],
    )
}

#[test]
fn page_info_takes_the_first_matching_type() {
    let (types, heaps) = device_types();
    assert_eq!(
        get_page_info(&types, &heaps, CPU_VISIBLE),
        Ok(PageInfo { id: 1, heap_size: 1 << 28, properties: CPU_VISIBLE })
    );
    assert_eq!(
        get_page_info(&types, &heaps, CPU_VISIBLE | COHERENT),
        Ok(PageInfo { id: 2, heap_size: 1 << 28, properties: CPU_VISIBLE | COHERENT })
    );
    assert_eq!(get_page_info(&types, &heaps, 0x10), Err(PageInfoError::NoMemoryType));
    let bad = vec![MemoryTypeInfo { properties: DEVICE_LOCAL, heap_index: 5 }];
    assert_eq!(get_page_info(&bad, &heaps, DEVICE_LOCAL), Err(PageInfoError::InvalidHeapIndex));
}

#[test]
fn heapy_new_reports_missing_memory_types() {
    let types = vec![MemoryTypeInfo { properties: DEVICE_LOCAL, heap_index: 0 }];
    let heaps = vec![1024];
    assert!(matches!(Heapy::new(&types, &heaps, 8), Err(PageInfoError::NoMemoryType)));
}

#[test]
fn heapy_allocates_first_fit_and_opens_pages() {
    let (types, heaps) = device_types();
    let mut heapy = Heapy::new(&types, &heaps, 8).unwrap();
    assert_eq!(heapy.page_info(MemoryType::HostVisible).id, 2);
    assert_eq!(heapy.min_alignment(), 8);
    // the first allocation opens a page of BLOCK_SIZE * 8 = 160 bytes
    let a = heapy.allocate(10, MemoryType::HostVisible, None);
    assert_eq!(a.new_page, Some(160));
    assert_eq!(a.index.offset(), 0);
    // 10 was rounded up to 16, so the next allocation starts at 16 in the same page
    let b = heapy.allocate(100, MemoryType::HostVisible, None);
    assert_eq!(b.new_page, None);
    assert_eq!(b.index.page(), a.index.page());
    assert_eq!(b.index.offset(), 16);
    // 104 + 16 = 120 used, 40 left: a 48-byte request needs a new page
    let c = heapy.allocate(48, MemoryType::HostVisible, None);
    assert_eq!(c.new_page, Some(160));
    assert_ne!(c.index.page(), a.index.page());
    // a request larger than a block gets a page of its own size
    let d = heapy.allocate(1000, MemoryType::DeviceLocal, None);
    assert_eq!(d.new_page, Some(1000));
    assert_eq!(d.index.memory_type(), MemoryType::DeviceLocal);
}

#[test]
fn heapy_checks_the_requirement_mask() {
    let (types, heaps) = device_types();
    let mut heapy = Heapy::new(&types, &heaps, 4).unwrap();
    // host-visible pages come from memory type 2
    let id = heapy.page_info(MemoryType::HostVisible).id;
    assert_eq!(id, 2);
    assert!(!mask_allows(Some(0b011), id));
    assert!(mask_allows(Some(0b100), id));
    assert!(mask_allows(None, id));
    assert!(!mask_allows(Some(u32::MAX), 40));
    let p = heapy.allocate(4, MemoryType::HostVisible, Some(0b100));
    assert_eq!(p.index.memory_type(), MemoryType::HostVisible);
    let q = heapy.allocate(4, MemoryType::DeviceLocal, Some(0b001));
    assert_eq!(q.index.memory_type(), MemoryType::DeviceLocal);
}

#[test]
fn heapy_deallocate_undoes_allocate() {
    let (types, heaps) = device_types();
    let mut heapy = Heapy::new(&types, &heaps, 8).unwrap();
    let a = heapy.allocate(8, MemoryType::HostVisible, None);
    let b = heapy.allocate(8, MemoryType::HostVisible, None);
    assert!(heapy.is_allocated(&b.index));
    heapy.deallocate(b.index);
    assert!(!heapy.is_allocated(&b.index));
    assert!(heapy.is_allocated(&a.index));
    // the freed range is handed out again
    let c = heapy.allocate(8, MemoryType::HostVisible, None);
    assert_eq!(c.index.offset(), 8);
    assert_eq!(c.new_page, None);
}

#[test]
fn heapy_write_region_and_lookup() {
    let (types, heaps) = device_types();
    let mut heapy = Heapy::new(&types, &heaps, 8).unwrap();
    let host = heapy.allocate(12, MemoryType::HostVisible, None);
    let device = heapy.allocate(12, MemoryType::DeviceLocal, None);
    assert_eq!(heapy.allocation_at(&device.index).map(|a| (a.offset, a.size)), Some((0, 16)));
    let region = heapy.write_region(&host.index, 16);
    assert_eq!((region.offset, region.size), (0, 16));
    assert!(heapy.has_room(100, MemoryType::HostVisible));
    assert!(!heapy.has_room(150, MemoryType::HostVisible));
    heapy.deallocate(host.index);
    assert!(heapy.allocation_at(&host.index).is_none());
}
