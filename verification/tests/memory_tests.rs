use oxide_os::memory::{
    level_4_table_address, usable_bytes, usable_kib, BootInfoFrameAllocator, FrameRange,
    MemoryRegion, MemoryRegionType,
};

fn region(start: u64, end: u64, region_type: MemoryRegionType) -> MemoryRegion {
    MemoryRegion {
        range: FrameRange { start_frame_number: start, end_frame_number: end },
        region_type,
    }
}

fn drain(a: &mut BootInfoFrameAllocator) -> Vec<u64> {
    let mut out = Vec::new();
    while let Some(f) = a.allocate_frame() {
        out.push(f.start_address());
    }
    out
}

#[test]
fn frame_range_addresses() {
    let r = FrameRange { start_frame_number: 2, end_frame_number: 5 };
    assert_eq!(r.start_addr(), 0x2000);
    assert_eq!(r.end_addr(), 0x5000);
}

#[test]
fn is_usable_only_for_usable() {
    assert!(region(0, 1, MemoryRegionType::Usable).is_usable());
    assert!(!region(0, 1, MemoryRegionType::Reserved).is_usable());
    assert!(!region(0, 1, MemoryRegionType::FrameZero).is_usable());
}

#[test]
fn empty_map_has_no_frames() {
    let mut a = BootInfoFrameAllocator::init(vec![]);
    assert!(a.allocate_frame().is_none());
    assert!(a.allocate_frame().is_none());
}

#[test]
fn hands_out_usable_frames_in_order() {
    let map = vec![
        region(0, 1, MemoryRegionType::FrameZero),
        region(1, 3, MemoryRegionType::Usable),
        region(3, 5, MemoryRegionType::Kernel),
        region(5, 6, MemoryRegionType::Usable),
        region(6, 8, MemoryRegionType::Reserved),
    ];
    let mut a = BootInfoFrameAllocator::init(map);
    assert_eq!(drain(&mut a), vec![0x1000, 0x2000, 0x5000]);
    assert!(a.allocate_frame().is_none());
}

#[test]
fn never_hands_out_frame_zero() {
    let map = vec![region(0, 3, MemoryRegionType::Usable)];
    let mut a = BootInfoFrameAllocator::init(map);
    assert_eq!(drain(&mut a), vec![0x1000, 0x2000]);
}

#[test]
fn empty_usable_regions_give_nothing() {
    let map = vec![
        region(4, 4, MemoryRegionType::Usable),
        region(9, 7, MemoryRegionType::Usable),
        region(10, 11, MemoryRegionType::Usable),
    ];
    let mut a = BootInfoFrameAllocator::init(map);
    assert_eq!(drain(&mut a), vec![0xa000]);
}

#[test]
fn first_frame_is_first_usable_frame() {
    let map = vec![
        region(0, 0x100, MemoryRegionType::InUse),
        region(0x100, 0x7fe0, MemoryRegionType::Usable),
    ];
    let mut a = BootInfoFrameAllocator::init(map);
    let f = a.allocate_frame().unwrap();
    assert_eq!(f.start_address(), 0x10_0000);
    assert_eq!(a.allocate_frame().unwrap().start_address(), 0x10_1000);
}

#[test]
fn usable_size_sums_usable_regions() {
    let map = vec![
        region(0, 1, MemoryRegionType::FrameZero),
        region(1, 0xa0, MemoryRegionType::Usable),
        region(0xa0, 0x100, MemoryRegionType::Reserved),
        region(0x100, 0x200, MemoryRegionType::Usable),
    ];
    assert_eq!(usable_bytes(&map), (0x9f + 0x100) * 4096);
    assert_eq!(usable_kib(&map), (0x9f + 0x100) * 4);
    assert_eq!(usable_kib(&vec![]), 0);
}

#[test]
fn level_4_table_is_offset_by_physical_mapping() {
    assert_eq!(
        level_4_table_address(0xffff_8000_0000_0000, 0x1000),
        0xffff_8000_0000_1000
    );
    assert_eq!(level_4_table_address(0x100_0000_0000, 0x7000), 0x100_0000_7000);
}
