use kernel::memory::address::VirtualAddress;
use kernel::task::memory::{ranges_overlap, ExecutionSection, ExecutionSegment, MMapBacking, MMapRegion, MemoryRegions};

#[test]
fn overlapping_ranges() {
    assert!(!ranges_overlap(
        &(VirtualAddress::new(0x100)..VirtualAddress::new(0x200)),
        &(VirtualAddress::new(0x300)..VirtualAddress::new(0x400)),
    ));

    assert!(!ranges_overlap(
        &(VirtualAddress::new(0x100)..VirtualAddress::new(0x200)),
        &(VirtualAddress::new(0x200)..VirtualAddress::new(0x400)),
    ));

    assert!(ranges_overlap(
        &(VirtualAddress::new(0x100)..VirtualAddress::new(0x200)),
        &(VirtualAddress::new(0x1ff)..VirtualAddress::new(0x400)),
    ));

    assert!(ranges_overlap(
        &(VirtualAddress::new(0x100)..VirtualAddress::new(0x300)),
        &(VirtualAddress::new(0x200)..VirtualAddress::new(0x220)),
    ));

    assert!(ranges_overlap(
        &(VirtualAddress::new(0x100)..VirtualAddress::new(0x300)),
        &(VirtualAddress::new(0x200)..VirtualAddress::new(0x400)),
    ));
}

#[test]
fn segment_contains() {
    let mut segment = ExecutionSegment::at_address(VirtualAddress::new(0x1000), 2).unwrap();
    segment.add_section(ExecutionSection {
        segment_offset: 0x20,
        executable_offset: None,
        size: 0x100,
    }).unwrap();
    assert!(!segment.contains_address(&VirtualAddress::new(0x10)));
    assert!(!segment.contains_address(&VirtualAddress::new(0x1010)));
    assert!(segment.contains_address(&VirtualAddress::new(0x1020)));
    assert!(segment.contains_address(&VirtualAddress::new(0x10f0)));
}

#[test]
fn explicit_mmap() {
    let mut regions = MemoryRegions::new();
    assert_eq!(
        regions.mmap(Some(VirtualAddress::new(0x4000)), 0x1000, MMapBacking::Anonymous).unwrap(),
        VirtualAddress::new(0x4000),
    );
    assert_eq!(
        regions.mmap(Some(VirtualAddress::new(0x6000)), 0x2000, MMapBacking::Anonymous).unwrap(),
        VirtualAddress::new(0x6000),
    );
    assert_eq!(
        regions.mmap(Some(VirtualAddress::new(0x5000)), 0x2000, MMapBacking::Anonymous).unwrap(),
        VirtualAddress::new(0xbfffe000),
    );
}

#[test]
fn unmapping() {
    let mut regions = MemoryRegions::new();
    regions.mmap(Some(VirtualAddress::new(0x1000)), 0x1000, MMapBacking::Anonymous).unwrap();
    assert_eq!(
        regions.munmap(VirtualAddress::new(0x1000), 0x1000).unwrap(),
        VirtualAddress::new(0x1000)..VirtualAddress::new(0x2000),
    );
    assert!(regions.mmap_regions.is_empty());
    regions.mmap(Some(VirtualAddress::new(0x1000)), 0x2000, MMapBacking::Anonymous).unwrap();
    regions.mmap(Some(VirtualAddress::new(0x4000)), 0x3000, MMapBacking::Anonymous).unwrap();
    assert_eq!(
        regions.munmap(VirtualAddress::new(0x2000), 0x2000).unwrap(),
        VirtualAddress::new(0x2000)..VirtualAddress::new(0x4000),
    );
    {
        let shrunk = regions.mmap_region_at(VirtualAddress::new(0x1000)).unwrap();
        assert_eq!(shrunk.address, VirtualAddress::new(0x1000));
        assert_eq!(shrunk.size, 0x1000);
    }
    assert_eq!(regions.mmap_region_count(), 2);
    assert_eq!(
        regions.munmap(VirtualAddress::new(0x1000), 0x4000).unwrap(),
        VirtualAddress::new(0x1000)..VirtualAddress::new(0x5000),
    );
    {
        let shrunk = regions.mmap_region_at(VirtualAddress::new(0x5000)).unwrap();
        assert_eq!(shrunk.address, VirtualAddress::new(0x5000));
        assert_eq!(shrunk.size, 0x2000);
    }
    assert_eq!(regions.mmap_region_count(), 1);
}

#[test]
fn auto_allocated_mmap() {
    let mut regions = MemoryRegions::new();
    assert_eq!(
        regions.mmap(None, 0x1000, MMapBacking::Anonymous).unwrap(),
        VirtualAddress::new(0xbffff000),
    );
    assert_eq!(
        regions.mmap(None, 0x400, MMapBacking::Anonymous).unwrap(),
        VirtualAddress::new(0xbfffe000),
    );
}

#[test]
fn auto_allocated_reuses_space() {
    let mut regions = MemoryRegions::new();
    assert_eq!(
        regions.mmap(None, 0x5000, MMapBacking::Anonymous).unwrap(),
        VirtualAddress::new(0xbfffb000),
    );
    regions.munmap(VirtualAddress::new(0xbfffc000), 0x2000).unwrap();
    assert_eq!(
        regions.mmap_region_at(VirtualAddress::new(0xbfffb000)).unwrap(),
        MMapRegion { address: VirtualAddress::new(0xbfffb000), size: 0x1000, backed_by: MMapBacking::Anonymous },
    );
    assert_eq!(
        regions.mmap_region_at(VirtualAddress::new(0xbfffe000)).unwrap(),
        MMapRegion { address: VirtualAddress::new(0xbfffe000), size: 0x2000, backed_by: MMapBacking::Anonymous },
    );
    assert_eq!(
        regions.mmap(None, 0x1000, MMapBacking::Anonymous).unwrap(),
        VirtualAddress::new(0xbfffd000),
    );
    assert_eq!(
        regions.mmap(None, 0x2000, MMapBacking::Anonymous).unwrap(),
        VirtualAddress::new(0xbfff9000),
    );
}

#[test]
fn clipping_sections() {
    assert_eq!(
        (ExecutionSection { segment_offset: 0x1000, executable_offset: None, size: 0x2400 })
            .clip_to(0x500..0x4000),
        (ExecutionSection { segment_offset: 0x1000, executable_offset: None, size: 0x2400 })
    );
    assert_eq!(
        (ExecutionSection { segment_offset: 0x1000, executable_offset: None, size: 0x2400 })
            .clip_to(0x1200..0x4000),
        (ExecutionSection { segment_offset: 0x1200, executable_offset: None, size: 0x2200 })
    );
    assert_eq!(
        (ExecutionSection { segment_offset: 0x1000, executable_offset: None, size: 0x2400 })
            .clip_to(0x800..0x2300),
        (ExecutionSection { segment_offset: 0x1000, executable_offset: None, size: 0x1300 })
    );
    assert_eq!(
        (ExecutionSection { segment_offset: 0x1000, executable_offset: None, size: 0x2400 })
            .clip_to(0x2500..0x2900),
        (ExecutionSection { segment_offset: 0x2500, executable_offset: None, size: 0x400 })
    );
    assert_eq!(
        (ExecutionSection { segment_offset: 0x1000, executable_offset: None, size: 0x2400 })
            .clip_to(0x3400..0x4000),
        (ExecutionSection { segment_offset: 0x3400, executable_offset: None, size: 0 })
    );
    assert_eq!(
        (ExecutionSection { segment_offset: 0x1000, executable_offset: None, size: 0x2400 })
            .clip_to(0x4000..0x5000),
        (ExecutionSection { segment_offset: 0x4000, executable_offset: None, size: 0 })
    );
    assert_eq!(
        (ExecutionSection { segment_offset: 0, executable_offset: Some(0x350), size: 0x500 })
            .clip_to(0x200..0x4000),
        (ExecutionSection { segment_offset: 0x200, executable_offset: Some(0x550), size: 0x300 })
    );
}
