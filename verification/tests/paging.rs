use std::collections::BTreeMap;
use kernel::memory::address::{PhysicalAddress, VirtualAddress};
use kernel::task::memory::{ExecutionSection, ExecutionSegment};
use kernel::task::memory::{kernel_mmap, MemoryRegions};
use kernel::task::paging::{decrement_cow, get_or_allocate_physical_address, increment_cow, unmap_page, unmap_task, PhysicalPage};

#[test]
fn cow_share_and_release() {
    let mut counts: BTreeMap<usize, usize> = BTreeMap::new();
    let frame = PhysicalAddress::new(0x5000);
    assert_eq!(increment_cow(&mut counts, frame), 2);
    assert_eq!(counts.get(&0x5000), Some(&2));
    // a second share returns the previous count
    assert_eq!(increment_cow(&mut counts, frame), 2);
    assert_eq!(counts.get(&0x5000), Some(&3));
    assert_eq!(decrement_cow(&mut counts, frame), 2);
    assert_eq!(decrement_cow(&mut counts, frame), 1);
    assert!(counts.is_empty());
    assert_eq!(decrement_cow(&mut counts, frame), 0);
}

#[test]
fn unmapping_a_cow_page_releases_it() {
    let mut counts: BTreeMap<usize, usize> = BTreeMap::new();
    let frame = PhysicalAddress::new(0x8000);
    increment_cow(&mut counts, frame);
    unmap_page(&mut counts, Some((frame, false)));
    assert_eq!(counts.get(&0x8000), Some(&2));
    unmap_page(&mut counts, None);
    assert_eq!(counts.get(&0x8000), Some(&2));
    unmap_page(&mut counts, Some((frame, true)));
    assert!(counts.is_empty());
}

#[test]
fn pages_of_a_task() {
    let mut segment = ExecutionSegment::at_address(VirtualAddress::new(0x1000), 2).unwrap();
    segment.add_section(ExecutionSection { segment_offset: 0, executable_offset: Some(0), size: 0x100 }).unwrap();
    let pages = unmap_task(&vec![segment], VirtualAddress::new(0x8000)..VirtualAddress::new(0x8800));
    assert_eq!(pages, vec![
        VirtualAddress::new(0x1000),
        VirtualAddress::new(0x2000),
        VirtualAddress::new(0xbfffe000),
        VirtualAddress::new(0xbffff000),
        VirtualAddress::new(0x8000),
    ]);
}

#[test]
fn kernel_pages_come_from_kernel_mappings() {
    let mut kernel_memory = MemoryRegions::with_memory_top(0xefc04000);
    let addr = kernel_mmap(&mut kernel_memory, Some(VirtualAddress::new(0xd0000000)), 0x2000, kernel::task::memory::MMapBacking::Anonymous).unwrap();
    assert_eq!(addr, VirtualAddress::new(0xd0000000));
    assert_eq!(get_or_allocate_physical_address(&kernel_memory, VirtualAddress::new(0xd0000010), None), Err(()));
    assert_eq!(get_or_allocate_physical_address(&kernel_memory, VirtualAddress::new(0x1000), None), Err(()));
    assert_eq!(
        get_or_allocate_physical_address(&kernel_memory, VirtualAddress::new(0xd0001000), Some(PhysicalAddress::new(0x7000))),
        Ok(PhysicalPage::Mapped(PhysicalAddress::new(0x7000))),
    );
    match get_or_allocate_physical_address(&kernel_memory, VirtualAddress::new(0xd0001000), None) {
        Ok(PhysicalPage::Allocate(region)) => assert_eq!(region.address, VirtualAddress::new(0xd0000000)),
        other => panic!("unexpected {:?}", other),
    }
    assert_eq!(get_or_allocate_physical_address(&kernel_memory, VirtualAddress::new(0xe0000000), None), Err(()));
}
