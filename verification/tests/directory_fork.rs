use kernel::memory::address::PhysicalAddress;
use kernel::memory::page_table::PageEntry;
use kernel::task::directory_fork::{fork_directory, share_table_copy_on_write, user_tables};

fn entry(present: bool, writable: bool, address: u32) -> PageEntry {
    PageEntry { present, writable, user: true, cow: false, address: PhysicalAddress::new(address) }
}

fn directory() -> Vec<PageEntry> {
    let mut d = vec![PageEntry::empty(); 1024];
    d[0] = entry(true, true, 0x5000);
    d[2] = entry(true, false, 0x6000);
    d[0x300] = entry(true, true, 0x7000);
    d[1023] = entry(true, true, 0x1000);
    d
}

#[test]
fn forked_directory_shares_kernel_and_copies_user_tables() {
    let current = directory();
    let mut copies = vec![PhysicalAddress::new(0); 0x300];
    copies[0] = PhysicalAddress::new(0x9000);
    copies[2] = PhysicalAddress::new(0xa000);
    let d = fork_directory(&current, PhysicalAddress::new(0x8000), true, &copies);
    assert_eq!(d.len(), 1024);
    assert_eq!(d[1023], PageEntry { present: true, writable: false, user: false, cow: false, address: PhysicalAddress::new(0x8000) });
    assert_eq!(d[0x300], PageEntry { present: true, writable: false, user: false, cow: false, address: PhysicalAddress::new(0x7000) });
    assert_eq!(d[0], PageEntry { present: true, writable: true, user: true, cow: false, address: PhysicalAddress::new(0x9000) });
    assert_eq!(d[2], PageEntry { present: true, writable: false, user: true, cow: false, address: PhysicalAddress::new(0xa000) });
    assert!(!d[1].present);
    let kernel_only = fork_directory(&current, PhysicalAddress::new(0x8000), false, &copies);
    assert!(!kernel_only[0].present);
    assert!(kernel_only[0x300].present);
    assert_eq!(user_tables(&current), vec![0, 2]);
}

#[test]
fn writable_pages_become_copy_on_write() {
    let mut table = vec![entry(true, true, 0x1000), entry(false, true, 0x2000), entry(true, false, 0x3000)];
    let frames = share_table_copy_on_write(&mut table);
    assert_eq!(frames, vec![PhysicalAddress::new(0x1000), PhysicalAddress::new(0x3000)]);
    assert_eq!(table[0], PageEntry { present: true, writable: false, user: true, cow: true, address: PhysicalAddress::new(0x1000) });
    assert_eq!(table[1], entry(false, true, 0x2000));
    assert_eq!(table[2], entry(true, false, 0x3000));
}
