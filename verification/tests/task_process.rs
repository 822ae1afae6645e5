use kernel::files::handle::{FileHandle, LocalHandle};
use kernel::memory::address::{PhysicalAddress, VirtualAddress};
use kernel::memory::page_table::PageTableReference;
use kernel::task::files::DriveID;
use kernel::task::process::Process;

fn initial_process() -> Process {
    let mut stacks: Vec<u8> = Vec::new();
    Process::initial(0, &mut stacks, PageTableReference::new(PhysicalAddress::new(0)))
}

#[test]
fn sleeping() {
    let mut p = initial_process();
    p.sleep(2000);
    assert!(!p.can_resume());
    p.update_timeouts(500);
    p.update_timeouts(1000);
    assert!(!p.can_resume());
    p.update_timeouts(700);
    assert!(p.can_resume());
}

#[test]
fn heap_modification() {
    let mut p = initial_process();
    // just put the heap endpoint somewhere
    p.increase_heap(0x250);
    // simulate `brk`
    {
        let prev = p.increase_heap(0);
        p.increase_heap(VirtualAddress::new(0x1200).distance_from(prev));
        assert_eq!(p.memory.get_heap_start().offset(p.memory.get_heap_size()), VirtualAddress::new(0x1200));
    }
    // simulate `sbrk`
    {
        let prev = p.increase_heap(0);
        assert_eq!(prev, p.increase_heap(0x430));
        assert_eq!(prev.offset(0x430), p.memory.get_heap_start().offset(p.memory.get_heap_size()));
    }
}

#[test]
fn file_handle_dup() {
    let mut p = initial_process();
    let first = p.open_file(DriveID::new(0), LocalHandle::new(2));
    let second = p.open_file(DriveID::new(1), LocalHandle::new(0));
    let third = p.open_file(DriveID::new(0), LocalHandle::new(4));
    {
        // `dup` syscall
        let (prev_entry, new_handle) = p.duplicate_file_descriptor(second, None);
        assert!(prev_entry.is_none());
        assert_eq!(new_handle, Some(FileHandle::new(3)));
    }

    {
        // `dup2` to a new location
        let (prev_entry, new_handle) = p.duplicate_file_descriptor(first, Some(FileHandle::new(6)));
        assert!(prev_entry.is_none());
        assert_eq!(new_handle, Some(FileHandle::new(6)));
    }

    {
        // `dup2` override
        let (prev_entry, new_handle) = p.duplicate_file_descriptor(third, Some(FileHandle::new(0)));
        let open_file = prev_entry.unwrap();
        assert_eq!(open_file.drive, DriveID::new(0));
        assert_eq!(open_file.local_handle, LocalHandle::new(2));
        assert_eq!(new_handle, Some(FileHandle::new(0)));
    }
}

#[test]
fn sleep_ends_when_the_time_left_reaches_zero() {
    let mut p = initial_process();
    p.sleep(2000);
    p.update_timeouts(2000);
    assert!(p.can_resume());
    let mut q = initial_process();
    q.sleep(2000);
    q.update_timeouts(1999);
    assert!(!q.can_resume());
    q.update_timeouts(1);
    assert!(q.can_resume());
}

#[test]
fn pushed_bytes_pop_back_lowest_first() {
    let mut p = initial_process();
    p.reset_stack_pointer();
    let top = p.stack_pointer;
    p.stack_push_u32(0x11223344);
    assert_eq!(p.stack_pointer, top - 4);
    assert_eq!([p.stack_pop_u8(), p.stack_pop_u8(), p.stack_pop_u8(), p.stack_pop_u8()], [0x44, 0x33, 0x22, 0x11]);
    assert_eq!(p.stack_pointer, top);
    p.stack_push_u8(7);
    assert_eq!(p.stack_pop_u8(), 7);
    assert_eq!(p.stack_pointer, top);
}
