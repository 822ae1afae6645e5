use kernel::files::handle::LocalHandle;
use kernel::memory::address::{PhysicalAddress, VirtualAddress};
use kernel::memory::page_table::PageTableReference;
use kernel::task::exec::{exec_replace_program, exec_start_program, InitialRegisters};
use kernel::task::files::DriveID;
use kernel::task::memory::{ExecutionSection, ExecutionSegment};
use kernel::task::switching::TaskMap;
use kernel::task::vm::{Subsystem, VMState};

fn segment(address: u32, pages: usize) -> ExecutionSegment {
    let mut seg = ExecutionSegment::at_address(VirtualAddress::new(address), pages).unwrap();
    seg.add_section(ExecutionSection { segment_offset: 0, executable_offset: Some(0), size: 0x100 }).unwrap();
    seg
}

fn addresses(pages: &[VirtualAddress]) -> Vec<u32> {
    pages.iter().map(|p| p.0).collect()
}

#[test]
fn exec_replaces_segments_and_executable() {
    let mut tasks = TaskMap::initialize(PageTableReference::new(PhysicalAddress::new(0x1000)));
    let (pages, to_close) = exec_replace_program(&mut tasks, DriveID::new(1), LocalHandle::new(3), vec![segment(0x1000, 2)], false);
    assert_eq!(to_close, None);
    // no old segments; the user stack; the new heap is empty and page aligned
    assert_eq!(addresses(&pages), vec![0xbfffe000, 0xbffff000]);
    let p = &tasks.processes[0];
    assert_eq!(p.exec_file, Some((DriveID::new(1), LocalHandle::new(3))));
    assert_eq!(p.memory.execution_segments.len(), 1);
    assert_eq!(p.memory.heap_start, VirtualAddress::new(0x3000));
    assert_eq!(p.memory.heap_size, 0);
    assert_eq!(p.subsystem, Subsystem::Native);

    // a second exec unmaps the first program's pages and closes its file
    let (pages, to_close) = exec_replace_program(&mut tasks, DriveID::new(2), LocalHandle::new(5), vec![segment(0x8000, 1)], true);
    assert_eq!(to_close, Some((DriveID::new(1), LocalHandle::new(3))));
    assert_eq!(addresses(&pages), vec![0x1000, 0x2000, 0xbfffe000, 0xbffff000]);
    let p = &tasks.processes[0];
    assert_eq!(p.subsystem, Subsystem::DOS(VMState { interrupts_enabled: false }));
    assert_eq!(p.memory.heap_start, VirtualAddress::new(0x9000));
}

#[test]
fn exec_starts_with_default_registers() {
    let mut tasks = TaskMap::initialize(PageTableReference::new(PhysicalAddress::new(0x1000)));
    tasks.processes[0].stack_pointer = 0;
    let none = InitialRegisters { eip: None, cs: None, ds: None, es: None, ss: None };
    let regs = exec_start_program(&mut tasks, false, none);
    assert_eq!(regs.flags, 0x200);
    assert_eq!(regs.esp, 0xbffffffc);
    assert_eq!((regs.cs, regs.ds, regs.es, regs.ss, regs.eip), (0x1b, 0x23, 0x23, 0x23, 0));
    let stack = tasks.processes[0].get_kernel_stack();
    assert_eq!(tasks.processes[0].stack_pointer, stack.start + stack.len() - 4);

    let dos = InitialRegisters { eip: Some(0x100), cs: Some(0x1000), ds: Some(0x1000), es: None, ss: Some(0x2000) };
    let regs = exec_start_program(&mut tasks, true, dos);
    assert_eq!(regs.flags, 0x20200);
    assert_eq!((regs.cs, regs.ds, regs.es, regs.ss, regs.eip), (0x1000, 0x1000, 0x23, 0x2000, 0x100));
}
