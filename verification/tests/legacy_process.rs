use kernel::memory::address::PhysicalAddress;
use kernel::memory::page_table::PageTableReference;
use kernel::process;
use kernel::process::exec::{get_exec_format, ExecFormat, InterpretationMode};
use kernel::process::id::ProcessID;
use kernel::process::map::ProcessMap;
use kernel::process::process_state::{exit_code, BlockReason, RunState};
use kernel::process::subsystem::DosSubsystemMetadata;

#[test]
fn interpretation_modes() {
    assert_eq!(InterpretationMode::from_u32(2), InterpretationMode::ELF);
    assert_eq!(InterpretationMode::from_u32(9), InterpretationMode::Detect);
    assert_eq!(get_exec_format(InterpretationMode::Detect, &[b'M', b'Z', 0, 0]), ExecFormat::DOS);
    assert_eq!(get_exec_format(InterpretationMode::Detect, &[0x7f, b'E', b'L', b'F']), ExecFormat::ELF);
    assert_eq!(get_exec_format(InterpretationMode::Detect, &[1, 2, 3, 4]), ExecFormat::BIN);
    assert_eq!(get_exec_format(InterpretationMode::COM, &[b'M', b'Z', 0, 0]), ExecFormat::COM);
}

#[test]
fn exit_status_layout() {
    assert_eq!(exit_code(0, 3), 0x300);
    assert_eq!(exit_code(9, 0x1ff), 0xff09);
}

#[test]
fn process_table() {
    let mut map = ProcessMap::new();
    let pd = PageTableReference::new(PhysicalAddress::new(0x1000));
    let init = map.spawn_first_process(pd);
    assert_eq!(init, ProcessID::new(1));
    process::make_current(&mut map, init);
    let child = map.fork_current(PageTableReference::new(PhysicalAddress::new(0x2000)));
    assert_eq!(child, ProcessID::new(2));
    assert_eq!(map.get_process(child).unwrap().get_parent(), init);
    assert_eq!(process::current_process(&map).unwrap().get_id(), init);
    assert!(map.get_process(ProcessID::new(7)).is_none());
}

#[test]
fn blocking_on_a_child() {
    let mut map = ProcessMap::new();
    let pd = PageTableReference::new(PhysicalAddress::new(0x1000));
    let init = map.spawn_first_process(pd);
    map.make_current(init);
    let mut parent = map.get_process(init).unwrap().fork(ProcessID::new(5), pd);
    parent.block_on_child(ProcessID::new(6));
    assert!(!parent.is_running());
    parent.child_exited(ProcessID::new(7), 1);
    assert_eq!(parent.run_state, RunState::Blocked(BlockReason::Child(ProcessID::new(6))));
    parent.child_exited(ProcessID::new(6), 4);
    assert_eq!(parent.get_resume_code(), 4);
    assert!(parent.is_running());
    parent.sleep(25);
    parent.update_tick();
    parent.update_tick();
    assert_eq!(parent.run_state, RunState::Sleeping(5));
    parent.update_tick();
    assert!(parent.is_running());
    assert_eq!(parent.exit(2), (ProcessID::new(5), init));
    assert_eq!(parent.get_exit_code(), 0x200);
    assert!(!parent.is_vm8086());
    assert_eq!(DosSubsystemMetadata::new().ds, 0);
}
