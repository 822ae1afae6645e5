use kernel::memory::address::{PhysicalAddress, VirtualAddress};
use kernel::memory::page_table::PageTableReference;
use kernel::task;
use kernel::task::id::ProcessID;
use kernel::task::ipc::{IPCMessage, IPCPacket};
use kernel::task::state::RunState;
use kernel::task::switching::TaskMap;

fn pd(addr: u32) -> PageTableReference {
    PageTableReference::new(PhysicalAddress::new(addr))
}

fn two_tasks() -> TaskMap {
    let mut tasks = TaskMap::initialize(pd(0x1000));
    let child = task::fork(&mut tasks, 5, pd(0x2000));
    assert_eq!(child, ProcessID::new(1));
    tasks
}

#[test]
fn first_fork_keeps_init() {
    let mut tasks = TaskMap::initialize(pd(0x1000));
    let child = task::fork(&mut tasks, 0, pd(0x2000));
    assert_eq!(child, ProcessID::new(1));
    assert_eq!(tasks.processes.len(), 2);
    assert_eq!(*tasks.get_process(ProcessID::new(1)).unwrap().get_parent_id(), ProcessID::new(0));
    assert!(tasks.get_process(ProcessID::new(0)).is_some());
}

#[test]
fn initialize_has_only_init() {
    let tasks = TaskMap::initialize(pd(0x1000));
    assert_eq!(tasks.processes.len(), 1);
    assert_eq!(task::get_current_id(&tasks), ProcessID::new(0));
    assert_eq!(tasks.find_next_running_process(), None);
}

#[test]
fn fork_adds_child_after_parent() {
    let tasks = two_tasks();
    assert_eq!(tasks.processes.len(), 2);
    let child = tasks.get_process(ProcessID::new(1)).unwrap();
    assert_eq!(*child.get_parent_id(), ProcessID::new(0));
    assert_eq!(child.start_ticks, 5);
    assert_eq!(child.page_directory, pd(0x2000));
    let stack = child.get_kernel_stack();
    assert_eq!(child.stack_pointer, stack.start + stack.len() - 64);
}

#[test]
fn yield_moves_to_next_runnable() {
    let mut tasks = two_tasks();
    assert_eq!(task::yield_coop(&mut tasks), Some(ProcessID::new(1)));
    assert_eq!(tasks.current_id, ProcessID::new(1));
    // wraps around to the first runnable process
    assert_eq!(task::yield_coop(&mut tasks), Some(ProcessID::new(0)));
    assert_eq!(tasks.current_id, ProcessID::new(0));
}

#[test]
fn sleeping_process_is_skipped_until_it_wakes() {
    let mut tasks = two_tasks();
    // init sleeps, the child runs
    assert_eq!(task::sleep(&mut tasks, 30), Some(ProcessID::new(1)));
    // the child finds nobody else to run
    assert_eq!(tasks.find_next_running_process(), None);
    tasks.update_timeouts(20);
    assert_eq!(tasks.find_next_running_process(), None);
    tasks.update_timeouts(20);
    assert_eq!(tasks.find_next_running_process(), Some(ProcessID::new(0)));
}

#[test]
fn wait_and_exit() {
    let mut tasks = two_tasks();
    assert_eq!(task::wait(&mut tasks, Some(ProcessID::new(1))), Some(ProcessID::new(1)));
    // child exits with 7: parent resumes with that code
    assert_eq!(task::exec::terminate(&mut tasks, 7), Some(ProcessID::new(0)));
    assert_eq!(tasks.get_process(ProcessID::new(1)).unwrap().state, RunState::Terminated);
    assert_eq!(tasks.get_process(ProcessID::new(0)).unwrap().state, RunState::Resumed(7));
    assert_eq!(task::resume_from_wait(&mut tasks), 7);
    assert_eq!(tasks.get_process(ProcessID::new(0)).unwrap().state, RunState::Running);
    let slots_before = tasks.stacks.clone();
    tasks.clean_up_process(ProcessID::new(1));
    assert_eq!(tasks.processes.len(), 1);
    // The slot released is the stack's distance below the top in stack
    // sizes, one past the slot the child was given, and that one was free.
    assert_eq!(tasks.stacks, slots_before);
}

#[test]
fn ipc_between_tasks() {
    let mut tasks = two_tasks();
    // init blocks on an empty queue
    let (first, more) = task::ipc_read(&mut tasks, 0, None);
    assert!(first.is_none());
    assert!(!more);
    assert_eq!(tasks.get_process(ProcessID::new(0)).unwrap().state, RunState::AwaitingIPC(None));
    assert_eq!(task::yield_coop(&mut tasks), Some(ProcessID::new(1)));
    task::ipc_send(&mut tasks, ProcessID::new(0), IPCMessage(1, 2, 3, 4), 100, 0);
    assert_eq!(tasks.get_process(ProcessID::new(0)).unwrap().state, RunState::Running);
    assert_eq!(task::yield_coop(&mut tasks), Some(ProcessID::new(0)));
    let (msg, more) = task::ipc_read_unblocking(&mut tasks, 0);
    assert_eq!(msg, Some(IPCPacket { from: ProcessID::new(1), message: IPCMessage(1, 2, 3, 4) }));
    assert!(!more);
}

#[test]
fn heap_top_moves() {
    let mut tasks = two_tasks();
    assert_eq!(task::exec::set_heap_top(&mut tasks, VirtualAddress::new(0x3000)), Ok(VirtualAddress::new(0x3000)));
    assert_eq!(task::exec::move_heap_top(&mut tasks, 0x100), Ok(VirtualAddress::new(0x3100)));
    assert_eq!(task::exec::move_heap_top(&mut tasks, -0x4000), Err(()));
    assert_eq!(task::exec::move_heap_top(&mut tasks, -0x3100), Ok(VirtualAddress::new(0)));
}

#[test]
fn kfork_pushes_entry_point() {
    let mut tasks = two_tasks();
    let id = tasks.kfork(0x12345678, pd(0x3000));
    assert_eq!(id, ProcessID::new(2));
    let child = tasks.get_process(id).unwrap();
    let stack = child.get_kernel_stack();
    let off = child.stack_pointer - stack.start;
    assert_eq!(stack.data[off..off + 4], [0x78, 0x56, 0x34, 0x12]);
    // the saved eax of the syscall frame is cleared
    assert_eq!(stack.data[stack.len() - 28..stack.len() - 24], [0, 0, 0, 0]);
}

#[test]
fn vterm_of_current_task() {
    let mut tasks = two_tasks();
    assert_eq!(task::vterm::get_current_vterm(&tasks), None);
    tasks.processes[0].force_vterm(2);
    assert_eq!(task::vterm::get_current_vterm(&tasks), Some(2));
}
