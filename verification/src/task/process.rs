//! The kernel's record of one process.
use vstd::prelude::*;
use core::ops::Range;
use crate::files::handle::{FileHandle, LocalHandle};
use crate::memory::address::VirtualAddress;
use crate::memory::page_table::PageTableReference;
use crate::collections::first_empty;
use super::files::{DriveID, FileMap, OpenFile};
use super::id::ProcessID;
use super::ipc::{more_unexpired, unexpired, IPCMessage, IPCPacket, IPCQueue, EnqueuedIPC};
use super::memory::{segment_views, segments_fit, segments_high, USER_KERNEL_BARRIER, ExecutionSegment, MemoryRegions, Relocation, MMapRegion, ExecutionSection};
use super::regs::SavedState;
use super::stack::{allocate_initial_stacks, allocate_stack, lowest_free, slot_taken, stack_box_from_index, StackBox, STACKS_TOP, STACK_SIZE};
use super::state::RunState;
use super::vm::Subsystem;

verus! {

pub const MAX_PROCESS_COUNT: usize = 16383;

pub struct Process {
    /// The unique ID of this process
    pub id: ProcessID,
    /// The ID of the parent process
    pub parent_id: ProcessID,
    /// All addresses mapped into the process's memory
    pub memory: MemoryRegions,
    /// The current execution state of the process
    pub state: RunState,
    /// System ticks when this process was started
    pub start_ticks: u32,
    /// IPC messages sent to this process
    pub ipc_queue: IPCQueue,
    /// All currently open files
    pub open_files: FileMap,
    /// The kernel stack of this process
    pub kernel_stack: Option<StackBox>,
    /// The kernel stack pointer saved while the process is swapped out
    pub stack_pointer: usize,
    /// Register state saved when the process is interrupted
    pub saved_state: SavedState,
    /// Physical address of the process's page directory
    pub page_directory: PageTableReference,
    /// The open file being executed by this process
    pub exec_file: Option<(DriveID, LocalHandle)>,
    /// Relocations applied when the executable is paged into memory
    pub relocations: Vec<Relocation>,
    /// Extra data related to the subsystem used by the process
    pub subsystem: Subsystem,
    /// An optional kernel-level method to run when exiting VM86 mode
    pub on_exit_vm: Option<usize>,
    /// The VTerm that started this process or its ancestor
    pub vterm: Option<usize>,
    /// The drive that relative paths are resolved against
    pub current_drive: DriveID,
}

/// `data` with the little-endian bytes of `v` written at `offset`.
pub open spec fn write_u32(data: Seq<u8>, offset: int, v: u32) -> Seq<u8> {
    data.update(offset, (v & 0xff) as u8)
        .update(offset + 1, ((v & 0xff00) >> 8) as u8)
        .update(offset + 2, ((v & 0xff0000) >> 16) as u8)
        .update(offset + 3, ((v & 0xff000000) >> 24) as u8)
}

/// The fields of a process other than its run state, its memory map and its
/// saved registers.
pub open spec fn same_except_state(a: Process, b: Process) -> bool {
    &&& a.id == b.id
    &&& a.parent_id == b.parent_id
    &&& a.start_ticks == b.start_ticks
    &&& a.ipc_queue == b.ipc_queue
    &&& a.open_files == b.open_files
    &&& a.kernel_stack == b.kernel_stack
    &&& a.stack_pointer == b.stack_pointer
    &&& a.page_directory == b.page_directory
    &&& a.exec_file == b.exec_file
    &&& a.relocations == b.relocations
    &&& a.subsystem == b.subsystem
    &&& a.vterm == b.vterm
    &&& a.current_drive == b.current_drive
}

/// Every field of a process but its kernel stack and stack pointer is
/// unchanged.
pub open spec fn same_except_stack(a: Process, b: Process) -> bool {
    &&& a.id == b.id
    &&& a.parent_id == b.parent_id
    &&& a.memory == b.memory
    &&& a.state == b.state
    &&& a.start_ticks == b.start_ticks
    &&& a.ipc_queue == b.ipc_queue
    &&& a.open_files == b.open_files
    &&& a.saved_state == b.saved_state
    &&& a.page_directory == b.page_directory
    &&& a.exec_file == b.exec_file
    &&& a.relocations == b.relocations
    &&& a.subsystem == b.subsystem
    &&& a.on_exit_vm == b.on_exit_vm
    &&& a.vterm == b.vterm
    &&& a.current_drive == b.current_drive
}

/// Every field of a process but its run state is unchanged.
pub open spec fn only_state_changed(a: Process, b: Process) -> bool {
    &&& same_except_state(a, b)
    &&& a.memory == b.memory
    &&& a.saved_state == b.saved_state
    &&& a.on_exit_vm == b.on_exit_vm
}

/// The `b`th byte of `v` in little-endian order, as `write_u32` stores it.
pub open spec fn le_byte(v: u32, b: int) -> u8 {
    if b == 0 {
        (v & 0xff) as u8
    } else if b == 1 {
        ((v & 0xff00) >> 8) as u8
    } else if b == 2 {
        ((v & 0xff0000) >> 16) as u8
    } else {
        ((v & 0xff000000) >> 24) as u8
    }
}

/// A byte pushed on the kernel stack is popped back: `pushed` is `p` after
/// `stack_push_u8(v)`; a pop from it is allowed, gives `v` and brings the
/// stack pointer back to where it was; every other byte of the stack is
/// unchanged.
pub proof fn lemma_push_pop_u8(p: Process, pushed: Process, v: u8)
    requires
        p.stack_room(1),
        pushed.stack_pointer == p.stack_pointer - 1,
        pushed.kernel_stack is Some,
        pushed.kernel_stack.unwrap().start == p.kernel_stack.unwrap().start,
        pushed.kernel_stack.unwrap().data@ == p.kernel_stack.unwrap().data@.update(
            p.stack_pointer - 1 - p.kernel_stack.unwrap().start, v),
    ensures
        ({
            let st = pushed.kernel_stack.unwrap();
            let off = pushed.stack_pointer - st.start;
            &&& st.start <= pushed.stack_pointer < st.start + st.data@.len()
            &&& pushed.stack_pointer < usize::MAX
            &&& st.data@[off] == v
            &&& pushed.stack_pointer + 1 == p.stack_pointer
            &&& st.data@.len() == p.kernel_stack.unwrap().data@.len()
            &&& forall|j: int| 0 <= j < st.data@.len() && j != off ==> #[trigger] st.data@[j] == p.kernel_stack.unwrap().data@[j]
        }),
{
}

/// A 32-bit value pushed on the kernel stack is popped back as its four
/// bytes, lowest first: `pushed` is `p` after `stack_push_u32(v)`; the `b`th
/// pop from it is allowed and gives byte `b` of `v`, four pops bring the
/// stack pointer back to where it was, and every other byte of the stack is
/// unchanged.
pub proof fn lemma_push_pop_u32(p: Process, pushed: Process, v: u32)
    requires
        p.stack_room(4),
        pushed.stack_pointer == p.stack_pointer - 4,
        pushed.kernel_stack is Some,
        pushed.kernel_stack.unwrap().start == p.kernel_stack.unwrap().start,
        pushed.kernel_stack.unwrap().data@ == write_u32(p.kernel_stack.unwrap().data@,
            p.stack_pointer - 4 - p.kernel_stack.unwrap().start, v),
    ensures
        ({
            let st = pushed.kernel_stack.unwrap();
            let off = pushed.stack_pointer - st.start;
            &&& forall|b: int| 0 <= b < 4 ==> st.start <= #[trigger] (pushed.stack_pointer + b) < st.start + st.data@.len()
                && pushed.stack_pointer + b < usize::MAX
            &&& forall|b: int| 0 <= b < 4 ==> #[trigger] st.data@[off + b] == le_byte(v, b)
            &&& pushed.stack_pointer + 4 == p.stack_pointer
            &&& st.data@.len() == p.kernel_stack.unwrap().data@.len()
            &&& forall|j: int| 0 <= j < st.data@.len() && !(off <= j < off + 4) ==> #[trigger] st.data@[j]
                == p.kernel_stack.unwrap().data@[j]
        }),
{
    let st = pushed.kernel_stack.unwrap();
    let off = pushed.stack_pointer - st.start;
    assert forall|b: int| 0 <= b < 4 implies #[trigger] st.data@[off + b] == le_byte(v, b) by {
    }
}

/// The new state after `delta_ms` milliseconds pass: sleeping processes and
/// timed IPC waits count down, and resume once the time left reaches zero.
pub open spec fn state_after_timeouts(state: RunState, delta_ms: usize) -> RunState {
    match state {
        RunState::AwaitingIPC(Some(timeout)) => if timeout <= delta_ms {
            RunState::Running
        } else {
            RunState::AwaitingIPC(Some((timeout - delta_ms) as usize))
        },
        RunState::Sleeping(timeout) => if timeout <= delta_ms {
            RunState::Running
        } else {
            RunState::Sleeping((timeout - delta_ms) as usize)
        },
        _ => state,
    }
}

/// A sleep of `duration` milliseconds ends once `duration` milliseconds have
/// passed, however the time is split between timer updates; until then the
/// time left counts down.
pub proof fn lemma_sleep_counts_down(duration: usize, first: usize, second: usize)
    requires
        first <= duration,
    ensures
        first + second >= duration ==> state_after_timeouts(state_after_timeouts(RunState::Sleeping(duration), first), second)
            == RunState::Running,
        first + second < duration ==> state_after_timeouts(state_after_timeouts(RunState::Sleeping(duration), first), second)
            == RunState::Sleeping((duration - first - second) as usize),
{
}

/// The total time of a run of timer updates, in milliseconds.
pub open spec fn total_ms(deltas: Seq<usize>) -> int
    decreases deltas.len(),
{
    if deltas.len() == 0 { 0 } else { total_ms(deltas.drop_last()) + deltas.last() }
}

/// The state after a run of timer updates, one after the other.
pub open spec fn state_after_updates(state: RunState, deltas: Seq<usize>) -> RunState
    decreases deltas.len(),
{
    if deltas.len() == 0 {
        state
    } else {
        state_after_timeouts(state_after_updates(state, deltas.drop_last()), deltas.last())
    }
}

/// A sleep or a timed IPC wait counts down, however the time is split
/// between timer updates: once the updates total at least the time asked
/// for, the process is running; until then it is in the same state, with
/// the time asked for less the total left. (With no update at all, nothing
/// counts down, even from zero.) A running process stays running.
pub proof fn lemma_timeouts_count_down(timeout: usize, deltas: Seq<usize>)
    requires
        deltas.len() > 0 || timeout > 0,
    ensures
        total_ms(deltas) >= timeout ==> state_after_updates(RunState::Sleeping(timeout), deltas) == RunState::Running,
        total_ms(deltas) < timeout ==> state_after_updates(RunState::Sleeping(timeout), deltas)
            == RunState::Sleeping((timeout - total_ms(deltas)) as usize),
        total_ms(deltas) >= timeout ==> state_after_updates(RunState::AwaitingIPC(Some(timeout)), deltas)
            == RunState::Running,
        total_ms(deltas) < timeout ==> state_after_updates(RunState::AwaitingIPC(Some(timeout)), deltas)
            == RunState::AwaitingIPC(Some((timeout - total_ms(deltas)) as usize)),
        state_after_updates(RunState::Running, deltas) == RunState::Running,
    decreases deltas.len(),
{
    if deltas.len() > 0 {
        let pre = deltas.drop_last();
        lemma_total_ms_nonneg(pre);
        if pre.len() > 0 || timeout > 0 {
            lemma_timeouts_count_down(timeout, pre);
        } else {
            assert(state_after_updates(RunState::Sleeping(timeout), pre) == RunState::Sleeping(timeout));
            assert(state_after_updates(RunState::AwaitingIPC(Some(timeout)), pre) == RunState::AwaitingIPC(Some(timeout)));
            assert(state_after_updates(RunState::Running, pre) == RunState::Running);
        }
    }
}

/// Timer updates count down nothing but sleeps and timed IPC waits: any
/// other state, an IPC wait without a timeout, a wait for a child, a pause or
/// blocked IO among them, stays as it is however much time passes.
pub proof fn lemma_timers_leave_other_states(state: RunState, deltas: Seq<usize>)
    requires
        !(state is Sleeping),
        !(state matches RunState::AwaitingIPC(Some(_))),
    ensures
        state_after_updates(state, deltas) == state,
    decreases deltas.len(),
{
    if deltas.len() > 0 {
        lemma_timers_leave_other_states(state, deltas.drop_last());
    }
}

proof fn lemma_total_ms_nonneg(deltas: Seq<usize>)
    ensures
        total_ms(deltas) >= 0,
    decreases deltas.len(),
{
    if deltas.len() > 0 {
        lemma_total_ms_nonneg(deltas.drop_last());
    }
}

/// A parent waiting on any child, or on the child that exits, resumes with
/// exactly the exit code of that child; a parent waiting on another child,
/// or not waiting, is left as it was.
pub proof fn lemma_child_exit_code(state: RunState, child_id: ProcessID, code: u32)
    ensures
        state == RunState::WaitingForChild(None) || state == RunState::WaitingForChild(Some(child_id))
            ==> state_after_child_exit(state, child_id, code) == RunState::Resumed(code),
        !(state == RunState::WaitingForChild(None) || state == RunState::WaitingForChild(Some(child_id)))
            ==> state_after_child_exit(state, child_id, code) == state,
{
}

/// Waiting, then the awaited child exiting with `code`, then leaving the
/// wait, hands the parent exactly `code` and leaves it running: `waiting` is
/// the parent after `wait(awaited)`, `resumed` after `child_returned(child,
/// code)`, and `done`, with result `r`, after `resume_from_wait()`.
pub proof fn lemma_wait_returns_exit_code(waiting: Process, resumed: Process, done: Process, awaited: Option<ProcessID>,
    child: ProcessID, code: u32, r: u32)
    requires
        waiting.state == RunState::WaitingForChild(awaited),
        awaited is None || awaited == Some(child),
        resumed.state == state_after_child_exit(waiting.state, child, code),
        match resumed.state {
            RunState::Resumed(c) => r == c && done.state == RunState::Running,
            _ => r == 0 && done.state == resumed.state,
        },
    ensures
        r == code,
        done.state == RunState::Running,
{
}

/// A process that found its queue empty and blocked is woken by the next
/// message sent to it, and its next read, before that message expires,
/// gives exactly that message and its sender, with nothing more to read:
/// `blocked` is the process after `ipc_read` found nothing, and `woken`
/// after `ipc_receive(ticks, from, message, expiration_ticks)`; the read
/// happens at `now`.
pub proof fn lemma_blocked_reader_woken(blocked: Process, woken: Process, ticks: u32, from: ProcessID,
    message: IPCMessage, expiration_ticks: u32, now: u32)
    requires
        blocked.state is AwaitingIPC,
        blocked.ipc_queue@.len() == 0,
        woken.ipc_queue@ == unexpired(blocked.ipc_queue@, ticks).push(
            EnqueuedIPC { packet: IPCPacket { from, message }, expiration_ticks },
        ),
        woken.state == (if blocked.state is AwaitingIPC { RunState::Running } else { blocked.state }),
        now < expiration_ticks,
    ensures
        woken.state == RunState::Running,
        unexpired(woken.ipc_queue@, now).len() == 1,
        unexpired(woken.ipc_queue@, now)[0].packet == (IPCPacket { from, message }),
        !more_unexpired(unexpired(woken.ipc_queue@, now), now),
{
    assert(woken.ipc_queue@.len() == 1);
}

/// The new state when child `child_id` exits with `code`: a parent waiting on
/// that child, or on any child, resumes with the code.
pub open spec fn state_after_child_exit(state: RunState, child_id: ProcessID, code: u32) -> RunState {
    match state {
        RunState::WaitingForChild(None) => RunState::Resumed(code),
        RunState::WaitingForChild(Some(id)) => if id == child_id { RunState::Resumed(code) } else { state },
        _ => state,
    }
}

impl Process {
    /// The kernel stack pointer points inside the stack, above `room` bytes
    /// of free space.
    pub open spec fn stack_room(&self, room: int) -> bool {
        &&& self.kernel_stack is Some
        &&& self.kernel_stack.unwrap().start + room <= self.stack_pointer
        &&& self.stack_pointer <= self.kernel_stack.unwrap().start + self.kernel_stack.unwrap().data@.len()
    }

    /// Generate the init process. This shouldn't be called more than once.
    pub fn initial(current_ticks: u32, stacks: &mut Vec<u8>, page_directory: PageTableReference) -> (r: Self)
        ensures
            final(stacks)@ == old(stacks)@.push(3u8),
            r.id.0 == 0,
            r.parent_id.0 == 0,
            r.memory.wf(),
            r.memory.execution_segments@.len() == 0,
            r.memory.heap_start.0 == 0,
            r.memory.heap_size == 0,
            r.memory.mmap_regions@.len() == 0,
            r.state == RunState::Running,
            r.start_ticks == current_ticks,
            r.ipc_queue@.len() == 0,
            r.open_files@.len() == 0,
            r.kernel_stack is Some,
            r.kernel_stack.unwrap().start == STACKS_TOP - 2 * STACK_SIZE,
            r.kernel_stack.unwrap().data@.len() == STACK_SIZE,
            r.stack_pointer == 0,
            r.page_directory == page_directory,
            r.exec_file is None,
            r.relocations@.len() == 0,
            r.subsystem == Subsystem::Native,
            r.vterm is None,
            r.saved_state == (SavedState { edi: 0, esi: 0, ebp: 0, ebx: 0, edx: 0, ecx: 0, eax: 0 }),
            r.on_exit_vm is None,
            r.current_drive.0 == 0,
            r.memory.memory_top == USER_KERNEL_BARRIER,
    {
        allocate_initial_stacks(stacks);
        let kernel_stack = stack_box_from_index(1);
        Self {
            id: ProcessID::new(0),
            parent_id: ProcessID::new(0),
            memory: MemoryRegions::new(),
            state: RunState::Running,
            start_ticks: current_ticks,
            ipc_queue: IPCQueue::new(),
            open_files: FileMap::with_capacity(3),
            kernel_stack: Some(kernel_stack),
            stack_pointer: 0,
            saved_state: SavedState::empty(),
            page_directory,
            exec_file: None,
            relocations: Vec::new(),
            subsystem: Subsystem::Native,
            on_exit_vm: None,
            vterm: None,
            current_drive: DriveID::new(0),
        }
    }

    pub fn get_id(&self) -> (r: &ProcessID)
        ensures
            *r == self.id,
    {
        &self.id
    }

    pub fn get_parent_id(&self) -> (r: &ProcessID)
        ensures
            *r == self.parent_id,
    {
        &self.parent_id
    }

    pub fn get_exec_file(&self) -> (r: Option<(DriveID, LocalHandle)>)
        ensures
            r == self.exec_file,
    {
        self.exec_file
    }

    /// How long this process has been running, given the current system time
    /// in ticks.
    pub fn uptime_ticks(&self, current_ticks: u32) -> (r: u32)
        requires
            current_ticks >= self.start_ticks,
        ensures
            r == current_ticks - self.start_ticks,
    {
        current_ticks - self.start_ticks
    }

    /// Can the scheduler re-enter this process?
    pub fn can_resume(&self) -> (r: bool)
        ensures
            r == (self.state == RunState::Running || self.state is Resumed),
    {
        match self.state {
            RunState::Running | RunState::Resumed(_) => true,
            _ => false,
        }
    }

    pub fn get_kernel_stack(&self) -> (r: &StackBox)
        requires
            self.kernel_stack is Some,
        ensures
            *r == self.kernel_stack.unwrap(),
    {
        self.kernel_stack.as_ref().unwrap()
    }

    pub fn get_kernel_stack_mut(&mut self) -> (r: &mut StackBox)
        requires
            old(self).kernel_stack is Some,
        ensures
            *r == old(self).kernel_stack.unwrap(),
            final(self).kernel_stack == Some(*final(r)),
            final(self).stack_pointer == old(self).stack_pointer,
            same_except_stack(*old(self), *final(self)),
    {
        self.kernel_stack.as_mut().unwrap()
    }

    /// Reset the kernel stack pointer to the top of the stack.
    pub fn reset_stack_pointer(&mut self)
        requires
            old(self).kernel_stack is Some,
            old(self).kernel_stack.unwrap().start + old(self).kernel_stack.unwrap().data@.len() <= u32::MAX,
            old(self).kernel_stack.unwrap().start + old(self).kernel_stack.unwrap().data@.len() >= 4,
        ensures
            final(self).stack_pointer == old(self).kernel_stack.unwrap().start + old(self).kernel_stack.unwrap().data@.len() - 4,
            final(self).kernel_stack == old(self).kernel_stack,
            same_except_stack(*old(self), *final(self)),
    {
        let stack_end = self.get_stack_range().end;
        self.stack_pointer = stack_end.as_usize() - 4;
    }

    /// The virtual address range of this process's kernel stack.
    pub fn get_stack_range(&self) -> (r: Range<VirtualAddress>)
        requires
            self.kernel_stack is Some,
            self.kernel_stack.unwrap().start + self.kernel_stack.unwrap().data@.len() <= u32::MAX,
        ensures
            r.start.0 == self.kernel_stack.unwrap().start,
            r.end.0 == self.kernel_stack.unwrap().start + self.kernel_stack.unwrap().data@.len(),
    {
        let stack = self.get_kernel_stack();
        let stack_start = stack.start_address();
        let len = stack.len();
        let start = VirtualAddress::new(stack_start as u32);
        let end = start.offset(len);
        Range { start, end }
    }

    /// Push a byte onto the kernel stack.
    pub fn stack_push_u8(&mut self, value: u8)
        requires
            old(self).stack_room(1),
        ensures
            final(self).stack_pointer == old(self).stack_pointer - 1,
            final(self).kernel_stack.unwrap().start == old(self).kernel_stack.unwrap().start,
            final(self).kernel_stack.unwrap().data@ == old(self).kernel_stack.unwrap().data@.update(
                old(self).stack_pointer - 1 - old(self).kernel_stack.unwrap().start, value),
            final(self).kernel_stack is Some,
            same_except_stack(*old(self), *final(self)),
    {
        self.stack_pointer = self.stack_pointer - 1;
        let esp = self.stack_pointer;
        let mut stack = self.kernel_stack.take().unwrap();
        let offset = esp - stack.start;
        stack.data.set(offset, value);
        self.kernel_stack = Some(stack);
    }

    /// Pop a byte off the kernel stack.
    pub fn stack_pop_u8(&mut self) -> (r: u8)
        requires
            old(self).kernel_stack is Some,
            old(self).kernel_stack.unwrap().start <= old(self).stack_pointer,
            old(self).stack_pointer < old(self).kernel_stack.unwrap().start + old(self).kernel_stack.unwrap().data@.len(),
            old(self).stack_pointer < usize::MAX,
        ensures
            r == old(self).kernel_stack.unwrap().data@[old(self).stack_pointer - old(self).kernel_stack.unwrap().start],
            final(self).stack_pointer == old(self).stack_pointer + 1,
            final(self).kernel_stack == old(self).kernel_stack,
            same_except_stack(*old(self), *final(self)),
    {
        let value = {
            let esp = self.stack_pointer;
            let stack = self.get_kernel_stack();
            let offset = esp - stack.start;
            stack.data[offset]
        };
        self.stack_pointer = self.stack_pointer + 1;
        value
    }

    /// Push a 32-bit value onto the kernel stack, little-endian.
    pub fn stack_push_u32(&mut self, value: u32)
        requires
            old(self).stack_room(4),
        ensures
            final(self).stack_pointer == old(self).stack_pointer - 4,
            final(self).kernel_stack is Some,
            final(self).kernel_stack.unwrap().start == old(self).kernel_stack.unwrap().start,
            final(self).kernel_stack.unwrap().data@ == write_u32(old(self).kernel_stack.unwrap().data@,
                old(self).stack_pointer - 4 - old(self).kernel_stack.unwrap().start, value),
            same_except_stack(*old(self), *final(self)),
    {
        self.stack_pointer = self.stack_pointer - 4;
        let esp = self.stack_pointer;
        let mut stack = self.kernel_stack.take().unwrap();
        let offset = esp - stack.start;
        stack.data.set(offset, (value & 0xff) as u8);
        stack.data.set(offset + 1, ((value & 0xff00) >> 8) as u8);
        stack.data.set(offset + 2, ((value & 0xff0000) >> 16) as u8);
        stack.data.set(offset + 3, ((value & 0xff000000) >> 24) as u8);
        self.kernel_stack = Some(stack);
    }

    /// Prepare the kernel stack so that the process enters usermode at the
    /// function at address `func`, with user stack pointer `esp`. Only used
    /// for testing.
    pub fn set_usermode_entrypoint(&mut self, func: u32, esp: u32)
        requires
            old(self).stack_room(20),
        ensures
            final(self).stack_pointer == old(self).stack_pointer - 20,
            final(self).kernel_stack is Some,
            final(self).kernel_stack.unwrap().start == old(self).kernel_stack.unwrap().start,
            ({
                let base = old(self).stack_pointer - old(self).kernel_stack.unwrap().start;
                let d = old(self).kernel_stack.unwrap().data@;
                final(self).kernel_stack.unwrap().data@ == write_u32(write_u32(write_u32(write_u32(write_u32(d,
                    base - 4, 0x23), base - 8, esp), base - 12, 0x200), base - 16, 0x1b), base - 20, func & 0x3fffffff)
            }),
            same_except_stack(*old(self), *final(self)),
    {
        // Stack segment
        self.stack_push_u32(0x23);
        // Stack pointer
        self.stack_push_u32(esp);
        // eflags, with interrupts enabled
        self.stack_push_u32(0x200);
        // Code segment
        self.stack_push_u32(0x1b);
        // Instruction pointer
        self.stack_push_u32(func & 0x3fffffff);
    }

    /// Make the process act as if the given vterm started it.
    pub fn force_vterm(&mut self, index: usize)
        ensures
            *final(self) == (Process { vterm: Some(index), ..*old(self) }),
    {
        self.vterm = Some(index);
    }

    pub fn get_vterm(&self) -> (r: Option<usize>)
        ensures
            r == self.vterm,
    {
        self.vterm
    }

    /// End all execution of the process, and mark its resources for cleanup.
    pub fn terminate(&mut self)
        ensures
            final(self).state == RunState::Terminated,
            only_state_changed(*old(self), *final(self)),
    {
        self.state = RunState::Terminated;
    }

    /// Pause the process for `duration` milliseconds.
    pub fn sleep(&mut self, duration: usize)
        ensures
            final(self).state == RunState::Sleeping(duration),
            only_state_changed(*old(self), *final(self)),
    {
        self.state = RunState::Sleeping(duration);
    }

    /// Pause the process until a signal resumes it.
    pub fn pause(&mut self)
        ensures
            final(self).state == RunState::Paused,
            only_state_changed(*old(self), *final(self)),
    {
        self.state = RunState::Paused;
    }

    /// Resume a paused process; any other process is left as it is.
    pub fn resume(&mut self)
        ensures
            final(self).state == (if old(self).state == RunState::Paused { RunState::Running } else { old(self).state }),
            only_state_changed(*old(self), *final(self)),
    {
        match self.state {
            RunState::Paused => self.state = RunState::Running,
            _ => {},
        }
    }

    /// Block until the given child (or any child) exits.
    pub fn wait(&mut self, child_id: Option<ProcessID>)
        ensures
            final(self).state == RunState::WaitingForChild(child_id),
            only_state_changed(*old(self), *final(self)),
    {
        self.state = RunState::WaitingForChild(child_id);
    }

    /// Leave the Resumed state, returning its code; 0 in any other state.
    pub fn resume_from_wait(&mut self) -> (r: u32)
        ensures
            match old(self).state {
                RunState::Resumed(code) => r == code && final(self).state == RunState::Running,
                _ => r == 0 && final(self).state == old(self).state,
            },
            only_state_changed(*old(self), *final(self)),
    {
        match self.state {
            RunState::Resumed(code) => {
                self.state = RunState::Running;
                code
            },
            _ => 0,
        }
    }

    /// A child has exited with `code`. If the process is waiting on that
    /// child, or on any child, it resumes.
    pub fn child_returned(&mut self, child_id: ProcessID, code: u32)
        ensures
            final(self).state == state_after_child_exit(old(self).state, child_id, code),
            only_state_changed(*old(self), *final(self)),
    {
        let waiting_on = match self.state {
            RunState::WaitingForChild(id) => id,
            _ => return,
        };
        match waiting_on {
            None => self.state = RunState::Resumed(code),
            Some(id) => {
                if id == child_id {
                    self.state = RunState::Resumed(code);
                }
            },
        }
    }

    /// Read an IPC message. If none is available the process blocks until
    /// one is received or the optional timeout expires; it should then read
    /// again.
    pub fn ipc_read(&mut self, current_ticks: u32, timeout: Option<usize>) -> (r: (Option<IPCPacket>, bool))
        ensures
            ({
                let live = unexpired(old(self).ipc_queue@, current_ticks);
                if live.len() == 0 {
                    &&& r == (None::<IPCPacket>, false)
                    &&& final(self).ipc_queue@ == live
                    &&& final(self).state == RunState::AwaitingIPC(timeout)
                } else {
                    &&& r == (Some(live[0].packet), more_unexpired(live, current_ticks))
                    &&& final(self).ipc_queue@ == live.drop_first()
                    &&& final(self).state == old(self).state
                }
            }),
            *final(self) == (Process { ipc_queue: final(self).ipc_queue, state: final(self).state, ..*old(self) }),
    {
        let (first_read, has_more) = self.ipc_queue.read(current_ticks);
        if first_read.is_some() {
            return (first_read, has_more);
        }
        // Nothing in the queue: block until something arrives
        self.state = RunState::AwaitingIPC(timeout);
        (None, false)
    }

    /// Read an IPC message without blocking.
    pub fn ipc_read_unblocking(&mut self, current_ticks: u32) -> (r: (Option<IPCPacket>, bool))
        ensures
            ({
                let live = unexpired(old(self).ipc_queue@, current_ticks);
                if live.len() == 0 {
                    r == (None::<IPCPacket>, false) && final(self).ipc_queue@ == live
                } else {
                    r == (Some(live[0].packet), more_unexpired(live, current_ticks)) && final(self).ipc_queue@ == live.drop_first()
                }
            }),
            *final(self) == (Process { ipc_queue: final(self).ipc_queue, ..*old(self) }),
    {
        self.ipc_queue.read(current_ticks)
    }

    /// Receive an IPC message, valid until `expiration_ticks`. A process
    /// blocked on reading its queue wakes up.
    pub fn ipc_receive(&mut self, current_ticks: u32, from: ProcessID, message: IPCMessage, expiration_ticks: u32)
        ensures
            final(self).ipc_queue@ == unexpired(old(self).ipc_queue@, current_ticks).push(
                EnqueuedIPC { packet: IPCPacket { from, message }, expiration_ticks },
            ),
            final(self).state == (if old(self).state is AwaitingIPC { RunState::Running } else { old(self).state }),
            *final(self) == (Process { ipc_queue: final(self).ipc_queue, state: final(self).state, ..*old(self) }),
    {
        self.ipc_queue.add(from, message, current_ticks, expiration_ticks);
        match self.state {
            RunState::AwaitingIPC(_) => {
                self.state = RunState::Running;
            },
            _ => {},
        }
    }

    /// Count down the timers of sleeping processes and timed IPC waits.
    pub fn update_timeouts(&mut self, delta_ms: usize)
        ensures
            final(self).state == state_after_timeouts(old(self).state, delta_ms),
            only_state_changed(*old(self), *final(self)),
    {
        match self.state {
            RunState::AwaitingIPC(Some(timeout)) => {
                self.state = if timeout <= delta_ms {
                    RunState::Running
                } else {
                    RunState::AwaitingIPC(Some(timeout - delta_ms))
                };
            },
            RunState::Sleeping(timeout) => {
                self.state = if timeout <= delta_ms {
                    RunState::Running
                } else {
                    RunState::Sleeping(timeout - delta_ms)
                };
            },
            _ => {},
        }
    }

    /// Grow the heap by `increment` bytes, returning the previous end of the
    /// heap.
    pub fn increase_heap(&mut self, increment: usize) -> (r: VirtualAddress)
        requires
            old(self).memory.heap_start.0 + old(self).memory.heap_size <= u32::MAX,
            old(self).memory.heap_size + increment <= usize::MAX,
        ensures
            r.0 == old(self).memory.heap_start.0 + old(self).memory.heap_size,
            final(self).memory.heap_size == old(self).memory.heap_size + increment,
            final(self).memory.heap_start == old(self).memory.heap_start,
            final(self).memory.mmap_regions@ == old(self).memory.mmap_regions@,
            final(self).memory.memory_top == old(self).memory.memory_top,
            final(self).memory.execution_segments@ == old(self).memory.execution_segments@,
            same_except_state(*old(self), *final(self)),
            final(self).state == old(self).state,
    {
        let start = self.memory.get_heap_start();
        let prev_size = self.memory.get_heap_size();
        self.memory.set_heap_size(prev_size + increment);
        start.offset(prev_size)
    }

    /// Replace the execution segments for an exec syscall, returning the
    /// previous ones.
    pub fn prepare_exec_mapping(&mut self, exec: Vec<ExecutionSegment>) -> (r: Vec<ExecutionSegment>)
        requires
            segments_fit(exec@),
        ensures
            r@ == old(self).memory.execution_segments@,
            final(self).memory.execution_segments@ == exec@,
            final(self).memory.heap_start.0 == segments_high(exec@),
            final(self).memory.heap_size == 0,
            final(self).memory.memory_top == old(self).memory.memory_top,
            final(self).memory.mmap_regions@ == old(self).memory.mmap_regions@,
            same_except_state(*old(self), *final(self)),
            final(self).state == old(self).state,
            final(self).saved_state == old(self).saved_state,
            final(self).on_exit_vm == old(self).on_exit_vm,
    {
        self.memory.reset_execution_segments(exec)
    }

    /// Change the executable file of this process, returning the previous
    /// one.
    pub fn set_exec_file(&mut self, drive_id: DriveID, handle: LocalHandle) -> (r: Option<(DriveID, LocalHandle)>)
        ensures
            r == old(self).exec_file,
            *final(self) == (Process { exec_file: Some((drive_id, handle)), ..*old(self) }),
    {
        let previous = self.exec_file.take();
        self.exec_file = Some((drive_id, handle));
        previous
    }

    pub fn remove_exec_file(&mut self) -> (r: Option<(DriveID, LocalHandle)>)
        ensures
            r == old(self).exec_file,
            *final(self) == (Process { exec_file: None, ..*old(self) }),
    {
        self.exec_file.take()
    }

    pub fn set_relocations(&mut self, relocations: Vec<Relocation>)
        ensures
            final(self).relocations@ == relocations@,
            *final(self) == (Process { relocations: final(self).relocations, ..*old(self) }),
    {
        self.relocations = relocations;
    }

    pub fn get_relocations(&self) -> (r: &Vec<Relocation>)
        ensures
            r@ == self.relocations@,
    {
        &self.relocations
    }

    /// A copy of this process, with a new ID, a fresh kernel stack, and an
    /// empty IPC queue, running as a child of this one.
    pub fn create_fork(&self, new_id: ProcessID, current_ticks: u32, stacks: &mut Vec<u8>) -> (r: Process)
        requires
            old(stacks)@.len() * 8 + 8 <= usize::MAX,
            forall|i: int| lowest_free(old(stacks)@, i) ==> (i + 1) * STACK_SIZE <= STACKS_TOP,
        ensures
            r.id == new_id,
            r.parent_id == self.id,
            r.memory.mmap_regions@ == self.memory.mmap_regions@,
            r.memory.heap_start == self.memory.heap_start,
            r.memory.heap_size == self.memory.heap_size,
            r.memory.memory_top == self.memory.memory_top,
            segment_views(r.memory.execution_segments@) == segment_views(self.memory.execution_segments@),
            r.state == RunState::Running,
            r.start_ticks == current_ticks,
            r.ipc_queue@.len() == 0,
            r.open_files@ == self.open_files@,
            r.kernel_stack is Some,
            r.kernel_stack.unwrap().data@.len() == STACK_SIZE,
            exists|i: int| lowest_free(old(stacks)@, i)
                && r.kernel_stack.unwrap().start == STACKS_TOP - (i + 1) * STACK_SIZE
                && forall|j: int| #[trigger] slot_taken(final(stacks)@, j) <==> (slot_taken(old(stacks)@, j) || j == i),
            r.stack_pointer == r.kernel_stack.unwrap().start + STACK_SIZE - 4,
            r.page_directory == self.page_directory,
            r.exec_file == self.exec_file,
            r.relocations@ == self.relocations@,
            r.subsystem == Subsystem::Native,
            r.vterm == self.vterm,
            r.current_drive == self.current_drive,
            r.saved_state == (SavedState { edi: 0, esi: 0, ebp: 0, ebx: 0, edx: 0, ecx: 0, eax: 0 }),
            r.on_exit_vm is None,
    {
        let new_stack = allocate_stack(stacks);
        let stack_top = new_stack.start_address() + new_stack.len() - 4;
        let mut relocations: Vec<Relocation> = Vec::new();
        let mut i: usize = 0;
        while i < self.relocations.len()
            invariant
                i <= self.relocations@.len(),
                relocations@ == self.relocations@.subrange(0, i as int),
            decreases self.relocations@.len() - i,
        {
            relocations.push(self.relocations[i]);
            i += 1;
            assert(relocations@ =~= self.relocations@.subrange(0, i as int));
        }
        assert(self.relocations@.subrange(0, i as int) =~= self.relocations@);
        Process {
            id: new_id,
            parent_id: self.id,
            memory: self.memory.clone(),
            state: RunState::Running,
            start_ticks: current_ticks,
            ipc_queue: IPCQueue::new(),
            open_files: self.open_files.clone(),
            kernel_stack: Some(new_stack),
            stack_pointer: stack_top,
            saved_state: SavedState::empty(),
            page_directory: self.page_directory,
            exec_file: self.exec_file,
            relocations,
            subsystem: Subsystem::Native,
            on_exit_vm: None,
            vterm: self.vterm,
            current_drive: self.current_drive,
        }
    }

    /// Add a file opened within a drive to this process, returning its
    /// index in the file map as a FileHandle.
    pub fn open_file(&mut self, drive: DriveID, local_handle: LocalHandle) -> (r: FileHandle)
        ensures
            r.0 == first_empty(old(self).open_files@) as u32,
            first_empty(old(self).open_files@) < old(self).open_files@.len() ==> final(self).open_files@
                == old(self).open_files@.update(first_empty(old(self).open_files@), Some(OpenFile { drive, local_handle })),
            first_empty(old(self).open_files@) == old(self).open_files@.len() ==> final(self).open_files@
                == old(self).open_files@.push(Some(OpenFile { drive, local_handle })),
            *final(self) == (Process { open_files: final(self).open_files, ..*old(self) }),
    {
        let file = OpenFile { drive, local_handle };
        let index = self.open_files.insert(file);
        FileHandle::new(index as u32)
    }

    pub fn get_open_file_info(&self, handle: FileHandle) -> (r: Option<&OpenFile>)
        ensures
            match r {
                Some(f) => handle.0 < self.open_files@.len() && self.open_files@[handle.0 as int] == Some(*f),
                None => handle.0 >= self.open_files@.len() || self.open_files@[handle.0 as int] is None,
            },
    {
        self.open_files.get(handle.as_usize())
    }

    /// Close an open file handle, returning the file it referred to.
    pub fn close_file(&mut self, handle: FileHandle) -> (r: Option<OpenFile>)
        ensures
            handle.0 < old(self).open_files@.len() ==> r == old(self).open_files@[handle.0 as int]
                && final(self).open_files@ == old(self).open_files@.update(handle.0 as int, None),
            handle.0 >= old(self).open_files@.len() ==> r is None && final(self).open_files@ == old(self).open_files@,
            *final(self) == (Process { open_files: final(self).open_files, ..*old(self) }),
    {
        self.open_files.remove(handle.as_usize())
    }

    /// Duplicate an open file descriptor, into a specific handle or into the
    /// first free one. Returns the file previously open at the target handle,
    /// if one was overwritten, and the handle that now refers to the file.
    pub fn duplicate_file_descriptor(&mut self, old_handle: FileHandle, new: Option<FileHandle>) -> (r: (Option<OpenFile>, Option<FileHandle>))
        requires
            new matches Some(h) ==> h.0 < usize::MAX,
        ensures
            ({
                let files = old(self).open_files@;
                if old_handle.0 >= files.len() || files[old_handle.0 as int] is None {
                    r == (None::<OpenFile>, None::<FileHandle>) && final(self).open_files@ == files
                } else {
                    let entry = files[old_handle.0 as int];
                    match new {
                        Some(h) => {
                            &&& r.1 == Some(h)
                            &&& h.0 < files.len() ==> r.0 == files[h.0 as int] && final(self).open_files@ == files.update(h.0 as int, entry)
                            &&& h.0 >= files.len() ==> r.0 is None && final(self).open_files@.len() == h.0 + 1
                                && final(self).open_files@[h.0 as int] == entry
                                && forall|j: int| 0 <= j < h.0 ==> #[trigger] final(self).open_files@[j]
                                    == if j < files.len() { files[j] } else { None }
                        },
                        None => {
                            &&& r == (None::<OpenFile>, Some(FileHandle(first_empty(files) as u32)))
                            &&& first_empty(files) < files.len() ==> final(self).open_files@ == files.update(first_empty(files), entry)
                            &&& first_empty(files) == files.len() ==> final(self).open_files@ == files.push(entry)
                        },
                    }
                }
            }),
            *final(self) == (Process { open_files: final(self).open_files, ..*old(self) }),
    {
        let copied_entry = match self.open_files.get(old_handle.as_usize()) {
            Some(entry) => *entry,
            None => return (None, None),
        };
        match new {
            Some(new_handle) => {
                let old_value = self.open_files.replace(new_handle.as_usize(), copied_entry);
                (old_value, Some(new_handle))
            },
            None => {
                let new_handle = FileHandle::new(self.open_files.insert(copied_entry) as u32);
                (None, Some(new_handle))
            },
        }
    }

    /// Mark the process as blocked on file IO.
    pub fn io_block(&mut self, timeout: Option<usize>)
        ensures
            final(self).state == RunState::FileIO(timeout),
            only_state_changed(*old(self), *final(self)),
    {
        self.state = RunState::FileIO(timeout);
    }

    /// Wake a process blocked on file IO.
    pub fn io_resume(&mut self)
        ensures
            final(self).state == (if old(self).state is FileIO { RunState::Running } else { old(self).state }),
            only_state_changed(*old(self), *final(self)),
    {
        match self.state {
            RunState::FileIO(_) => {
                self.state = RunState::Running;
            },
            _ => {},
        }
    }

    /// Mark the process as blocked on hardware IO.
    pub fn hardware_block(&mut self, timeout: Option<usize>)
        ensures
            final(self).state == RunState::HardwareIO(timeout),
            only_state_changed(*old(self), *final(self)),
    {
        self.state = RunState::HardwareIO(timeout);
    }

    /// Wake a process blocked on hardware IO.
    pub fn hardware_resume(&mut self)
        ensures
            final(self).state == (if old(self).state is HardwareIO { RunState::Running } else { old(self).state }),
            only_state_changed(*old(self), *final(self)),
    {
        match self.state {
            RunState::HardwareIO(_) => {
                self.state = RunState::Running;
            },
            _ => {},
        }
    }

    /// Save a set of stashed registers.
    pub fn save_state(&mut self, state: &SavedState)
        ensures
            final(self).saved_state == *state,
            same_except_state(*old(self), *final(self)),
            final(self).state == old(self).state,
    {
        self.saved_state = *state;
    }

    /// Copy out the last saved set of registers.
    pub fn restore_state(&self, state: &mut SavedState)
        ensures
            *final(state) == self.saved_state,
    {
        *state = self.saved_state;
    }
}

} // verus!
