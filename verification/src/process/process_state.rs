//! A process of the legacy process table, with its run state and the exit
//! code it reports to its parent.
use vstd::prelude::*;
use crate::memory::address::VirtualAddress;
use crate::memory::page_table::PageTableReference;
use crate::time::system::MS_PER_TICK;
use super::id::ProcessID;
use super::subsystem::{DosSubsystemMetadata, Subsystem};

verus! {

/// Where the kernel stack of a legacy process starts.
pub const STACK_START: u32 = 0xffbf0000;
/// Size of the kernel stack of a legacy process.
pub const STACK_SIZE: usize = 0xf000;

/// Current state of the process
#[derive(Copy, Clone, Debug, PartialEq, Eq, Structural)]
pub enum RunState {
    /// Running normally
    Running,
    /// Sleeping for a fixed amount of time
    Sleeping(usize),
    /// Paused because of a signal
    Paused,
    /// Blocked on some external factor
    Blocked(BlockReason),
    /// Just resumed from a Blocked state. This is quickly replaced with a
    /// Running state once the return code has been processed.
    Resumed(u32),
    /// Process has exited, or been terminated. Waiting to be cleaned up
    Terminated,
}

/// Different ways a process can be Blocked
#[derive(Copy, Clone, Debug, PartialEq, Eq, Structural)]
pub enum BlockReason {
    /// Just waiting for a resume() call
    Nothing,
    /// Waiting for a child to exit
    Child(ProcessID),
}

/// The exit status reported for a process: the low byte of the code, shifted
/// up one byte, with the terminating signal in the low 7 bits.
pub open spec fn exit_status(signal: u32, code: u32) -> u32 {
    (((code % 0x100) * 0x100) + signal % 0x80) as u32
}

/// Compute the exit status of a process ended by `signal` with `code`.
pub fn exit_code(signal: u32, code: u32) -> (r: u32)
    ensures
        r == exit_status(signal, code),
{
    assert(((code & 0xff) << 8) | (signal & 0x7f) == (((code % 0x100) * 0x100) + signal % 0x80) as u32) by (bit_vector);
    ((code & 0xff) << 8) | (signal & 0x7f)
}

pub struct ProcessState {
    pub pid: ProcessID,
    pub parent: ProcessID,
    pub heap_break: VirtualAddress,
    pub page_directory: PageTableReference,
    pub kernel_esp: usize,
    pub run_state: RunState,
    pub subsystem: Subsystem,
    pub exit_code: u32,
}

impl ProcessState {
    /// The init process, which is its own parent, running in the given page
    /// directory.
    pub fn first(pid: ProcessID, page_directory: PageTableReference) -> (r: ProcessState)
        ensures
            r.pid == pid,
            r.parent == pid,
            r.heap_break.0 == 0,
            r.page_directory == page_directory,
            r.kernel_esp == 0,
            r.run_state == RunState::Running,
            r.subsystem == Subsystem::Native,
            r.exit_code == 0,
    {
        ProcessState {
            pid,
            parent: pid,
            heap_break: VirtualAddress::new(0),
            page_directory,
            kernel_esp: 0,
            run_state: RunState::Running,
            subsystem: Subsystem::Native,
            exit_code: 0,
        }
    }

    /// A child of this process with ID `pid`, in the given page directory:
    /// it keeps the heap break, runs natively, and starts at the top of its
    /// kernel stack.
    pub fn fork(&self, pid: ProcessID, page_directory: PageTableReference) -> (r: ProcessState)
        ensures
            r.pid == pid,
            r.parent == self.pid,
            r.heap_break == self.heap_break,
            r.page_directory == page_directory,
            r.kernel_esp == STACK_START + STACK_SIZE - 4,
            r.run_state == RunState::Running,
            r.subsystem == Subsystem::Native,
            r.exit_code == 0,
    {
        ProcessState {
            pid,
            parent: self.pid,
            heap_break: self.heap_break,
            page_directory,
            kernel_esp: STACK_START as usize + STACK_SIZE - 4,
            run_state: RunState::Running,
            subsystem: Subsystem::Native,
            exit_code: 0,
        }
    }

    pub fn get_id(&self) -> (r: ProcessID)
        ensures
            r == self.pid,
    {
        self.pid
    }

    pub fn get_parent(&self) -> (r: ProcessID)
        ensures
            r == self.parent,
    {
        self.parent
    }

    pub fn get_page_directory(&self) -> (r: &PageTableReference)
        ensures
            *r == self.page_directory,
    {
        &self.page_directory
    }

    pub fn get_kernel_stack_pointer(&self) -> (r: usize)
        ensures
            r == self.kernel_esp,
    {
        self.kernel_esp
    }

    pub fn get_exit_code(&self) -> (r: u32)
        ensures
            r == self.exit_code,
    {
        self.exit_code
    }

    pub fn set_exit_code(&mut self, code: u32)
        ensures
            *final(self) == (ProcessState { exit_code: code, ..*old(self) }),
    {
        self.exit_code = code;
    }

    pub fn sleep(&mut self, ms: usize)
        ensures
            *final(self) == (ProcessState { run_state: RunState::Sleeping(ms), ..*old(self) }),
    {
        self.run_state = RunState::Sleeping(ms);
    }

    /// One timer tick passes: a sleeping process counts down, and wakes once
    /// no more than a tick was left.
    pub fn update_tick(&mut self)
        ensures
            *final(self) == (ProcessState {
                run_state: match old(self).run_state {
                    RunState::Sleeping(d) => if d > MS_PER_TICK {
                        RunState::Sleeping((d - MS_PER_TICK) as usize)
                    } else {
                        RunState::Running
                    },
                    s => s,
                },
                ..*old(self)
            }),
    {
        match self.run_state {
            RunState::Sleeping(duration) => {
                if duration > MS_PER_TICK {
                    self.run_state = RunState::Sleeping(duration - MS_PER_TICK);
                    return;
                }
                self.run_state = RunState::Running;
            },
            _ => {},
        }
    }

    pub fn is_running(&self) -> (r: bool)
        ensures
            r == (self.run_state == RunState::Running || self.run_state is Resumed),
    {
        match self.run_state {
            RunState::Running => true,
            RunState::Resumed(_) => true,
            _ => false,
        }
    }

    /// Put the process in uninterruptible sleep, waiting for a resource. It
    /// can only be awoken with `resume`.
    pub fn block(&mut self)
        ensures
            *final(self) == (ProcessState { run_state: RunState::Blocked(BlockReason::Nothing), ..*old(self) }),
    {
        self.run_state = RunState::Blocked(BlockReason::Nothing);
    }

    pub fn block_on_child(&mut self, id: ProcessID)
        ensures
            *final(self) == (ProcessState { run_state: RunState::Blocked(BlockReason::Child(id)), ..*old(self) }),
    {
        self.run_state = RunState::Blocked(BlockReason::Child(id));
    }

    /// Wake a blocked process; any other process is left as it is.
    pub fn resume(&mut self)
        ensures
            *final(self) == (ProcessState {
                run_state: if old(self).run_state is Blocked { RunState::Running } else { old(self).run_state },
                ..*old(self)
            }),
    {
        match self.run_state {
            RunState::Blocked(_) => {
                self.run_state = RunState::Running;
            },
            _ => {},
        }
    }

    /// Kill the process, because it called exit() or a terminating signal
    /// was sent. Returns the process's ID and its parent's, whose
    /// `child_exited` the table calls next.
    pub fn terminate(&mut self, signal: u32, code: u32) -> (r: (ProcessID, ProcessID))
        ensures
            *final(self) == (ProcessState {
                exit_code: exit_status(signal, code),
                run_state: RunState::Terminated,
                ..*old(self)
            }),
            r == (old(self).pid, old(self).parent),
    {
        self.set_exit_code(exit_code(signal, code));
        self.run_state = RunState::Terminated;
        (self.get_id(), self.get_parent())
    }

    pub fn exit(&mut self, code: u32) -> (r: (ProcessID, ProcessID))
        ensures
            *final(self) == (ProcessState {
                exit_code: exit_status(0, code),
                run_state: RunState::Terminated,
                ..*old(self)
            }),
            r == (old(self).pid, old(self).parent),
    {
        self.terminate(0, code)
    }

    /// A child exited with `code`: a process blocked on that child resumes
    /// with the code.
    pub fn child_exited(&mut self, child: ProcessID, code: u32)
        ensures
            *final(self) == (ProcessState {
                run_state: if old(self).run_state == RunState::Blocked(BlockReason::Child(child)) {
                    RunState::Resumed(code)
                } else {
                    old(self).run_state
                },
                ..*old(self)
            }),
    {
        match self.run_state {
            RunState::Blocked(BlockReason::Child(id)) => {
                if id == child {
                    self.run_state = RunState::Resumed(code);
                }
            },
            _ => {},
        }
    }

    /// Leave the Resumed state, returning its code; 0 in any other state.
    pub fn get_resume_code(&mut self) -> (r: u32)
        ensures
            match old(self).run_state {
                RunState::Resumed(code) => r == code
                    && *final(self) == (ProcessState { run_state: RunState::Running, ..*old(self) }),
                _ => r == 0 && *final(self) == *old(self),
            },
    {
        match self.run_state {
            RunState::Resumed(code) => {
                self.run_state = RunState::Running;
                code
            },
            _ => 0,
        }
    }

    pub fn is_vm8086(&self) -> (r: bool)
        ensures
            r == (self.subsystem is DOS),
    {
        match self.subsystem {
            Subsystem::DOS(_) => true,
            _ => false,
        }
    }

    pub fn get_vm8086_metadata(&self) -> (r: Option<DosSubsystemMetadata>)
        ensures
            r == match self.subsystem {
                Subsystem::DOS(meta) => Some(meta),
                _ => None::<DosSubsystemMetadata>,
            },
    {
        match self.subsystem {
            Subsystem::DOS(meta) => Some(meta),
            _ => None,
        }
    }
}

} // verus!
