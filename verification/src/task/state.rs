//! The run state of a process.
use vstd::prelude::*;
use super::id::ProcessID;

verus! {

/// How the kernel treats a process, mostly describing the ways in which an
/// existing process may not be actively running.
///
/// Running processes are considered by the scheduler. A terminated process
/// stays in memory, without executing, until the kernel cleans it up.
/// Sleeping counts down the time left before the process resumes. A Paused
/// process waits for a signal to wake it. A process listening for IPC
/// messages, waiting for a child, or blocked on file or hardware IO is not
/// entered by the scheduler. A Resumed process is entered next with the
/// stored return code, then returns to Running.
#[derive(Copy, Clone, Debug, Eq, PartialEq, Structural)]
pub enum RunState {
    /// Running normally
    Running,
    /// Exited or terminated; the kernel should clean it up
    Terminated,
    /// Sleeping for a fixed amount of time (ms left)
    Sleeping(usize),
    /// Paused because of a signal
    Paused,
    /// Waiting for IPC messages, with an optional timeout
    AwaitingIPC(Option<usize>),
    /// Waiting for a child process (or any child) to finish executing
    WaitingForChild(Option<ProcessID>),
    /// Just resumed from a waiting state, with a return code
    Resumed(u32),
    /// Executing a signal handler
    HandlingSignal(u32),
    /// Executing a user-mode interrupt handler
    HandlingInterrupt(u32),
    /// Blocked on file IO, with an optional timeout
    FileIO(Option<usize>),
    /// Blocked on hardware IO, with an optional timeout
    HardwareIO(Option<usize>),
}

} // verus!
