//! The legacy process table: processes by ID, and which one is current.
use vstd::prelude::*;
use crate::memory::page_table::PageTableReference;
use super::id::ProcessID;
use super::process_state::ProcessState;

verus! {

/// No two processes of the list share an ID.
pub open spec fn pids_distinct(s: Seq<ProcessState>) -> bool {
    forall|i: int, j: int| 0 <= i < s.len() && 0 <= j < s.len() && i != j ==> s[i].pid != s[j].pid
}

/// The process with ID `pid` in the list, if any.
pub open spec fn find(s: Seq<ProcessState>, pid: ProcessID) -> Option<ProcessState> {
    if exists|i: int| 0 <= i < s.len() && #[trigger] s[i].pid == pid {
        Some(s[choose|i: int| 0 <= i < s.len() && #[trigger] s[i].pid == pid])
    } else {
        None
    }
}

/// Mapping of PIDs to process structures. Also keeps track of the "current"
/// process.
pub struct ProcessMap {
    pub current: ProcessID,
    pub next_pid: u32,
    pub processes: Vec<ProcessState>,
}

impl ProcessMap {
    pub open spec fn wf(&self) -> bool {
        pids_distinct(self.processes@)
    }

    /// The process with ID `pid`, if any.
    pub open spec fn lookup(&self, pid: ProcessID) -> Option<ProcessState> {
        find(self.processes@, pid)
    }

    pub fn new() -> (r: ProcessMap)
        ensures
            r.wf(),
            r.current.0 == 0,
            r.next_pid == 1,
            r.processes@.len() == 0,
    {
        ProcessMap { current: ProcessID::new(0), next_pid: 1, processes: Vec::new() }
    }

    /// Hand out the next process ID; IDs wrap around after the largest.
    pub fn get_next_pid(&mut self) -> (r: ProcessID)
        ensures
            r.0 == old(self).next_pid,
            final(self).next_pid == if old(self).next_pid == u32::MAX { 0 } else { old(self).next_pid + 1 },
            final(self).current == old(self).current,
            final(self).processes@ == old(self).processes@,
    {
        let pid = self.next_pid;
        self.next_pid = self.next_pid.wrapping_add(1);
        ProcessID::new(pid)
    }

    fn position(&self, pid: ProcessID) -> (r: Option<usize>)
        requires
            self.wf(),
        ensures
            match r {
                Some(i) => i < self.processes@.len() && self.processes@[i as int].pid == pid
                    && self.lookup(pid) == Some(self.processes@[i as int]),
                None => self.lookup(pid) is None,
            },
    {
        let mut i: usize = 0;
        while i < self.processes.len()
            invariant
                i <= self.processes@.len(),
                pids_distinct(self.processes@),
                forall|j: int| 0 <= j < i ==> #[trigger] self.processes@[j].pid != pid,
            decreases self.processes@.len() - i,
        {
            if self.processes[i].pid.0 == pid.0 {
                proof {
                    assert(self.processes@[i as int].pid == pid);
                    let k = choose|k: int| 0 <= k < self.processes@.len() && #[trigger] self.processes@[k].pid == pid;
                    assert(k == i);
                }
                return Some(i);
            }
            i += 1;
        }
        None
    }

    /// Add a process, replacing one with the same ID.
    fn insert(&mut self, process: ProcessState)
        requires
            old(self).wf(),
        ensures
            final(self).wf(),
            final(self).current == old(self).current,
            final(self).next_pid == old(self).next_pid,
            final(self).lookup(process.pid) == Some(process),
            forall|pid: ProcessID| pid != process.pid ==> #[trigger] final(self).lookup(pid) == old(self).lookup(pid),
    {
        let ghost before = self.processes@;
        match self.position(process.pid) {
            Some(i) => {
                self.processes.set(i, process);
                proof {
                    let after = self.processes@;
                    assert forall|pid: ProcessID| pid != process.pid implies #[trigger] find(after, pid) == find(before, pid) by {
                        if exists|k: int| 0 <= k < before.len() && #[trigger] before[k].pid == pid {
                            let k = choose|k: int| 0 <= k < before.len() && #[trigger] before[k].pid == pid;
                            assert(after[k].pid == pid);
                            let k2 = choose|k: int| 0 <= k < after.len() && #[trigger] after[k].pid == pid;
                            assert(k2 != i);
                            assert(k == k2);
                        } else {
                            if exists|k: int| 0 <= k < after.len() && #[trigger] after[k].pid == pid {
                                let k = choose|k: int| 0 <= k < after.len() && #[trigger] after[k].pid == pid;
                                assert(before[k].pid == pid);
                            }
                        }
                    }
                    assert(after[i as int].pid == process.pid);
                }
            },
            None => {
                self.processes.push(process);
                proof {
                    let after = self.processes@;
                    let n = before.len() as int;
                    assert(after[n].pid == process.pid);
                    assert forall|pid: ProcessID| pid != process.pid implies #[trigger] find(after, pid) == find(before, pid) by {
                        if exists|k: int| 0 <= k < before.len() && #[trigger] before[k].pid == pid {
                            let k = choose|k: int| 0 <= k < before.len() && #[trigger] before[k].pid == pid;
                            assert(after[k].pid == pid);
                            let k2 = choose|k: int| 0 <= k < after.len() && #[trigger] after[k].pid == pid;
                            assert(k == k2);
                        } else {
                            if exists|k: int| 0 <= k < after.len() && #[trigger] after[k].pid == pid {
                                let k = choose|k: int| 0 <= k < after.len() && #[trigger] after[k].pid == pid;
                                assert(k != n);
                                assert(before[k].pid == pid);
                            }
                        }
                    }
                    let k2 = choose|k: int| 0 <= k < after.len() && #[trigger] after[k].pid == process.pid;
                    assert(k2 == n);
                }
            },
        }
    }

    /// Create the init process with the next ID, running in the given page
    /// directory.
    pub fn spawn_first_process(&mut self, page_directory: PageTableReference) -> (r: ProcessID)
        requires
            old(self).wf(),
        ensures
            final(self).wf(),
            r.0 == old(self).next_pid,
            final(self).lookup(r) == Some(ProcessState::first_spec(r, page_directory)),
            final(self).current == old(self).current,
    {
        let pid = self.get_next_pid();
        let first = ProcessState::first(pid, page_directory);
        self.insert(first);
        pid
    }

    /// Fork the current process into a child with the next ID.
    pub fn fork_current(&mut self, page_directory: PageTableReference) -> (r: ProcessID)
        requires
            old(self).wf(),
            old(self).lookup(old(self).current) is Some,
        ensures
            final(self).wf(),
            r.0 == old(self).next_pid,
            final(self).lookup(r) matches Some(child) && child.parent == old(self).current
                && child.page_directory == page_directory,
            final(self).current == old(self).current,
    {
        let pid = self.get_next_pid();
        let i = self.position(self.current).unwrap();
        let next = self.processes[i].fork(pid, page_directory);
        self.insert(next);
        pid
    }

    pub fn get_process(&self, pid: ProcessID) -> (r: Option<&ProcessState>)
        requires
            self.wf(),
        ensures
            match r {
                Some(p) => self.lookup(pid) == Some(*p),
                None => self.lookup(pid) is None,
            },
    {
        match self.position(pid) {
            Some(i) => Some(&self.processes[i]),
            None => None,
        }
    }

    pub fn get_current_process(&self) -> (r: Option<&ProcessState>)
        requires
            self.wf(),
        ensures
            match r {
                Some(p) => self.lookup(self.current) == Some(*p),
                None => self.lookup(self.current) is None,
            },
    {
        self.get_process(self.current)
    }

    pub fn make_current(&mut self, pid: ProcessID)
        ensures
            final(self).current == pid,
            final(self).next_pid == old(self).next_pid,
            final(self).processes@ == old(self).processes@,
    {
        self.current = pid;
    }
}

impl ProcessState {
    /// What `first` builds.
    pub open spec fn first_spec(pid: ProcessID, page_directory: PageTableReference) -> ProcessState {
        ProcessState {
            pid,
            parent: pid,
            heap_break: crate::memory::address::VirtualAddress(0),
            page_directory,
            kernel_esp: 0,
            run_state: super::process_state::RunState::Running,
            subsystem: super::subsystem::Subsystem::Native,
            exit_code: 0,
        }
    }
}

} // verus!
