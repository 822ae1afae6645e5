//! The table of all processes, and the scheduler's choice of which one runs
//! next. Processes are kept in order of their IDs; the scheduler walks that
//! order, starting after the current process and wrapping around.
use vstd::prelude::*;
use crate::memory::page_table::PageTableReference;
use super::id::{IDGenerator, ProcessID};
use super::memory::segment_views;
use super::process::{only_state_changed, state_after_timeouts, write_u32, Process};
use super::stack::{duplicate_stack, free_stack, lowest_free, slot_taken, STACKS_TOP, STACK_SIZE};
use super::state::RunState;

verus! {

/// May the scheduler enter this process?
pub open spec fn runnable(p: Process) -> bool {
    p.state == RunState::Running || p.state is Resumed
}

/// Process IDs strictly increase along the table.
pub open spec fn ids_increasing(s: Seq<Process>) -> bool {
    forall|i: int, j: int| 0 <= i < j < s.len() ==> s[i].id.0 < s[j].id.0
}

/// A process the scheduler may move to from `current`; with `after`, only
/// one whose ID comes after the current one.
pub open spec fn candidate(p: Process, current: ProcessID, after: bool) -> bool {
    &&& runnable(p)
    &&& p.id != current
    &&& after ==> p.id.0 > current.0
}

/// `i` is the first position of the table holding a candidate.
pub open spec fn first_candidate(s: Seq<Process>, current: ProcessID, after: bool, i: int) -> bool {
    &&& 0 <= i < s.len()
    &&& candidate(s[i], current, after)
    &&& forall|j: int| 0 <= j < i ==> !candidate(#[trigger] s[j], current, after)
}

/// The process the scheduler moves to from `current`: the first runnable
/// process after it in table order, else the first runnable one from the
/// start of the table; `None` when no other process can run.
pub open spec fn next_process(s: Seq<Process>, current: ProcessID) -> Option<ProcessID> {
    if exists|i: int| first_candidate(s, current, true, i) {
        Some(s[choose|i: int| first_candidate(s, current, true, i)].id)
    } else if exists|i: int| first_candidate(s, current, false, i) {
        Some(s[choose|i: int| first_candidate(s, current, false, i)].id)
    } else {
        None
    }
}

/// A kernel stack of the standard size, inside the stack area.
pub open spec fn has_kernel_stack(p: Process) -> bool {
    &&& p.kernel_stack is Some
    &&& p.kernel_stack.unwrap().data@.len() == STACK_SIZE
    &&& p.kernel_stack.unwrap().start + STACK_SIZE <= STACKS_TOP
}

proof fn lemma_first_candidate_unique(s: Seq<Process>, current: ProcessID, after: bool, i: int, k: int)
    requires
        first_candidate(s, current, after, i),
        first_candidate(s, current, after, k),
    ensures
        i == k,
{
    if i < k {
        assert(!candidate(s[i], current, after));
    } else if k < i {
        assert(!candidate(s[k], current, after));
    }
}

/// Whoever the scheduler picks is a runnable process of the table other than
/// the current one; it picks nobody only when no other process can run.
pub proof fn lemma_next_process_runnable(s: Seq<Process>, current: ProcessID)
    ensures
        next_process(s, current) matches Some(id) ==> exists|i: int|
            0 <= i < s.len() && s[i].id == id && id != current && #[trigger] runnable(s[i]),
        next_process(s, current) is None <==> forall|i: int|
            0 <= i < s.len() ==> !(runnable(#[trigger] s[i]) && s[i].id != current),
{
    if exists|i: int| first_candidate(s, current, true, i) {
        let i = choose|i: int| first_candidate(s, current, true, i);
        assert(runnable(s[i]));
    } else if exists|i: int| first_candidate(s, current, false, i) {
        let i = choose|i: int| first_candidate(s, current, false, i);
        assert(runnable(s[i]));
    } else {
        assert forall|i: int| 0 <= i < s.len() implies !(runnable(#[trigger] s[i]) && s[i].id != current) by {
            if runnable(s[i]) && s[i].id != current {
                lemma_some_candidate_has_first(s, current, false, i);
            }
        }
    }
}

proof fn lemma_some_candidate_has_first(s: Seq<Process>, current: ProcessID, after: bool, i: int)
    requires
        0 <= i < s.len(),
        candidate(s[i], current, after),
    ensures
        exists|k: int| first_candidate(s, current, after, k),
    decreases i,
{
    if forall|j: int| 0 <= j < i ==> !candidate(#[trigger] s[j], current, after) {
        assert(first_candidate(s, current, after, i));
    } else {
        let j = choose|j: int| 0 <= j < i && candidate(#[trigger] s[j], current, after);
        lemma_some_candidate_has_first(s, current, after, j);
    }
}

/// The scheduler goes round the processes in order of their IDs: it moves
/// to the runnable process with the smallest ID above the current one, and
/// when there is none it wraps round to the runnable process with the
/// smallest ID of all (other than the current one).
pub proof fn lemma_round_robin(s: Seq<Process>, current: ProcessID)
    requires
        ids_increasing(s),
    ensures
        (exists|i: int| 0 <= i < s.len() && #[trigger] candidate(s[i], current, true)) ==> {
            &&& next_process(s, current) matches Some(id) && id.0 > current.0
            &&& forall|j: int| 0 <= j < s.len() && #[trigger] candidate(s[j], current, true)
                ==> (next_process(s, current) matches Some(id) && id.0 <= s[j].id.0)
        },
        !(exists|i: int| 0 <= i < s.len() && #[trigger] candidate(s[i], current, true)) ==> {
            forall|j: int| 0 <= j < s.len() && #[trigger] candidate(s[j], current, false)
                ==> (next_process(s, current) matches Some(id) && id.0 <= s[j].id.0)
        },
{
    if exists|i: int| 0 <= i < s.len() && #[trigger] candidate(s[i], current, true) {
        let i0 = choose|i: int| 0 <= i < s.len() && #[trigger] candidate(s[i], current, true);
        lemma_some_candidate_has_first(s, current, true, i0);
        let i = choose|i: int| first_candidate(s, current, true, i);
        assert forall|j: int| 0 <= j < s.len() && #[trigger] candidate(s[j], current, true)
            implies s[i].id.0 <= s[j].id.0 by {
            if j < i {
                assert(!candidate(s[j], current, true));
            }
        }
    } else {
        assert forall|j: int| 0 <= j < s.len() && #[trigger] candidate(s[j], current, false)
            implies (next_process(s, current) matches Some(id) && id.0 <= s[j].id.0) by {
            lemma_some_candidate_has_first(s, current, false, j);
            let i = choose|i: int| first_candidate(s, current, false, i);
            assert(!exists|k: int| first_candidate(s, current, true, k));
            if j < i {
                assert(!candidate(s[j], current, false));
            }
        }
    }
}

/// Two tables that differ at most at position `i`.
pub open spec fn changed_only_at(a: Seq<Process>, b: Seq<Process>, i: int) -> bool {
    &&& a.len() == b.len()
    &&& forall|j: int| 0 <= j < a.len() && j != i ==> #[trigger] b[j] == a[j]
}

/// The kernel stack of a forked child: a copy of the parent's above its
/// lowest page, with the saved `eax` slot of the syscall frame cleared to 0.
pub open spec fn forked_stack(parent: Seq<u8>, child: Seq<u8>) -> bool {
    &&& child.len() == STACK_SIZE
    &&& forall|j: int| 0x1000 <= j < STACK_SIZE ==> #[trigger] child[j]
        == if STACK_SIZE - 28 <= j < STACK_SIZE - 24 { 0u8 } else { parent[j] }
}

/// Changing one process of the table without touching its ID or kernel stack
/// keeps the table well formed, with the same IDs at the same positions.
pub proof fn lemma_slot_change_keeps_table(a: TaskMap, b: TaskMap, i: int)
    requires
        a.wf(),
        0 <= i < a.processes@.len(),
        changed_only_at(a.processes@, b.processes@, i),
        b.processes@[i].id == a.processes@[i].id,
        b.next_id == a.next_id,
        has_kernel_stack(b.processes@[i]),
    ensures
        b.wf(),
        forall|id: ProcessID| #[trigger] b.has(id) <==> a.has(id),
        forall|id: ProcessID| a.has(id) ==> #[trigger] b.index_of(id) == a.index_of(id),
        forall|id: ProcessID| a.has(id) && a.index_of(id) != i ==> #[trigger] b.process(id) == a.process(id),
{
    let s = a.processes@;
    let t = b.processes@;
    assert forall|x: int, y: int| 0 <= x < y < t.len() implies t[x].id.0 < t[y].id.0 by {
        assert(s[x].id.0 < s[y].id.0);
        assert(t[x].id == s[x].id);
        assert(t[y].id == s[y].id);
    }
    assert forall|x: int| 0 <= x < t.len() implies has_kernel_stack(#[trigger] t[x]) by {
        if x != i {
            assert(has_kernel_stack(s[x]));
        }
    }
    assert forall|id: ProcessID| #[trigger] b.has(id) <==> a.has(id) by {
        if b.has(id) {
            let k = b.index_of(id);
            assert(s[k].id == id);
        }
        if a.has(id) {
            let k = a.index_of(id);
            assert(t[k].id == id);
        }
    }
    assert forall|id: ProcessID| a.has(id) implies #[trigger] b.index_of(id) == a.index_of(id) by {
        let k = a.index_of(id);
        assert(t[k].id == id);
        b.lemma_index_unique(id, k);
    }
}

/// All processes, in order of their IDs, with the ID of the one that is
/// running, the source of new IDs and the bitmap of kernel stack slots.
pub struct TaskMap {
    pub processes: Vec<Process>,
    pub current_id: ProcessID,
    pub next_id: IDGenerator,
    pub stacks: Vec<u8>,
}

impl TaskMap {
    /// The table is ordered by ID, and every process owns a kernel stack.
    pub open spec fn wf(&self) -> bool {
        &&& ids_increasing(self.processes@)
        &&& forall|i: int| 0 <= i < self.processes@.len() ==> has_kernel_stack(#[trigger] self.processes@[i])
        &&& forall|i: int| 0 <= i < self.processes@.len() ==> (#[trigger] self.processes@[i]).id.0 < self.next_id.0
    }

    /// The table has a process with this ID.
    pub open spec fn has(&self, id: ProcessID) -> bool {
        exists|i: int| 0 <= i < self.processes@.len() && #[trigger] self.processes@[i].id == id
    }

    /// The position of a process in the table.
    pub open spec fn index_of(&self, id: ProcessID) -> int {
        choose|i: int| 0 <= i < self.processes@.len() && #[trigger] self.processes@[i].id == id
    }

    /// The process with this ID.
    pub open spec fn process(&self, id: ProcessID) -> Process {
        self.processes@[self.index_of(id)]
    }

    /// The ID of the running process.
    pub open spec fn current(&self) -> ProcessID {
        self.current_id
    }

    /// The position of the process with ID `id`, if there is one.
    pub fn position(&self, id: ProcessID) -> (r: Option<usize>)
        requires
            self.wf(),
        ensures
            match r {
                Some(i) => i < self.processes@.len() && self.processes@[i as int].id == id
                    && i == self.index_of(id) && self.has(id),
                None => !self.has(id),
            },
    {
        let mut i: usize = 0;
        while i < self.processes.len()
            invariant
                i <= self.processes@.len(),
                ids_increasing(self.processes@),
                forall|j: int| 0 <= j < i ==> #[trigger] self.processes@[j].id != id,
            decreases self.processes@.len() - i,
        {
            if self.processes[i].id.0 == id.0 {
                proof {
                    let k = self.index_of(id);
                    assert(self.processes@[i as int].id == id);
                    assert(self.has(id));
                    if k != i {
                        assert(ids_increasing(self.processes@));
                        if k < i {
                            assert(self.processes@[k].id.0 < self.processes@[i as int].id.0);
                        } else {
                            assert(self.processes@[i as int].id.0 < self.processes@[k].id.0);
                        }
                    }
                }
                return Some(i);
            }
            i += 1;
        }
        None
    }

    /// The process with ID `id`, if there is one.
    pub fn get_process(&self, id: ProcessID) -> (r: Option<&Process>)
        requires
            self.wf(),
        ensures
            match r {
                Some(p) => self.has(id) && *p == self.process(id),
                None => !self.has(id),
            },
    {
        match self.position(id) {
            Some(i) => Some(&self.processes[i]),
            None => None,
        }
    }

    /// Add a process to the table, in the place its ID calls for. A process
    /// already holding that ID is replaced.
    #[verifier::rlimit(40)]
    #[verifier::spinoff_prover]
    pub fn insert(&mut self, process: Process)
        requires
            old(self).wf(),
            has_kernel_stack(process),
            process.id.0 < old(self).next_id.0,
        ensures
            final(self).wf(),
            final(self).current_id == old(self).current_id,
            final(self).next_id == old(self).next_id,
            final(self).stacks@ == old(self).stacks@,
            final(self).has(process.id),
            final(self).process(process.id) == process,
            forall|id: ProcessID| id != process.id ==> (#[trigger] final(self).has(id) <==> old(self).has(id)),
            forall|id: ProcessID| id != process.id && old(self).has(id) ==> #[trigger] final(self).process(id)
                == old(self).process(id),
            final(self).processes@.len() == old(self).processes@.len() + if old(self).has(process.id) { 0int } else { 1int },
    {
        let ghost before = self.processes@;
        let mut i: usize = 0;
        while i < self.processes.len() && self.processes[i].id.0 < process.id.0
            invariant
                i <= self.processes@.len(),
                self.processes@ == before,
                forall|j: int| 0 <= j < i ==> #[trigger] self.processes@[j].id.0 < process.id.0,
            decreases self.processes@.len() - i,
        {
            i += 1;
        }
        if i < self.processes.len() && self.processes[i].id.0 == process.id.0 {
            self.processes.set(i, process);
            proof {
                let after = self.processes@;
                assert(before[i as int].id == process.id);
                assert forall|a: int, b: int| 0 <= a < b < after.len() implies after[a].id.0 < after[b].id.0 by {
                    assert(before[a].id.0 < before[b].id.0);
                }
                assert forall|id: ProcessID| id != process.id implies (#[trigger] self.has(id) <==> old(self).has(id)) by {
                    if self.has(id) {
                        let k = self.index_of(id);
                        assert(before[k].id == id);
                    }
                    if old(self).has(id) {
                        let k = old(self).index_of(id);
                        assert(after[k].id == id);
                    }
                }
                self.lemma_index_unique(process.id, i as int);
                assert forall|id: ProcessID| id != process.id && old(self).has(id) implies #[trigger] self.process(id)
                    == old(self).process(id) by {
                    let k = old(self).index_of(id);
                    assert(after[k].id == id);
                    self.lemma_index_unique(id, k);
                }
                assert(old(self).has(process.id)) by {
                    assert(before[i as int].id == process.id);
                }
            }
        } else {
            self.processes.insert(i, process);
            proof {
                let after = self.processes@;
                assert(after == before.insert(i as int, process));
                assert forall|a: int, b: int| 0 <= a < b < after.len() implies after[a].id.0 < after[b].id.0 by {
                    if b < i {
                        assert(before[a].id.0 < before[b].id.0);
                    } else if b == i {
                    } else if a < i {
                        assert(before[b - 1].id.0 >= process.id.0) by {
                            if b - 1 > i {
                                assert(before[i as int].id.0 < before[b - 1].id.0);
                            }
                        }
                    } else if a == i {
                        assert(before[b - 1].id.0 > process.id.0) by {
                            if b - 1 > i {
                                assert(before[i as int].id.0 < before[b - 1].id.0);
                            }
                        }
                    } else {
                        assert(before[a - 1].id.0 < before[b - 1].id.0);
                    }
                }
                assert(!old(self).has(process.id)) by {
                    if old(self).has(process.id) {
                        let k = old(self).index_of(process.id);
                        if k < i {
                            assert(before[k].id.0 < process.id.0);
                        } else if k > i {
                            assert(before[i as int].id.0 < before[k].id.0);
                            assert(before[i as int].id.0 > process.id.0);
                        }
                    }
                }
                assert(after[i as int].id == process.id);
                self.lemma_index_unique(process.id, i as int);
                assert forall|id: ProcessID| id != process.id implies (#[trigger] self.has(id) <==> old(self).has(id)) by {
                    if self.has(id) {
                        let k = self.index_of(id);
                        if k < i {
                            assert(before[k].id == id);
                        } else {
                            assert(before[k - 1].id == id);
                        }
                    }
                    if old(self).has(id) {
                        let k = old(self).index_of(id);
                        if k < i {
                            assert(after[k].id == id);
                        } else {
                            assert(after[k + 1].id == id);
                        }
                    }
                }
                assert forall|id: ProcessID| id != process.id && old(self).has(id) implies #[trigger] self.process(id)
                    == old(self).process(id) by {
                    let k = old(self).index_of(id);
                    if k < i {
                        assert(after[k].id == id);
                        self.lemma_index_unique(id, k);
                    } else {
                        assert(after[k + 1].id == id);
                        self.lemma_index_unique(id, k + 1);
                    }
                }
            }
        }
    }

    /// The table holding only the init process, which is running.
    pub fn initialize(page_directory: PageTableReference) -> (r: TaskMap)
        ensures
            r.wf(),
            r.processes@.len() == 1,
            r.processes@[0].id.0 == 0,
            r.processes@[0].state == RunState::Running,
            r.processes@[0].page_directory == page_directory,
            r.current_id.0 == 0,
            r.next_id.0 == 1,
            r.stacks@ == seq![3u8],
    {
        let mut stacks: Vec<u8> = Vec::new();
        let idle_task = Process::initial(0, &mut stacks, page_directory);
        let mut processes: Vec<Process> = Vec::new();
        processes.push(idle_task);
        assert(stacks@ =~= seq![3u8]);
        // the init process holds the first ID
        let mut next_id = IDGenerator::new();
        next_id.next();
        TaskMap { processes, current_id: ProcessID::new(0), next_id, stacks }
    }

    /// The ID of the running process.
    pub fn get_current_id(&self) -> (r: ProcessID)
        ensures
            r == self.current_id,
    {
        self.current_id
    }

    /// Find another process to switch to: the first runnable process whose ID
    /// comes after the current one, or else the first runnable process from
    /// the start. `None` when no other process can run, for instance when the
    /// idle task is current and every other process is blocked.
    pub fn find_next_running_process(&self) -> (r: Option<ProcessID>)
        ensures
            r == next_process(self.processes@, self.current_id),
    {
        let current_id = self.current_id;
        let ghost s = self.processes@;
        let mut first_runnable: Option<usize> = None;
        let mut i: usize = 0;
        while i < self.processes.len()
            invariant
                s == self.processes@,
                current_id == self.current_id,
                i <= s.len(),
                forall|j: int| 0 <= j < i ==> !candidate(#[trigger] s[j], current_id, true),
                first_runnable matches Some(k) ==> k < i && first_candidate(s, current_id, false, k as int),
                first_runnable is None ==> forall|j: int| 0 <= j < i ==> !candidate(#[trigger] s[j], current_id, false),
            decreases s.len() - i,
        {
            let id = self.processes[i].id;
            if id.0 != current_id.0 && self.processes[i].can_resume() {
                if first_runnable.is_none() {
                    first_runnable = Some(i);
                }
                if id.0 > current_id.0 {
                    proof {
                        assert(first_candidate(s, current_id, true, i as int));
                        let k = choose|k: int| first_candidate(s, current_id, true, k);
                        lemma_first_candidate_unique(s, current_id, true, i as int, k);
                    }
                    return Some(id);
                }
            }
            i += 1;
        }
        proof {
            assert(!exists|k: int| first_candidate(s, current_id, true, k)) by {
                if exists|k: int| first_candidate(s, current_id, true, k) {
                    let k = choose|k: int| first_candidate(s, current_id, true, k);
                    assert(!candidate(s[k], current_id, true));
                }
            }
        }
        match first_runnable {
            Some(k) => {
                proof {
                    let k2 = choose|k2: int| first_candidate(s, current_id, false, k2);
                    lemma_first_candidate_unique(s, current_id, false, k as int, k2);
                }
                Some(self.processes[k].id)
            },
            None => {
                proof {
                    if exists|k: int| first_candidate(s, current_id, false, k) {
                        let k = choose|k: int| first_candidate(s, current_id, false, k);
                        assert(!candidate(s[k], current_id, false));
                    }
                }
                None
            },
        }
    }

    /// Pick the next process and make it the current one, returning its ID;
    /// the caller then switches to its stack. `None` leaves the current
    /// process running.
    pub fn yield_coop(&mut self) -> (r: Option<ProcessID>)
        ensures
            r == next_process(old(self).processes@, old(self).current_id),
            final(self).current_id == (match r {
                Some(id) => id,
                None => old(self).current_id,
            }),
            final(self).processes@ == old(self).processes@,
            final(self).next_id == old(self).next_id,
            final(self).stacks@ == old(self).stacks@,
    {
        let next = self.find_next_running_process();
        match next {
            Some(id) => {
                self.current_id = id;
            },
            None => {},
        }
        next
    }

    /// Let `delta_ms` milliseconds pass for every process.
    pub fn update_timeouts(&mut self, delta_ms: usize)
        requires
            old(self).wf(),
        ensures
            final(self).wf(),
            final(self).processes@.len() == old(self).processes@.len(),
            forall|i: int| 0 <= i < old(self).processes@.len() ==> {
                &&& (#[trigger] final(self).processes@[i]).state == state_after_timeouts(old(self).processes@[i].state, delta_ms)
                &&& only_state_changed(old(self).processes@[i], final(self).processes@[i])
            },
            final(self).current_id == old(self).current_id,
            final(self).next_id == old(self).next_id,
            final(self).stacks@ == old(self).stacks@,
    {
        let mut i: usize = 0;
        while i < self.processes.len()
            invariant
                i <= self.processes@.len(),
                self.processes@.len() == old(self).processes@.len(),
                self.current_id == old(self).current_id,
                self.next_id == old(self).next_id,
                self.stacks@ == old(self).stacks@,
                forall|j: int| 0 <= j < i ==> {
                    &&& (#[trigger] self.processes@[j]).state == state_after_timeouts(old(self).processes@[j].state, delta_ms)
                    &&& only_state_changed(old(self).processes@[j], self.processes@[j])
                },
                forall|j: int| i <= j < self.processes@.len() ==> #[trigger] self.processes@[j] == old(self).processes@[j],
            decreases self.processes@.len() - i,
        {
            self.processes[i].update_timeouts(delta_ms);
            i += 1;
        }
        proof {
            let a = old(self).processes@;
            let b = self.processes@;
            assert forall|x: int, y: int| 0 <= x < y < b.len() implies b[x].id.0 < b[y].id.0 by {
                assert(only_state_changed(a[x], b[x]));
                assert(only_state_changed(a[y], b[y]));
            }
            assert forall|x: int| 0 <= x < b.len() implies has_kernel_stack(#[trigger] b[x]) by {
                assert(only_state_changed(a[x], b[x]));
                assert(has_kernel_stack(a[x]));
            }
        }
    }

    /// Remove a process from the table, returning its kernel stack slot to
    /// the bitmap. An unknown ID changes nothing.
    pub fn clean_up_process(&mut self, id: ProcessID)
        requires
            old(self).wf(),
        ensures
            final(self).wf(),
            final(self).current_id == old(self).current_id,
            final(self).next_id == old(self).next_id,
            !old(self).has(id) ==> final(self).processes@ == old(self).processes@
                && final(self).stacks@ == old(self).stacks@,
            old(self).has(id) ==> {
                let i = old(self).index_of(id);
                let stack = old(self).processes@[i].kernel_stack.unwrap();
                &&& final(self).processes@ == old(self).processes@.remove(i)
                &&& forall|j: int| #[trigger] slot_taken(final(self).stacks@, j)
                    <==> (slot_taken(old(self).stacks@, j) && j != (STACKS_TOP - stack.start) / STACK_SIZE as int)
            },
    {
        match self.position(id) {
            Some(i) => {
                let task = self.processes.remove(i);
                proof {
                    assert(has_kernel_stack(old(self).processes@[i as int]));
                    let a = old(self).processes@;
                    let b = self.processes@;
                    assert forall|x: int, y: int| 0 <= x < y < b.len() implies b[x].id.0 < b[y].id.0 by {
                        if y < i {
                            assert(a[x].id.0 < a[y].id.0);
                        } else if x < i {
                            assert(a[x].id.0 < a[y + 1].id.0);
                        } else {
                            assert(a[x + 1].id.0 < a[y + 1].id.0);
                        }
                    }
                    assert forall|x: int| 0 <= x < b.len() implies has_kernel_stack(#[trigger] b[x]) by {
                        if x < i {
                            assert(has_kernel_stack(a[x]));
                        } else {
                            assert(has_kernel_stack(a[x + 1]));
                        }
                    }
                }
                match task.kernel_stack {
                    Some(stack) => free_stack(&mut self.stacks, stack),
                    None => {},
                }
            },
            None => {},
        }
    }

    /// The position of the running process.
    fn current_index(&self) -> (r: usize)
        requires
            self.wf(),
            self.has(self.current_id),
        ensures
            r < self.processes@.len(),
            r == self.index_of(self.current_id),
            self.processes@[r as int].id == self.current_id,
    {
        self.position(self.current_id).unwrap()
    }

    /// Duplicate the running process. The child gets the next ID, a copy of
    /// the parent's memory layout and open files, the given page directory,
    /// and a kernel stack copied from the parent's, set up so that the child
    /// returns from the syscall to userspace with `eax` cleared to 0.
    pub fn fork(&mut self, current_ticks: u32, page_directory: PageTableReference) -> (r: ProcessID)
        requires
            old(self).wf(),
            old(self).has(old(self).current_id),
            old(self).stacks@.len() * 8 + 8 <= usize::MAX,
            forall|i: int| lowest_free(old(self).stacks@, i) ==> (i + 1) * STACK_SIZE <= STACKS_TOP,
            old(self).next_id.0 < u32::MAX,
        ensures
            final(self).wf(),
            r.0 == old(self).next_id.0,
            !old(self).has(r),
            final(self).processes@.len() == old(self).processes@.len() + 1,
            final(self).next_id.0 == old(self).next_id.0 + 1,
            final(self).current_id == old(self).current_id,
            final(self).has(r),
            ({
                let parent = old(self).process(old(self).current_id);
                let child = final(self).process(r);
                &&& child.parent_id == parent.id
                &&& child.state == RunState::Running
                &&& child.start_ticks == current_ticks
                &&& child.page_directory == page_directory
                &&& child.open_files@ == parent.open_files@
                &&& child.exec_file == parent.exec_file
                &&& child.vterm == parent.vterm
                &&& child.memory.mmap_regions@ == parent.memory.mmap_regions@
                &&& child.memory.heap_start == parent.memory.heap_start
                &&& child.memory.heap_size == parent.memory.heap_size
                &&& child.memory.memory_top == parent.memory.memory_top
                &&& segment_views(child.memory.execution_segments@) == segment_views(parent.memory.execution_segments@)
                &&& child.relocations@ == parent.relocations@
                &&& child.current_drive == parent.current_drive
                &&& child.ipc_queue@.len() == 0
                &&& child.stack_pointer == child.kernel_stack.unwrap().start + STACK_SIZE - 64
                &&& forked_stack(parent.kernel_stack.unwrap().data@, child.kernel_stack.unwrap().data@)
                &&& exists|i: int| lowest_free(old(self).stacks@, i)
                    && child.kernel_stack.unwrap().start == STACKS_TOP - (i + 1) * STACK_SIZE
                    && forall|j: int| #[trigger] slot_taken(final(self).stacks@, j) <==> (slot_taken(old(self).stacks@, j) || j == i)
            }),
            forall|id: ProcessID| id != r ==> (#[trigger] final(self).has(id) <==> old(self).has(id)),
            forall|id: ProcessID| id != r && old(self).has(id) ==> #[trigger] final(self).process(id)
                == old(self).process(id),
    {
        let idx = self.current_index();
        let next_id = self.next_id.next();
        let mut child = self.processes[idx].create_fork(next_id, current_ticks, &mut self.stacks);
        child.page_directory = page_directory;
        let ghost parent = self.processes@[idx as int];
        assert(has_kernel_stack(parent));
        duplicate_stack(self.processes[idx].get_kernel_stack(), child.get_kernel_stack_mut());
        let ghost copied = child.kernel_stack.unwrap().data@;
        // Move the stack pointer down past the 5 values pushed by the
        // interrupt, and the registers pushed by the syscall wrapper; the
        // saved eax is replaced by 0 in the child.
        child.stack_pointer = child.stack_pointer - 20;
        child.stack_push_u32(0);
        child.stack_pointer = child.stack_pointer - 36;
        proof {
            let d = child.kernel_stack.unwrap().data@;
            assert(d == write_u32(copied, STACK_SIZE - 28, 0));
            assert((0u32 & 0xff) as u8 == 0u8 && ((0u32 & 0xff00) >> 8) as u8 == 0u8
                && ((0u32 & 0xff0000) >> 16) as u8 == 0u8 && ((0u32 & 0xff000000) >> 24) as u8 == 0u8) by (bit_vector);
            assert forall|j: int| 0x1000 <= j < STACK_SIZE implies #[trigger] d[j]
                == if STACK_SIZE - 28 <= j < STACK_SIZE - 24 { 0u8 } else { parent.kernel_stack.unwrap().data@[j] } by {
                assert(copied[j] == parent.kernel_stack.unwrap().data@[j]);
            }
        }
        let ghost stacks_before_insert = self.stacks@;
        self.insert(child);
        proof {
            assert(old(self).index_of(old(self).current_id) == idx);
            assert(old(self).process(old(self).current_id) == parent);
            assert(self.process(next_id) == child);
            assert(child.parent_id == parent.id);
            assert(child.open_files@ == parent.open_files@);
            assert(child.stack_pointer == child.kernel_stack.unwrap().start + STACK_SIZE - 64);
            assert(forked_stack(parent.kernel_stack.unwrap().data@, child.kernel_stack.unwrap().data@));
            assert(self.stacks@ == stacks_before_insert);
        }
        next_id
    }

    /// Fork a kernel-only process that starts by returning into the kernel
    /// function at address `dest`.
    pub fn kfork(&mut self, dest: u32, page_directory: PageTableReference) -> (r: ProcessID)
        requires
            old(self).wf(),
            old(self).has(old(self).current_id),
            old(self).stacks@.len() * 8 + 8 <= usize::MAX,
            forall|i: int| lowest_free(old(self).stacks@, i) ==> (i + 1) * STACK_SIZE <= STACKS_TOP,
            old(self).next_id.0 < u32::MAX,
        ensures
            final(self).wf(),
            r.0 == old(self).next_id.0,
            !old(self).has(r),
            final(self).processes@.len() == old(self).processes@.len() + 1,
            final(self).current_id == old(self).current_id,
            final(self).has(r),
            ({
                let parent = old(self).process(old(self).current_id);
                let child = final(self).process(r);
                &&& child.parent_id == parent.id
                &&& child.state == RunState::Running
                &&& child.start_ticks == 0
                &&& child.page_directory == page_directory
                &&& child.stack_pointer == child.kernel_stack.unwrap().start + STACK_SIZE - 68
                &&& exists|d: Seq<u8>| forked_stack(parent.kernel_stack.unwrap().data@, d)
                    && child.kernel_stack.unwrap().data@ == write_u32(d, STACK_SIZE - 68, dest)
            }),
            forall|id: ProcessID| id != r ==> (#[trigger] final(self).has(id) <==> old(self).has(id)),
            forall|id: ProcessID| id != r && old(self).has(id) ==> #[trigger] final(self).process(id)
                == old(self).process(id),
    {
        let child_id = self.fork(0, page_directory);
        let i = self.position(child_id).unwrap();
        let ghost before = *self;
        let ghost d = self.processes@[i as int].kernel_stack.unwrap().data@;
        assert(has_kernel_stack(self.processes@[i as int]));
        self.processes[i].stack_push_u32(dest);
        proof {
            let a = before.processes@;
            let b = self.processes@;
            assert(changed_only_at(a, b, i as int));
            lemma_slot_change_keeps_table(before, *self, i as int);
            assert(d =~= before.process(child_id).kernel_stack.unwrap().data@);
        }
        child_id
    }

    proof fn lemma_index_unique(&self, id: ProcessID, i: int)
        requires
            ids_increasing(self.processes@),
            0 <= i < self.processes@.len(),
            self.processes@[i].id == id,
        ensures
            self.has(id),
            self.index_of(id) == i,
    {
        let k = self.index_of(id);
        if k < i {
            assert(self.processes@[k].id.0 < self.processes@[i].id.0);
        } else if k > i {
            assert(self.processes@[i].id.0 < self.processes@[k].id.0);
        }
    }
}

} // verus!
