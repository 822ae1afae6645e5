//! The legacy process table, kept beside the task table.
pub mod exec;
pub mod id;
pub mod map;
pub mod process_state;
pub mod subsystem;

use vstd::prelude::*;
use id::ProcessID;
use map::ProcessMap;
use process_state::ProcessState;

verus! {

/// The current process of the table, if it exists.
pub fn current_process(map: &ProcessMap) -> (r: Option<&ProcessState>)
    requires
        map.wf(),
    ensures
        match r {
            Some(p) => map.lookup(map.current) == Some(*p),
            None => map.lookup(map.current) is None,
        },
{
    map.get_current_process()
}

/// Make `pid` the current process.
pub fn make_current(map: &mut ProcessMap, pid: ProcessID)
    ensures
        final(map).current == pid,
        final(map).processes@ == old(map).processes@,
{
    map.make_current(pid);
}

} // verus!
