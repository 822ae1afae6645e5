//! The virtual terminal a process writes to.
use vstd::prelude::*;
use super::switching::TaskMap;

verus! {

/// The vterm of the running process, if it has one.
pub fn get_current_vterm(tasks: &TaskMap) -> (r: Option<usize>)
    requires
        tasks.wf(),
        tasks.has(tasks.current_id),
    ensures
        r == tasks.process(tasks.current_id).vterm,
{
    let i = tasks.position(tasks.current_id).unwrap();
    tasks.processes[i].get_vterm()
}

} // verus!
