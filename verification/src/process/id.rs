//! Process identifiers of the legacy process table.
use vstd::prelude::*;

verus! {

#[derive(Copy, Clone, Debug, PartialEq, Eq, Structural)]
pub struct ProcessID(pub u32);

impl ProcessID {
    pub fn new(id: u32) -> (r: ProcessID)
        ensures
            r.0 == id,
    {
        ProcessID(id)
    }
}

} // verus!
