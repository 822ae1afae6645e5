//! A process can simulate a DOS 8086 environment to execute DOS programs.
use vstd::prelude::*;

verus! {

/// State of the virtual 8086 machine of a DOS process.
#[derive(Copy, Clone, Debug, Eq, PartialEq, Structural)]
pub struct VMState {
    /// Whether the program has enabled interrupts
    pub interrupts_enabled: bool,
}

impl VMState {
    pub fn new() -> (r: VMState)
        ensures
            !r.interrupts_enabled,
    {
        VMState { interrupts_enabled: false }
    }
}

#[derive(Copy, Clone, Debug, Eq, PartialEq, Structural)]
pub enum Subsystem {
    Native,
    DOS(VMState),
}

} // verus!
