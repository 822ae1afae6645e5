//! x86 IO ports. Reading and writing a port are single machine
//! instructions, performed by the caller.
use vstd::prelude::*;

verus! {

#[derive(Copy, Clone, Debug, PartialEq, Eq, Structural)]
pub struct Port {
    pub number: u16,
}

impl Port {
    pub fn new(number: u16) -> (r: Port)
        ensures
            r.number == number,
    {
        Port { number }
    }
}

} // verus!
