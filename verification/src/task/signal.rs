use vstd::prelude::*;

verus! {

/// Subset of POSIX signals, useful for modifying process state
#[derive(Copy, Clone, Debug, Eq, PartialEq, Structural)]
pub enum Signal {
    Segfault,
    UserInterrupt,
    UserQuit,
}

} // verus!
