//! The environment a legacy process runs in.
use vstd::prelude::*;

verus! {

#[derive(Copy, Clone, Debug, PartialEq, Eq, Structural)]
pub enum Subsystem {
    Native,
    DOS(DosSubsystemMetadata),
}

/// Real-mode state of a DOS process.
#[derive(Copy, Clone, Debug, PartialEq, Eq, Structural)]
pub struct DosSubsystemMetadata {
    // Real-mode segments
    pub ds: usize,
    pub es: usize,
    pub fs: usize,
    pub gs: usize,
    pub ss: usize,
    pub interrupts_enabled: bool,
}

impl DosSubsystemMetadata {
    /// Zeroed segments, with interrupts disabled.
    pub fn new() -> (r: DosSubsystemMetadata)
        ensures
            r == (DosSubsystemMetadata { ds: 0, es: 0, fs: 0, gs: 0, ss: 0, interrupts_enabled: false }),
    {
        DosSubsystemMetadata { ds: 0, es: 0, fs: 0, gs: 0, ss: 0, interrupts_enabled: false }
    }
}

} // verus!
