//! Register state of an interrupted task.
use vstd::prelude::*;

verus! {

/// The running state of a task when it is interrupted. Each interrupt
/// handler copies the values it pushed on the kernel stack here, so that the
/// task can always be resumed.
#[derive(Copy, Clone, Debug, PartialEq, Eq, Structural)]
pub struct SavedState {
    pub edi: usize,
    pub esi: usize,
    pub ebp: usize,
    pub ebx: usize,
    pub edx: usize,
    pub ecx: usize,
    pub eax: usize,
}

impl SavedState {
    pub fn empty() -> (r: Self)
        ensures
            r == (SavedState { edi: 0, esi: 0, ebp: 0, ebx: 0, edx: 0, ecx: 0, eax: 0 }),
    {
        Self { edi: 0, esi: 0, ebp: 0, ebx: 0, edx: 0, ecx: 0, eax: 0 }
    }
}

/// Registers restored when returning to a task through IRETD.
#[derive(Copy, Clone, Debug, PartialEq, Eq, Structural)]
pub struct EnvironmentRegisters {
    pub eax: u32,
    pub ecx: u32,
    pub edx: u32,
    pub ebx: u32,
    pub ebp: u32,
    pub esi: u32,
    pub edi: u32,
    // Registers that get popped by IRETD
    pub eip: u32,
    pub cs: u32,
    pub flags: u32,
    pub esp: u32,
    pub ss: u32,
    pub es: u32,
    pub ds: u32,
    pub fs: u32,
    pub gs: u32,
}

} // verus!
