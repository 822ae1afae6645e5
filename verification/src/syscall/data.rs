//! Strings passed to syscalls by address.
use vstd::prelude::*;

verus! {

/// The location and length of a string in the caller's memory, passed by
/// address to syscalls that take a path.
#[derive(Copy, Clone, Debug, PartialEq, Eq, Structural)]
pub struct StringPtr {
    pub addr: usize,
    pub length: usize,
}

} // verus!
