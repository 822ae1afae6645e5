//! How a seek moves the cursor of an open file.
use vstd::prelude::*;

verus! {

#[derive(Copy, Clone, Debug, PartialEq, Eq, Structural)]
pub enum SeekMethod {
    /// Move to an offset from the start of the file
    Absolute(usize),
    /// Move by an offset from the current position
    Relative(isize),
}

} // verus!
