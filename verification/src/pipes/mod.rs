pub mod collection;
pub mod errors;
pub mod handle;
pub mod pipe;

use vstd::prelude::*;
use crate::collections::first_empty;
use crate::files::handle::LocalHandle;
use collection::PipeCollection;
use errors::PipeError;
use handle::PipeHandle;

verus! {

/// Create a pipe in the collection, returning its read and write handles.
pub fn create_pipe(pipes: &mut PipeCollection) -> (r: Result<(LocalHandle, LocalHandle), PipeError>)
    requires
        old(pipes).wf(),
        old(pipes).handles@.len() + 2 <= u32::MAX,
    ensures
        final(pipes).wf(),
        r matches Ok((rh, wh)) && {
            let p = first_empty(old(pipes).pipes@);
            &&& final(pipes).handles@[rh.0 as int] == Some(PipeHandle::ReadHandle(p as usize))
            &&& final(pipes).handles@[wh.0 as int] == Some(PipeHandle::WriteHandle(p as usize))
            &&& final(pipes).contents(p).len() == 0
        },
{
    pipes.create()
}

} // verus!
