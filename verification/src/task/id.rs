//! Process identifiers.
use vstd::prelude::*;

verus! {

#[derive(Copy, Clone, Debug, PartialEq, Eq, PartialOrd, Ord, Hash, Structural)]
pub struct ProcessID(pub u32);

impl ProcessID {
    pub fn new(id: u32) -> (r: ProcessID)
        ensures
            r.0 == id,
    {
        ProcessID(id)
    }

    pub fn as_u32(&self) -> (r: u32)
        ensures
            r == self.0,
    {
        self.0
    }
}

/// Hands out increasing process IDs, wrapping around after the largest one.
pub struct IDGenerator(pub u32);

impl IDGenerator {
    pub fn new() -> (r: Self)
        ensures
            r.0 == 0,
    {
        IDGenerator(0)
    }

    /// The next unused ID.
    pub fn next(&mut self) -> (r: ProcessID)
        ensures
            r.0 == old(self).0,
            final(self).0 == if old(self).0 == u32::MAX { 0 } else { old(self).0 + 1 },
    {
        let id = self.0;
        self.0 = self.0.wrapping_add(1);
        ProcessID::new(id)
    }
}

/// IDs come out in the order of the calls, counting from where the
/// generator started: `gens` are the generator's states, one before each
/// call of `next` and one after the last, and `ids` what the calls returned.
/// From a new generator, and for fewer than 2^32 calls, the `k`th call
/// returns `k`, so the IDs are distinct and increase.
pub proof fn lemma_ids_in_order(gens: Seq<IDGenerator>, ids: Seq<ProcessID>)
    requires
        gens.len() == ids.len() + 1,
        gens[0].0 == 0,
        ids.len() <= 0x1_0000_0000,
        forall|i: int| 0 <= i < ids.len() ==> (#[trigger] ids[i]).0 == gens[i].0
            && gens[i + 1].0 == if gens[i].0 == u32::MAX { 0 } else { gens[i].0 + 1 },
    ensures
        forall|i: int| 0 <= i < ids.len() ==> (#[trigger] ids[i]).0 == i,
        forall|i: int, j: int| 0 <= i < j < ids.len() ==> #[trigger] ids[i].0 < #[trigger] ids[j].0,
    decreases ids.len(),
{
    if ids.len() > 0 {
        let n = ids.len() - 1;
        lemma_ids_in_order(gens.drop_last(), ids.drop_last());
        assert forall|i: int| 0 <= i < ids.len() implies (#[trigger] ids[i]).0 == i by {
            if i < n {
                assert(ids[i] == ids.drop_last()[i]);
            } else {
                assert(gens[n] == gens.drop_last()[n]);
                if n > 0 {
                    assert(ids.drop_last()[n - 1].0 == n - 1);
                    assert(gens[n - 1] == gens.drop_last()[n - 1]);
                    assert(ids[n - 1] == ids.drop_last()[n - 1]);
                }
            }
        }
    }
}

} // verus!
