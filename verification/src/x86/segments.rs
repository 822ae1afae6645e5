use vstd::prelude::*;

verus! {

/// A protected-mode segment selector: the descriptor table index shifted
/// above the three low bits, with the requested privilege level in the two
/// lowest bits.
#[derive(Copy, Clone, PartialEq, Eq, Debug)]
pub struct SegmentSelector(pub u16);

impl SegmentSelector {
    /// Build a selector from a descriptor index and a privilege level. Index
    /// bits shifted past the top of the selector are dropped.
    pub fn new(index: u16, priv_level: u16) -> (s: SegmentSelector)
        ensures
            s.0 == ((index * 8) % 0x10000 + priv_level % 4) as u16,
    {
        assert((index << 3u16) | (priv_level & 3u16) == ((index * 8) % 0x10000 + priv_level % 4) as u16) by (bit_vector);
        SegmentSelector((index << 3) | (priv_level & 3))
    }
}

} // verus!
