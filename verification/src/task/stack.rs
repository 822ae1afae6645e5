//! Each process has its own kernel stack, used whenever it drops into a
//! syscall. Stacks live side by side in a large area reserved just below the
//! top page directory (0xffc00000). A bitmap records which stack slots are in
//! use, so that no two processes claim the same stack and freed stacks are
//! reused: bit `i % 8` of byte `i / 8` is set when slot `i` is taken.
use vstd::prelude::*;

verus! {

pub const STACKS_TOP: usize = 0xffc00000;
pub const STACK_SIZE: usize = 0x4000;
pub const STACK_GUARD_SIZE: usize = 0x1000;
pub const FIRST_STACK_TOP_PAGE: usize = 0xffbfb000;
/// Highest number of processes, and so of kernel stacks
pub const MAX_PROCESS_COUNT: usize = 16383;
/// Size of the area holding all kernel stacks
pub const MAX_STACK_AREA_SIZE: usize = 0xfffc000;

/// Is bit `k` of the byte set?
pub open spec fn bit_set(b: u8, k: u8) -> bool {
    (b >> k) & 1u8 == 1u8
}

/// Is stack slot `i` marked as taken in the bitmap?
pub open spec fn slot_taken(map: Seq<u8>, i: int) -> bool {
    0 <= i && i / 8 < map.len() && bit_set(map[i / 8], (i % 8) as u8)
}

/// Every slot below `i` is taken and `i` is not: `i` is the lowest free slot.
pub open spec fn lowest_free(map: Seq<u8>, i: int) -> bool {
    &&& 0 <= i
    &&& !slot_taken(map, i)
    &&& forall|j: int| 0 <= j < i ==> #[trigger] slot_taken(map, j)
}

proof fn lemma_set_bit(b: u8, k: u8)
    requires
        k < 8,
    ensures
        forall|j: u8| j < 8 ==> (#[trigger] bit_set(b | (1u8 << k), j) <==> (bit_set(b, j) || j == k)),
{
    assert forall|j: u8| j < 8 implies (#[trigger] bit_set(b | (1u8 << k), j) <==> (bit_set(b, j) || j == k)) by {
        assert(((b | (1u8 << k)) >> j) & 1u8 == 1u8 <==> (((b >> j) & 1u8 == 1u8) || j == k)) by (bit_vector)
            requires k < 8, j < 8;
    }
}

proof fn lemma_clear_bit(b: u8, k: u8)
    requires
        k < 8,
    ensures
        forall|j: u8| j < 8 ==> (#[trigger] bit_set(b & !(1u8 << k), j) <==> (bit_set(b, j) && j != k)),
{
    assert forall|j: u8| j < 8 implies (#[trigger] bit_set(b & !(1u8 << k), j) <==> (bit_set(b, j) && j != k)) by {
        assert(((b & !(1u8 << k)) >> j) & 1u8 == 1u8 <==> (((b >> j) & 1u8 == 1u8) && j != k)) by (bit_vector)
            requires k < 8, j < 8;
    }
}

proof fn lemma_full_byte(b: u8)
    ensures
        (b == 0xffu8) <==> (forall|j: u8| j < 8 ==> #[trigger] bit_set(b, j)),
{
    if b != 0xffu8 {
        assert(exists|j: u8| j < 8 && !bit_set(b, j)) by {
            assert(b != 0xffu8 ==> (!bit_set(b, 0) || !bit_set(b, 1) || !bit_set(b, 2) || !bit_set(b, 3)
                || !bit_set(b, 4) || !bit_set(b, 5) || !bit_set(b, 6) || !bit_set(b, 7))) by (bit_vector);
        }
    } else {
        assert forall|j: u8| j < 8 implies #[trigger] bit_set(b, j) by {
            assert(j < 8 ==> ((0xffu8 >> j) & 1u8 == 1u8)) by (bit_vector);
        }
    }
}

/// Mark the first two slots as taken: the first "stack" area is used for
/// temporary paging, and the second one by the bootstrapping process.
pub fn allocate_initial_stacks(stacks: &mut Vec<u8>)
    ensures
        final(stacks)@ == old(stacks)@.push(3u8),
{
    stacks.push(3);
}

/// Find the lowest free stack slot, mark it as taken, and return it. When
/// every slot of the bitmap is taken, the bitmap grows by one byte.
pub fn find_free_space(stacks: &mut Vec<u8>) -> (r: usize)
    requires
        old(stacks)@.len() * 8 + 8 <= usize::MAX,
    ensures
        lowest_free(old(stacks)@, r as int),
        forall|j: int| #[trigger] slot_taken(final(stacks)@, j) <==> (slot_taken(old(stacks)@, j) || j == r),
        final(stacks)@.len() == old(stacks)@.len() || final(stacks)@.len() == old(stacks)@.len() + 1,
{
    let ghost s = stacks@;
    let mut index: usize = 0;
    while index < stacks.len()
        invariant
            s == stacks@,
            s == old(stacks)@,
            index <= s.len(),
            s.len() * 8 + 8 <= usize::MAX,
            forall|j: int| 0 <= j < index * 8 ==> #[trigger] slot_taken(s, j),
        decreases s.len() - index,
    {
        let byte = stacks[index];
        if byte != 0xff {
            proof { lemma_full_byte(byte); }
            let mut bit: u8 = 0;
            while bit < 8
                invariant
                    s == stacks@,
                    s == old(stacks)@,
                    index < s.len(),
                    byte == s[index as int],
                    byte != 0xffu8,
                    s.len() * 8 + 8 <= usize::MAX,
                    bit <= 8,
                    forall|j: u8| j < bit ==> #[trigger] bit_set(byte, j),
                    forall|j: int| 0 <= j < index * 8 ==> #[trigger] slot_taken(s, j),
                decreases 8 - bit,
            {
                assert(((byte >> bit) & 1u8 == 0u8) || ((byte >> bit) & 1u8 == 1u8)) by (bit_vector);
                if (byte >> bit) & 1 == 0 {
                    let mask: u8 = 1u8 << bit;
                    stacks.set(index, byte | mask);
                    let r = index * 8 + bit as usize;
                    proof {
                        lemma_set_bit(byte, bit);
                        assert forall|j: int| 0 <= j < r implies #[trigger] slot_taken(s, j) by {
                            if j >= index * 8 {
                                assert(j / 8 == index as int);
                                assert(((j % 8) as u8) < bit);
                            }
                        }
                        assert(r / 8 == index as int && r % 8 == bit as int);
                        assert forall|j: int| #[trigger] slot_taken(stacks@, j) <==> (slot_taken(s, j) || j == r) by {
                            if 0 <= j && j / 8 == index as int {
                                assert(((j % 8) as u8) < 8);
                                if j != r {
                                    assert((j % 8) as u8 != bit);
                                }
                            }
                        }
                    }
                    return r;
                }
                bit += 1;
            }
            proof {
                lemma_full_byte(byte);
            }
            assert(false);
        }
        proof {
            lemma_full_byte(byte);
            assert forall|j: int| 0 <= j < (index + 1) * 8 implies #[trigger] slot_taken(s, j) by {
                if j >= index * 8 {
                    assert(j / 8 == index as int);
                    assert(((j % 8) as u8) < 8);
                }
            }
        }
        index += 1;
    }
    let stack_index = stacks.len() * 8;
    stacks.push(1);
    proof {
        assert(bit_set(1u8, 0u8)) by (bit_vector);
        assert forall|k: u8| 0 < k < 8 implies !#[trigger] bit_set(1u8, k) by {
            assert(0 < k < 8 ==> !((1u8 >> k) & 1u8 == 1u8)) by (bit_vector);
        }
        assert forall|j: int| #[trigger] slot_taken(stacks@, j) <==> (slot_taken(s, j) || j == stack_index) by {
            if 0 <= j && j / 8 == s.len() {
                assert(((j % 8) as u8) < 8);
                if j != stack_index {
                    assert((j % 8) as u8 != 0);
                }
            } else if 0 <= j && j / 8 < s.len() {
                assert(stacks@[j / 8] == s[j / 8]);
            }
        }
    }
    stack_index
}

/// Mark a stack slot as free. Slots beyond the bitmap are left alone.
pub fn free_index(stacks: &mut Vec<u8>, index: usize)
    ensures
        final(stacks)@.len() == old(stacks)@.len(),
        forall|j: int| #[trigger] slot_taken(final(stacks)@, j) <==> (slot_taken(old(stacks)@, j) && j != index),
{
    let byte_index = index / 8;
    let local_index = index & 7;
    assert(local_index == index % 8) by (bit_vector)
        requires local_index == index & 7usize;
    if byte_index < stacks.len() {
        let mask: u8 = 1u8 << (local_index as u8);
        let ghost s = stacks@;
        let b = stacks[byte_index];
        stacks.set(byte_index, b & !mask);
        proof {
            lemma_clear_bit(b, local_index as u8);
            assert forall|j: int| #[trigger] slot_taken(stacks@, j) <==> (slot_taken(s, j) && j != index) by {
                if 0 <= j && j / 8 == byte_index as int {
                    assert(((j % 8) as u8) < 8);
                    if j != index {
                        assert((j % 8) as u8 != local_index as u8);
                    }
                }
            }
        }
    } else {
        assert forall|j: int| #[trigger] slot_taken(stacks@, j) <==> (slot_taken(stacks@, j) && j != index) by {
        }
    }
}

/// Freeing a slot below every other free slot makes it the next one found.
pub proof fn lemma_free_then_find(before: Seq<u8>, after: Seq<u8>, index: int)
    requires
        forall|j: int| 0 <= j < index ==> #[trigger] slot_taken(before, j),
        0 <= index,
        forall|j: int| #[trigger] slot_taken(after, j) <==> (slot_taken(before, j) && j != index),
    ensures
        lowest_free(after, index),
{
}

/// A kernel stack: `data` holds the bytes found at virtual addresses
/// `start..start + data.len()`.
pub struct StackBox {
    pub start: usize,
    pub data: Vec<u8>,
}

impl StackBox {
    pub fn len(&self) -> (r: usize)
        ensures
            r == self.data@.len(),
    {
        self.data.len()
    }

    pub fn start_address(&self) -> (r: usize)
        ensures
            r == self.start,
    {
        self.start
    }
}

/// The stack found in slot `index`: slot 0 sits just below `STACKS_TOP`.
pub fn stack_box_from_index(index: usize) -> (r: StackBox)
    requires
        (index + 1) * STACK_SIZE <= STACKS_TOP,
    ensures
        r.start == STACKS_TOP - (index + 1) * STACK_SIZE,
        r.data@.len() == STACK_SIZE,
{
    let ptr = STACKS_TOP - ((index + 1) * STACK_SIZE);
    StackBox { start: ptr, data: vec![0u8; STACK_SIZE] }
}

/// Claim a free stack slot and return its stack.
pub fn allocate_stack(stacks: &mut Vec<u8>) -> (r: StackBox)
    requires
        old(stacks)@.len() * 8 + 8 <= usize::MAX,
        forall|i: int| lowest_free(old(stacks)@, i) ==> (i + 1) * STACK_SIZE <= STACKS_TOP,
    ensures
        exists|i: int| lowest_free(old(stacks)@, i) && r.start == STACKS_TOP - (i + 1) * STACK_SIZE
            && forall|j: int| #[trigger] slot_taken(final(stacks)@, j) <==> (slot_taken(old(stacks)@, j) || j == i),
        r.data@.len() == STACK_SIZE,
{
    let index = find_free_space(stacks);
    stack_box_from_index(index)
}

/// Return a stack's slot to the bitmap: the slot numbered by the distance of
/// the stack's start below `STACKS_TOP`, in stack sizes.
pub fn free_stack(stacks: &mut Vec<u8>, stack: StackBox)
    requires
        stack.start <= STACKS_TOP,
    ensures
        forall|j: int| #[trigger] slot_taken(final(stacks)@, j)
            <==> (slot_taken(old(stacks)@, j) && j != (STACKS_TOP - stack.start) / STACK_SIZE as int),
{
    let location = stack.start;
    let offset = (STACKS_TOP - location) / STACK_SIZE;
    free_index(stacks, offset);
}

/// Copy a stack's contents above its lowest page into another stack.
pub fn duplicate_stack(from: &StackBox, to: &mut StackBox)
    requires
        from.data@.len() == old(to).data@.len(),
        from.data@.len() >= 0x1000,
    ensures
        final(to).start == old(to).start,
        final(to).data@ == old(to).data@.subrange(0, 0x1000) + from.data@.subrange(0x1000, from.data@.len() as int),
{
    let mut i: usize = 0x1000;
    while i < to.data.len()
        invariant
            0x1000 <= i <= to.data@.len(),
            to.data@.len() == from.data@.len(),
            to.start == old(to).start,
            to.data@.subrange(0, 0x1000) == old(to).data@.subrange(0, 0x1000),
            forall|j: int| 0x1000 <= j < i ==> to.data@[j] == from.data@[j],
        decreases to.data@.len() - i,
    {
        to.data.set(i, from.data[i]);
        i += 1;
    }
    assert(to.data@ =~= old(to).data@.subrange(0, 0x1000) + from.data@.subrange(0x1000, from.data@.len() as int));
}

} // verus!
