//! A fixed-capacity FIFO of bytes, stored in a ring: bytes are written at
//! the back and read from the front, and the storage is reused as the front
//! moves forward.
use vstd::prelude::*;

verus! {

proof fn lemma_mod_wrap(x: int, m: int)
    requires
        m > 0,
        0 <= x < 2 * m,
    ensures
        x % m == if x < m { x } else { x - m },
{
    if x < m {
        vstd::arithmetic::div_mod::lemma_small_mod(x as nat, m as nat);
    } else {
        vstd::arithmetic::div_mod::lemma_small_mod((x - m) as nat, m as nat);
        vstd::arithmetic::div_mod::lemma_mod_sub_multiples_vanish(x, m);
    }
}

pub struct RingBuffer {
    /// The storage; its length is the capacity
    pub data: Vec<u8>,
    /// Index of the oldest byte
    pub start: usize,
    /// Number of bytes held
    pub len: usize,
}

impl RingBuffer {
    /// The storage is not empty, and the held bytes fit in it.
    pub open spec fn wf(&self) -> bool {
        &&& self.data@.len() > 0
        &&& self.start < self.data@.len()
        &&& self.len <= self.data@.len()
    }

    pub open spec fn capacity(&self) -> nat {
        self.data@.len()
    }

    /// The bytes held, oldest first.
    pub open spec fn view(&self) -> Seq<u8> {
        Seq::new(self.len as nat, |i: int| self.data@[(self.start + i) % (self.data@.len() as int)])
    }

    /// An empty buffer holding up to `capacity` bytes.
    pub fn new(capacity: usize) -> (r: Self)
        requires
            capacity > 0,
        ensures
            r.wf(),
            r.capacity() == capacity,
            r@.len() == 0,
    {
        let mut data: Vec<u8> = Vec::new();
        let mut i: usize = 0;
        while i < capacity
            invariant
                i <= capacity,
                data@.len() == i,
            decreases capacity - i,
        {
            data.push(0);
            i += 1;
        }
        RingBuffer { data, start: 0, len: 0 }
    }

    /// The number of bytes that have been written but not yet read.
    pub fn available_bytes(&self) -> (r: usize)
        ensures
            r == self@.len(),
    {
        self.len
    }

    /// Append as many bytes of `buffer` as there is room for, returning how
    /// many were written.
    pub fn write(&mut self, buffer: &[u8]) -> (r: usize)
        requires
            old(self).wf(),
        ensures
            final(self).wf(),
            final(self).capacity() == old(self).capacity(),
            r == if buffer@.len() < old(self).capacity() - old(self)@.len() {
                buffer@.len() as int
            } else {
                old(self).capacity() - old(self)@.len()
            },
            final(self)@ == old(self)@ + buffer@.subrange(0, r as int),
    {
        let cap = self.data.len();
        let mut written: usize = 0;
        while written < buffer.len() && self.len < cap
            invariant
                self.wf(),
                cap == self.data@.len(),
                self.data@.len() == old(self).data@.len(),
                self.start == old(self).start,
                written <= buffer@.len(),
                self.len == old(self).len + written,
                self@ == old(self)@ + buffer@.subrange(0, written as int),
            decreases buffer@.len() - written,
        {
            let ghost before = self@;
            let pos = if self.start < cap - self.len { self.start + self.len } else { self.len - (cap - self.start) };
            proof {
                lemma_mod_wrap(self.start + self.len, cap as int);
            }
            self.data.set(pos, buffer[written]);
            self.len = self.len + 1;
            written = written + 1;
            proof {
                assert forall|i: int| 0 <= i < before.len() implies #[trigger] self@[i] == before[i] by {
                    lemma_mod_wrap(self.start + i, cap as int);
                }
                assert(self@ =~= old(self)@ + buffer@.subrange(0, written as int));
            }
        }
        written
    }

    /// Move as many of the oldest bytes as fit into `buffer`, returning how
    /// many were read.
    pub fn read(&mut self, buffer: &mut [u8]) -> (r: usize)
        requires
            old(self).wf(),
        ensures
            final(self).wf(),
            final(self).capacity() == old(self).capacity(),
            r == if old(buffer)@.len() < old(self)@.len() { old(buffer)@.len() as int } else { old(self)@.len() as int },
            final(buffer)@.len() == old(buffer)@.len(),
            final(buffer)@.subrange(0, r as int) == old(self)@.subrange(0, r as int),
            final(buffer)@.subrange(r as int, final(buffer)@.len() as int)
                == old(buffer)@.subrange(r as int, old(buffer)@.len() as int),
            final(self)@ == old(self)@.subrange(r as int, old(self)@.len() as int),
    {
        let cap = self.data.len();
        let mut count: usize = 0;
        while count < buffer.len() && self.len > 0
            invariant
                self.wf(),
                cap == self.data@.len(),
                self.data@ == old(self).data@,
                count <= buffer@.len(),
                buffer@.len() == old(buffer)@.len(),
                count + self.len == old(self).len,
                self@ == old(self)@.subrange(count as int, old(self)@.len() as int),
                forall|j: int| 0 <= j < count ==> buffer@[j] == old(self)@[j],
                forall|j: int| count <= j < buffer@.len() ==> buffer@[j] == old(buffer)@[j],
            decreases self.len,
        {
            let ghost before = self@;
            proof {
                lemma_mod_wrap(self.start as int, cap as int);
            }
            assert(before[0] == old(self)@[count as int]);
            buffer[count] = self.data[self.start];
            self.start = if self.start + 1 < cap { self.start + 1 } else { 0 };
            self.len = self.len - 1;
            count = count + 1;
            proof {
                assert forall|i: int| 0 <= i < self@.len() implies #[trigger] self@[i] == before[i + 1] by {
                    let s = self.start as int;
                    let old_s = if s == 0 { cap - 1 } else { s - 1 };
                    lemma_mod_wrap(s + i, cap as int);
                    lemma_mod_wrap(old_s + i + 1, cap as int);
                }
                assert(self@ =~= old(self)@.subrange(count as int, old(self)@.len() as int));
            }
        }
        assert(buffer@.subrange(0, count as int) =~= old(self)@.subrange(0, count as int));
        assert(buffer@.subrange(count as int, buffer@.len() as int)
            =~= old(buffer)@.subrange(count as int, old(buffer)@.len() as int));
        count
    }
}

} // verus!
