//! A list of slots, each empty or holding an item. Items keep their index
//! for as long as they stay in the list, and freed slots are reused.
use vstd::prelude::*;

verus! {

pub struct SlotList<T> {
    pub slots: Vec<Option<T>>,
}

/// The first empty slot, or the length when every slot is filled.
pub open spec fn first_empty<T>(s: Seq<Option<T>>) -> int
    decreases s.len(),
{
    if s.len() == 0 || s[0] is None {
        0
    } else {
        1 + first_empty(s.drop_first())
    }
}

pub proof fn lemma_first_empty<T>(s: Seq<Option<T>>)
    ensures
        0 <= first_empty(s) <= s.len(),
        first_empty(s) < s.len() ==> s[first_empty(s)] is None,
        forall|j: int| 0 <= j < first_empty(s) ==> s[j] is Some,
    decreases s.len(),
{
    if s.len() > 0 && s[0] is Some {
        lemma_first_empty(s.drop_first());
        assert forall|j: int| 0 <= j < first_empty(s) implies s[j] is Some by {
            if j > 0 {
                assert(s[j] == s.drop_first()[j - 1]);
            }
        }
    }
}

proof fn lemma_first_empty_is<T>(s: Seq<Option<T>>, i: int)
    requires
        0 <= i <= s.len(),
        i < s.len() ==> s[i] is None,
        forall|j: int| 0 <= j < i ==> s[j] is Some,
    ensures
        first_empty(s) == i,
{
    lemma_first_empty(s);
    if first_empty(s) < i {
        assert(s[first_empty(s)] is Some);
    } else if first_empty(s) > i {
        assert(s[i] is Some);
    }
}

/// A slot emptied by `remove` is reused: the next insertion lands in it or
/// in an earlier free slot.
pub proof fn lemma_freed_slot_reused<T>(s: Seq<Option<T>>, i: int)
    requires
        0 <= i < s.len(),
    ensures
        first_empty(s.update(i, None)) <= i,
{
    let t = s.update(i, None);
    lemma_first_empty(t);
    if first_empty(t) > i {
        assert(t[i] is Some);
    }
}

impl<T> SlotList<T> {
    pub open spec fn view(&self) -> Seq<Option<T>> {
        self.slots@
    }

    pub fn new() -> (r: Self)
        ensures
            r@ == Seq::<Option<T>>::empty(),
    {
        SlotList { slots: Vec::new() }
    }

    pub fn with_capacity(capacity: usize) -> (r: Self)
        ensures
            r@ == Seq::<Option<T>>::empty(),
    {
        SlotList { slots: Vec::with_capacity(capacity) }
    }

    /// The number of slots, empty or not.
    pub fn len(&self) -> (r: usize)
        ensures
            r == self@.len(),
    {
        self.slots.len()
    }

    /// Put an item in the first empty slot, or in a new slot at the end, and
    /// return its index.
    pub fn insert(&mut self, item: T) -> (r: usize)
        ensures
            r == first_empty(old(self)@),
            r < old(self)@.len() ==> final(self)@ == old(self)@.update(r as int, Some(item)),
            r == old(self)@.len() ==> final(self)@ == old(self)@.push(Some(item)),
    {
        let mut i: usize = 0;
        while i < self.slots.len()
            invariant
                self@ == old(self)@,
                i <= self@.len(),
                forall|j: int| 0 <= j < i ==> self@[j] is Some,
            decreases self@.len() - i,
        {
            if self.slots[i].is_none() {
                proof { lemma_first_empty_is(self@, i as int); }
                self.slots.set(i, Some(item));
                return i;
            }
            i += 1;
        }
        proof { lemma_first_empty_is(self@, i as int); }
        self.slots.push(Some(item));
        i
    }

    /// The item in slot `index`, if any.
    pub fn get(&self, index: usize) -> (r: Option<&T>)
        ensures
            match r {
                Some(item) => index < self@.len() && self@[index as int] == Some(*item),
                None => index >= self@.len() || self@[index as int] is None,
            },
    {
        if index < self.slots.len() {
            match &self.slots[index] {
                Some(item) => Some(item),
                None => None,
            }
        } else {
            None
        }
    }

    /// Empty slot `index`, returning what it held.
    pub fn remove(&mut self, index: usize) -> (r: Option<T>)
        ensures
            index < old(self)@.len() ==> r == old(self)@[index as int] && final(self)@ == old(self)@.update(index as int, None),
            index >= old(self)@.len() ==> r is None && final(self)@ == old(self)@,
    {
        if index < self.slots.len() {
            let mut taken: Option<T> = None;
            self.slots.set_and_swap(index, &mut taken);
            taken
        } else {
            None
        }
    }

    /// Put an item in slot `index`, adding empty slots as needed, and return
    /// what the slot held before.
    pub fn replace(&mut self, index: usize, item: T) -> (r: Option<T>)
        requires
            index < usize::MAX,
        ensures
            index < old(self)@.len() ==> r == old(self)@[index as int] && final(self)@ == old(self)@.update(index as int, Some(item)),
            index >= old(self)@.len() ==> r is None
                && final(self)@.len() == index + 1
                && final(self)@[index as int] == Some(item)
                && forall|j: int| 0 <= j < index ==> #[trigger] final(self)@[j]
                    == if j < old(self)@.len() { old(self)@[j] } else { None },
    {
        if index < self.slots.len() {
            let mut value = Some(item);
            self.slots.set_and_swap(index, &mut value);
            value
        } else {
            while self.slots.len() < index
                invariant
                    index < usize::MAX,
                    index >= old(self)@.len(),
                    self@.len() <= index,
                    self@.len() >= old(self)@.len(),
                    forall|j: int| 0 <= j < self@.len() ==> #[trigger] self@[j]
                        == if j < old(self)@.len() { old(self)@[j] } else { None },
                decreases index - self@.len(),
            {
                self.slots.push(None);
            }
            self.slots.push(Some(item));
            None
        }
    }
}

impl<T: Copy> Clone for SlotList<T> {
    /// A copy of the list.
    fn clone(&self) -> (r: Self)
        ensures
            r@ == self@,
    {
        let mut slots: Vec<Option<T>> = Vec::new();
        let mut i: usize = 0;
        while i < self.slots.len()
            invariant
                i <= self@.len(),
                slots@ == self@.subrange(0, i as int),
            decreases self@.len() - i,
        {
            let slot = match &self.slots[i] {
                Some(item) => Some(*item),
                None => None,
            };
            slots.push(slot);
            i += 1;
            assert(slots@ =~= self@.subrange(0, i as int));
        }
        assert(self@.subrange(0, i as int) =~= self@);
        SlotList { slots }
    }
}

} // verus!
