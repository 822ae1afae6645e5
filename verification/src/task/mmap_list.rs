//! The set of mmap regions of an address space, kept in a vector ordered by
//! starting address. No two regions start at the same address: adding a
//! region at an address already in use replaces the previous one.
use vstd::prelude::*;
use super::memory::MMapRegion;

verus! {

/// Region starting addresses strictly increase along the sequence.
pub open spec fn regions_sorted(s: Seq<MMapRegion>) -> bool {
    forall|i: int, j: int| 0 <= i < j < s.len() ==> #[trigger] s[i].address.0 < #[trigger] s[j].address.0
}

/// Every region ends inside the 32-bit address space.
pub open spec fn regions_fit(s: Seq<MMapRegion>) -> bool {
    forall|i: int| 0 <= i < s.len() ==> #[trigger] s[i].end() <= u32::MAX
}

/// Some region of the sequence starts at `k`.
pub open spec fn has_start(s: Seq<MMapRegion>, k: u32) -> bool {
    exists|i: int| 0 <= i < s.len() && #[trigger] s[i].address.0 == k
}

/// The position of the region starting at `k`.
pub open spec fn start_index(s: Seq<MMapRegion>, k: u32) -> int {
    choose|i: int| 0 <= i < s.len() && #[trigger] s[i].address.0 == k
}

/// The regions keyed by their starting addresses.
pub open spec fn region_map(s: Seq<MMapRegion>) -> Map<u32, MMapRegion> {
    Map::new(|k: u32| has_start(s, k), |k: u32| s[start_index(s, k)])
}

pub proof fn lemma_region_map_at(s: Seq<MMapRegion>, i: int)
    requires
        regions_sorted(s),
        0 <= i < s.len(),
    ensures
        region_map(s).contains_key(s[i].address.0),
        region_map(s)[s[i].address.0] == s[i],
{
    let k = s[i].address.0;
    assert(has_start(s, k));
    let j = start_index(s, k);
    if j < i {
        assert(s[j].address.0 < s[i].address.0);
    } else if i < j {
        assert(s[i].address.0 < s[j].address.0);
    }
}

pub proof fn lemma_region_map_all(s: Seq<MMapRegion>)
    requires
        regions_sorted(s),
    ensures
        forall|i: int| 0 <= i < s.len() ==> #[trigger] region_map(s).contains_key(s[i].address.0)
            && region_map(s)[s[i].address.0] == s[i],
        forall|k: u32| #[trigger] region_map(s).contains_key(k) ==> exists|i: int| 0 <= i < s.len() && s[i].address.0 == k,
{
    assert forall|i: int| 0 <= i < s.len() implies #[trigger] region_map(s).contains_key(s[i].address.0)
        && region_map(s)[s[i].address.0] == s[i] by {
        lemma_region_map_at(s, i);
    }
}

/// The position of the first region starting at or above `key`, and whether a
/// region starts exactly at `key`.
pub fn find_slot(v: &Vec<MMapRegion>, key: u32) -> (r: (usize, bool))
    requires
        regions_sorted(v@),
    ensures
        r.0 <= v@.len(),
        forall|j: int| 0 <= j < r.0 ==> #[trigger] v@[j].address.0 < key,
        r.0 < v@.len() ==> v@[r.0 as int].address.0 >= key,
        r.1 == (r.0 < v@.len() && v@[r.0 as int].address.0 == key),
{
    let mut i: usize = 0;
    while i < v.len()
        invariant
            i <= v@.len(),
            forall|j: int| 0 <= j < i ==> #[trigger] v@[j].address.0 < key,
        decreases v@.len() - i,
    {
        if v[i].address.0 >= key {
            return (i, v[i].address.0 == key);
        }
        i += 1;
    }
    (i, false)
}

/// Add a region, replacing any region that starts at the same address.
pub fn insert_region(v: &mut Vec<MMapRegion>, region: MMapRegion)
    requires
        regions_sorted(old(v)@),
    ensures
        regions_sorted(final(v)@),
        region_map(final(v)@) == region_map(old(v)@).insert(region.address.0, region),
        forall|i: int| 0 <= i < final(v)@.len() ==> #[trigger] final(v)@[i] == region || old(v)@.contains(final(v)@[i]),
{
    let ghost s = v@;
    let (idx, found) = find_slot(v, region.address.0);
    if found {
        v.set(idx, region);
    } else {
        v.insert(idx, region);
    }
    let ghost t = v@;
    let ghost k = region.address.0;
    assert(regions_sorted(t)) by {
        assert forall|i: int, j: int| 0 <= i < j < t.len() implies #[trigger] t[i].address.0 < #[trigger] t[j].address.0 by {
            if !found {
                if j == idx {
                    assert(t[i] == s[i]);
                } else if i == idx {
                    assert(t[j] == s[j - 1]);
                } else if i < idx && j < idx {
                    assert(t[i] == s[i] && t[j] == s[j]);
                } else if i < idx {
                    assert(t[i] == s[i] && t[j] == s[j - 1]);
                    assert(s[i].address.0 < k);
                } else {
                    assert(t[i] == s[i - 1] && t[j] == s[j - 1]);
                }
            } else {
                if i == idx {
                    assert(s[i].address.0 == k);
                } else if j == idx {
                    assert(s[j].address.0 == k);
                }
            }
        }
    }
    proof {
        lemma_region_map_all(s);
        lemma_region_map_all(t);
        let m = region_map(s).insert(k, region);
        assert forall|key: u32| #[trigger] region_map(t).contains_key(key) <==> m.contains_key(key) by {
            if region_map(t).contains_key(key) {
                let i = choose|i: int| 0 <= i < t.len() && t[i].address.0 == key;
                if key != k {
                    if found {
                        assert(i != idx);
                        assert(t[i] == s[i]);
                        assert(region_map(s).contains_key(s[i].address.0));
                    } else if i < idx {
                        assert(t[i] == s[i]);
                        assert(region_map(s).contains_key(s[i].address.0));
                    } else {
                        assert(i != idx);
                        assert(t[i] == s[i - 1]);
                        assert(region_map(s).contains_key(s[i - 1].address.0));
                    }
                }
            }
            if m.contains_key(key) {
                if key == k {
                    assert(t[idx as int].address.0 == k);
                } else {
                    let i = choose|i: int| 0 <= i < s.len() && s[i].address.0 == key;
                    if found || i < idx {
                        assert(t[i] == s[i]);
                    } else {
                        assert(t[i + 1] == s[i]);
                    }
                    assert(region_map(t).contains_key(t[i].address.0) || region_map(t).contains_key(t[i + 1].address.0));
                }
            }
        }
        assert forall|key: u32| #[trigger] region_map(t).contains_key(key) implies region_map(t)[key] == m[key] by {
            let i = choose|i: int| 0 <= i < t.len() && t[i].address.0 == key;
            if i == idx {
                assert(t[i] == region);
            } else if found || i < idx {
                assert(t[i] == s[i]);
            } else {
                assert(t[i] == s[i - 1]);
            }
        }
        assert(region_map(t) =~= m);
        assert forall|i: int| 0 <= i < t.len() implies #[trigger] t[i] == region || s.contains(t[i]) by {
            if i != idx {
                if found || i < idx {
                    assert(t[i] == s[i]);
                } else {
                    assert(t[i] == s[i - 1]);
                }
            }
        }
    }
}

/// Remove the region starting at `key`, if there is one, and return it.
pub fn remove_region(v: &mut Vec<MMapRegion>, key: u32) -> (r: Option<MMapRegion>)
    requires
        regions_sorted(old(v)@),
    ensures
        regions_sorted(final(v)@),
        region_map(final(v)@) == region_map(old(v)@).remove(key),
        match r {
            Some(region) => region_map(old(v)@).contains_key(key) && region_map(old(v)@)[key] == region,
            None => !region_map(old(v)@).contains_key(key),
        },
        forall|i: int| 0 <= i < final(v)@.len() ==> old(v)@.contains(#[trigger] final(v)@[i]),
{
    let ghost s = v@;
    let (idx, found) = find_slot(v, key);
    proof {
        lemma_region_map_all(s);
    }
    if !found {
        proof {
            assert forall|i: int| 0 <= i < s.len() implies #[trigger] s[i].address.0 != key by {
                if i >= idx {
                    assert(s[idx as int].address.0 <= s[i].address.0);
                }
            }
            assert(region_map(s).remove(key) =~= region_map(s));
            assert forall|i: int| 0 <= i < s.len() implies s.contains(#[trigger] s[i]) by {
                assert(s[i] == s[i]);
            }
        }
        return None;
    }
    let region = v.remove(idx);
    let ghost t = v@;
    proof {
        assert(regions_sorted(t)) by {
            assert forall|i: int, j: int| 0 <= i < j < t.len() implies #[trigger] t[i].address.0 < #[trigger] t[j].address.0 by {
                if j < idx {
                    assert(t[i] == s[i] && t[j] == s[j]);
                } else if i < idx {
                    assert(t[i] == s[i] && t[j] == s[j + 1]);
                } else {
                    assert(t[i] == s[i + 1] && t[j] == s[j + 1]);
                }
            }
        }
        lemma_region_map_all(t);
        let m = region_map(s).remove(key);
        assert forall|k2: u32| #[trigger] region_map(t).contains_key(k2) <==> m.contains_key(k2) by {
            if region_map(t).contains_key(k2) {
                let i = choose|i: int| 0 <= i < t.len() && t[i].address.0 == k2;
                if i < idx {
                    assert(t[i] == s[i]);
                } else {
                    assert(t[i] == s[i + 1]);
                    assert(s[idx as int].address.0 < s[i + 1].address.0);
                }
            }
            if m.contains_key(k2) {
                let i = choose|i: int| 0 <= i < s.len() && s[i].address.0 == k2;
                assert(i != idx);
                if i < idx {
                    assert(t[i] == s[i]);
                } else {
                    assert(t[i - 1] == s[i]);
                }
            }
        }
        assert forall|k2: u32| #[trigger] region_map(t).contains_key(k2) implies region_map(t)[k2] == m[k2] by {
            let i = choose|i: int| 0 <= i < t.len() && t[i].address.0 == k2;
            if i < idx {
                assert(t[i] == s[i]);
            } else {
                assert(t[i] == s[i + 1]);
            }
        }
        assert(region_map(t) =~= m);
        assert forall|i: int| 0 <= i < t.len() implies s.contains(#[trigger] t[i]) by {
            if i < idx {
                assert(t[i] == s[i]);
            } else {
                assert(t[i] == s[i + 1]);
            }
        }
    }
    Some(region)
}

} // verus!
