//! What `munmap` does to the set of mapped addresses.
use vstd::prelude::*;
use crate::memory::address::VirtualAddress;
use super::memory::{apply_cut, apply_cuts, ranges_intersect, region_range, regions_disjoint, unmap_walk, MMapRegion, MemoryRegions};
use super::mmap_laws::map_disjoint;
use super::mmap_list::{lemma_region_map_all, region_map, regions_fit, regions_sorted};

verus! {

/// Some region of the map holds the address.
pub open spec fn map_holds(m: Map<u32, MMapRegion>, x: VirtualAddress) -> bool {
    exists|k: u32| m.contains_key(k) && (#[trigger] m[k]).holds(x)
}

/// Regions are keyed by their starting address, fit in the address space,
/// and each ends at or before the key of every region above it.
pub open spec fn map_ordered(m: Map<u32, MMapRegion>) -> bool {
    &&& forall|k: u32| #[trigger] m.contains_key(k) ==> m[k].address.0 == k && m[k].end() <= u32::MAX
    &&& forall|k1: u32, k2: u32| #[trigger] m.contains_key(k1) && #[trigger] m.contains_key(k2) && k1 < k2
        ==> m[k1].end() <= k2
}

proof fn lemma_ordered_from_seq(s: Seq<MMapRegion>)
    requires
        regions_sorted(s),
        regions_disjoint(s),
        regions_fit(s),
    ensures
        map_ordered(region_map(s)),
        forall|x: VirtualAddress| map_holds(region_map(s), x) <==> exists|k: int| 0 <= k < s.len() && (#[trigger] s[k]).holds(x),
{
    lemma_region_map_all(s);
    let m = region_map(s);
    assert forall|k1: u32, k2: u32| #[trigger] m.contains_key(k1) && #[trigger] m.contains_key(k2) && k1 < k2
        implies m[k1].end() <= k2 by {
        let i1 = choose|i: int| 0 <= i < s.len() && s[i].address.0 == k1;
        let i2 = choose|i: int| 0 <= i < s.len() && s[i].address.0 == k2;
        if i2 < i1 {
            assert(s[i2].address.0 < s[i1].address.0);
        }
        assert(i1 != i2);
        assert(s[i1].end() <= s[i2].address.0);
    }
    assert forall|k: u32| #[trigger] m.contains_key(k) implies m[k].address.0 == k && m[k].end() <= u32::MAX by {
        let i = choose|i: int| 0 <= i < s.len() && s[i].address.0 == k;
        assert(s[i].end() <= u32::MAX);
    }
    assert forall|x: VirtualAddress| map_holds(m, x) <==> exists|k: int| 0 <= k < s.len() && (#[trigger] s[k]).holds(x) by {
        if map_holds(m, x) {
            let key = choose|key: u32| m.contains_key(key) && (#[trigger] m[key]).holds(x);
            let i = choose|i: int| 0 <= i < s.len() && s[i].address.0 == key;
            assert(s[i].holds(x));
        }
        if exists|k: int| 0 <= k < s.len() && (#[trigger] s[k]).holds(x) {
            let k = choose|k: int| 0 <= k < s.len() && (#[trigger] s[k]).holds(x);
            assert(m.contains_key(s[k].address.0) && m[s[k].address.0].holds(x));
        }
    }
}

/// One cut removes exactly the cut addresses from the map and leaves every
/// other key untouched.
proof fn lemma_apply_cut(m: Map<u32, MMapRegion>, change: (u32, int, int))
    requires
        map_ordered(m),
        m.contains_key(change.0),
        0 <= change.1 <= change.2,
        change.0 + change.2 <= m[change.0].end(),
    ensures
        map_ordered(apply_cut(m, change)),
        forall|x: VirtualAddress| map_holds(apply_cut(m, change), x)
            <==> (map_holds(m, x) && !(change.0 + change.1 <= x.0 < change.0 + change.2)),
        forall|k: u32| #[trigger] m.contains_key(k) && k != change.0 && (k < change.0 || k >= m[change.0].end())
            ==> apply_cut(m, change).contains_key(k) && apply_cut(m, change)[k] == m[k],
        forall|k: u32| #[trigger] apply_cut(m, change).contains_key(k) ==> m.contains_key(k) || (change.0 < k < m[change.0].end()),
{
    let (key, a, b) = change;
    let region = m[key];
    let n = apply_cut(m, change);
    let m0 = m.remove(key);
    let m1 = if a > 0 {
        m0.insert(region.address.0, MMapRegion { address: region.address, size: a as usize, backed_by: region.backed_by })
    } else {
        m0
    };
    let new_size = region.size - b;
    let new_address = region.address.0 + (region.size - new_size);
    let after = MMapRegion { address: VirtualAddress(new_address as u32), size: new_size as usize, backed_by: region.backed_by };
    assert(n == if b < region.size { m1.insert(new_address as u32, after) } else { m1 });
    // keys other than those of the region being cut keep their regions
    assert forall|k: u32| #[trigger] m.contains_key(k) && k != key && (k < key || k >= region.end())
        implies n.contains_key(k) && n[k] == m[k] by {
        assert(m0.contains_key(k) && m0[k] == m[k]);
    }
    assert forall|k: u32| #[trigger] n.contains_key(k) implies m.contains_key(k) || (key < k < region.end()) by {
    }
    // the other regions lie entirely below or above the region being cut
    assert forall|k: u32| #[trigger] m.contains_key(k) && k != key implies m[k].end() <= key || k >= region.end() by {
        if k < key {
        } else {
        }
    }
    assert(map_ordered(n)) by {
        assert forall|k: u32| #[trigger] n.contains_key(k) implies n[k].address.0 == k && n[k].end() <= u32::MAX by {
            if m.contains_key(k) && k != key {
                if k < key || k >= region.end() {
                } else {
                    assert(false);
                }
            }
        }
        assert forall|k1: u32, k2: u32| #[trigger] n.contains_key(k1) && #[trigger] n.contains_key(k2) && k1 < k2
            implies n[k1].end() <= k2 by {
            let in1 = k1 == key || (b < region.size && k1 == new_address);
            let in2 = k2 == key || (b < region.size && k2 == new_address);
            if !in1 && !in2 {
                assert(m.contains_key(k1) && m.contains_key(k2));
            } else if in1 && !in2 {
                assert(m.contains_key(k2) && k2 != key);
                assert(k2 >= region.end());
            } else if !in1 && in2 {
                assert(m.contains_key(k1) && k1 != key);
                assert(m[k1].end() <= key);
            } else {
                assert(k1 == key && k2 == new_address);
            }
        }
    }
    assert forall|x: VirtualAddress| map_holds(n, x) <==> (map_holds(m, x) && !(key + a <= x.0 < key + b)) by {
        if map_holds(n, x) {
            let k = choose|k: u32| n.contains_key(k) && (#[trigger] n[k]).holds(x);
            if (k == key && a > 0) || (b < region.size && k == new_address) {
                assert(m[key].holds(x));
            } else {
                assert(m.contains_key(k) && k != key);
                assert(m[k].holds(x));
                if k >= region.end() {
                } else {
                    assert(m[k].end() <= key);
                }
            }
        }
        if map_holds(m, x) && !(key + a <= x.0 < key + b) {
            let k = choose|k: u32| m.contains_key(k) && (#[trigger] m[k]).holds(x);
            if k == key {
                if x.0 < key + a {
                    assert(n.contains_key(key) && n[key].holds(x));
                } else {
                    assert(b < region.size);
                    assert(n.contains_key(new_address as u32) && n[new_address as u32].holds(x));
                }
            } else {
                assert(m[k].end() <= key || k >= region.end());
                assert(n.contains_key(k) && n[k] == m[k]);
            }
        }
    }
}

/// The cut `c` of region `r` takes out exactly the part of `r` inside
/// `[lo, hi)`.
pub open spec fn cut_ok(r: MMapRegion, c: (u32, int, int), lo: int, hi: int) -> bool {
    &&& 0 <= c.1 <= c.2 <= r.size
    &&& forall|x: VirtualAddress| (r.address.0 + c.1 <= x.0 < r.address.0 + c.2) <==> (#[trigger] r.holds(x) && lo <= x.0 < hi)
}

/// Some region at index `i` or above starts at `key`.
pub open spec fn starts_from(s: Seq<MMapRegion>, i: int, key: u32) -> bool {
    exists|k: int| i <= k < s.len() && #[trigger] s[k].address.0 == key
}

/// Some cut of `w` names `key`.
pub open spec fn names(w: Seq<(u32, int, int)>, key: u32) -> bool {
    exists|j: int| 0 <= j < w.len() && #[trigger] w[j].0 == key
}

proof fn lemma_cut_transfer(r: MMapRegion, c: (u32, int, int), lo1: int, lo2: int, hi: int)
    requires
        cut_ok(r, c, lo2, hi),
        lo1 == lo2 || (lo1 <= lo2 && lo2 <= r.address.0),
    ensures
        cut_ok(r, c, lo1, hi),
{
    assert forall|x: VirtualAddress| (r.address.0 + c.1 <= x.0 < r.address.0 + c.2) <==> (#[trigger] r.holds(x) && lo1 <= x.0 < hi) by {
        assert((r.address.0 + c.1 <= x.0 < r.address.0 + c.2) <==> (r.holds(x) && lo2 <= x.0 < hi));
    }
}

proof fn lemma_same_start(s: Seq<MMapRegion>, k1: int, k2: int)
    requires
        regions_sorted(s),
        0 <= k1 < s.len(),
        0 <= k2 < s.len(),
        s[k1].address.0 == s[k2].address.0,
    ensures
        k1 == k2,
{
    if k1 < k2 {
        assert(s[k1].address.0 < s[k2].address.0);
    } else if k2 < k1 {
        assert(s[k2].address.0 < s[k1].address.0);
    }
}

/// The cuts found by the walk, over ordered disjoint regions: their keys
/// increase, each cut is the part of its region inside `[start, start+len)`,
/// and every region meeting that range gets a cut.
proof fn lemma_walk(s: Seq<MMapRegion>, i: int, start: int, len: int)
    requires
        regions_sorted(s),
        regions_disjoint(s),
        regions_fit(s),
        0 <= i <= s.len(),
        0 <= start,
        0 <= len,
    ensures
        ({
            let w = unmap_walk(s, i, start, len);
            &&& forall|j1: int, j2: int| 0 <= j1 < j2 < w.len() ==> #[trigger] w[j1].0 < #[trigger] w[j2].0
            &&& forall|j: int| 0 <= j < w.len() ==> starts_from(s, i, (#[trigger] w[j]).0)
            &&& forall|j: int, k: int| 0 <= j < w.len() && 0 <= k < s.len() && #[trigger] s[k].address.0 == (#[trigger] w[j]).0
                ==> cut_ok(s[k], w[j], start, start + len)
            &&& forall|k: int, x: VirtualAddress| i <= k < s.len() && #[trigger] s[k].holds(x) && start <= x.0 < start + len
                ==> names(w, s[k].address.0)
        }),
    decreases s.len() - i,
{
    let w = unmap_walk(s, i, start, len);
    if i < s.len() {
        let rs = s[i].address.0 as int;
        let re = s[i].end();
        let skip = start < rs && start + len > rs;
        let start2 = if skip { rs } else { start };
        let len2 = if skip { len - (rs - start) } else { len };
        assert forall|k: int| i < k < s.len() implies re <= #[trigger] s[k].address.0 by {
        }
        if rs <= start2 && start2 < re {
            let can = re - start2;
            let to_remove = if can > len2 { len2 } else { can };
            let remaining = if can > len2 { 0 } else { len2 - can };
            let change = (s[i].address.0, start2 - rs, start2 - rs + to_remove);
            let lo2 = start2 + to_remove;
            let rest = unmap_walk(s, i + 1, lo2, remaining);
            lemma_walk(s, i + 1, lo2, remaining);
            if remaining == 0 {
                assert(w == seq![change]);
            } else {
                assert(w == seq![change] + rest);
                assert(lo2 == re);
            }
            assert(w[0] == change);
            assert(cut_ok(s[i], change, start, start + len));
            assert forall|j: int| 0 <= j < w.len() implies starts_from(s, i, (#[trigger] w[j]).0) by {
                if j == 0 {
                    assert(s[i].address.0 == w[j].0);
                } else {
                    assert(w[j] == rest[j - 1]);
                    assert(starts_from(s, i + 1, rest[j - 1].0));
                    let k = choose|k: int| i + 1 <= k < s.len() && #[trigger] s[k].address.0 == rest[j - 1].0;
                    assert(s[k].address.0 == w[j].0);
                }
            }
            assert forall|j: int, k: int| 0 <= j < w.len() && 0 <= k < s.len() && #[trigger] s[k].address.0 == (#[trigger] w[j]).0
                implies cut_ok(s[k], w[j], start, start + len) by {
                if j == 0 {
                    lemma_same_start(s, k, i);
                } else {
                    assert(w[j] == rest[j - 1]);
                    assert(starts_from(s, i + 1, rest[j - 1].0));
                    let k0 = choose|k0: int| i + 1 <= k0 < s.len() && #[trigger] s[k0].address.0 == rest[j - 1].0;
                    lemma_same_start(s, k, k0);
                    assert(cut_ok(s[k], rest[j - 1], lo2, lo2 + remaining));
                    assert(re <= s[k].address.0);
                    lemma_cut_transfer(s[k], rest[j - 1], start, lo2, start + len);
                }
            }
            assert forall|j1: int, j2: int| 0 <= j1 < j2 < w.len() implies #[trigger] w[j1].0 < #[trigger] w[j2].0 by {
                assert(w[j2] == rest[j2 - 1]);
                if j1 > 0 {
                    assert(w[j1] == rest[j1 - 1]);
                } else {
                    assert(starts_from(s, i + 1, rest[j2 - 1].0));
                    let k = choose|k: int| i + 1 <= k < s.len() && #[trigger] s[k].address.0 == rest[j2 - 1].0;
                    assert(s[i].address.0 < s[k].address.0);
                }
            }
            assert forall|k: int, x: VirtualAddress| i <= k < s.len() && #[trigger] s[k].holds(x) && start <= x.0 < start + len
                implies names(w, s[k].address.0) by {
                if k == i {
                    assert(w[0].0 == s[k].address.0);
                } else {
                    assert(re <= s[k].address.0);
                    assert(remaining > 0);
                    assert(names(rest, s[k].address.0));
                    let j = choose|j: int| 0 <= j < rest.len() && #[trigger] rest[j].0 == s[k].address.0;
                    assert(w[j + 1] == rest[j]);
                }
            }
        } else {
            lemma_walk(s, i + 1, start2, len2);
            let rest = unmap_walk(s, i + 1, start2, len2);
            assert(w == rest);
            assert(start2 + len2 == start + len);
            assert(skip ==> start2 == re);
            assert forall|j: int| 0 <= j < w.len() implies starts_from(s, i, (#[trigger] w[j]).0) by {
                assert(starts_from(s, i + 1, w[j].0));
                let k = choose|k: int| i + 1 <= k < s.len() && #[trigger] s[k].address.0 == w[j].0;
            }
            assert forall|j: int, k: int| 0 <= j < w.len() && 0 <= k < s.len() && #[trigger] s[k].address.0 == (#[trigger] w[j]).0
                implies cut_ok(s[k], w[j], start, start + len) by {
                assert(starts_from(s, i + 1, rest[j].0));
                let k0 = choose|k0: int| i + 1 <= k0 < s.len() && #[trigger] s[k0].address.0 == rest[j].0;
                lemma_same_start(s, k, k0);
                assert(cut_ok(s[k], rest[j], start2, start2 + len2));
                assert(re <= s[k].address.0);
                lemma_cut_transfer(s[k], rest[j], start, start2, start + len);
            }
            assert forall|k: int, x: VirtualAddress| i <= k < s.len() && #[trigger] s[k].holds(x) && start <= x.0 < start + len
                implies names(w, s[k].address.0) by {
                if k == i {
                    assert(false);
                } else {
                    assert(re <= s[k].address.0);
                    assert(names(rest, s[k].address.0));
                }
            }
        }
    }
}

/// The cuts of `w` before index `n` leave `x` in place.
pub open spec fn uncut(w: Seq<(u32, int, int)>, n: int, x: VirtualAddress) -> bool {
    forall|j: int| 0 <= j < n ==> !((#[trigger] w[j]).0 + w[j].1 <= x.0 < w[j].0 + w[j].2)
}

/// Every region of `new` lies inside some region of `old` with the same
/// backing.
pub open spec fn within(old: Map<u32, MMapRegion>, new: Map<u32, MMapRegion>) -> bool {
    forall|k: u32| #[trigger] new.contains_key(k) ==> exists|k0: u32| old.contains_key(k0)
        && old[k0].address.0 <= new[k].address.0 && new[k].end() <= old[k0].end()
        && new[k].backed_by == old[k0].backed_by
}

proof fn lemma_within_refl(m: Map<u32, MMapRegion>)
    ensures
        within(m, m),
{
    assert forall|k: u32| #[trigger] m.contains_key(k) implies exists|k0: u32| m.contains_key(k0)
        && m[k0].address.0 <= m[k].address.0 && m[k].end() <= m[k0].end() && m[k].backed_by == m[k0].backed_by by {
        assert(m.contains_key(k));
    }
}

proof fn lemma_within_trans(a: Map<u32, MMapRegion>, b: Map<u32, MMapRegion>, c: Map<u32, MMapRegion>)
    requires
        within(a, b),
        within(b, c),
    ensures
        within(a, c),
{
    assert forall|k: u32| #[trigger] c.contains_key(k) implies exists|k0: u32| a.contains_key(k0)
        && a[k0].address.0 <= c[k].address.0 && c[k].end() <= a[k0].end() && c[k].backed_by == a[k0].backed_by by {
        let kb = choose|k0: u32| b.contains_key(k0) && b[k0].address.0 <= c[k].address.0 && c[k].end() <= b[k0].end()
            && c[k].backed_by == b[k0].backed_by;
        let ka = choose|k0: u32| a.contains_key(k0) && a[k0].address.0 <= b[kb].address.0 && b[kb].end() <= a[k0].end()
            && b[kb].backed_by == a[k0].backed_by;
        assert(a.contains_key(ka));
    }
}

/// One cut leaves only parts of the regions there were, with their backing.
proof fn lemma_apply_cut_within(m: Map<u32, MMapRegion>, change: (u32, int, int))
    requires
        map_ordered(m),
        m.contains_key(change.0),
        0 <= change.1 <= change.2,
        change.0 + change.2 <= m[change.0].end(),
    ensures
        within(m, apply_cut(m, change)),
{
    lemma_apply_cut(m, change);
    let n = apply_cut(m, change);
    let key = change.0;
    let region = m[key];
    assert forall|k: u32| #[trigger] n.contains_key(k) implies exists|k0: u32| m.contains_key(k0)
        && m[k0].address.0 <= n[k].address.0 && n[k].end() <= m[k0].end() && n[k].backed_by == m[k0].backed_by by {
        if m.contains_key(k) && k != key && (k < key || k >= region.end()) {
            assert(n[k] == m[k]);
        } else {
            if m.contains_key(k) && k != key {
                assert(region.end() <= k);
            }
            assert(m.contains_key(key));
        }
    }
}

/// Applying the walk's cuts in order removes exactly the cut addresses.
proof fn lemma_apply_walk(s: Seq<MMapRegion>, w: Seq<(u32, int, int)>, n: int)
    requires
        regions_sorted(s),
        regions_disjoint(s),
        regions_fit(s),
        0 <= n <= w.len(),
        forall|j1: int, j2: int| 0 <= j1 < j2 < w.len() ==> #[trigger] w[j1].0 < #[trigger] w[j2].0,
        forall|j: int| 0 <= j < w.len() ==> starts_from(s, 0, (#[trigger] w[j]).0),
        forall|j: int, k: int| 0 <= j < w.len() && 0 <= k < s.len() && #[trigger] s[k].address.0 == (#[trigger] w[j]).0
            ==> 0 <= w[j].1 <= w[j].2 <= s[k].size,
    ensures
        map_ordered(apply_cuts(region_map(s), w.subrange(0, n))),
        forall|j: int| n <= j < w.len() ==> apply_cuts(region_map(s), w.subrange(0, n)).contains_key((#[trigger] w[j]).0)
            && apply_cuts(region_map(s), w.subrange(0, n))[w[j].0] == region_map(s)[w[j].0],
        forall|x: VirtualAddress| map_holds(apply_cuts(region_map(s), w.subrange(0, n)), x)
            <==> (map_holds(region_map(s), x) && uncut(w, n, x)),
    decreases n,
{
    let m0 = region_map(s);
    lemma_ordered_from_seq(s);
    lemma_region_map_all(s);
    if n == 0 {
        assert(w.subrange(0, 0) =~= Seq::<(u32, int, int)>::empty());
        assert forall|j: int| n <= j < w.len() implies m0.contains_key((#[trigger] w[j]).0) by {
            assert(starts_from(s, 0, w[j].0));
            let k = choose|k: int| 0 <= k < s.len() && #[trigger] s[k].address.0 == w[j].0;
        }
    } else {
        lemma_apply_walk(s, w, n - 1);
        let prev = apply_cuts(m0, w.subrange(0, n - 1));
        assert(w.subrange(0, n).drop_last() =~= w.subrange(0, n - 1));
        assert(w.subrange(0, n).last() == w[n - 1]);
        let cur = apply_cuts(m0, w.subrange(0, n));
        assert(cur == apply_cut(prev, w[n - 1]));
        let change = w[n - 1];
        assert(starts_from(s, 0, w[n - 1].0));
        let k = choose|k: int| 0 <= k < s.len() && #[trigger] s[k].address.0 == w[n - 1].0;
        assert(0 <= change.1 <= change.2 <= s[k].size);
        assert(m0[change.0] == s[k]);
        assert(prev.contains_key(change.0) && prev[change.0] == s[k]);
        lemma_apply_cut(prev, change);
        assert forall|j: int| n <= j < w.len() implies cur.contains_key((#[trigger] w[j]).0) && cur[w[j].0] == m0[w[j].0] by {
            assert(w[n - 1].0 < w[j].0);
            assert(starts_from(s, 0, w[j].0));
            let k2 = choose|k2: int| 0 <= k2 < s.len() && #[trigger] s[k2].address.0 == w[j].0;
            if k2 <= k {
                if k2 < k {
                    assert(s[k2].address.0 < s[k].address.0);
                }
                assert(false);
            }
            assert(s[k].end() <= s[k2].address.0);
            assert(prev.contains_key(w[j].0));
        }
        assert forall|x: VirtualAddress| map_holds(cur, x) <==> (map_holds(m0, x) && uncut(w, n, x)) by {
            if uncut(w, n, x) {
                assert(uncut(w, n - 1, x));
                assert(!(w[n - 1].0 + w[n - 1].1 <= x.0 < w[n - 1].0 + w[n - 1].2));
            } else {
                let j = choose|j: int| 0 <= j < n && ((#[trigger] w[j]).0 + w[j].1 <= x.0 < w[j].0 + w[j].2);
                if j < n - 1 {
                    assert(!uncut(w, n - 1, x));
                }
            }
        }
    }
}

/// Applying the walk's cuts in order leaves only parts of the regions there
/// were, with their backing.
proof fn lemma_walk_within(s: Seq<MMapRegion>, w: Seq<(u32, int, int)>, n: int)
    requires
        regions_sorted(s),
        regions_disjoint(s),
        regions_fit(s),
        0 <= n <= w.len(),
        forall|j1: int, j2: int| 0 <= j1 < j2 < w.len() ==> #[trigger] w[j1].0 < #[trigger] w[j2].0,
        forall|j: int| 0 <= j < w.len() ==> starts_from(s, 0, (#[trigger] w[j]).0),
        forall|j: int, k: int| 0 <= j < w.len() && 0 <= k < s.len() && #[trigger] s[k].address.0 == (#[trigger] w[j]).0
            ==> 0 <= w[j].1 <= w[j].2 <= s[k].size,
    ensures
        within(region_map(s), apply_cuts(region_map(s), w.subrange(0, n))),
    decreases n,
{
    let m0 = region_map(s);
    if n == 0 {
        assert(w.subrange(0, 0) =~= Seq::<(u32, int, int)>::empty());
        lemma_within_refl(m0);
    } else {
        lemma_walk_within(s, w, n - 1);
        lemma_apply_walk(s, w, n - 1);
        lemma_region_map_all(s);
        let prev = apply_cuts(m0, w.subrange(0, n - 1));
        assert(w.subrange(0, n).drop_last() =~= w.subrange(0, n - 1));
        assert(w.subrange(0, n).last() == w[n - 1]);
        let cur = apply_cuts(m0, w.subrange(0, n));
        assert(cur == apply_cut(prev, w[n - 1]));
        let change = w[n - 1];
        assert(starts_from(s, 0, w[n - 1].0));
        let k = choose|k: int| 0 <= k < s.len() && #[trigger] s[k].address.0 == w[n - 1].0;
        assert(m0[change.0] == s[k]);
        assert(prev.contains_key(change.0) && prev[change.0] == s[k]);
        lemma_apply_cut_within(prev, change);
        lemma_within_trans(m0, prev, cur);
    }
}

/// Regions ordered by address do not overlap.
proof fn lemma_ordered_disjoint(m: Map<u32, MMapRegion>)
    requires
        map_ordered(m),
    ensures
        map_disjoint(m),
{
    assert forall|k1: u32, k2: u32| #[trigger] m.contains_key(k1) && #[trigger] m.contains_key(k2) && k1 != k2
        implies !ranges_intersect(region_range(m[k1]), region_range(m[k2])) by {
        if k1 < k2 {
            assert(m[k1].end() <= k2);
        } else {
            assert(m[k2].end() <= k1);
        }
    }
}

/// Unmapping frees the range: after `munmap(addr, length)` succeeds, an
/// address is mapped exactly when it was mapped before and lies outside
/// `[addr, addr + length)`; every remaining region lies inside a region
/// there was, with the same backing; and the regions stay ordered and
/// pairwise disjoint. All this provided that the regions did not overlap
/// one another.
pub proof fn lemma_munmap_frees_range(before: MemoryRegions, after: MemoryRegions, addr: VirtualAddress, length: usize)
    requires
        before.wf(),
        regions_disjoint(before.mmap_regions@),
        addr.0 + length <= u32::MAX,
        after.regions() == apply_cuts(before.regions(), unmap_walk(before.mmap_regions@, 0, addr.0 as int, length as int)),
    ensures
        forall|x: VirtualAddress| map_holds(after.regions(), x)
            <==> (map_holds(before.regions(), x) && !(addr.0 <= x.0 < addr.0 + length)),
        within(before.regions(), after.regions()),
        map_ordered(after.regions()),
        map_disjoint(after.regions()),
{
    let s = before.mmap_regions@;
    let lo = addr.0 as int;
    let hi = addr.0 + length;
    let w = unmap_walk(s, 0, lo, length as int);
    lemma_walk(s, 0, lo, length as int);
    lemma_apply_walk(s, w, w.len() as int);
    lemma_walk_within(s, w, w.len() as int);
    assert(w.subrange(0, w.len() as int) =~= w);
    lemma_ordered_from_seq(s);
    lemma_ordered_disjoint(after.regions());
    assert forall|x: VirtualAddress| map_holds(after.regions(), x)
        <==> (map_holds(before.regions(), x) && !(lo <= x.0 < hi)) by {
        if map_holds(before.regions(), x) {
            let k = choose|k: int| 0 <= k < s.len() && (#[trigger] s[k]).holds(x);
            if lo <= x.0 < hi {
                assert(names(w, s[k].address.0));
                let j = choose|j: int| 0 <= j < w.len() && #[trigger] w[j].0 == s[k].address.0;
                assert(cut_ok(s[k], w[j], lo, hi));
                assert(!uncut(w, w.len() as int, x));
            } else {
                assert forall|j: int| 0 <= j < w.len() implies !((#[trigger] w[j]).0 + w[j].1 <= x.0 < w[j].0 + w[j].2) by {
                    assert(starts_from(s, 0, w[j].0));
                    let k2 = choose|k2: int| 0 <= k2 < s.len() && #[trigger] s[k2].address.0 == w[j].0;
                    assert(cut_ok(s[k2], w[j], lo, hi));
                    assert((s[k2].address.0 + w[j].1 <= x.0 < s[k2].address.0 + w[j].2) <==> (s[k2].holds(x) && lo <= x.0 < hi));
                }
            }
        }
    }
}

} // verus!
