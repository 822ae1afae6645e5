//! What `mmap` does to the regions: a mapping placed by the search for free
//! space, or at a requested address above the execution segments, overlaps
//! no existing mapping, so non-overlapping regions stay non-overlapping; and
//! when the search for free space is defined.
use vstd::prelude::*;
use core::ops::Range;
use crate::memory::address::{page_ceil, VirtualAddress};
use super::memory::{
    lemma_free_space_is_free, mmap_defined, mmap_location, ranges_intersect, region_range,
    regions_disjoint, search_free_defined, MMapBacking, MMapRegion, MemoryRegions,
};
use super::mmap_list::lemma_region_map_all;

verus! {

/// No two regions of the map share an address.
pub open spec fn map_disjoint(m: Map<u32, MMapRegion>) -> bool {
    forall|k1: u32, k2: u32| #[trigger] m.contains_key(k1) && #[trigger] m.contains_key(k2) && k1 != k2
        ==> !ranges_intersect(region_range(m[k1]), region_range(m[k2]))
}

/// Regions that do not overlap in address order do not overlap as a map.
pub proof fn lemma_disjoint_map(m: MemoryRegions)
    requires
        m.wf(),
        regions_disjoint(m.mmap_regions@),
    ensures
        map_disjoint(m.regions()),
{
    let s = m.mmap_regions@;
    lemma_region_map_all(s);
    let r = m.regions();
    assert forall|k1: u32, k2: u32| #[trigger] r.contains_key(k1) && #[trigger] r.contains_key(k2) && k1 != k2
        implies !ranges_intersect(region_range(r[k1]), region_range(r[k2])) by {
        let i1 = choose|i: int| 0 <= i < s.len() && s[i].address.0 == k1;
        let i2 = choose|i: int| 0 <= i < s.len() && s[i].address.0 == k2;
        assert(i1 != i2);
        if i1 < i2 {
            assert(s[i1].end() <= s[i2].address.0);
        } else {
            assert(s[i2].end() <= s[i1].address.0);
        }
    }
}

/// A requested mapping that ends at or below the start of the execution
/// segments overlaps no existing region.
pub open spec fn low_request_clear(m: MemoryRegions, addr: Option<VirtualAddress>, size: int) -> bool {
    match addr {
        Some(req) => req.0 + size <= m.exec_start() ==> forall|k: u32| #[trigger] m.regions().contains_key(k)
            ==> !ranges_intersect(region_range(m.regions()[k]), Range { start: req, end: VirtualAddress((req.0 + size) as u32) }),
        None => true,
    }
}

/// A request that is page aligned and overlaps neither the heap's pages nor
/// any region is placed where it was asked for.
pub open spec fn request_honored(m: MemoryRegions, addr: Option<VirtualAddress>, size: int, a: int) -> bool {
    match addr {
        Some(req) => {
            let range = Range { start: req, end: VirtualAddress((req.0 + size) as u32) };
            (req.0 % 0x1000 == 0 && !ranges_intersect(range, m.heap_page_range())
                && forall|k: u32| #[trigger] m.regions().contains_key(k) ==> !ranges_intersect(region_range(m.regions()[k]), range))
                ==> a == req.0
        },
        None => true,
    }
}

/// `mmap` places a page-aligned request that overlaps neither the heap's
/// pages nor any region where it was asked for.
pub proof fn lemma_request_honored(m: MemoryRegions, addr: Option<VirtualAddress>, size: usize, a: int)
    requires
        m.wf(),
        mmap_location(m, addr, size as int) == Ok::<int, crate::task::memory::ProcessMemoryError>(a),
    ensures
        request_honored(m, addr, size as int, a),
{
    let s = m.mmap_regions@;
    lemma_region_map_all(s);
    if let Some(req) = addr {
        let range = Range { start: req, end: VirtualAddress((req.0 + size) as u32) };
        if req.0 % 0x1000 == 0 && !ranges_intersect(range, m.heap_page_range())
            && forall|k: u32| #[trigger] m.regions().contains_key(k) ==> !ranges_intersect(region_range(m.regions()[k]), range) {
            assert forall|i: int| 0 <= i < s.len() implies !ranges_intersect(#[trigger] region_range(s[i]), range) by {
                assert(m.regions().contains_key(s[i].address.0));
            }
            assert(m.fits_range(range));
        }
    }
}

/// A new mapping placed by `mmap` overlaps none of the existing ones, and
/// the regions stay pairwise disjoint, when the existing regions do not
/// overlap and a request that ends at or below the start of the execution
/// segments overlaps none of them either (such a request is placed without
/// looking at the other mappings).
pub proof fn lemma_mmap_keeps_disjoint(m: MemoryRegions, addr: Option<VirtualAddress>, size: usize, backing: MMapBacking, a: int)
    requires
        m.wf(),
        regions_disjoint(m.mmap_regions@),
        mmap_defined(m, addr, size as int),
        mmap_location(m, addr, size as int) == Ok::<int, crate::task::memory::ProcessMemoryError>(a),
        low_request_clear(m, addr, size as int),
    ensures
        a % 0x1000 == 0,
        0 <= a,
        a + size <= u32::MAX,
        forall|k: u32| #[trigger] m.regions().contains_key(k) ==> !ranges_intersect(region_range(m.regions()[k]),
            Range { start: VirtualAddress(a as u32), end: VirtualAddress((a + size) as u32) }),
        map_disjoint(m.regions().insert(a as u32, MMapRegion { address: VirtualAddress(a as u32), size, backed_by: backing })),
        request_honored(m, addr, size as int, a),
{
    let s = m.mmap_regions@;
    let new_range = Range { start: VirtualAddress(a as u32), end: VirtualAddress((a + size) as u32) };
    lemma_region_map_all(s);
    lemma_disjoint_map(m);
    let free_path = match addr {
        Some(req) => !m.fits_range(Range { start: req, end: VirtualAddress((req.0 + size) as u32) }),
        None => true,
    };
    lemma_request_honored(m, addr, size, a);
    if free_path {
        assert(m.free_space(size as int) == Some(a));
        lemma_free_space_is_free(m, size as int);
    } else {
        let req = addr.unwrap();
        assert(a == req.0);
    }
    assert forall|k: u32| #[trigger] m.regions().contains_key(k) implies !ranges_intersect(region_range(m.regions()[k]), new_range) by {
        if free_path {
            let i = choose|i: int| 0 <= i < s.len() && s[i].address.0 == k;
            assert(m.regions()[k] == s[i]);
        }
    }
    let new_region = MMapRegion { address: VirtualAddress(a as u32), size, backed_by: backing };
    let n = m.regions().insert(a as u32, new_region);
    assert(region_range(new_region) == new_range);
    assert forall|k1: u32, k2: u32| #[trigger] n.contains_key(k1) && #[trigger] n.contains_key(k2) && k1 != k2
        implies !ranges_intersect(region_range(n[k1]), region_range(n[k2])) by {
        if k1 == a as u32 {
            assert(m.regions().contains_key(k2));
        } else if k2 == a as u32 {
            assert(m.regions().contains_key(k1));
        } else {
            assert(m.regions().contains_key(k1) && m.regions().contains_key(k2));
        }
    }
}

/// `x` rounded up to a page stays at or below a page-aligned bound.
proof fn lemma_ceil_below(x: int, bound: int)
    requires
        0 <= x <= bound,
        bound % 0x1000 == 0,
    ensures
        page_ceil(x) <= bound,
{
}

/// The walk of the search for free space stays defined when the regions are
/// ordered, do not overlap and start on page boundaries, the last one
/// considered ends, rounded up to a page, at or below `prev_start`, and the
/// lowest one starts at or above `size`.
proof fn lemma_search_defined(s: Seq<MMapRegion>, n: int, prev_start: int, size: int)
    requires
        0 <= n <= s.len(),
        0 <= size,
        regions_disjoint(s),
        forall|i: int| 0 <= i < s.len() ==> (#[trigger] s[i]).address.0 % 0x1000 == 0,
        prev_start <= u32::MAX,
        n > 0 ==> page_ceil(s[n - 1].end()) <= prev_start,
        n == 0 ==> size <= prev_start,
        s.len() > 0 ==> size <= s[0].address.0,
    ensures
        search_free_defined(s, n, prev_start, size),
    decreases n,
{
    if n > 0 {
        let r = s[n - 1];
        if n > 1 {
            assert(s[n - 2].end() <= s[n - 1].address.0);
            lemma_ceil_below(s[n - 2].end(), s[n - 1].address.0 as int);
        }
        lemma_search_defined(s, n - 1, r.address.0 as int, size);
    }
}

/// The search for free space, under what holds of regions that `mmap`
/// placed: when they do not overlap, start on page boundaries and end,
/// rounded up to a page, at or below the top of memory, and `size` fits both
/// below the top and below the lowest region, the search is defined; it
/// finds nothing exactly when the top minus `size` falls below the end of
/// the heap's pages, and what it finds is page aligned, ends at or below the
/// top and overlaps no region.
pub proof fn lemma_free_space_found(m: MemoryRegions, size: int)
    requires
        m.wf(),
        regions_disjoint(m.mmap_regions@),
        forall|i: int| 0 <= i < m.mmap_regions@.len() ==> (#[trigger] m.mmap_regions@[i]).address.0 % 0x1000 == 0
            && page_ceil(m.mmap_regions@[i].end()) <= m.memory_top,
        m.heap_fits(),
        0 <= size <= m.memory_top,
        m.mmap_regions@.len() > 0 ==> size <= m.mmap_regions@[0].address.0,
    ensures
        m.free_space_defined(size),
        m.free_space(size) is None <==> m.memory_top - size < m.heap_page_end(),
        m.free_space(size) matches Some(a) ==> {
            &&& a % 0x1000 == 0
            &&& 0 <= a
            &&& a + size <= m.memory_top
            &&& forall|k: int| 0 <= k < m.mmap_regions@.len() ==> !ranges_intersect(
                #[trigger] region_range(m.mmap_regions@[k]),
                Range { start: VirtualAddress(a as u32), end: VirtualAddress((a + size) as u32) })
        },
{
    let s = m.mmap_regions@;
    lemma_search_defined(s, s.len() as int, m.memory_top as int, size);
    if m.free_space(size) is Some {
        lemma_free_space_is_free(m, size);
    }
}

} // verus!
