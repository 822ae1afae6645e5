//! The copy-on-write fork of a page directory. Kernel space is shared with
//! the new directory, and user space is shared page by page: every present
//! writable page becomes read-only and copy-on-write in the parent's tables,
//! each user page table is copied for the child, and every frame mapped by a
//! copied table gains one more reference.
use vstd::prelude::*;
use crate::memory::address::PhysicalAddress;
use crate::memory::page_table::PageEntry;

verus! {

/// The number of entries in a page directory or a page table.
pub const TABLE_ENTRIES: usize = 1024;
/// The first directory entry of kernel space (0xc0000000).
pub const KERNEL_START_ENTRY: usize = 0x300;
/// The directory entry that maps the directory itself.
pub const SELF_ENTRY: usize = 1023;

/// Entry `i` of the directory forked from `current`, whose own frame is
/// `frame` and whose user tables were copied to `copies`: the last entry maps
/// the directory itself; kernel entries point where the current ones do;
/// user entries, when user space is included, point to the copy of their
/// table, user-accessible and as writable as before; every other entry is
/// zero.
pub open spec fn forked_entry(current: Seq<PageEntry>, frame: PhysicalAddress, include_userspace: bool,
    copies: Seq<PhysicalAddress>, i: int) -> PageEntry {
    if i == SELF_ENTRY {
        PageEntry { present: true, address: frame, ..PageEntry::zero() }
    } else if KERNEL_START_ENTRY <= i {
        if current[i].present { PageEntry { present: true, address: current[i].address, ..PageEntry::zero() } } else { PageEntry::zero() }
    } else if include_userspace && current[i].present {
        PageEntry { present: true, user: true, writable: current[i].writable, cow: false, address: copies[i] }
    } else {
        PageEntry::zero()
    }
}

/// Build the page directory of a forked process. `current` is the running
/// directory, `directory_frame` the frame of the new one, and `table_copies`
/// the frames holding the copies of the user page tables (read only for the
/// entries that are present).
pub fn fork_directory(current: &Vec<PageEntry>, directory_frame: PhysicalAddress, include_userspace: bool,
    table_copies: &Vec<PhysicalAddress>) -> (r: Vec<PageEntry>)
    requires
        current@.len() == TABLE_ENTRIES,
        table_copies@.len() == KERNEL_START_ENTRY,
    ensures
        r@.len() == TABLE_ENTRIES,
        forall|i: int| 0 <= i < TABLE_ENTRIES ==> #[trigger] r@[i] == forked_entry(current@, directory_frame,
            include_userspace, table_copies@, i),
{
    let mut r: Vec<PageEntry> = Vec::new();
    let mut i: usize = 0;
    while i < TABLE_ENTRIES
        invariant
            i <= TABLE_ENTRIES,
            current@.len() == TABLE_ENTRIES,
            table_copies@.len() == KERNEL_START_ENTRY,
            r@.len() == i,
            forall|j: int| 0 <= j < i ==> #[trigger] r@[j] == forked_entry(current@, directory_frame,
                include_userspace, table_copies@, j),
        decreases TABLE_ENTRIES - i,
    {
        let entry = if i == SELF_ENTRY {
            PageEntry { present: true, address: directory_frame, ..PageEntry::empty() }
        } else if KERNEL_START_ENTRY <= i {
            if current[i].present {
                PageEntry { present: true, address: current[i].address, ..PageEntry::empty() }
            } else {
                PageEntry::empty()
            }
        } else if include_userspace && current[i].present {
            PageEntry { present: true, user: true, writable: current[i].writable, cow: false, address: table_copies[i] }
        } else {
            PageEntry::empty()
        };
        r.push(entry);
        i += 1;
    }
    r
}

/// The indices of the present user entries of a directory, in order.
pub fn user_tables(current: &Vec<PageEntry>) -> (r: Vec<usize>)
    requires
        current@.len() == TABLE_ENTRIES,
    ensures
        forall|k: int| 0 <= k < r@.len() ==> (#[trigger] r@[k]) < KERNEL_START_ENTRY && current@[r@[k] as int].present,
        forall|a: int, b: int| 0 <= a < b < r@.len() ==> r@[a] < r@[b],
        forall|i: int| 0 <= i < KERNEL_START_ENTRY && #[trigger] current@[i].present ==> exists|k: int|
            0 <= k < r@.len() && r@[k] == i,
{
    let mut r: Vec<usize> = Vec::new();
    let mut i: usize = 0;
    while i < KERNEL_START_ENTRY
        invariant
            i <= KERNEL_START_ENTRY,
            current@.len() == TABLE_ENTRIES,
            forall|k: int| 0 <= k < r@.len() ==> (#[trigger] r@[k]) < i && current@[r@[k] as int].present,
            forall|a: int, b: int| 0 <= a < b < r@.len() ==> r@[a] < r@[b],
            forall|j: int| 0 <= j < i && #[trigger] current@[j].present ==> exists|k: int|
                0 <= k < r@.len() && r@[k] == j,
        decreases KERNEL_START_ENTRY - i,
    {
        if current[i].present {
            let ghost before = r@;
            r.push(i);
            proof {
                assert forall|j: int| 0 <= j < i + 1 && #[trigger] current@[j].present implies exists|k: int|
                    0 <= k < r@.len() && r@[k] == j by {
                    if j == i {
                        assert(r@[before.len() as int] == j);
                    } else {
                        let k = choose|k: int| 0 <= k < before.len() && before[k] == j;
                        assert(r@[k] == j);
                    }
                }
            }
        }
        i += 1;
    }
    r
}

/// The frames of the present entries of a table, in order.
pub open spec fn present_frames(table: Seq<PageEntry>) -> Seq<PhysicalAddress>
    decreases table.len(),
{
    if table.len() == 0 {
        seq![]
    } else {
        let rest = present_frames(table.drop_last());
        if table.last().present { rest.push(table.last().address) } else { rest }
    }
}

/// A table entry after its table is shared copy-on-write: a present
/// writable page becomes read-only and copy-on-write.
pub open spec fn shared_entry(e: PageEntry) -> PageEntry {
    if e.present && e.writable { PageEntry { writable: false, cow: true, ..e } } else { e }
}

/// Share a user page table with a forked process: each present writable
/// entry becomes read-only and copy-on-write, and the frames of all present
/// entries are returned, in order, each to gain one more reference.
pub fn share_table_copy_on_write(table: &mut Vec<PageEntry>) -> (r: Vec<PhysicalAddress>)
    ensures
        final(table)@.len() == old(table)@.len(),
        forall|i: int| 0 <= i < old(table)@.len() ==> #[trigger] final(table)@[i] == shared_entry(old(table)@[i]),
        r@ == present_frames(old(table)@),
{
    let ghost start = table@;
    let mut frames: Vec<PhysicalAddress> = Vec::new();
    let mut i: usize = 0;
    while i < table.len()
        invariant
            i <= table@.len(),
            table@.len() == start.len(),
            forall|j: int| 0 <= j < i ==> #[trigger] table@[j] == shared_entry(start[j]),
            forall|j: int| i <= j < start.len() ==> #[trigger] table@[j] == start[j],
            frames@ == present_frames(start.take(i as int)),
        decreases start.len() - i,
    {
        let entry = table[i];
        proof {
            assert(start.take(i + 1).drop_last() =~= start.take(i as int));
            assert(start.take(i + 1).last() == entry);
        }
        if entry.present {
            frames.push(entry.address);
            if entry.writable {
                table.set(i, PageEntry { writable: false, cow: true, ..entry });
            }
        }
        i += 1;
    }
    assert(start.take(i as int) =~= start);
    frames
}

} // verus!
