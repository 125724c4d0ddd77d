//! The fake mmap offset space of a DRM device.
//!
//! Allocations are tracked in page units. Free space is a set of maximal
//! ranges `start -> length`: no two free ranges overlap or touch. Each
//! allocation is recorded by its start page together with the key of the
//! object that owns it. Access control lives on each object's node.
use std::collections::BTreeMap;
use vstd::prelude::*;
use vstd::std_specs::iter::IteratorSpec;

use crate::error::DrmError;
use crate::ordered_map::{entry_after, entry_before, least_value_at_least};

verus! {

broadcast use vstd::std_specs::btree::group_btree_axioms, vstd::laws_cmp::group_laws_cmp;

/// Size in bytes of one page of the offset space.
pub const PAGE_SIZE: usize = 4096;

/// First page of the default offset space.
pub const DRM_FILE_PAGE_OFFSET_START: u64 = 0xFFFF_FFFFu64 / 4096 + 1;

/// Size in pages of the default offset space.
pub const DRM_FILE_PAGE_OFFSET_SIZE: u64 = (0xFFFF_FFFFu64 / 4096) * 256;

/// A page range handed out by the offset manager.
#[derive(Debug, Clone, Copy, PartialEq, Eq, Structural)]
pub struct DrmVmaAllocation {
    pub start_page: u64,
    pub size_pages: u64,
}

/// The mmap offset metadata attached to one GEM object.
///
/// The node records the page range the object currently holds in the
/// offset space, and, for each open file, how many times it was allowed to
/// map the object.
#[derive(Debug)]
pub struct DrmVmaOffsetNode {
    allocation: Option<DrmVmaAllocation>,
    allowed_files: BTreeMap<u32, usize>,
}

/// Manages the fake mmap offset address space of one DRM device.
#[derive(Debug)]
pub struct DrmVmaOffsetManager {
    base_page: u64,
    size_pages: u64,
    free_ranges: BTreeMap<u64, u64>,
    objects_by_start: BTreeMap<u64, (u64, u64)>,
}

/// `[s1, s1 + l1)` and `[s2, s2 + l2)` share no page.
pub open spec fn ranges_disjoint(s1: u64, l1: u64, s2: u64, l2: u64) -> bool {
    s1 + l1 <= s2 || s2 + l2 <= s1
}

/// `[s1, s1 + l1)` and `[s2, s2 + l2)` neither share a page nor touch.
pub open spec fn ranges_apart(s1: u64, l1: u64, s2: u64, l2: u64) -> bool {
    s1 + l1 < s2 || s2 + l2 < s1
}

/// The number of pages needed to hold `size` bytes.
pub open spec fn pages_for(size: nat) -> nat {
    ((size + 4095) / 4096) as nat
}

/// The best-fit choice among free ranges for a request of `pages`: the
/// shortest range that is long enough; among those, the lowest one.
pub open spec fn is_best_fit(free: Map<u64, u64>, pages: u64, start: u64) -> bool {
    &&& free.contains_key(start)
    &&& free[start] >= pages
    &&& forall|k: u64| #[trigger] free.contains_key(k) && free[k] >= pages
            ==> free[start] < free[k] || (free[start] == free[k] && start <= k)
}

/// Some free range is long enough for `pages`.
pub open spec fn fits_somewhere(free: Map<u64, u64>, pages: u64) -> bool {
    exists|k: u64| #[trigger] free.contains_key(k) && free[k] >= pages
}

/// The free ranges after `pages` are cut from the front of the range at
/// `start`.
pub open spec fn cut_front(free: Map<u64, u64>, start: u64, pages: u64) -> Map<u64, u64> {
    if free[start] > pages {
        free.remove(start).insert((start + pages) as u64, (free[start] - pages) as u64)
    } else {
        free.remove(start)
    }
}

/// Some free range ends exactly where `start` begins.
pub open spec fn has_left_neighbour(free: Map<u64, u64>, start: u64) -> bool {
    exists|k: u64| #[trigger] free.contains_key(k) && k + free[k] == start
}

/// The free range that ends exactly where `start` begins.
pub open spec fn left_neighbour(free: Map<u64, u64>, start: u64) -> u64 {
    choose|k: u64| #[trigger] free.contains_key(k) && k + free[k] == start
}

/// The free ranges after `[start, start + size)` is returned to them,
/// merged with the ranges that touch it on either side.
pub open spec fn merge_range(free: Map<u64, u64>, start: u64, size: u64) -> Map<u64, u64> {
    let end = (start + size) as u64;
    let (free1, lo) = if has_left_neighbour(free, start) {
        let k = left_neighbour(free, start);
        (free.remove(k), k)
    } else {
        (free, start)
    };
    let (free2, hi) = if free1.contains_key(end) {
        (free1.remove(end), (end + free1[end]) as u64)
    } else {
        (free1, end)
    };
    free2.insert(lo, (hi - lo) as u64)
}

impl DrmVmaOffsetNode {
    /// The page range the node holds, if any.
    pub closed spec fn allocation_spec(&self) -> Option<DrmVmaAllocation> {
        self.allocation
    }

    /// How many times each open file was allowed to map the node.
    pub closed spec fn allowed_spec(&self) -> Map<u32, usize> {
        self.allowed_files@
    }

    /// Every open file on the allowed list holds at least one reference.
    pub closed spec fn wf(&self) -> bool {
        forall|id: u32| #[trigger] self.allowed_files@.contains_key(id) ==> self.allowed_files@[id] >= 1
    }

    /// Creates an unallocated node.
    pub fn new() -> (node: Self)
        ensures
            node.wf(),
            node.allocation_spec() is None,
            node.allowed_spec() == Map::<u32, usize>::empty(),
    {
        Self { allocation: None, allowed_files: BTreeMap::new() }
    }

    /// Returns the start page of the allocation, or 0 if not allocated.
    pub fn start_page(&self) -> (page: u64)
        ensures
            page == match self.allocation_spec() {
                Some(a) => a.start_page,
                None => 0,
            },
    {
        match self.allocation {
            Some(a) => a.start_page,
            None => 0,
        }
    }

    /// Returns the allocation size in pages, or 0 if not allocated.
    pub fn size_pages(&self) -> (pages: u64)
        ensures
            pages == match self.allocation_spec() {
                Some(a) => a.size_pages,
                None => 0,
            },
    {
        match self.allocation {
            Some(a) => a.size_pages,
            None => 0,
        }
    }

    /// The byte offset of the node's pages in the device's mapping space:
    /// that of its first page, 0 without pages or past `u64`.
    pub open spec fn offset_addr_spec(&self) -> u64 {
        let page = match self.allocation_spec() {
            Some(a) => a.start_page as int,
            None => 0int,
        };
        if page * PAGE_SIZE <= u64::MAX {
            (page * PAGE_SIZE) as u64
        } else {
            0
        }
    }

    /// Returns the userspace mmap offset in bytes, or 0 if not allocated or
    /// if the offset does not fit in 64 bits.
    pub fn offset_addr(&self) -> (offset: u64)
        ensures
            offset == self.offset_addr_spec(),
    {
        let page = self.start_page();
        match page.checked_mul(4096) {
            Some(v) => v,
            None => 0,
        }
    }

    /// Adds one reference for `open_id` to the allowed-user list.
    pub fn allow(&mut self, open_id: u32) -> (r: Result<(), DrmError>)
        requires
            old(self).wf(),
        ensures
            final(self).wf(),
            final(self).allocation_spec() == old(self).allocation_spec(),
            ({
                let old_count = if old(self).allowed_spec().contains_key(open_id) {
                    old(self).allowed_spec()[open_id] as int
                } else {
                    0
                };
                if old_count < usize::MAX {
                    &&& r is Ok
                    &&& final(self).allowed_spec() == old(self).allowed_spec().insert(open_id, (old_count + 1) as usize)
                } else {
                    &&& r == Err::<(), DrmError>(DrmError::NoMemory)
                    &&& final(self).allowed_spec() == old(self).allowed_spec()
                }
            }),
    {
        let count: usize = match self.allowed_files.get(&open_id) {
            Some(c) => *c,
            None => 0,
        };
        match count.checked_add(1) {
            Some(c) => {
                self.allowed_files.insert(open_id, c);
                Ok(())
            },
            None => Err(DrmError::NoMemory),
        }
    }

    /// Adds `open_id` to the allowed-user list with one reference, unless it
    /// is already there.
    pub fn allow_once(&mut self, open_id: u32) -> (r: Result<(), DrmError>)
        requires
            old(self).wf(),
        ensures
            final(self).wf(),
            r is Ok,
            final(self).allocation_spec() == old(self).allocation_spec(),
            final(self).allowed_spec() == if old(self).allowed_spec().contains_key(open_id) {
                old(self).allowed_spec()
            } else {
                old(self).allowed_spec().insert(open_id, 1)
            },
    {
        if !self.allowed_files.contains_key(&open_id) {
            self.allowed_files.insert(open_id, 1);
        }
        Ok(())
    }

    /// Removes one reference of `open_id`; the file leaves the list when its
    /// last reference goes.
    pub fn revoke(&mut self, open_id: u32)
        requires
            old(self).wf(),
        ensures
            final(self).wf(),
            final(self).allocation_spec() == old(self).allocation_spec(),
            final(self).allowed_spec() == if !old(self).allowed_spec().contains_key(open_id) {
                old(self).allowed_spec()
            } else if old(self).allowed_spec()[open_id] == 1 {
                old(self).allowed_spec().remove(open_id)
            } else {
                old(self).allowed_spec().insert(open_id, (old(self).allowed_spec()[open_id] - 1) as usize)
            },
    {
        let count: usize = match self.allowed_files.get(&open_id) {
            Some(c) => *c,
            None => return,
        };
        if count == 1 {
            self.allowed_files.remove(&open_id);
        } else {
            self.allowed_files.insert(open_id, count - 1);
        }
    }

    /// Returns whether `open_id` may currently map this node.
    pub fn is_allowed(&self, open_id: u32) -> (allowed: bool)
        ensures
            allowed == self.allowed_spec().contains_key(open_id),
    {
        self.allowed_files.contains_key(&open_id)
    }

    /// Returns whether the node holds a page range.
    pub fn is_allocated(&self) -> (allocated: bool)
        ensures
            allocated == self.allocation_spec() is Some,
    {
        self.allocation.is_some()
    }

    /// Returns the page range the node holds.
    pub fn allocation(&self) -> (a: Option<DrmVmaAllocation>)
        ensures
            a == self.allocation_spec(),
    {
        self.allocation
    }

    fn set_allocation(&mut self, allocation: DrmVmaAllocation)
        ensures
            final(self).allocation_spec() == Some(allocation),
            final(self).allowed_spec() == old(self).allowed_spec(),
            final(self).wf() == old(self).wf(),
    {
        self.allocation = Some(allocation);
    }

    fn take_allocation(&mut self) -> (a: Option<DrmVmaAllocation>)
        ensures
            a == old(self).allocation_spec(),
            final(self).allocation_spec() is None,
            final(self).allowed_spec() == old(self).allowed_spec(),
            final(self).wf() == old(self).wf(),
    {
        let a = self.allocation;
        self.allocation = None;
        a
    }
}

/// Returns the number of pages needed for `size` bytes.
pub fn pages_from_size(size: usize) -> (r: Result<u64, DrmError>)
    ensures
        size == 0 ==> r == Err::<u64, DrmError>(DrmError::Invalid),
        size > 0 && size + PAGE_SIZE - 1 > usize::MAX ==> r == Err::<u64, DrmError>(DrmError::NoMemory),
        size > 0 && size + PAGE_SIZE - 1 <= usize::MAX ==> r == Ok::<u64, DrmError>(pages_for(size as nat) as u64),
{
    if size == 0 {
        return Err(DrmError::Invalid);
    }
    match size.checked_add(PAGE_SIZE - 1) {
        Some(v) => Ok((v / PAGE_SIZE) as u64),
        None => Err(DrmError::NoMemory),
    }
}

impl DrmVmaOffsetManager {
    /// The free ranges, as start page to length.
    pub closed spec fn free_spec(&self) -> Map<u64, u64> {
        self.free_ranges@
    }

    /// The allocations, as start page to (object key, length).
    pub closed spec fn objects_spec(&self) -> Map<u64, (u64, u64)> {
        self.objects_by_start@
    }

    pub closed spec fn base_spec(&self) -> u64 {
        self.base_page
    }

    pub closed spec fn size_spec(&self) -> u64 {
        self.size_pages
    }

    /// The manager's invariant: every free range and every allocation lies
    /// inside the managed space; free ranges neither overlap nor touch; no
    /// two allocations overlap, and no allocation overlaps a free range.
    pub closed spec fn wf(&self) -> bool {
        let free = self.free_ranges@;
        let objs = self.objects_by_start@;
        &&& self.base_page + self.size_pages <= u64::MAX
        &&& forall|s: u64| #[trigger] free.contains_key(s) ==> free[s] > 0 && self.base_page <= s
                && s + free[s] <= self.base_page + self.size_pages
        &&& forall|s1: u64, s2: u64| #[trigger] free.contains_key(s1) && #[trigger] free.contains_key(s2)
                && s1 != s2 ==> ranges_apart(s1, free[s1], s2, free[s2])
        &&& forall|s: u64| #[trigger] objs.contains_key(s) ==> objs[s].1 > 0 && self.base_page <= s
                && s + objs[s].1 <= self.base_page + self.size_pages
        &&& forall|s1: u64, s2: u64| #[trigger] objs.contains_key(s1) && #[trigger] objs.contains_key(s2)
                && s1 != s2 ==> ranges_disjoint(s1, objs[s1].1, s2, objs[s2].1)
        &&& forall|a: u64, f: u64| #[trigger] objs.contains_key(a) && #[trigger] free.contains_key(f)
                ==> ranges_disjoint(a, objs[a].1, f, free[f])
        &&& forall|s1: u64, s2: u64| #[trigger] objs.contains_key(s1) && #[trigger] objs.contains_key(s2)
                && s1 != s2 ==> objs[s1].0 != objs[s2].0
    }

    /// Whether no allocation belongs to the object identified by `key`.
    pub open spec fn key_unused(&self, key: u64) -> bool {
        forall|s: u64| #[trigger] self.objects_spec().contains_key(s) ==> self.objects_spec()[s].0 != key
    }

    /// What the invariant gives a caller: free ranges and allocations lie
    /// inside the managed space and are not empty; free ranges neither
    /// overlap nor touch; allocations overlap neither each other nor a free
    /// range.
    pub proof fn lemma_wf(&self)
        requires
            self.wf(),
        ensures
            self.base_spec() + self.size_spec() <= u64::MAX,
            forall|s: u64| #[trigger] self.free_spec().contains_key(s) ==> self.free_spec()[s] > 0 && self.base_spec() <= s
                && s + self.free_spec()[s] <= self.base_spec() + self.size_spec(),
            forall|s1: u64, s2: u64| #[trigger] self.free_spec().contains_key(s1) && #[trigger] self.free_spec().contains_key(s2)
                && s1 != s2 ==> ranges_apart(s1, self.free_spec()[s1], s2, self.free_spec()[s2]),
            forall|s: u64| #[trigger] self.objects_spec().contains_key(s) ==> self.objects_spec()[s].1 > 0 && self.base_spec() <= s
                && s + self.objects_spec()[s].1 <= self.base_spec() + self.size_spec(),
            forall|s1: u64, s2: u64| #[trigger] self.objects_spec().contains_key(s1) && #[trigger] self.objects_spec().contains_key(s2)
                && s1 != s2 ==> ranges_disjoint(s1, self.objects_spec()[s1].1, s2, self.objects_spec()[s2].1),
            forall|a: u64, f: u64| #[trigger] self.objects_spec().contains_key(a) && #[trigger] self.free_spec().contains_key(f)
                ==> ranges_disjoint(a, self.objects_spec()[a].1, f, self.free_spec()[f]),
            forall|s1: u64, s2: u64| #[trigger] self.objects_spec().contains_key(s1) && #[trigger] self.objects_spec().contains_key(s2)
                && s1 != s2 ==> self.objects_spec()[s1].0 != self.objects_spec()[s2].0,
    {
    }

    /// The node's allocation, if any, is the one recorded here.
    pub open spec fn owns_node(&self, node: &DrmVmaOffsetNode) -> bool {
        match node.allocation_spec() {
            Some(a) => self.objects_spec().contains_key(a.start_page) && self.objects_spec()[a.start_page].1
                == a.size_pages,
            None => true,
        }
    }

    /// Creates a manager with Linux-compatible default bounds.
    pub fn new() -> (m: Self)
        ensures
            m.wf(),
            m.base_spec() == DRM_FILE_PAGE_OFFSET_START,
            m.size_spec() == DRM_FILE_PAGE_OFFSET_SIZE,
            m.free_spec() == Map::<u64, u64>::empty().insert(DRM_FILE_PAGE_OFFSET_START, DRM_FILE_PAGE_OFFSET_SIZE),
            m.objects_spec() == Map::<u64, (u64, u64)>::empty(),
    {
        Self::with_range(DRM_FILE_PAGE_OFFSET_START, DRM_FILE_PAGE_OFFSET_SIZE)
    }

    /// Creates a manager for a custom page-based offset range.
    pub fn with_range(base_page: u64, size_pages: u64) -> (m: Self)
        requires
            base_page + size_pages <= u64::MAX,
        ensures
            m.wf(),
            m.base_spec() == base_page,
            m.size_spec() == size_pages,
            m.free_spec() == if size_pages != 0 {
                Map::<u64, u64>::empty().insert(base_page, size_pages)
            } else {
                Map::<u64, u64>::empty()
            },
            m.objects_spec() == Map::<u64, (u64, u64)>::empty(),
    {
        let mut free_ranges = BTreeMap::new();
        if size_pages != 0 {
            free_ranges.insert(base_page, size_pages);
        }
        Self { base_page, size_pages, free_ranges, objects_by_start: BTreeMap::new() }
    }

    /// Returns the first page of the managed fake address space.
    pub fn base_page(&self) -> (page: u64)
        ensures
            page == self.base_spec(),
    {
        self.base_page
    }

    /// Returns the size of the managed fake address space in pages.
    pub fn size_pages(&self) -> (pages: u64)
        ensures
            pages == self.size_spec(),
    {
        self.size_pages
    }

    /// Finds the best-fit free range for `pages`.
    fn find_best_fit(&self, pages: u64) -> (r: Option<(u64, u64)>)
        ensures
            match r {
                Some((s, l)) => is_best_fit(self.free_spec(), pages, s) && l == self.free_spec()[s],
                None => !fits_somewhere(self.free_spec(), pages),
            },
    {
        least_value_at_least(&self.free_ranges, pages)
    }

    /// Cuts `pages` from the front of the best-fitting free range.
    fn allocate_best_fit(&mut self, pages: u64) -> (r: Result<DrmVmaAllocation, DrmError>)
        requires
            old(self).wf(),
            pages > 0,
        ensures
            final(self).wf(),
            final(self).base_spec() == old(self).base_spec(),
            final(self).size_spec() == old(self).size_spec(),
            final(self).objects_spec() == old(self).objects_spec(),
            match r {
                Ok(a) => {
                    &&& a.size_pages == pages
                    &&& is_best_fit(old(self).free_spec(), pages, a.start_page)
                    &&& final(self).free_spec() == cut_front(old(self).free_spec(), a.start_page, pages)
                },
                Err(e) => {
                    &&& e == DrmError::NoMemory
                    &&& !fits_somewhere(old(self).free_spec(), pages)
                    &&& final(self).free_spec() == old(self).free_spec()
                },
            },
    {
        let (best_start, best_len) = match self.find_best_fit(pages) {
            Some(found) => found,
            None => return Err(DrmError::NoMemory),
        };
        let ghost old_free = self.free_ranges@;
        self.free_ranges.remove(&best_start);
        if best_len > pages {
            let remaining_start = best_start + pages;
            let remaining_len = best_len - pages;
            self.free_ranges.insert(remaining_start, remaining_len);
        }
        proof {
            let free = self.free_ranges@;
            assert(free =~= cut_front(old_free, best_start, pages));
            let objs = self.objects_by_start@;
            assert forall|s1: u64, s2: u64| #[trigger] free.contains_key(s1) && #[trigger] free.contains_key(s2)
                && s1 != s2 implies ranges_apart(s1, free[s1], s2, free[s2]) by {
                if s1 == best_start + pages {
                    assert(old_free.contains_key(s2));
                    assert(ranges_apart(best_start, old_free[best_start], s2, old_free[s2]));
                } else if s2 == best_start + pages {
                    assert(old_free.contains_key(s1));
                    assert(ranges_apart(best_start, old_free[best_start], s1, old_free[s1]));
                } else {
                    assert(old_free.contains_key(s1) && old_free.contains_key(s2));
                }
            }
            assert forall|a: u64, f: u64| #[trigger] objs.contains_key(a) && #[trigger] free.contains_key(f)
                implies ranges_disjoint(a, objs[a].1, f, free[f]) by {
                if f == best_start + pages {
                    assert(old_free.contains_key(best_start));
                } else {
                    assert(old_free.contains_key(f));
                }
            }
        }
        Ok(DrmVmaAllocation { start_page: best_start, size_pages: pages })
    }

    /// Returns `[start_page, start_page + size_pages)` to the free ranges,
    /// merging it with the free ranges it touches.
    fn free_range(&mut self, start_page: u64, size_pages: u64)
        requires
            old(self).wf(),
            size_pages > 0,
            old(self).base_spec() <= start_page,
            start_page + size_pages <= old(self).base_spec() + old(self).size_spec(),
            forall|f: u64| #[trigger] old(self).free_spec().contains_key(f) ==> ranges_disjoint(
                start_page,
                size_pages,
                f,
                old(self).free_spec()[f],
            ),
            forall|a: u64| #[trigger] old(self).objects_spec().contains_key(a) ==> ranges_disjoint(
                start_page,
                size_pages,
                a,
                old(self).objects_spec()[a].1,
            ),
        ensures
            final(self).wf(),
            final(self).base_spec() == old(self).base_spec(),
            final(self).size_spec() == old(self).size_spec(),
            final(self).objects_spec() == old(self).objects_spec(),
            final(self).free_spec() == merge_range(old(self).free_spec(), start_page, size_pages),
    {
        let ghost old_free = self.free_ranges@;
        let mut free_start = start_page;
        let mut free_end = start_page + size_pages;

        if let Some((prev_start, prev_len)) = entry_before(&self.free_ranges, free_start, false) {
            let prev_end = prev_start + prev_len;
            if prev_end == free_start {
                self.free_ranges.remove(&prev_start);
                free_start = prev_start;
            }
            proof {
                if has_left_neighbour(old_free, start_page) {
                    let k = left_neighbour(old_free, start_page);
                    assert(k < start_page);
                    assert(k <= prev_start);
                    if k != prev_start {
                        assert(ranges_apart(k, old_free[k], prev_start, old_free[prev_start]));
                    }
                    assert(k == prev_start);
                }
            }
        }
        let ghost free1 = self.free_ranges@;
        proof {
            if has_left_neighbour(old_free, start_page) {
                let k = left_neighbour(old_free, start_page);
                assert(free_start == k);
                assert(free1 =~= old_free.remove(k));
            } else {
                assert(free_start == start_page);
                assert(free1 =~= old_free);
            }
        }

        if let Some((next_start, next_len)) = entry_after(&self.free_ranges, free_start) {
            if free_end == next_start {
                self.free_ranges.remove(&next_start);
                free_end = next_start + next_len;
            }
            proof {
                let end = (start_page + size_pages) as u64;
                if free1.contains_key(end) {
                    assert(old_free.contains_key(end));
                    assert(end > free_start);
                    assert(next_start <= end);
                    if next_start != end {
                        assert(old_free.contains_key(next_start));
                        assert(old(self).free_spec().contains_key(next_start));
                        assert(ranges_disjoint(start_page, size_pages, next_start, old_free[next_start]));
                        if next_start > start_page {
                            assert(false);
                        } else {
                            assert(next_start == free_start);
                            assert(false);
                        }
                    }
                }
            }
        } else {
            proof {
                let end = (start_page + size_pages) as u64;
                assert(!free1.contains_key(end));
            }
        }

        self.free_ranges.insert(free_start, free_end - free_start);

        proof {
            let free = self.free_ranges@;
            assert(free =~= merge_range(old_free, start_page, size_pages));
            let objs = self.objects_by_start@;
            let lo = free_start;
            let hi = free_end;
            assert forall|s: u64| #[trigger] free.contains_key(s) implies free[s] > 0 && self.base_page <= s
                && s + free[s] <= self.base_page + self.size_pages by {
                if s != lo {
                    assert(old_free.contains_key(s));
                }
            }
            assert forall|s1: u64, s2: u64| #[trigger] free.contains_key(s1) && #[trigger] free.contains_key(s2)
                && s1 != s2 implies ranges_apart(s1, free[s1], s2, free[s2]) by {
                if s1 == lo {
                    assert(old_free.contains_key(s2));
                    assert(old(self).free_spec().contains_key(s2));
                    assert(ranges_disjoint(start_page, size_pages, s2, old_free[s2]));
                    if has_left_neighbour(old_free, start_page) {
                        let k = left_neighbour(old_free, start_page);
                        assert(ranges_apart(k, old_free[k], s2, old_free[s2]));
                    }
                    if old_free.contains_key((start_page + size_pages) as u64) {
                        let e = (start_page + size_pages) as u64;
                        assert(s2 != e);
                        assert(ranges_apart(e, old_free[e], s2, old_free[s2]));
                    } else {
                        assert(s2 != start_page + size_pages);
                    }
                    if !has_left_neighbour(old_free, start_page) {
                        assert(s2 + old_free[s2] != start_page);
                    }
                } else if s2 == lo {
                    assert(old_free.contains_key(s1));
                    assert(old(self).free_spec().contains_key(s1));
                    assert(ranges_disjoint(start_page, size_pages, s1, old_free[s1]));
                    if has_left_neighbour(old_free, start_page) {
                        let k = left_neighbour(old_free, start_page);
                        assert(ranges_apart(k, old_free[k], s1, old_free[s1]));
                    }
                    if old_free.contains_key((start_page + size_pages) as u64) {
                        let e = (start_page + size_pages) as u64;
                        assert(s1 != e);
                        assert(ranges_apart(e, old_free[e], s1, old_free[s1]));
                    } else {
                        assert(s1 != start_page + size_pages);
                    }
                    if !has_left_neighbour(old_free, start_page) {
                        assert(s1 + old_free[s1] != start_page);
                    }
                } else {
                    assert(old_free.contains_key(s1) && old_free.contains_key(s2));
                }
            }
            assert forall|a: u64, f: u64| #[trigger] objs.contains_key(a) && #[trigger] free.contains_key(f)
                implies ranges_disjoint(a, objs[a].1, f, free[f]) by {
                if f == lo {
                    assert(old(self).objects_spec().contains_key(a));
                    assert(ranges_disjoint(start_page, size_pages, a, objs[a].1));
                    if has_left_neighbour(old_free, start_page) {
                        let k = left_neighbour(old_free, start_page);
                        assert(ranges_disjoint(a, objs[a].1, k, old_free[k]));
                    }
                    if old_free.contains_key((start_page + size_pages) as u64) {
                        let e = (start_page + size_pages) as u64;
                        assert(ranges_disjoint(a, objs[a].1, e, old_free[e]));
                    }
                } else {
                    assert(old_free.contains_key(f));
                }
            }
        }
    }
}

/// The object whose allocation covers all of `[start, start + pages)`.
pub open spec fn covering_object(objs: Map<u64, (u64, u64)>, start: u64, pages: u64) -> Option<u64> {
    if pages > 0 && start + pages <= u64::MAX && exists|ns: u64| #[trigger]
        objs.contains_key(ns) && ns <= start && start + pages <= ns + objs[ns].1 {
        let ns = choose|ns: u64| #[trigger]
            objs.contains_key(ns) && ns <= start && start + pages <= ns + objs[ns].1;
        Some(objs[ns].0)
    } else {
        None
    }
}

impl DrmVmaOffsetManager {
    /// Gives the object identified by `key`, whose node is `node` and whose
    /// size is `size` bytes, a page range in the offset space.
    ///
    /// A node that already holds a range keeps it; a node without one must
    /// belong to an object that has no range yet, so that every object has
    /// at most one.
    pub fn add(&mut self, key: u64, size: usize, node: &mut DrmVmaOffsetNode) -> (r: Result<(), DrmError>)
        requires
            old(self).wf(),
            old(self).owns_node(old(node)),
            old(node).allocation_spec() is None ==> old(self).key_unused(key),
        ensures
            final(self).wf(),
            final(self).owns_node(final(node)),
            final(self).base_spec() == old(self).base_spec(),
            final(self).size_spec() == old(self).size_spec(),
            final(node).allowed_spec() == old(node).allowed_spec(),
            final(node).wf() == old(node).wf(),
            ({
                let pages = pages_for(size as nat);
                if size == 0 {
                    r == Err::<(), DrmError>(DrmError::Invalid)
                } else if size + PAGE_SIZE - 1 > usize::MAX {
                    r == Err::<(), DrmError>(DrmError::NoMemory)
                } else if old(node).allocation_spec() is Some {
                    r is Ok
                } else if !fits_somewhere(old(self).free_spec(), pages as u64) {
                    r == Err::<(), DrmError>(DrmError::NoMemory)
                } else {
                    &&& r is Ok
                    &&& final(node).allocation_spec() matches Some(a) && {
                        &&& a.size_pages == pages
                        &&& is_best_fit(old(self).free_spec(), pages as u64, a.start_page)
                        &&& final(self).free_spec() == cut_front(old(self).free_spec(), a.start_page, a.size_pages)
                        &&& final(self).objects_spec() == old(self).objects_spec().insert(a.start_page, (key, a.size_pages))
                    }
                }
            }),
            r is Err || old(node).allocation_spec() is Some ==> {
                &&& final(self).free_spec() == old(self).free_spec()
                &&& final(self).objects_spec() == old(self).objects_spec()
                &&& final(node).allocation_spec() == old(node).allocation_spec()
            },
    {
        let pages = match pages_from_size(size) {
            Ok(p) => p,
            Err(e) => return Err(e),
        };
        if pages == 0 {
            return Err(DrmError::Invalid);
        }
        if node.is_allocated() {
            return Ok(());
        }
        let allocation = match self.allocate_best_fit(pages) {
            Ok(a) => a,
            Err(e) => return Err(e),
        };
        let ghost objs0 = self.objects_by_start@;
        let ghost free0 = self.free_ranges@;
        node.set_allocation(allocation);
        self.objects_by_start.insert(allocation.start_page, (key, allocation.size_pages));
        proof {
            let objs = self.objects_by_start@;
            let free = self.free_ranges@;
            let s = allocation.start_page;
            let old_free = old(self).free_spec();
            assert(old_free.contains_key(s));
            assert forall|a: u64| #[trigger] objs0.contains_key(a) implies ranges_disjoint(s, pages, a, objs0[a].1) by {
                assert(ranges_disjoint(a, objs0[a].1, s, old_free[s]));
            }
            assert forall|s1: u64, s2: u64| #[trigger] objs.contains_key(s1) && #[trigger] objs.contains_key(s2)
                && s1 != s2 implies ranges_disjoint(s1, objs[s1].1, s2, objs[s2].1) by {
                if s1 != s && s2 != s {
                    assert(objs0.contains_key(s1) && objs0.contains_key(s2));
                }
            }
            assert forall|a: u64, f: u64| #[trigger] objs.contains_key(a) && #[trigger] free.contains_key(f)
                implies ranges_disjoint(a, objs[a].1, f, free[f]) by {
                if a == s {
                    if f == s + pages && old_free[s] > pages {
                    } else {
                        assert(old_free.contains_key(f));
                        assert(ranges_apart(s, old_free[s], f, old_free[f]));
                    }
                } else {
                    assert(objs0.contains_key(a));
                }
            }
        }
        Ok(())
    }

    /// Takes the node's page range back into the free ranges.
    ///
    /// The node keeps its allowed-file list.
    pub fn remove(&mut self, node: &mut DrmVmaOffsetNode)
        requires
            old(self).wf(),
            old(self).owns_node(old(node)),
        ensures
            final(self).wf(),
            final(node).allocation_spec() is None,
            final(node).allowed_spec() == old(node).allowed_spec(),
            final(node).wf() == old(node).wf(),
            final(self).base_spec() == old(self).base_spec(),
            final(self).size_spec() == old(self).size_spec(),
            match old(node).allocation_spec() {
                Some(a) => {
                    &&& final(self).objects_spec() == old(self).objects_spec().remove(a.start_page)
                    &&& final(self).free_spec() == merge_range(old(self).free_spec(), a.start_page, a.size_pages)
                },
                None => {
                    &&& final(self).objects_spec() == old(self).objects_spec()
                    &&& final(self).free_spec() == old(self).free_spec()
                },
            },
    {
        let allocation = match node.take_allocation() {
            Some(a) => a,
            None => return,
        };
        let ghost objs0 = self.objects_by_start@;
        self.objects_by_start.remove(&allocation.start_page);
        proof {
            let s = allocation.start_page;
            assert(objs0.contains_key(s));
            let objs = self.objects_by_start@;
            assert forall|a: u64| #[trigger] objs.contains_key(a) implies ranges_disjoint(s, allocation.size_pages, a, objs[a].1) by {
                assert(objs0.contains_key(a) && a != s);
            }
            assert forall|f: u64| #[trigger] self.free_ranges@.contains_key(f) implies ranges_disjoint(s, allocation.size_pages, f, self.free_ranges@[f]) by {
                assert(objs0.contains_key(s));
            }
        }
        self.free_range(allocation.start_page, allocation.size_pages);
    }

    /// Finds the allocation with the greatest start page not above
    /// `start_page`.
    fn entry_at_or_before(&self, start_page: u64) -> (r: Option<(u64, (u64, u64))>)
        ensures
            match r {
                Some((k, v)) => {
                    &&& self.objects_spec().contains_key(k)
                    &&& self.objects_spec()[k] == v
                    &&& k <= start_page
                    &&& forall|j: u64| #[trigger] self.objects_spec().contains_key(j) && j <= start_page ==> j <= k
                },
                None => forall|j: u64| #[trigger] self.objects_spec().contains_key(j) ==> j > start_page,
            },
    {
        entry_before(&self.objects_by_start, start_page, true)
    }

    /// Looks up the allocation that fully covers
    /// `[start_page, start_page + pages)`; returns its start page and the
    /// key of its object.
    fn lookup_entry(&self, start_page: u64, pages: u64) -> (r: Option<(u64, u64)>)
        requires
            self.wf(),
        ensures
            match r {
                Some((ns, key)) => {
                    &&& covering_object(self.objects_spec(), start_page, pages) == Some(key)
                    &&& self.objects_spec().contains_key(ns)
                    &&& self.objects_spec()[ns].0 == key
                    &&& ns <= start_page
                    &&& start_page + pages <= ns + self.objects_spec()[ns].1
                },
                None => covering_object(self.objects_spec(), start_page, pages) is None,
            },
    {
        if pages == 0 {
            return None;
        }
        let end_page = match start_page.checked_add(pages) {
            Some(e) => e,
            None => return None,
        };
        let (node_start, (key, size)) = match self.entry_at_or_before(start_page) {
            Some(found) => found,
            None => {
                proof {
                    let objs = self.objects_spec();
                    assert(!exists|ns: u64| #[trigger] objs.contains_key(ns) && ns <= start_page
                        && start_page + pages <= ns + objs[ns].1);
                }
                return None;
            },
        };
        let objs = Ghost(self.objects_spec());
        proof {
            assert forall|ns: u64| #[trigger] objs@.contains_key(ns) && ns <= start_page
                && start_page + pages <= ns + objs@[ns].1 implies ns == node_start by {
                assert(ns <= node_start);
                if ns != node_start {
                    assert(ranges_disjoint(ns, objs@[ns].1, node_start, size));
                }
            }
        }
        if node_start <= start_page && end_page - node_start <= size {
            Some((node_start, key))
        } else {
            None
        }
    }

    /// The allocation starting at `start_page`, as (object key, length).
    pub fn allocation_at(&self, start_page: u64) -> (r: Option<(u64, u64)>)
        ensures
            r == (if self.objects_spec().contains_key(start_page) {
                Some(self.objects_spec()[start_page])
            } else {
                None
            }),
    {
        match self.objects_by_start.get(&start_page) {
            Some(v) => Some(*v),
            None => None,
        }
    }

    /// Whether some allocation belongs to the object identified by `key`.
    pub fn key_in_use(&self, key: u64) -> (b: bool)
        ensures
            b == !self.key_unused(key),
    {
        broadcast use vstd::std_specs::btree::group_btree_axioms;
        let m = &self.objects_by_start;
        assert(m@ == self.objects_spec());
        let iter = m.iter();
        let ghost s = iter.remaining();
        assert(forall|k: u64| #[trigger] m@.contains_key(k) ==> s.contains((&k, &m@[k])));
        for kv in it: iter
            invariant
                it.seq() == s,
                forall|i: int| 0 <= i < s.len() ==> m@.contains_key(*s[i].0) && m@[*s[i].0] == *s[i].1,
                forall|k: u64| #[trigger] m@.contains_key(k) ==> s.contains((&k, &m@[k])),
                forall|i: int| 0 <= i < it.index() ==> (*s[i].1).0 != key,
                m@ == self.objects_spec(),
        {
            let (k, v) = kv;
            proof {
                assert(kv == s[it.index() as int]);
            }
            if v.0 == key {
                proof {
                    let i = it.index() as int;
                    assert(m@.contains_key(*s[i].0) && m@[*s[i].0] == *s[i].1);
                    assert(self.objects_spec().contains_key(*s[i].0));
                }
                return true;
            }
        }
        proof {
            assert forall|j: u64| #[trigger] self.objects_spec().contains_key(j) implies self.objects_spec()[j].0 != key by {
                assert(s.contains((&j, &m@[j])));
                let i = choose|i: int| 0 <= i < s.len() && s[i] == (&j, &m@[j]);
                assert((*s[i].1).0 != key);
            }
        }
        false
    }

    /// Looks up the object whose allocation fully covers
    /// `[start_page, start_page + pages)`.
    pub fn lookup(&self, start_page: u64, pages: u64) -> (r: Option<u64>)
        requires
            self.wf(),
        ensures
            r == covering_object(self.objects_spec(), start_page, pages),
    {
        match self.lookup_entry(start_page, pages) {
            Some((_, key)) => Some(key),
            None => None,
        }
    }

    /// Looks up the object whose allocation starts exactly at `start_page`
    /// and covers `pages` pages from there.
    pub fn exact_lookup(&self, start_page: u64, pages: u64) -> (r: Option<u64>)
        requires
            self.wf(),
        ensures
            r == if self.objects_spec().contains_key(start_page) {
                covering_object(self.objects_spec(), start_page, pages)
            } else {
                None
            },
    {
        match self.lookup_entry(start_page, pages) {
            Some((ns, key)) => if ns == start_page {
                Some(key)
            } else {
                proof {
                    if self.objects_spec().contains_key(start_page) {
                        assert(ranges_disjoint(ns, self.objects_spec()[ns].1, start_page, self.objects_spec()[start_page].1));
                    }
                }
                None
            },
            None => None,
        }
    }

    /// Drops the record of the allocation at `start_page` without freeing
    /// its pages; for an object that went away without being removed.
    pub fn forget_object(&mut self, start_page: u64)
        requires
            old(self).wf(),
        ensures
            final(self).wf(),
            final(self).base_spec() == old(self).base_spec(),
            final(self).size_spec() == old(self).size_spec(),
            final(self).free_spec() == old(self).free_spec(),
            final(self).objects_spec() == old(self).objects_spec().remove(start_page),
    {
        self.objects_by_start.remove(&start_page);
    }
}

/// Returning a range that was just cut from the front of a free range gives
/// back the free ranges as they were before the cut.
pub proof fn law_cut_then_merge_restores(m: &DrmVmaOffsetManager, start: u64, pages: u64)
    requires
        m.wf(),
        m.free_spec().contains_key(start),
        0 < pages <= m.free_spec()[start],
    ensures
        merge_range(cut_front(m.free_spec(), start, pages), start, pages) == m.free_spec(),
{
    let free = m.free_spec();
    let cut = cut_front(free, start, pages);
    assert(!has_left_neighbour(cut, start)) by {
        if has_left_neighbour(cut, start) {
            let k = left_neighbour(cut, start);
            assert(cut.contains_key(k));
            if k == start + pages && free[start] > pages {
            } else {
                assert(free.contains_key(k) && k != start);
                assert(ranges_apart(k, free[k], start, free[start]));
            }
        }
    }
    let end = (start + pages) as u64;
    if free[start] > pages {
        assert(cut.contains_key(end));
    } else {
        assert(!cut.contains_key(end)) by {
            if cut.contains_key(end) {
                assert(free.contains_key(end) && end != start);
                assert(ranges_apart(end, free[end], start, free[start]));
            }
        }
    }
    assert(merge_range(cut, start, pages) =~= free);
}

/// Any page range inside an object's allocation maps to that object, and
/// to no other: allocations never share a page.
pub proof fn law_lookup_finds_owner(m: &DrmVmaOffsetManager, s: u64, start: u64, pages: u64)
    requires
        m.wf(),
        m.objects_spec().contains_key(s),
        s <= start,
        0 < pages,
        start + pages <= s + m.objects_spec()[s].1,
    ensures
        covering_object(m.objects_spec(), start, pages) == Some(m.objects_spec()[s].0),
{
    let objs = m.objects_spec();
    assert(objs.contains_key(s) && s <= start && start + pages <= s + objs[s].1);
    let ns = choose|ns: u64| #[trigger] objs.contains_key(ns) && ns <= start && start + pages <= ns + objs[ns].1;
    if ns != s {
        assert(ranges_disjoint(ns, objs[ns].1, s, objs[s].1));
    }
}

/// Once an object's allocation is removed, no lookup inside its old page
/// range finds an object: allocations never share a page, so no other
/// object covers those pages.
pub proof fn law_removed_range_uncovered(before: &DrmVmaOffsetManager, after: &DrmVmaOffsetManager, removed: u64, start: u64, pages: u64)
    requires
        before.wf(),
        before.objects_spec().contains_key(removed),
        after.objects_spec() == before.objects_spec().remove(removed),
        removed <= start,
        0 < pages,
        start + pages <= removed + before.objects_spec()[removed].1,
    ensures
        covering_object(after.objects_spec(), start, pages) is None,
{
    let objs0 = before.objects_spec();
    let objs = after.objects_spec();
    if exists|ns: u64| #[trigger] objs.contains_key(ns) && ns <= start && start + pages <= ns + objs[ns].1 {
        let ns = choose|ns: u64| #[trigger] objs.contains_key(ns) && ns <= start && start + pages <= ns + objs[ns].1;
        assert(objs0.contains_key(ns) && ns != removed);
        assert(ranges_disjoint(ns, objs0[ns].1, removed, objs0[removed].1));
        assert(false);
    }
}

/// A lookup that finds the object of an allocation asked for pages inside
/// that allocation: each object has at most one allocation, so no other
/// range finds it. An empty range finds nothing.
pub proof fn law_lookup_only_inside(m: &DrmVmaOffsetManager, s: u64, start: u64, pages: u64)
    requires
        m.wf(),
        m.objects_spec().contains_key(s),
        covering_object(m.objects_spec(), start, pages) == Some(m.objects_spec()[s].0),
    ensures
        0 < pages,
        s <= start,
        start + pages <= s + m.objects_spec()[s].1,
{
    let objs = m.objects_spec();
    let ns = choose|ns: u64| #[trigger] objs.contains_key(ns) && ns <= start && start + pages <= ns + objs[ns].1;
    if ns != s {
        assert(objs[ns].0 != objs[s].0);
    }
}

/// An empty page range finds no object.
pub proof fn law_lookup_empty_finds_nothing(m: &DrmVmaOffsetManager, start: u64)
    ensures
        covering_object(m.objects_spec(), start, 0) is None,
{
}

} // verus!
