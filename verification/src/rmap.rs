//! Reverse mappings of a memory object: where each piece of it is mapped
//! in which address space, and what an unmapping of a range of it removes.
use vstd::prelude::*;

verus! {

/// A piece of the object mapped at `vaddr`: `size` bytes from `offset`.
#[derive(Copy, Clone, Debug, PartialEq, Eq, Structural)]
pub struct RmapEntry {
    pub vaddr: usize,
    pub offset: usize,
    pub size: usize,
}

/// The address range in which the part of `e` that overlaps the object
/// range `start..end` is mapped, if they overlap.
pub open spec fn unmap_range_spec(e: RmapEntry, start: usize, end: usize) -> Option<(int, int)> {
    let lo = if e.offset > start { e.offset as int } else { start as int };
    let hi = if e.offset + e.size < end { e.offset + e.size } else { end as int };
    if lo >= hi {
        None
    } else {
        Some((lo - e.offset + e.vaddr, hi - e.offset + e.vaddr))
    }
}

/// Whether the addresses of `e` fit the address space.
pub open spec fn entry_fits(e: RmapEntry) -> bool {
    e.offset + e.size <= usize::MAX && e.vaddr + e.size <= usize::MAX
}

/// The addresses to unmap of entry `e` for the object range `start..end`.
pub fn unmap_range(e: &RmapEntry, start: usize, end: usize) -> (r: Option<(usize, usize)>)
    requires
        entry_fits(*e),
    ensures
        match unmap_range_spec(*e, start, end) {
            Some((a, b)) => r == Some((a as usize, b as usize)) && 0 <= a <= b <= usize::MAX,
            None => r is None,
        },
{
    let lo = if e.offset > start { e.offset } else { start };
    let top = e.offset + e.size;
    let hi = if top < end { top } else { end };
    if lo >= hi {
        return None;
    }
    Some((lo - e.offset + e.vaddr, hi - e.offset + e.vaddr))
}

/// Reverse mappings, each tagged with the address space (by a handle) it
/// lives in, in order of insertion.
pub struct Rmap {
    entries: Vec<(u64, RmapEntry)>,
}

/// The unmappings that an unmap of `start..end` does over `entries`, in
/// their order: the overlapping part of every entry of a live space.
pub open spec fn unmaps_spec(entries: Seq<(u64, RmapEntry)>, start: usize, end: usize, live: Set<u64>) -> Seq<
    (u64, int, int),
>
    decreases entries.len(),
{
    if entries.len() == 0 {
        Seq::empty()
    } else {
        let rest = unmaps_spec(entries.drop_last(), start, end, live);
        let (space, e) = entries.last();
        if live.contains(space) {
            match unmap_range_spec(e, start, end) {
                Some((a, b)) => rest.push((space, a, b)),
                None => rest,
            }
        } else {
            rest
        }
    }
}

impl Rmap {
    pub closed spec fn spec_entries(&self) -> Seq<(u64, RmapEntry)> {
        self.entries@
    }

    /// Every entry's addresses fit the address space.
    pub closed spec fn wf(&self) -> bool {
        forall|i: int| 0 <= i < self.entries@.len() ==> entry_fits(#[trigger] self.entries@[i].1)
    }

    /// No reverse mapping.
    pub fn new() -> (r: Self)
        ensures
            r.wf(),
            r.spec_entries() == Seq::<(u64, RmapEntry)>::empty(),
    {
        Rmap { entries: Vec::new() }
    }

    /// Records that `entry` is mapped in `space`.
    pub fn insert(&mut self, space: u64, entry: RmapEntry)
        requires
            old(self).wf(),
            entry_fits(entry),
        ensures
            final(self).wf(),
            final(self).spec_entries() == old(self).spec_entries().push((space, entry)),
    {
        self.entries.push((space, entry));
    }

    /// Forgets the first mapping of `space` at `vaddr`, which must exist.
    pub fn remove(&mut self, space: u64, vaddr: usize)
        requires
            old(self).wf(),
            exists|i: int|
                0 <= i < old(self).spec_entries().len() && #[trigger] old(self).spec_entries()[i].0 == space
                    && old(self).spec_entries()[i].1.vaddr == vaddr,
        ensures
            final(self).wf(),
            exists|i: int|
                0 <= i < old(self).spec_entries().len() && #[trigger] old(self).spec_entries()[i].0 == space
                    && old(self).spec_entries()[i].1.vaddr == vaddr && (forall|j: int|
                    0 <= j < i ==> !(old(self).spec_entries()[j].0 == space && old(self).spec_entries()[j].1.vaddr
                        == vaddr)) && final(self).spec_entries() == old(self).spec_entries().remove(i),
    {
        let mut i: usize = 0;
        while i < self.entries.len()
            invariant_except_break
                i <= self.entries@.len(),
                forall|j: int|
                    0 <= j < i ==> !(#[trigger] self.entries@[j].0 == space && self.entries@[j].1.vaddr == vaddr),
                exists|k: int|
                    i <= k < self.entries@.len() && #[trigger] self.entries@[k].0 == space && self.entries@[k].1.vaddr
                        == vaddr,
            invariant
                self.entries@ == old(self).entries@,
                self.wf(),
            ensures
                i < self.entries@.len(),
                self.entries@[i as int].0 == space && self.entries@[i as int].1.vaddr == vaddr,
                forall|j: int|
                    0 <= j < i ==> !(#[trigger] self.entries@[j].0 == space && self.entries@[j].1.vaddr == vaddr),
            decreases self.entries@.len() - i,
        {
            let (s, e) = self.entries[i];
            if s == space && e.vaddr == vaddr {
                break;
            }
            i = i + 1;
        }
        self.entries.remove(i);
        proof {
            assert forall|k: int| 0 <= k < self.entries@.len() implies entry_fits(#[trigger] self.entries@[k].1) by {
                if k < i {
                    assert(self.entries@[k] == old(self).entries@[k]);
                } else {
                    assert(self.entries@[k] == old(self).entries@[k + 1]);
                }
            }
        }
    }

    /// Unmaps the object range `start..end` everywhere: returns, for every
    /// mapping in a live space, the address range to unmap there, and
    /// forgets the mappings of spaces that are gone.
    pub fn unmap(&mut self, start: usize, end: usize, live: &Vec<u64>) -> (r: Vec<(u64, usize, usize)>)
        requires
            old(self).wf(),
        ensures
            final(self).wf(),
            final(self).spec_entries() == old(self).spec_entries().filter(|p: (u64, RmapEntry)| live@.contains(p.0)),
            r@.len() == unmaps_spec(old(self).spec_entries(), start, end, live@.to_set()).len(),
            forall|k: int|
                0 <= k < r@.len() ==> {
                    let (s, a, b) = #[trigger] unmaps_spec(old(self).spec_entries(), start, end, live@.to_set())[k];
                    r@[k] == (s, a as usize, b as usize)
                },
    {
        let ghost e0 = self.entries@;
        let ghost lv = live@.to_set();
        let mut out: Vec<(u64, usize, usize)> = Vec::new();
        let mut kept: Vec<(u64, RmapEntry)> = Vec::new();
        let n = self.entries.len();
        let mut i: usize = 0;
        while i < n
            invariant
                n == e0.len(),
                self.entries@ == e0,
                e0 == old(self).entries@,
                lv == live@.to_set(),
                forall|q: int| 0 <= q < e0.len() ==> entry_fits(#[trigger] e0[q].1),
                i <= n,
                kept@ == e0.take(i as int).filter(|p: (u64, RmapEntry)| live@.contains(p.0)),
                forall|q: int| 0 <= q < kept@.len() ==> entry_fits(#[trigger] kept@[q].1),
                out@.len() == unmaps_spec(e0.take(i as int), start, end, lv).len(),
                forall|k: int|
                    0 <= k < out@.len() ==> {
                        let (s, a, b) = #[trigger] unmaps_spec(e0.take(i as int), start, end, lv)[k];
                        out@[k] == (s, a as usize, b as usize)
                    },
            decreases n - i,
        {
            let (space, e) = self.entries[i];
            let is_live = contains_space(live, space);
            proof {
                assert(e0.take(i + 1).drop_last() =~= e0.take(i as int));
                assert(e0.take(i + 1).last() == e0[i as int]);
                assert(lv.contains(space) == live@.contains(space));
                reveal_with_fuel(Seq::filter, 1);
                assert(e0.take(i + 1).filter(|p: (u64, RmapEntry)| live@.contains(p.0)) == if live@.contains(space) {
                    e0.take(i as int).filter(|p: (u64, RmapEntry)| live@.contains(p.0)).push((space, e))
                } else {
                    e0.take(i as int).filter(|p: (u64, RmapEntry)| live@.contains(p.0))
                });
            }
            if is_live {
                kept.push((space, e));
                match unmap_range(&e, start, end) {
                    Some((a, b)) => {
                        out.push((space, a, b));
                    },
                    None => {},
                }
            }
            i = i + 1;
            proof {
                let prev = unmaps_spec(e0.take(i - 1), start, end, lv);
                assert(unmaps_spec(e0.take(i as int), start, end, lv) == if lv.contains(space) {
                    match unmap_range_spec(e, start, end) {
                        Some((a, b)) => prev.push((space, a, b)),
                        None => prev,
                    }
                } else {
                    prev
                });
            }
        }
        proof {
            assert(e0.take(n as int) =~= e0);
        }
        self.entries = kept;
        out
    }
}

fn contains_space(live: &Vec<u64>, space: u64) -> (r: bool)
    ensures
        r == live@.contains(space),
{
    let mut i: usize = 0;
    while i < live.len()
        invariant
            i <= live@.len(),
            forall|j: int| 0 <= j < i ==> live@[j] != space,
        decreases live@.len() - i,
    {
        if live[i] == space {
            return true;
        }
        i = i + 1;
    }
    false
}

/// Inserting a mapping and then removing it (as the first mapping of its
/// space at its address) leaves the reverse mappings as they were.
pub proof fn law_insert_then_remove(before: Seq<(u64, RmapEntry)>, space: u64, entry: RmapEntry)
    requires
        forall|j: int| 0 <= j < before.len() ==> !(#[trigger] before[j].0 == space && before[j].1.vaddr == entry.vaddr),
    ensures
        ({
            let after = before.push((space, entry));
            &&& after[before.len() as int].0 == space && after[before.len() as int].1.vaddr == entry.vaddr
            &&& forall|j: int| 0 <= j < before.len() ==> !(#[trigger] after[j].0 == space && after[j].1.vaddr == entry.vaddr)
            &&& after.remove(before.len() as int) == before
        }),
{
    let after = before.push((space, entry));
    assert forall|j: int| 0 <= j < before.len() implies !(#[trigger] after[j].0 == space && after[j].1.vaddr == entry.vaddr) by {
        assert(after[j] == before[j]);
    }
    assert(after.remove(before.len() as int) =~= before);
}

} // verus!
