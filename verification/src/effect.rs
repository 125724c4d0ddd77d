//! What an atomic update does to the display: whether it needs a modeset,
//! which CRTCs it touches, and which CRTCs owe an event.
use vstd::prelude::*;

use crate::object_type::{ids_contain, KmsObjectId};

verus! {

/// `s` with `x` appended unless it already holds it.
pub open spec fn add_unique(s: Seq<KmsObjectId>, x: KmsObjectId) -> Seq<KmsObjectId> {
    if s.contains(x) {
        s
    } else {
        s.push(x)
    }
}

/// `a` with the ids of `b` appended in order, each unless already there.
pub open spec fn merge_ids(a: Seq<KmsObjectId>, b: Seq<KmsObjectId>) -> Seq<KmsObjectId>
    decreases b.len(),
{
    if b.len() == 0 {
        a
    } else {
        add_unique(merge_ids(a, b.drop_last()), b.last())
    }
}

/// The side effects of an update as plain values: whether it needs a
/// modeset, the CRTCs it touches, and the CRTCs that owe an event.
pub type EffectView = (bool, Seq<KmsObjectId>, Seq<KmsObjectId>);

/// The effect of an update that changes nothing.
pub open spec fn no_effect() -> EffectView {
    (false, Seq::empty(), Seq::empty())
}

/// The side effects of an atomic update.
#[derive(Debug)]
pub struct DrmAtomicEffect {
    request_modeset: bool,
    affected_crtcs: Vec<KmsObjectId>,
    event_crtcs: Vec<KmsObjectId>,
}

impl Default for DrmAtomicEffect {
    fn default() -> (e: Self)
        ensures
            !e.spec_request_modeset(),
            e.spec_affected() == Seq::<KmsObjectId>::empty(),
            e.spec_events() == Seq::<KmsObjectId>::empty(),
    {
        DrmAtomicEffect { request_modeset: false, affected_crtcs: Vec::new(), event_crtcs: Vec::new() }
    }
}

/// The plain view of the outcome of a check.
pub open spec fn result_view(r: Result<DrmAtomicEffect, crate::error::DrmError>) -> Result<EffectView, crate::error::DrmError> {
    match r {
        Ok(e) => Ok(e.view()),
        Err(err) => Err(err),
    }
}

impl DrmAtomicEffect {
    /// The effect as plain values.
    pub open spec fn view(&self) -> EffectView {
        (self.spec_request_modeset(), self.spec_affected(), self.spec_events())
    }

    /// Whether the update needs a full modeset.
    pub closed spec fn spec_request_modeset(&self) -> bool {
        self.request_modeset
    }

    /// The CRTCs the update touches, in the order first touched.
    pub closed spec fn spec_affected(&self) -> Seq<KmsObjectId> {
        self.affected_crtcs@
    }

    /// The CRTCs that owe a completion event, in the order first added.
    pub closed spec fn spec_events(&self) -> Seq<KmsObjectId> {
        self.event_crtcs@
    }

    /// Whether no CRTC is listed twice.
    pub open spec fn wf(&self) -> bool {
        self.spec_affected().no_duplicates() && self.spec_events().no_duplicates()
    }

    pub fn request_modeset(&self) -> (r: bool)
        ensures
            r == self.spec_request_modeset(),
    {
        self.request_modeset
    }

    pub fn affected_crtcs(&self) -> (r: &[KmsObjectId])
        ensures
            r@ == self.spec_affected(),
    {
        self.affected_crtcs.as_slice()
    }

    pub fn event_crtcs(&self) -> (r: &[KmsObjectId])
        ensures
            r@ == self.spec_events(),
    {
        self.event_crtcs.as_slice()
    }

    /// Marks the update as needing a modeset.
    pub fn set_request_modeset(&mut self)
        ensures
            final(self).spec_request_modeset(),
            final(self).spec_affected() == old(self).spec_affected(),
            final(self).spec_events() == old(self).spec_events(),
    {
        self.request_modeset = true;
    }

    /// Adds a touched CRTC unless it is already listed.
    pub fn add_affected_crtc(&mut self, crtc_id: KmsObjectId)
        ensures
            final(self).spec_request_modeset() == old(self).spec_request_modeset(),
            final(self).spec_affected() == add_unique(old(self).spec_affected(), crtc_id),
            final(self).spec_events() == old(self).spec_events(),
    {
        if !ids_contain(self.affected_crtcs.as_slice(), crtc_id) {
            self.affected_crtcs.push(crtc_id);
        }
    }

    /// Adds a CRTC that owes an event unless it is already listed.
    pub fn add_event_crtc(&mut self, crtc_id: KmsObjectId)
        ensures
            final(self).spec_request_modeset() == old(self).spec_request_modeset(),
            final(self).spec_affected() == old(self).spec_affected(),
            final(self).spec_events() == add_unique(old(self).spec_events(), crtc_id),
    {
        if !ids_contain(self.event_crtcs.as_slice(), crtc_id) {
            self.event_crtcs.push(crtc_id);
        }
    }

    /// Folds another effect into this one: a modeset if either needs one,
    /// and the other's CRTCs appended in order, each unless already listed.
    pub fn merge(&mut self, effect: Self)
        ensures
            final(self).spec_request_modeset() == (old(self).spec_request_modeset() || effect.spec_request_modeset()),
            final(self).spec_affected() == merge_ids(old(self).spec_affected(), effect.spec_affected()),
            final(self).spec_events() == merge_ids(old(self).spec_events(), effect.spec_events()),
    {
        self.request_modeset = self.request_modeset || effect.request_modeset;
        let ghost a0 = self.affected_crtcs@;
        let ghost e0 = self.event_crtcs@;
        let mut i: usize = 0;
        while i < effect.affected_crtcs.len()
            invariant
                i <= effect.affected_crtcs@.len(),
                self.affected_crtcs@ == merge_ids(a0, effect.affected_crtcs@.take(i as int)),
                self.event_crtcs@ == e0,
                self.request_modeset == (old(self).request_modeset || effect.request_modeset),
            decreases effect.affected_crtcs@.len() - i,
        {
            assert(effect.affected_crtcs@.take(i + 1).drop_last() =~= effect.affected_crtcs@.take(i as int));
            self.add_affected_crtc(effect.affected_crtcs[i]);
            i = i + 1;
        }
        assert(effect.affected_crtcs@.take(i as int) =~= effect.affected_crtcs@);
        let mut j: usize = 0;
        while j < effect.event_crtcs.len()
            invariant
                j <= effect.event_crtcs@.len(),
                self.event_crtcs@ == merge_ids(e0, effect.event_crtcs@.take(j as int)),
                self.affected_crtcs@ == merge_ids(a0, effect.affected_crtcs@),
                self.request_modeset == (old(self).request_modeset || effect.request_modeset),
            decreases effect.event_crtcs@.len() - j,
        {
            assert(effect.event_crtcs@.take(j + 1).drop_last() =~= effect.event_crtcs@.take(j as int));
            self.add_event_crtc(effect.event_crtcs[j]);
            j = j + 1;
        }
        assert(effect.event_crtcs@.take(j as int) =~= effect.event_crtcs@);
    }
}

/// Adding an id keeps a list free of duplicates, and afterwards the list
/// holds exactly what it held before plus that id.
pub proof fn law_add_unique(s: Seq<KmsObjectId>, x: KmsObjectId)
    requires
        s.no_duplicates(),
    ensures
        add_unique(s, x).no_duplicates(),
        forall|y: KmsObjectId| #[trigger] add_unique(s, x).contains(y) <==> (s.contains(y) || y == x),
        s.is_prefix_of(add_unique(s, x)),
{
    if !s.contains(x) {
        assert forall|y: KmsObjectId| #[trigger] s.push(x).contains(y) <==> (s.contains(y) || y == x) by {
            if s.push(x).contains(y) && y != x {
                let k = choose|k: int| 0 <= k < s.push(x).len() && s.push(x)[k] == y;
                assert(s[k] == y);
            }
            if s.contains(y) {
                let k = choose|k: int| 0 <= k < s.len() && s[k] == y;
                assert(s.push(x)[k] == y);
            }
            if y == x {
                assert(s.push(x)[s.len() as int] == y);
            }
        }
        assert(s.is_prefix_of(s.push(x))) by {
            assert(s.push(x).subrange(0, s.len() as int) =~= s);
        }
    } else {
        assert(s.is_prefix_of(s)) by {
            assert(s.subrange(0, s.len() as int) =~= s);
        }
    }
}

/// Merging keeps a duplicate-free list duplicate-free and yields exactly
/// the ids of both lists, with the first list as a prefix.
pub proof fn law_merge_union(a: Seq<KmsObjectId>, b: Seq<KmsObjectId>)
    requires
        a.no_duplicates(),
    ensures
        merge_ids(a, b).no_duplicates(),
        forall|y: KmsObjectId| #[trigger] merge_ids(a, b).contains(y) <==> (a.contains(y) || b.contains(y)),
        a.is_prefix_of(merge_ids(a, b)),
    decreases b.len(),
{
    if b.len() == 0 {
        assert(a.is_prefix_of(a)) by {
            assert(a.subrange(0, a.len() as int) =~= a);
        }
    } else {
        let m = merge_ids(a, b.drop_last());
        law_merge_union(a, b.drop_last());
        law_add_unique(m, b.last());
        assert forall|y: KmsObjectId| #[trigger] merge_ids(a, b).contains(y) <==> (a.contains(y) || b.contains(y)) by {
            if b.drop_last().contains(y) {
                let k = choose|k: int| 0 <= k < b.drop_last().len() && b.drop_last()[k] == y;
                assert(b[k] == y);
            }
            if b.contains(y) && y != b.last() {
                let k = choose|k: int| 0 <= k < b.len() && b[k] == y;
                assert(k != b.len() - 1);
                assert(b.drop_last()[k] == y);
            }
            if y == b.last() {
                assert(b[b.len() - 1] == y);
            }
        }
        assert(a.is_prefix_of(merge_ids(a, b))) by {
            let r = merge_ids(a, b);
            assert(m.is_prefix_of(r));
            assert(r.subrange(0, a.len() as int) =~= m.subrange(0, a.len() as int));
        }
    }
}

/// Merging a duplicate-free list into itself changes nothing.
pub proof fn law_merge_idempotent(a: Seq<KmsObjectId>)
    requires
        a.no_duplicates(),
    ensures
        merge_ids(a, a) == a,
{
    lemma_merge_subset(a, a);
}

/// Merging ids that are all already listed changes nothing.
proof fn lemma_merge_subset(a: Seq<KmsObjectId>, b: Seq<KmsObjectId>)
    requires
        forall|i: int| 0 <= i < b.len() ==> a.contains(#[trigger] b[i]),
    ensures
        merge_ids(a, b) == a,
    decreases b.len(),
{
    if b.len() > 0 {
        lemma_merge_subset(a, b.drop_last());
        assert(a.contains(b[b.len() - 1]));
    }
}

/// Atomic commit flags (`DRM_MODE_ATOMIC_*` and page-flip flags).
#[derive(Debug, Clone, Copy, PartialEq, Eq, Structural)]
pub struct DrmAtomicFlags {
    bits: u32,
}

#[allow(non_snake_case)]
impl DrmAtomicFlags {
    pub closed spec fn spec_bits(self) -> u32 {
        self.bits
    }

    /// All defined flags.
    pub open spec fn all_bits() -> u32 {
        0x0001u32 | 0x0002u32 | 0x0100u32 | 0x0200u32 | 0x0400u32
    }

    pub fn bits(&self) -> (b: u32)
        ensures
            b == self.spec_bits(),
    {
        self.bits
    }

    pub fn empty() -> (f: Self)
        ensures
            f.spec_bits() == 0u32,
    {
        DrmAtomicFlags { bits: 0 }
    }

    /// The flags of `bits`, if every set bit is a defined flag.
    pub fn from_bits(bits: u32) -> (f: Option<Self>)
        ensures
            match f {
                Some(f) => bits & !Self::all_bits() == 0u32 && f.spec_bits() == bits,
                None => bits & !Self::all_bits() != 0u32,
            },
    {
        if bits & !(0x0001u32 | 0x0002u32 | 0x0100u32 | 0x0200u32 | 0x0400u32) == 0 {
            Some(DrmAtomicFlags { bits })
        } else {
            None
        }
    }

    /// Whether every flag of `other` is set in `self`.
    pub fn contains(&self, other: Self) -> (r: bool)
        ensures
            r == (self.spec_bits() & other.spec_bits() == other.spec_bits()),
    {
        self.bits & other.bits == other.bits
    }

    pub fn PAGE_FLIP_EVENT() -> (f: Self) ensures f.spec_bits() == 0x0001u32 { DrmAtomicFlags { bits: 0x0001 } }
    pub fn PAGE_FLIP_ASYNC() -> (f: Self) ensures f.spec_bits() == 0x0002u32 { DrmAtomicFlags { bits: 0x0002 } }
    pub fn TEST_ONLY() -> (f: Self) ensures f.spec_bits() == 0x0100u32 { DrmAtomicFlags { bits: 0x0100 } }
    pub fn NONBLOCK() -> (f: Self) ensures f.spec_bits() == 0x0200u32 { DrmAtomicFlags { bits: 0x0200 } }
    pub fn ALLOW_MODESET() -> (f: Self) ensures f.spec_bits() == 0x0400u32 { DrmAtomicFlags { bits: 0x0400 } }
}

} // verus!
