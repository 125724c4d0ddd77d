//! The store of KMS objects and their global ids.
use vstd::prelude::*;

use crate::blob::DrmPropertyBlob;
use crate::connector::{DrmConnStatus, DrmConnector};
use crate::crtc::{DrmCrtc, DrmCrtcState};
use crate::display::{DrmDisplayInfo, DrmDisplayMode};
use crate::encoder::DrmEncoder;
use crate::error::DrmError;
use crate::framebuffer::DrmFramebuffer;
use crate::mask::mask_has;
use crate::object_type::{DrmKmsObjectType, KmsObjectId, KmsObjectIndex};
use crate::plane::{DrmPlane, DrmPlaneState};
use crate::property::{DrmKmsObjectProp, DrmProperty};
use crate::vblank::{is_waiting, DrmIoctlEventCtx, DrmPendingVblankEvent};

verus! {

/// A KMS object of any type.
pub enum DrmKmsObject {
    Plane(DrmPlane),
    Crtc(DrmCrtc),
    Encoder(DrmEncoder),
    Connector(DrmConnector),
    Framebuffer(DrmFramebuffer),
    Property(DrmProperty),
    Blob(DrmPropertyBlob),
}

impl DrmKmsObject {
    /// The type of the object.
    pub open spec fn kind(self) -> DrmKmsObjectType {
        match self {
            DrmKmsObject::Plane(_) => DrmKmsObjectType::Plane,
            DrmKmsObject::Crtc(_) => DrmKmsObjectType::Crtc,
            DrmKmsObject::Encoder(_) => DrmKmsObjectType::Encoder,
            DrmKmsObject::Connector(_) => DrmKmsObjectType::Connector,
            DrmKmsObject::Framebuffer(_) => DrmKmsObjectType::Framebuffer,
            DrmKmsObject::Property(_) => DrmKmsObjectType::Property,
            DrmKmsObject::Blob(_) => DrmKmsObjectType::Blob,
        }
    }

    /// Returns the type of the object.
    pub fn object_type(&self) -> (t: DrmKmsObjectType)
        ensures
            t == self.kind(),
    {
        match self {
            DrmKmsObject::Plane(_) => DrmKmsObjectType::Plane,
            DrmKmsObject::Crtc(_) => DrmKmsObjectType::Crtc,
            DrmKmsObject::Encoder(_) => DrmKmsObjectType::Encoder,
            DrmKmsObject::Connector(_) => DrmKmsObjectType::Connector,
            DrmKmsObject::Framebuffer(_) => DrmKmsObjectType::Framebuffer,
            DrmKmsObject::Property(_) => DrmKmsObjectType::Property,
            DrmKmsObject::Blob(_) => DrmKmsObjectType::Blob,
        }
    }

    /// The property table of a plane, CRTC or connector.
    pub open spec fn spec_properties(self) -> Option<DrmKmsObjectProp> {
        match self {
            DrmKmsObject::Plane(p) => Some(p.spec_properties()),
            DrmKmsObject::Crtc(c) => Some(c.spec_properties()),
            DrmKmsObject::Connector(c) => Some(c.spec_properties()),
            _ => None,
        }
    }

    /// Returns the property table of a plane, CRTC or connector; other
    /// objects carry no properties.
    pub fn properties(&self) -> (r: Result<&DrmKmsObjectProp, DrmError>)
        ensures
            match r {
                Ok(p) => self.spec_properties() == Some(*p),
                Err(e) => e == DrmError::Invalid && self.spec_properties() is None,
            },
    {
        match self {
            DrmKmsObject::Plane(p) => Ok(p.properties()),
            DrmKmsObject::Crtc(c) => Ok(c.properties()),
            DrmKmsObject::Connector(c) => Ok(c.properties()),
            _ => Err(DrmError::Invalid),
        }
    }
}

/// Object types that can be looked up in the store.
pub trait DrmKmsObjectCast: Sized {
    /// The object as this type, if it is of this type.
    spec fn spec_cast(obj: DrmKmsObject) -> Option<Self>;

    fn cast(obj: &DrmKmsObject) -> (r: Option<&Self>)
        ensures
            match r {
                Some(x) => Self::spec_cast(*obj) == Some(*x),
                None => Self::spec_cast(*obj) is None,
            },
    ;
}

impl DrmKmsObjectCast for DrmPlane {
    open spec fn spec_cast(obj: DrmKmsObject) -> Option<Self> {
        match obj {
            DrmKmsObject::Plane(p) => Some(p),
            _ => None,
        }
    }

    fn cast(obj: &DrmKmsObject) -> (r: Option<&Self>) {
        match obj {
            DrmKmsObject::Plane(p) => Some(p),
            _ => None,
        }
    }
}

impl DrmKmsObjectCast for DrmCrtc {
    open spec fn spec_cast(obj: DrmKmsObject) -> Option<Self> {
        match obj {
            DrmKmsObject::Crtc(c) => Some(c),
            _ => None,
        }
    }

    fn cast(obj: &DrmKmsObject) -> (r: Option<&Self>) {
        match obj {
            DrmKmsObject::Crtc(c) => Some(c),
            _ => None,
        }
    }
}

impl DrmKmsObjectCast for DrmEncoder {
    open spec fn spec_cast(obj: DrmKmsObject) -> Option<Self> {
        match obj {
            DrmKmsObject::Encoder(e) => Some(e),
            _ => None,
        }
    }

    fn cast(obj: &DrmKmsObject) -> (r: Option<&Self>) {
        match obj {
            DrmKmsObject::Encoder(e) => Some(e),
            _ => None,
        }
    }
}

impl DrmKmsObjectCast for DrmConnector {
    open spec fn spec_cast(obj: DrmKmsObject) -> Option<Self> {
        match obj {
            DrmKmsObject::Connector(c) => Some(c),
            _ => None,
        }
    }

    fn cast(obj: &DrmKmsObject) -> (r: Option<&Self>) {
        match obj {
            DrmKmsObject::Connector(c) => Some(c),
            _ => None,
        }
    }
}

impl DrmKmsObjectCast for DrmFramebuffer {
    open spec fn spec_cast(obj: DrmKmsObject) -> Option<Self> {
        match obj {
            DrmKmsObject::Framebuffer(f) => Some(f),
            _ => None,
        }
    }

    fn cast(obj: &DrmKmsObject) -> (r: Option<&Self>) {
        match obj {
            DrmKmsObject::Framebuffer(f) => Some(f),
            _ => None,
        }
    }
}

impl DrmKmsObjectCast for DrmProperty {
    open spec fn spec_cast(obj: DrmKmsObject) -> Option<Self> {
        match obj {
            DrmKmsObject::Property(p) => Some(p),
            _ => None,
        }
    }

    fn cast(obj: &DrmKmsObject) -> (r: Option<&Self>) {
        match obj {
            DrmKmsObject::Property(p) => Some(p),
            _ => None,
        }
    }
}

impl DrmKmsObjectCast for DrmPropertyBlob {
    open spec fn spec_cast(obj: DrmKmsObject) -> Option<Self> {
        match obj {
            DrmKmsObject::Blob(b) => Some(b),
            _ => None,
        }
    }

    fn cast(obj: &DrmKmsObject) -> (r: Option<&Self>) {
        match obj {
            DrmKmsObject::Blob(b) => Some(b),
            _ => None,
        }
    }
}

/// The objects of the store keyed by id, held in a `hashbrown::HashMap`.
#[verifier::external_body]
pub struct DrmKmsObjectTable {
    map: hashbrown::HashMap<KmsObjectId, DrmKmsObject>,
}

/// The objects a table holds, by id.
pub uninterp spec fn table_objects(t: DrmKmsObjectTable) -> Map<u32, DrmKmsObject>;

/// The objects of an empty table.
pub open spec fn no_objects() -> Map<u32, DrmKmsObject> {
    Map::empty()
}

/// Creates an empty table; calls `hashbrown::HashMap::new`.
#[verifier::external_body]
fn table_new() -> (t: DrmKmsObjectTable)
    ensures
        table_objects(t) == no_objects(),
{
    DrmKmsObjectTable { map: hashbrown::HashMap::new() }
}

/// Looks up an object; calls `hashbrown::HashMap::get`.
#[verifier::external_body]
fn table_get(t: &DrmKmsObjectTable, id: KmsObjectId) -> (r: Option<&DrmKmsObject>)
    ensures
        match r {
            Some(o) => table_objects(*t).contains_key(id) && table_objects(*t)[id] == *o,
            None => !table_objects(*t).contains_key(id),
        },
{
    t.map.get(&id)
}

/// Stores `object` under `id`, replacing an earlier one; calls
/// `hashbrown::HashMap::insert`.
#[verifier::external_body]
fn table_insert(t: &mut DrmKmsObjectTable, id: KmsObjectId, object: DrmKmsObject)
    ensures
        table_objects(*final(t)) == table_objects(*old(t)).insert(id, object),
{
    t.map.insert(id, object);
}

/// Removes and returns the object under `id`; calls
/// `hashbrown::HashMap::remove`.
#[verifier::external_body]
fn table_remove(t: &mut DrmKmsObjectTable, id: KmsObjectId) -> (r: Option<DrmKmsObject>)
    ensures
        table_objects(*final(t)) == table_objects(*old(t)).remove(id),
        match r {
            Some(o) => table_objects(*old(t)).contains_key(id) && table_objects(*old(t))[id] == o,
            None => !table_objects(*old(t)).contains_key(id),
        },
{
    t.map.remove(&id)
}

/// Whether objects of type `t` are listed by index in the store.
pub open spec fn is_listed_type(t: DrmKmsObjectType) -> bool {
    t == DrmKmsObjectType::Plane || t == DrmKmsObjectType::Crtc || t == DrmKmsObjectType::Encoder
        || t == DrmKmsObjectType::Connector
}

/// Whether index `i` passes the optional index mask.
pub open spec fn passes_mask(mask: Option<u32>, i: int) -> bool {
    match mask {
        None => true,
        Some(m) => mask_has(m, i),
    }
}

/// The ids of `ids` whose index passes `mask`, in order.
pub open spec fn masked_ids(ids: Seq<KmsObjectId>, mask: Option<u32>) -> Seq<KmsObjectId>
    decreases ids.len(),
{
    if ids.len() == 0 {
        Seq::empty()
    } else {
        masked_ids(ids.drop_last(), mask) + (if passes_mask(mask, ids.len() - 1) {
            seq![ids.last()]
        } else {
            Seq::empty()
        })
    }
}

/// Without a mask every id is kept.
pub proof fn lemma_masked_ids_all(ids: Seq<KmsObjectId>)
    ensures
        masked_ids(ids, None) == ids,
    decreases ids.len(),
{
    if ids.len() > 0 {
        lemma_masked_ids_all(ids.drop_last());
        assert(ids.drop_last() + seq![ids.last()] =~= ids);
    }
}

/// An id is among the masked ids exactly when it sits at an index that
/// passes the mask.
pub proof fn lemma_masked_ids_contains(ids: Seq<KmsObjectId>, mask: Option<u32>, id: KmsObjectId)
    ensures
        masked_ids(ids, mask).contains(id) <==> exists|i: int| 0 <= i < ids.len() && ids[i] == id && passes_mask(mask, i),
    decreases ids.len(),
{
    if ids.len() > 0 {
        let rest = ids.drop_last();
        lemma_masked_ids_contains(rest, mask, id);
        let tail = if passes_mask(mask, ids.len() - 1) { seq![ids.last()] } else { Seq::<KmsObjectId>::empty() };
        assert(masked_ids(ids, mask) == masked_ids(rest, mask) + tail);
        if masked_ids(ids, mask).contains(id) {
            let k = choose|k: int| 0 <= k < masked_ids(ids, mask).len() && masked_ids(ids, mask)[k] == id;
            if k < masked_ids(rest, mask).len() {
                assert(masked_ids(rest, mask)[k] == id);
                assert(masked_ids(rest, mask).contains(id));
                let i = choose|i: int| 0 <= i < rest.len() && rest[i] == id && passes_mask(mask, i);
                assert(ids[i] == id);
            } else {
                assert(ids[ids.len() - 1] == id);
            }
        }
        if exists|i: int| 0 <= i < ids.len() && ids[i] == id && passes_mask(mask, i) {
            let i = choose|i: int| 0 <= i < ids.len() && ids[i] == id && passes_mask(mask, i);
            if i < ids.len() - 1 {
                assert(rest[i] == id);
                let k = choose|k: int| 0 <= k < masked_ids(rest, mask).len() && masked_ids(rest, mask)[k] == id;
                assert(masked_ids(ids, mask)[k] == id);
            } else {
                assert(masked_ids(ids, mask)[masked_ids(rest, mask).len() as int] == id);
            }
        }
    }
}

/// Finalized KMS objects and their global ids.
///
/// Planes, CRTCs, encoders and connectors are also listed by type, in the
/// order they were added; their position in that list is their index.
pub struct DrmKmsObjectStore {
    plane_ids: Vec<KmsObjectId>,
    crtc_ids: Vec<KmsObjectId>,
    encoder_ids: Vec<KmsObjectId>,
    connector_ids: Vec<KmsObjectId>,
    object_by_id: DrmKmsObjectTable,
    next_object_id: KmsObjectId,
}

impl DrmKmsObjectStore {
    /// The objects by id.
    pub closed spec fn spec_objects(&self) -> Map<KmsObjectId, DrmKmsObject> {
        table_objects(self.object_by_id)
    }

    /// The ids of the objects of type `t`, by index; empty for the types
    /// that are not listed.
    pub closed spec fn spec_ids(&self, t: DrmKmsObjectType) -> Seq<KmsObjectId> {
        match t {
            DrmKmsObjectType::Plane => self.plane_ids@,
            DrmKmsObjectType::Crtc => self.crtc_ids@,
            DrmKmsObjectType::Encoder => self.encoder_ids@,
            DrmKmsObjectType::Connector => self.connector_ids@,
            _ => Seq::empty(),
        }
    }

    /// The id the next added object gets.
    pub closed spec fn spec_next_id(&self) -> KmsObjectId {
        self.next_object_id
    }

    /// The store's invariant: ids are positive and below the next id; each
    /// listed type's ids are distinct, name objects of that type, and name
    /// all of them.
    pub open spec fn wf(&self) -> bool {
        &&& self.spec_next_id() >= 1
        &&& forall|id: KmsObjectId| #[trigger] self.spec_objects().contains_key(id) ==> 1 <= id < self.spec_next_id()
        &&& forall|t: DrmKmsObjectType| #[trigger] is_listed_type(t) ==> self.spec_ids(t).no_duplicates()
        &&& forall|t: DrmKmsObjectType, i: int|
            is_listed_type(t) && 0 <= i < self.spec_ids(t).len() ==> {
                &&& self.spec_objects().contains_key(#[trigger] self.spec_ids(t)[i])
                &&& self.spec_objects()[self.spec_ids(t)[i]].kind() == t
            }
        &&& forall|id: KmsObjectId|
            #[trigger] self.spec_objects().contains_key(id) && is_listed_type(self.spec_objects()[id].kind())
                ==> self.spec_ids(self.spec_objects()[id].kind()).contains(id)
    }

    /// Whether every listed type has at most 32 objects, so that index
    /// masks can name all of them.
    pub open spec fn masks_fit(&self) -> bool {
        &&& self.spec_ids(DrmKmsObjectType::Plane).len() <= 32
        &&& self.spec_ids(DrmKmsObjectType::Crtc).len() <= 32
        &&& self.spec_ids(DrmKmsObjectType::Encoder).len() <= 32
        &&& self.spec_ids(DrmKmsObjectType::Connector).len() <= 32
    }

    /// The object under `id` as type `T`, if there is one of that type.
    pub open spec fn spec_get<T: DrmKmsObjectCast>(&self, id: KmsObjectId) -> Option<T> {
        if self.spec_objects().contains_key(id) {
            T::spec_cast(self.spec_objects()[id])
        } else {
            None
        }
    }

    /// Whether `other` has the same objects, lists and next id except that
    /// the object under `id` is `object`.
    pub open spec fn replaced(&self, other: &DrmKmsObjectStore, id: KmsObjectId, object: DrmKmsObject) -> bool {
        &&& other.spec_objects() == self.spec_objects().insert(id, object)
        &&& forall|t: DrmKmsObjectType| #[trigger] other.spec_ids(t) == self.spec_ids(t)
        &&& other.spec_next_id() == self.spec_next_id()
    }

    /// Whether `other` holds objects of the same types under the same ids.
    pub open spec fn same_kinds(&self, other: &DrmKmsObjectStore) -> bool {
        &&& other.spec_objects().dom() == self.spec_objects().dom()
        &&& forall|id: KmsObjectId| #[trigger] self.spec_objects().contains_key(id) ==> other.spec_objects()[id].kind()
            == self.spec_objects()[id].kind()
    }

    /// Stores holding the same types under the same ids have the same
    /// objects of each type present.
    pub proof fn lemma_same_kinds_get(&self, other: &DrmKmsObjectStore, id: KmsObjectId)
        requires
            self.same_kinds(other),
        ensures
            (self.spec_get::<DrmPlane>(id) is Some) == (other.spec_get::<DrmPlane>(id) is Some),
            (self.spec_get::<DrmCrtc>(id) is Some) == (other.spec_get::<DrmCrtc>(id) is Some),
            (self.spec_get::<DrmEncoder>(id) is Some) == (other.spec_get::<DrmEncoder>(id) is Some),
            (self.spec_get::<DrmConnector>(id) is Some) == (other.spec_get::<DrmConnector>(id) is Some),
    {
        if self.spec_objects().contains_key(id) {
            assert(other.spec_objects().contains_key(id));
            assert(other.spec_objects()[id].kind() == self.spec_objects()[id].kind());
        } else {
            assert(!other.spec_objects().contains_key(id));
        }
    }

    /// Creates an empty store; ids start at 1.
    pub fn new() -> (s: Self)
        ensures
            s.wf(),
            s.spec_objects() == no_objects(),
            forall|t: DrmKmsObjectType| #[trigger] s.spec_ids(t).len() == 0,
            s.spec_next_id() == 1,
    {
        DrmKmsObjectStore {
            plane_ids: Vec::new(),
            crtc_ids: Vec::new(),
            encoder_ids: Vec::new(),
            connector_ids: Vec::new(),
            object_by_id: table_new(),
            next_object_id: 1,
        }
    }

    /// Hands out the next id.
    pub fn alloc_object_id(&mut self) -> (id: KmsObjectId)
        requires
            old(self).spec_next_id() < u32::MAX,
        ensures
            id == old(self).spec_next_id(),
            final(self).spec_next_id() == id + 1,
            final(self).spec_objects() == old(self).spec_objects(),
            forall|t: DrmKmsObjectType| #[trigger] final(self).spec_ids(t) == old(self).spec_ids(t),
    {
        let id = self.next_object_id;
        self.next_object_id = id + 1;
        id
    }

    /// Returns, in index order, the ids of the objects of `type_` whose
    /// index is set in `mask`, or all of them without a mask.
    pub fn collect_object_ids(&self, type_: DrmKmsObjectType, mask: Option<u32>) -> (r: Vec<KmsObjectId>)
        ensures
            r@ == masked_ids(self.spec_ids(type_), mask),
    {
        let ids: &Vec<KmsObjectId> = match type_ {
            DrmKmsObjectType::Crtc => &self.crtc_ids,
            DrmKmsObjectType::Connector => &self.connector_ids,
            DrmKmsObjectType::Encoder => &self.encoder_ids,
            DrmKmsObjectType::Plane => &self.plane_ids,
            _ => {
                return Vec::new();
            },
        };
        let mut r: Vec<KmsObjectId> = Vec::new();
        let mut i: usize = 0;
        while i < ids.len()
            invariant
                i <= ids@.len(),
                ids@ == self.spec_ids(type_),
                r@ == masked_ids(ids@.take(i as int), mask),
            decreases ids@.len() - i,
        {
            let keep = match mask {
                None => true,
                Some(m) => crate::mask::mask_contains(m, i),
            };
            assert(ids@.take(i + 1).drop_last() =~= ids@.take(i as int));
            if keep {
                r.push(ids[i]);
            }
            i = i + 1;
            assert(r@ =~= masked_ids(ids@.take(i as int), mask));
        }
        assert(ids@.take(i as int) =~= ids@);
        r
    }

    /// Stores `object` under a fresh id and lists it by its type; fails
    /// with `NoMemory` once every id has been handed out.
    pub fn add_object(&mut self, object: DrmKmsObject) -> (r: Result<KmsObjectId, DrmError>)
        requires
            old(self).wf(),
        ensures
            final(self).wf(),
            match r {
                Ok(id) => {
                    &&& old(self).spec_next_id() < u32::MAX
                    &&& id == old(self).spec_next_id()
                    &&& final(self).spec_next_id() == id + 1
                    &&& final(self).spec_objects() == old(self).spec_objects().insert(id, object)
                    &&& forall|t: DrmKmsObjectType| #[trigger] final(self).spec_ids(t) == (if is_listed_type(t) && t == object.kind() {
                        old(self).spec_ids(t).push(id)
                    } else {
                        old(self).spec_ids(t)
                    })
                },
                Err(e) => e == DrmError::NoMemory && old(self).spec_next_id() == u32::MAX && *final(self) == *old(self),
            },
    {
        if self.next_object_id == u32::MAX {
            return Err(DrmError::NoMemory);
        }
        let id = self.next_object_id;
        self.next_object_id = id + 1;
        let ghost kind = object.kind();
        let ghost mid = *self;
        match &object {
            DrmKmsObject::Plane(_) => self.plane_ids.push(id),
            DrmKmsObject::Crtc(_) => self.crtc_ids.push(id),
            DrmKmsObject::Encoder(_) => self.encoder_ids.push(id),
            DrmKmsObject::Connector(_) => self.connector_ids.push(id),
            _ => {},
        }
        proof {
            assert(mid.plane_ids@ == old(self).plane_ids@);
            assert(self.plane_ids@ == (if kind == DrmKmsObjectType::Plane { mid.plane_ids@.push(id) } else { mid.plane_ids@ }));
            assert(self.crtc_ids@ == (if kind == DrmKmsObjectType::Crtc { mid.crtc_ids@.push(id) } else { mid.crtc_ids@ }));
            assert(self.encoder_ids@ == (if kind == DrmKmsObjectType::Encoder { mid.encoder_ids@.push(id) } else { mid.encoder_ids@ }));
            assert(self.connector_ids@ == (if kind == DrmKmsObjectType::Connector { mid.connector_ids@.push(id) } else { mid.connector_ids@ }));
        }
        table_insert(&mut self.object_by_id, id, object);
        proof {
            let old_s = old(self);
            assert forall|t: DrmKmsObjectType| #[trigger] self.spec_ids(t) == (if is_listed_type(t) && t == kind {
                old_s.spec_ids(t).push(id)
            } else {
                old_s.spec_ids(t)
            }) by {
                match t {
                    DrmKmsObjectType::Plane => {},
                    DrmKmsObjectType::Crtc => {},
                    DrmKmsObjectType::Encoder => {},
                    DrmKmsObjectType::Connector => {},
                    _ => {},
                }
            }
            assert forall|t: DrmKmsObjectType| #[trigger] is_listed_type(t) implies self.spec_ids(t).no_duplicates() by {
                if t == kind {
                    assert forall|i: int| 0 <= i < old_s.spec_ids(t).len() implies old_s.spec_ids(t)[i] != id by {
                        assert(old_s.spec_objects().contains_key(old_s.spec_ids(t)[i]));
                    }
                }
            }
            assert forall|t: DrmKmsObjectType, i: int|
                is_listed_type(t) && 0 <= i < self.spec_ids(t).len() implies {
                    &&& self.spec_objects().contains_key(#[trigger] self.spec_ids(t)[i])
                    &&& self.spec_objects()[self.spec_ids(t)[i]].kind() == t
                } by {
                if t == kind && i == old_s.spec_ids(t).len() {
                } else {
                    assert(old_s.spec_objects().contains_key(old_s.spec_ids(t)[i]));
                }
            }
            assert forall|k: KmsObjectId|
                #[trigger] self.spec_objects().contains_key(k) && is_listed_type(self.spec_objects()[k].kind())
                implies self.spec_ids(self.spec_objects()[k].kind()).contains(k) by {
                if k == id {
                    assert(self.spec_ids(kind)[self.spec_ids(kind).len() - 1] == id);
                } else {
                    let kk = old_s.spec_objects()[k].kind();
                    assert(old_s.spec_ids(kk).contains(k));
                    let j = choose|j: int| 0 <= j < old_s.spec_ids(kk).len() && old_s.spec_ids(kk)[j] == k;
                    assert(self.spec_ids(kk)[j] == k);
                }
            }
        }
        Ok(id)
    }

    /// The id of the object of `type_` at `index`, if there is one.
    pub fn get_object_id_from_index(&self, index: KmsObjectIndex, type_: DrmKmsObjectType) -> (r: Option<KmsObjectId>)
        ensures
            r == (if index < self.spec_ids(type_).len() {
                Some(self.spec_ids(type_)[index as int])
            } else {
                None
            }),
    {
        let ids: &Vec<KmsObjectId> = match type_ {
            DrmKmsObjectType::Crtc => &self.crtc_ids,
            DrmKmsObjectType::Connector => &self.connector_ids,
            DrmKmsObjectType::Encoder => &self.encoder_ids,
            DrmKmsObjectType::Plane => &self.plane_ids,
            _ => {
                return None;
            },
        };
        if index < ids.len() {
            Some(ids[index])
        } else {
            None
        }
    }

    /// Looks up the object under `id` as type `T`.
    pub fn get_object<T: DrmKmsObjectCast>(&self, id: KmsObjectId) -> (r: Option<&T>)
        ensures
            match r {
                Some(x) => self.spec_get::<T>(id) == Some(*x),
                None => self.spec_get::<T>(id) is None,
            },
    {
        match table_get(&self.object_by_id, id) {
            Some(obj) => T::cast(obj),
            None => None,
        }
    }

    /// Looks up the object under `id`, whatever its type.
    pub fn get_unknow_type_object(&self, id: KmsObjectId) -> (r: Option<&DrmKmsObject>)
        ensures
            match r {
                Some(o) => self.spec_objects().contains_key(id) && self.spec_objects()[id] == *o,
                None => !self.spec_objects().contains_key(id),
            },
    {
        table_get(&self.object_by_id, id)
    }

    /// The properties of the object under `id` when it has type `type_`:
    /// not found without such an object, invalid for a type that carries
    /// no properties.
    pub fn get_object_props(&self, id: KmsObjectId, type_: DrmKmsObjectType) -> (r: Result<&DrmKmsObjectProp, DrmError>)
        ensures
            match r {
                Ok(p) => self.spec_objects().contains_key(id) && self.spec_objects()[id].kind() == type_
                    && self.spec_objects()[id].spec_properties() == Some(*p),
                Err(e) => if self.spec_objects().contains_key(id) && self.spec_objects()[id].kind() == type_ {
                    e == DrmError::Invalid && self.spec_objects()[id].spec_properties() is None
                } else {
                    e == DrmError::NotFound
                },
            },
    {
        match table_get(&self.object_by_id, id) {
            Some(obj) => {
                if obj.object_type() != type_ {
                    return Err(DrmError::NotFound);
                }
                obj.properties()
            },
            None => Err(DrmError::NotFound),
        }
    }

    /// Removes the blob under `id`; anything else stays.
    pub fn remove_blob(&mut self, id: KmsObjectId) -> (r: Option<DrmPropertyBlob>)
        requires
            old(self).wf(),
        ensures
            final(self).wf(),
            forall|t: DrmKmsObjectType| #[trigger] final(self).spec_ids(t) == old(self).spec_ids(t),
            final(self).spec_next_id() == old(self).spec_next_id(),
            match r {
                Some(b) => old(self).spec_get::<DrmPropertyBlob>(id) == Some(b)
                    && final(self).spec_objects() == old(self).spec_objects().remove(id),
                None => old(self).spec_get::<DrmPropertyBlob>(id) is None && final(self).spec_objects()
                    == old(self).spec_objects(),
            },
    {
        match table_get(&self.object_by_id, id) {
            Some(DrmKmsObject::Blob(_)) => {},
            _ => {
                return None;
            },
        }
        match table_remove(&mut self.object_by_id, id) {
            Some(DrmKmsObject::Blob(b)) => Some(b),
            _ => None,
        }
    }

    /// Removes the framebuffer under `id`; anything else stays.
    pub fn remove_framebuffer(&mut self, id: KmsObjectId) -> (r: Option<DrmFramebuffer>)
        requires
            old(self).wf(),
        ensures
            final(self).wf(),
            forall|t: DrmKmsObjectType| #[trigger] final(self).spec_ids(t) == old(self).spec_ids(t),
            final(self).spec_next_id() == old(self).spec_next_id(),
            match r {
                Some(f) => old(self).spec_get::<DrmFramebuffer>(id) == Some(f)
                    && final(self).spec_objects() == old(self).spec_objects().remove(id),
                None => old(self).spec_get::<DrmFramebuffer>(id) is None && final(self).spec_objects()
                    == old(self).spec_objects(),
            },
    {
        match table_get(&self.object_by_id, id) {
            Some(DrmKmsObject::Framebuffer(_)) => {},
            _ => {
                return None;
            },
        }
        match table_remove(&mut self.object_by_id, id) {
            Some(DrmKmsObject::Framebuffer(f)) => Some(f),
            _ => None,
        }
    }

    /// Replacing an object by one of the same type keeps the invariant.
    proof fn lemma_replace_keeps_wf(&self, other: &DrmKmsObjectStore, id: KmsObjectId, object: DrmKmsObject)
        requires
            self.wf(),
            self.spec_objects().contains_key(id),
            self.spec_objects()[id].kind() == object.kind(),
            self.replaced(other, id, object),
        ensures
            other.wf(),
    {
        assert forall|t: DrmKmsObjectType| #[trigger] is_listed_type(t) implies other.spec_ids(t).no_duplicates() by {
            assert(other.spec_ids(t) == self.spec_ids(t));
        }
        assert forall|t: DrmKmsObjectType, i: int|
            is_listed_type(t) && 0 <= i < other.spec_ids(t).len() implies {
                &&& other.spec_objects().contains_key(#[trigger] other.spec_ids(t)[i])
                &&& other.spec_objects()[other.spec_ids(t)[i]].kind() == t
            } by {
            assert(other.spec_ids(t) == self.spec_ids(t));
            assert(self.spec_objects().contains_key(self.spec_ids(t)[i]));
        }
        assert forall|k: KmsObjectId|
            #[trigger] other.spec_objects().contains_key(k) && is_listed_type(other.spec_objects()[k].kind())
            implies other.spec_ids(other.spec_objects()[k].kind()).contains(k) by {
            let kk = self.spec_objects()[k].kind();
            assert(other.spec_ids(kk) == self.spec_ids(kk));
        }
        assert forall|k: KmsObjectId| #[trigger] other.spec_objects().contains_key(k) implies 1 <= k < other.spec_next_id() by {
            assert(self.spec_objects().contains_key(k));
        }
    }

    /// Sets the configuration of the plane under `id`.
    pub fn set_plane_state(&mut self, id: KmsObjectId, state: DrmPlaneState)
        requires
            old(self).wf(),
            old(self).spec_get::<DrmPlane>(id) is Some,
        ensures
            final(self).wf(),
            old(self).replaced(
                final(self),
                id,
                DrmKmsObject::Plane(old(self).spec_get::<DrmPlane>(id).unwrap().spec_with_state(state)),
            ),
    {
        let ghost before = *self;
        let obj = table_remove(&mut self.object_by_id, id);
        match obj {
            Some(DrmKmsObject::Plane(mut p)) => {
                p.set_state(state);
                table_insert(&mut self.object_by_id, id, DrmKmsObject::Plane(p));
                proof {
                    assert(table_objects(self.object_by_id) =~= table_objects(before.object_by_id).insert(id, DrmKmsObject::Plane(p)));
                    before.lemma_replace_keeps_wf(self, id, DrmKmsObject::Plane(p));
                }
            },
            _ => {
                assert(false);
            },
        }
    }

    /// Sets the configuration of the CRTC under `id`.
    pub fn set_crtc_state(&mut self, id: KmsObjectId, state: DrmCrtcState)
        requires
            old(self).wf(),
            old(self).spec_get::<DrmCrtc>(id) is Some,
        ensures
            final(self).wf(),
            old(self).replaced(
                final(self),
                id,
                DrmKmsObject::Crtc(old(self).spec_get::<DrmCrtc>(id).unwrap().spec_with_state(state)),
            ),
    {
        let ghost before = *self;
        let obj = table_remove(&mut self.object_by_id, id);
        match obj {
            Some(DrmKmsObject::Crtc(mut c)) => {
                c.set_state(state);
                table_insert(&mut self.object_by_id, id, DrmKmsObject::Crtc(c));
                proof {
                    assert(table_objects(self.object_by_id) =~= table_objects(before.object_by_id).insert(id, DrmKmsObject::Crtc(c)));
                    before.lemma_replace_keeps_wf(self, id, DrmKmsObject::Crtc(c));
                }
            },
            _ => {
                assert(false);
            },
        }
    }

    /// Sets the CRTC that drives the encoder under `id`.
    pub fn set_encoder_crtc(&mut self, id: KmsObjectId, crtc_id: Option<KmsObjectId>)
        requires
            old(self).wf(),
            old(self).spec_get::<DrmEncoder>(id) is Some,
        ensures
            final(self).wf(),
            old(self).replaced(
                final(self),
                id,
                DrmKmsObject::Encoder(old(self).spec_get::<DrmEncoder>(id).unwrap().spec_with_crtc(crtc_id)),
            ),
    {
        let ghost before = *self;
        let obj = table_remove(&mut self.object_by_id, id);
        match obj {
            Some(DrmKmsObject::Encoder(mut e)) => {
                e.set_crtc_id(crtc_id);
                table_insert(&mut self.object_by_id, id, DrmKmsObject::Encoder(e));
                proof {
                    assert(table_objects(self.object_by_id) =~= table_objects(before.object_by_id).insert(id, DrmKmsObject::Encoder(e)));
                    before.lemma_replace_keeps_wf(self, id, DrmKmsObject::Encoder(e));
                }
            },
            _ => {
                assert(false);
            },
        }
    }

    /// Sets the encoder in use by the connector under `id`.
    pub fn set_connector_encoder(&mut self, id: KmsObjectId, encoder_id: Option<KmsObjectId>)
        requires
            old(self).wf(),
            old(self).spec_get::<DrmConnector>(id) is Some,
        ensures
            final(self).wf(),
            old(self).replaced(
                final(self),
                id,
                DrmKmsObject::Connector(old(self).spec_get::<DrmConnector>(id).unwrap().spec_with_encoder(encoder_id)),
            ),
    {
        let ghost before = *self;
        let obj = table_remove(&mut self.object_by_id, id);
        match obj {
            Some(DrmKmsObject::Connector(mut c)) => {
                c.set_current_encoder_id(encoder_id);
                table_insert(&mut self.object_by_id, id, DrmKmsObject::Connector(c));
                proof {
                    assert(table_objects(self.object_by_id) =~= table_objects(before.object_by_id).insert(id, DrmKmsObject::Connector(c)));
                    before.lemma_replace_keeps_wf(self, id, DrmKmsObject::Connector(c));
                }
            },
            _ => {
                assert(false);
            },
        }
    }

    /// Records what the connector under `id` detected.
    pub fn set_connector_display_state(
        &mut self,
        id: KmsObjectId,
        status: DrmConnStatus,
        display_modes: Vec<DrmDisplayMode>,
        display_info: DrmDisplayInfo,
        encoder_id: Option<KmsObjectId>,
    )
        requires
            old(self).wf(),
            old(self).spec_get::<DrmConnector>(id) is Some,
        ensures
            final(self).wf(),
            final(self).spec_get::<DrmConnector>(id) is Some,
            ({
                let c0 = old(self).spec_get::<DrmConnector>(id).unwrap();
                let c1 = final(self).spec_get::<DrmConnector>(id).unwrap();
                &&& c0.same_but_state(&c1, status, display_modes@, display_info, encoder_id)
                &&& old(self).replaced(final(self), id, DrmKmsObject::Connector(c1))
            }),
    {
        let ghost before = *self;
        let ghost modes = display_modes@;
        let obj = table_remove(&mut self.object_by_id, id);
        match obj {
            Some(DrmKmsObject::Connector(mut c)) => {
                let _ = c.set_display_state(status, display_modes, display_info, encoder_id);
                table_insert(&mut self.object_by_id, id, DrmKmsObject::Connector(c));
                proof {
                    assert(table_objects(self.object_by_id) =~= table_objects(before.object_by_id).insert(id, DrmKmsObject::Connector(c)));
                    before.lemma_replace_keeps_wf(self, id, DrmKmsObject::Connector(c));
                }
            },
            _ => {
                assert(false);
            },
        }
    }

    /// Queues an event on the CRTC under `id`.
    pub fn queue_crtc_vblank_event(&mut self, id: KmsObjectId, event: DrmPendingVblankEvent<dyn DrmIoctlEventCtx>)
        requires
            old(self).wf(),
            old(self).spec_get::<DrmCrtc>(id) is Some,
        ensures
            final(self).wf(),
            final(self).spec_get::<DrmCrtc>(id) is Some,
            ({
                let c0 = old(self).spec_get::<DrmCrtc>(id).unwrap();
                let c1 = final(self).spec_get::<DrmCrtc>(id).unwrap();
                &&& c1.spec_vblank().spec_pending() == c0.spec_vblank().spec_pending().push(event)
                &&& c1.spec_vblank().spec_sequence() == c0.spec_vblank().spec_sequence()
                &&& c1.spec_vblank().spec_last_time() == c0.spec_vblank().spec_last_time()
                &&& c1 == c0.spec_with_vblank(c1.spec_vblank())
                &&& old(self).replaced(final(self), id, DrmKmsObject::Crtc(c1))
            }),
    {
        let ghost before = *self;
        let obj = table_remove(&mut self.object_by_id, id);
        match obj {
            Some(DrmKmsObject::Crtc(mut c)) => {
                c.queue_vblank_event(event);
                table_insert(&mut self.object_by_id, id, DrmKmsObject::Crtc(c));
                proof {
                    assert(table_objects(self.object_by_id) =~= table_objects(before.object_by_id).insert(id, DrmKmsObject::Crtc(c)));
                    before.lemma_replace_keeps_wf(self, id, DrmKmsObject::Crtc(c));
                }
            },
            _ => {
                assert(false);
            },
        }
    }

    /// Counts a vblank on the CRTC under `id` at `timestamp` and sends the
    /// events that became due.
    pub fn handle_crtc_vblank(&mut self, id: KmsObjectId, timestamp: (u64, u32)) -> (r: Result<(), DrmError>)
        requires
            old(self).wf(),
        ensures
            final(self).wf(),
            match r {
                Ok(()) => {
                    &&& old(self).spec_get::<DrmCrtc>(id) is Some
                    &&& final(self).spec_get::<DrmCrtc>(id) is Some
                    &&& {
                        let c0 = old(self).spec_get::<DrmCrtc>(id).unwrap();
                        let c1 = final(self).spec_get::<DrmCrtc>(id).unwrap();
                        let seq = c1.spec_vblank().spec_sequence();
                        &&& seq == (if c0.spec_vblank().spec_sequence() == u32::MAX { 0 } else { c0.spec_vblank().spec_sequence() + 1 })
                        &&& c1.spec_vblank().spec_last_time() == timestamp
                        &&& c1.spec_vblank().spec_pending() == c0.spec_vblank().spec_pending().filter(is_waiting(seq))
                        &&& c1 == c0.spec_with_vblank(c1.spec_vblank())
                        &&& old(self).replaced(final(self), id, DrmKmsObject::Crtc(c1))
                    }
                },
                Err(e) => e == DrmError::NotFound && old(self).spec_get::<DrmCrtc>(id) is None && *final(self)
                    == *old(self),
            },
    {
        match table_get(&self.object_by_id, id) {
            Some(DrmKmsObject::Crtc(_)) => {},
            _ => {
                return Err(DrmError::NotFound);
            },
        }
        let ghost before = *self;
        let obj = table_remove(&mut self.object_by_id, id);
        match obj {
            Some(DrmKmsObject::Crtc(mut c)) => {
                let _ = c.handle_vblank(timestamp);
                table_insert(&mut self.object_by_id, id, DrmKmsObject::Crtc(c));
                proof {
                    assert(table_objects(self.object_by_id) =~= table_objects(before.object_by_id).insert(id, DrmKmsObject::Crtc(c)));
                    before.lemma_replace_keeps_wf(self, id, DrmKmsObject::Crtc(c));
                }
            },
            _ => {
                assert(false);
            },
        }
        Ok(())
    }
}

} // verus!
