//! Atomic mode setting: decoding a batch of property writes into requested
//! changes, checking them together, and committing them.
use std::sync::Arc;
use vstd::prelude::*;

use crate::connector::DrmConnector;
use crate::connector_update::{conn_check_spec, DrmPendingConnState};
use crate::crtc::DrmCrtc;
use crate::crtc_update::{crtc_check_spec, crtc_decode_error, DrmPendingCrtcState};
use crate::display::DrmDisplayMode;
use crate::effect::{merge_ids, no_effect, DrmAtomicEffect, DrmAtomicFlags, EffectView};
use crate::error::DrmError;
use crate::object_type::{ids_contain, KmsObjectId, KmsObjectPropValue};
use crate::pending_tables::{
    conn_entries, conn_table_get, conn_table_insert, conn_table_keys, conn_table_new, crtc_table_new, plane_table_new, crtc_entries, crtc_table_get, crtc_table_insert,
    crtc_table_keys, lists_keys, no_conn_entries, no_crtc_entries, no_plane_entries, plane_entries, plane_table_get,
    plane_table_insert, plane_table_keys, DrmPendingConnTable, DrmPendingCrtcTable, DrmPendingPlaneTable,
};
use crate::plane::DrmPlane;
use crate::plane_update::{pick, plane_check_spec, plane_decode_spec, DrmPendingPlaneState};
use crate::property::{DrmKmsObjectProp, DrmProperty};
use crate::store::{DrmKmsObject, DrmKmsObjectStore};
use crate::vblank::{DrmEventBase, DrmIoctlEventCtx, DrmPendingVblankEvent, DrmVblankEvent, DRM_VBLANK_EVENT_SIZE};

verus! {

/// The property writes userspace requests for one object.
pub struct DrmAtomicObjectRequest {
    object_id: KmsObjectId,
    properties: DrmKmsObjectProp,
}

impl DrmAtomicObjectRequest {
    pub closed spec fn spec_object_id(&self) -> KmsObjectId {
        self.object_id
    }

    /// The requested values by property id.
    pub closed spec fn spec_writes(&self) -> Map<KmsObjectId, KmsObjectPropValue> {
        self.properties@
    }

    /// Creates a request for `object_id` without writes.
    pub fn new(object_id: KmsObjectId) -> (r: Self)
        ensures
            r.spec_object_id() == object_id,
            r.spec_writes() == Map::<KmsObjectId, KmsObjectPropValue>::empty(),
    {
        DrmAtomicObjectRequest { object_id, properties: DrmKmsObjectProp::default() }
    }

    /// Requests writing `prop_value` to property `prop_id`, replacing an
    /// earlier write to it.
    pub fn add_property(&mut self, prop_id: KmsObjectId, prop_value: KmsObjectPropValue)
        ensures
            final(self).spec_object_id() == old(self).spec_object_id(),
            final(self).spec_writes() == old(self).spec_writes().insert(prop_id, prop_value),
    {
        self.properties.add_property(prop_id, prop_value);
    }
}

/// The requested changes of an atomic update, by object, and the update's
/// effect once checked.
pub struct DrmAtomicState {
    plane_states: DrmPendingPlaneTable,
    crtc_states: DrmPendingCrtcTable,
    connector_states: DrmPendingConnTable,
    effect: DrmAtomicEffect,
}

impl Default for DrmAtomicState {
    fn default() -> (s: Self)
        ensures
            s.spec_planes() == no_plane_entries(),
            s.spec_crtcs() == no_crtc_entries(),
            s.spec_conns() == no_conn_entries(),
            s.spec_effect() == no_effect(),
            s.wf(),
    {
        DrmAtomicState {
            plane_states: plane_table_new(),
            crtc_states: crtc_table_new(),
            connector_states: conn_table_new(),
            effect: DrmAtomicEffect::default(),
        }
    }
}

/// The error a write of `value` to property `prop_id` of object `obj_id`
/// has, if any: the object must exist and carry properties, the property
/// must be attached to it and exist, and the write must decode.
pub open spec fn write_error(
    objects: DrmKmsObjectStore,
    obj_id: KmsObjectId,
    prop_id: KmsObjectId,
    value: KmsObjectPropValue,
) -> Option<DrmError> {
    if !objects.spec_objects().contains_key(obj_id) {
        Some(DrmError::NotFound)
    } else {
        let obj = objects.spec_objects()[obj_id];
        match obj.spec_properties() {
            None => Some(DrmError::Invalid),
            Some(props) => if !props@.contains_key(prop_id) {
                Some(DrmError::NotFound)
            } else if objects.spec_get::<DrmProperty>(prop_id) is None {
                Some(DrmError::NotFound)
            } else {
                let name = objects.spec_get::<DrmProperty>(prop_id).unwrap().spec_name()@;
                match obj {
                    DrmKmsObject::Plane(p) => match plane_decode_spec(
                        p.spec_state(),
                        name,
                        value,
                        DrmPendingPlaneState::spec_none(),
                    ) {
                        Err(e) => Some(e),
                        Ok(_) => None,
                    },
                    DrmKmsObject::Crtc(_) => crtc_decode_error(objects, name, value),
                    _ => if name != "CRTC_ID"@ {
                        Some(DrmError::NotFound)
                    } else if value > u32::MAX {
                        Some(DrmError::Invalid)
                    } else {
                        None
                    },
                }
            },
        }
    }
}

/// Whether every request names an existing object and every write in it
/// is valid.
pub open spec fn requests_valid(objects: DrmKmsObjectStore, requests: Seq<DrmAtomicObjectRequest>) -> bool {
    forall|i: int|
        0 <= i < requests.len() ==> {
            &&& objects.spec_objects().contains_key(#[trigger] requests[i].spec_object_id())
            &&& forall|k: KmsObjectId| #[trigger] requests[i].spec_writes().contains_key(k) ==> write_error(
                objects,
                requests[i].spec_object_id(),
                k,
                requests[i].spec_writes()[k],
            ) is None
        }
}

/// Whether `e` is the error of a missing requested object or of an invalid
/// write.
pub open spec fn request_error(objects: DrmKmsObjectStore, requests: Seq<DrmAtomicObjectRequest>, e: DrmError) -> bool {
    exists|i: int|
        0 <= i < requests.len() && {
            ||| (!objects.spec_objects().contains_key(#[trigger] requests[i].spec_object_id()) && e
                == DrmError::NotFound)
            ||| exists|k: KmsObjectId| #[trigger]
                requests[i].spec_writes().contains_key(k) && write_error(
                    objects,
                    requests[i].spec_object_id(),
                    k,
                    requests[i].spec_writes()[k],
                ) == Some(e)
        }
}

/// The requested changes of a fresh update: none.
pub open spec fn empty_tables() -> Tables {
    (no_plane_entries(), no_crtc_entries(), no_conn_entries())
}

/// The requested changes of plane `id` in `m`, or none.
pub open spec fn plane_pending_of(m: Map<KmsObjectId, DrmPendingPlaneState>, id: KmsObjectId) -> DrmPendingPlaneState {
    if m.contains_key(id) {
        m[id]
    } else {
        DrmPendingPlaneState::spec_none()
    }
}

/// The requested changes of CRTC `id` in `m`, or none.
pub open spec fn crtc_pending_of(m: Map<KmsObjectId, DrmPendingCrtcState>, id: KmsObjectId) -> DrmPendingCrtcState {
    if m.contains_key(id) {
        m[id]
    } else {
        DrmPendingCrtcState { active: None, display_mode: None }
    }
}

/// The requested routing of connector `id` in `m`, or none.
pub open spec fn conn_pending_of(m: Map<KmsObjectId, DrmPendingConnState>, id: KmsObjectId) -> DrmPendingConnState {
    if m.contains_key(id) {
        m[id]
    } else {
        DrmPendingConnState::new_spec(None)
    }
}

/// The name of property `prop_id`.
pub open spec fn prop_name(objects: DrmKmsObjectStore, prop_id: KmsObjectId) -> Seq<char> {
    objects.spec_get::<DrmProperty>(prop_id).unwrap().spec_name()@
}

/// Whether `tb1` is `tb0` with the write of `value` to property `prop_id`
/// of object `obj_id` decoded into that object's entry.
pub open spec fn write_applied(
    objects: DrmKmsObjectStore,
    obj_id: KmsObjectId,
    prop_id: KmsObjectId,
    value: KmsObjectPropValue,
    tb0: Tables,
    tb1: Tables,
) -> bool {
    let name = prop_name(objects, prop_id);
    match objects.spec_objects()[obj_id] {
        DrmKmsObject::Plane(p) => (plane_decode_spec(p.spec_state(), name, value, plane_pending_of(tb0.0, obj_id)) matches Ok(np)
            && tb1 == (tb0.0.insert(obj_id, np), tb0.1, tb0.2)),
        DrmKmsObject::Crtc(_) => {
            &&& tb1.0 == tb0.0
            &&& tb1.2 == tb0.2
            &&& tb1.1 == tb0.1.insert(obj_id, tb1.1[obj_id])
            &&& crate::crtc_update::crtc_decode_result(objects, name, value, crtc_pending_of(tb0.1, obj_id), tb1.1[obj_id])
        },
        DrmKmsObject::Connector(_) => tb1 == (
            tb0.0,
            tb0.1,
            tb0.2.insert(obj_id, DrmPendingConnState { crtc_id: Some(crate::plane_update::id_of_value(value)), ..conn_pending_of(tb0.2, obj_id) }),
        ),
        _ => false,
    }
}

/// Whether `order` lists each write of `writes` once.
pub open spec fn lists_writes(writes: Map<KmsObjectId, KmsObjectPropValue>, order: Seq<(KmsObjectId, KmsObjectPropValue)>) -> bool {
    &&& order.len() == writes.dom().len()
    &&& forall|a: int| #![trigger order[a]] 0 <= a < order.len() ==> writes.contains_key(order[a].0) && writes[order[a].0] == order[a].1
    &&& forall|k: u32| #[trigger] writes.contains_key(k) ==> exists|a: int| 0 <= a < order.len() && #[trigger] order[a].0 == k
    &&& forall|a: int, b: int| 0 <= a < b < order.len() ==> #[trigger] order[a].0 != #[trigger] order[b].0
}

/// Whether `steps` are the requested changes before and after each write
/// of `order` to object `obj_id`.
pub open spec fn steps_apply(
    objects: DrmKmsObjectStore,
    obj_id: KmsObjectId,
    order: Seq<(KmsObjectId, KmsObjectPropValue)>,
    steps: Seq<Tables>,
) -> bool {
    &&& steps.len() == order.len() + 1
    &&& forall|a: int| #![trigger order[a]] 0 <= a < order.len() ==> write_applied(objects, obj_id, order[a].0, order[a].1, steps[a], steps[a + 1])
}

/// Whether `tb1` is `tb0` with every write of request `req` decoded, one
/// after the other in some order of its writes.
pub open spec fn request_applied(objects: DrmKmsObjectStore, req: DrmAtomicObjectRequest, tb0: Tables, tb1: Tables) -> bool {
    exists|order: Seq<(KmsObjectId, KmsObjectPropValue)>, steps: Seq<Tables>|
        #![trigger lists_writes(req.spec_writes(), order), steps_apply(objects, req.spec_object_id(), order, steps)]
        lists_writes(req.spec_writes(), order) && steps_apply(objects, req.spec_object_id(), order, steps) && steps[0] == tb0
            && steps[order.len() as int] == tb1
}

/// Whether `tbs` are the requested changes before and after each request
/// of `requests`, starting from none.
pub open spec fn decode_trace(objects: DrmKmsObjectStore, requests: Seq<DrmAtomicObjectRequest>, tbs: Seq<Tables>) -> bool {
    &&& tbs.len() == requests.len() + 1
    &&& tbs[0] == empty_tables()
    &&& forall|i: int| #![trigger requests[i]] 0 <= i < requests.len() ==> request_applied(objects, requests[i], tbs[i], tbs[i + 1])
}

/// Whether `tb` is what decoding `requests` gives: the requests one after
/// the other, each write into the entry of its object, a later write of a
/// property replacing an earlier one.
pub open spec fn decoded_tables(objects: DrmKmsObjectStore, requests: Seq<DrmAtomicObjectRequest>, tb: Tables) -> bool {
    exists|tbs: Seq<Tables>| #[trigger] decode_trace(objects, requests, tbs) && tbs[requests.len() as int] == tb
}

proof fn lemma_invalid_write(
    objects: DrmKmsObjectStore,
    requests: Seq<DrmAtomicObjectRequest>,
    i: int,
    k: KmsObjectId,
    e: DrmError,
)
    requires
        0 <= i < requests.len(),
        requests[i].spec_writes().contains_key(k),
        write_error(objects, requests[i].spec_object_id(), k, requests[i].spec_writes()[k]) == Some(e),
    ensures
        !requests_valid(objects, requests),
        request_error(objects, requests, e),
{
    assert(objects.spec_objects().contains_key(requests[i].spec_object_id()) || true);
}

proof fn lemma_missing_object(objects: DrmKmsObjectStore, requests: Seq<DrmAtomicObjectRequest>, i: int)
    requires
        0 <= i < requests.len(),
        !objects.spec_objects().contains_key(requests[i].spec_object_id()),
    ensures
        !requests_valid(objects, requests),
        request_error(objects, requests, DrmError::NotFound),
{
}

/// The mode a plane's CRTC has after the update: the mode requested for
/// that CRTC, else the CRTC's current mode; no CRTC, no mode.
pub open spec fn plane_display_mode(
    objects: DrmKmsObjectStore,
    crtcs: Map<KmsObjectId, DrmPendingCrtcState>,
    plane: DrmPlane,
    p: DrmPendingPlaneState,
) -> Result<Option<DrmDisplayMode>, DrmError> {
    match pick(p.crtc_id, plane.spec_state().crtc_id) {
        None => Ok(None),
        Some(c) => if crtcs.contains_key(c) && crtcs[c].display_mode is Some {
            Ok(crtcs[c].display_mode.unwrap())
        } else if objects.spec_get::<DrmCrtc>(c) is None {
            Err(DrmError::NotFound)
        } else {
            Ok(objects.spec_get::<DrmCrtc>(c).unwrap().spec_state().display_mode)
        },
    }
}

/// The outcome of checking the requested changes of plane `id`.
pub open spec fn plane_entry_spec(
    objects: DrmKmsObjectStore,
    crtcs: Map<KmsObjectId, DrmPendingCrtcState>,
    id: KmsObjectId,
    p: DrmPendingPlaneState,
) -> Result<EffectView, DrmError> {
    match objects.spec_get::<DrmPlane>(id) {
        None => Err(DrmError::NotFound),
        Some(plane) => match plane_display_mode(objects, crtcs, plane, p) {
            Err(e) => Err(e),
            Ok(dm) => plane_check_spec(objects, plane, p, dm),
        },
    }
}

/// The outcome of checking the requested changes of CRTC `id`.
pub open spec fn crtc_entry_spec(objects: DrmKmsObjectStore, id: KmsObjectId, p: DrmPendingCrtcState) -> Result<
    EffectView,
    DrmError,
> {
    match objects.spec_get::<DrmCrtc>(id) {
        None => Err(DrmError::NotFound),
        Some(crtc) => crtc_check_spec(id, crtc, p),
    }
}

/// The outcome of checking the requested routing of connector `id`, and
/// the request as completed by the check.
pub open spec fn conn_entry_spec(objects: DrmKmsObjectStore, id: KmsObjectId, p: DrmPendingConnState) -> (
    Result<EffectView, DrmError>,
    DrmPendingConnState,
) {
    match objects.spec_get::<DrmConnector>(id) {
        None => (Err(DrmError::NotFound), p),
        Some(conn) => conn_check_spec(objects, conn, p),
    }
}

/// The requested changes of an update: planes, CRTCs and connectors.
pub type Tables = (
    Map<KmsObjectId, DrmPendingPlaneState>,
    Map<KmsObjectId, DrmPendingCrtcState>,
    Map<KmsObjectId, DrmPendingConnState>,
);

/// The outcome of checking one entry of any table: planes are 0, CRTCs 1,
/// connectors 2.
pub open spec fn entry_outcome(objects: DrmKmsObjectStore, tb: Tables, table: int, id: KmsObjectId) -> Result<
    EffectView,
    DrmError,
> {
    if table == 0 {
        plane_entry_spec(objects, tb.1, id, tb.0[id])
    } else if table == 1 {
        crtc_entry_spec(objects, id, tb.1[id])
    } else {
        conn_entry_spec(objects, id, tb.2[id]).0
    }
}

/// Whether `id` is an entry of table `table`.
pub open spec fn has_entry(tb: Tables, table: int, id: KmsObjectId) -> bool {
    ||| (table == 0 && tb.0.contains_key(id))
    ||| (table == 1 && tb.1.contains_key(id))
    ||| (table == 2 && tb.2.contains_key(id))
}

/// Whether every entry checks out.
pub open spec fn all_entries_ok(objects: DrmKmsObjectStore, tb: Tables) -> bool {
    forall|t: int, id: KmsObjectId| #[trigger] has_entry(tb, t, id) ==> entry_outcome(objects, tb, t, id) is Ok
}

/// Whether some entry fails with `e`.
pub open spec fn some_entry_fails(objects: DrmKmsObjectStore, tb: Tables, e: DrmError) -> bool {
    exists|t: int, id: KmsObjectId| #[trigger] has_entry(tb, t, id) && entry_outcome(objects, tb, t, id) == Err::<
        EffectView,
        DrmError,
    >(e)
}

/// Whether a successful check's effect needs a modeset.
pub open spec fn ok_modeset(r: Result<EffectView, DrmError>) -> bool {
    match r {
        Ok(v) => v.0,
        Err(_) => false,
    }
}

/// Whether a successful check's effect touches CRTC `x`.
pub open spec fn ok_affects(r: Result<EffectView, DrmError>, x: KmsObjectId) -> bool {
    match r {
        Ok(v) => v.1.contains(x),
        Err(_) => false,
    }
}

/// Whether a successful check's effect owes an event on CRTC `x`.
pub open spec fn ok_event(r: Result<EffectView, DrmError>, x: KmsObjectId) -> bool {
    match r {
        Ok(v) => v.2.contains(x),
        Err(_) => false,
    }
}

/// Whether some entry's effect needs a modeset.
pub open spec fn some_entry_modeset(objects: DrmKmsObjectStore, tb: Tables) -> bool {
    exists|t: int, id: KmsObjectId| #[trigger] has_entry(tb, t, id) && ok_modeset(entry_outcome(objects, tb, t, id))
}

/// Whether some entry's effect touches CRTC `x`.
pub open spec fn some_entry_affects(objects: DrmKmsObjectStore, tb: Tables, x: KmsObjectId) -> bool {
    exists|t: int, id: KmsObjectId| #[trigger] has_entry(tb, t, id) && ok_affects(entry_outcome(objects, tb, t, id), x)
}

/// Whether some entry's effect owes an event on CRTC `x`.
pub open spec fn some_entry_event(objects: DrmKmsObjectStore, tb: Tables, x: KmsObjectId) -> bool {
    exists|t: int, id: KmsObjectId| #[trigger] has_entry(tb, t, id) && ok_event(entry_outcome(objects, tb, t, id), x)
}

impl DrmAtomicState {
    pub closed spec fn spec_planes(&self) -> Map<KmsObjectId, DrmPendingPlaneState> {
        plane_entries(self.plane_states)
    }

    pub closed spec fn spec_crtcs(&self) -> Map<KmsObjectId, DrmPendingCrtcState> {
        crtc_entries(self.crtc_states)
    }

    pub closed spec fn spec_conns(&self) -> Map<KmsObjectId, DrmPendingConnState> {
        conn_entries(self.connector_states)
    }

    /// The requested changes, table by table.
    pub open spec fn tables(&self) -> Tables {
        (self.spec_planes(), self.spec_crtcs(), self.spec_conns())
    }

    pub closed spec fn spec_effect(&self) -> EffectView {
        self.effect.view()
    }

    /// Whether the effect lists no CRTC twice.
    pub closed spec fn wf(&self) -> bool {
        self.effect.wf()
    }

    pub proof fn lemma_wf(&self)
        requires
            self.wf(),
        ensures
            self.spec_effect().1.no_duplicates(),
            self.spec_effect().2.no_duplicates(),
    {
    }

    /// The update's effect.
    pub fn effect(&self) -> (e: &DrmAtomicEffect)
        ensures
            e.view() == self.spec_effect(),
    {
        &self.effect
    }

    /// Decodes a batch of requests into requested changes. It succeeds when
    /// every request names an existing object and every write is valid;
    /// otherwise it fails with the error of one of the faults. On success
    /// the requested changes are the decoding of the requests, one after
    /// the other, each write decoded into the entry of its object; the
    /// order of the writes within one request is the request table's.
    pub fn new(objects: &DrmKmsObjectStore, requests: Vec<DrmAtomicObjectRequest>) -> (r: Result<Self, DrmError>)
        ensures
            match r {
                Ok(st) => {
                    &&& requests_valid(*objects, requests@)
                    &&& decoded_tables(*objects, requests@, st.tables())
                    &&& st.spec_effect() == no_effect()
                    &&& st.wf()
                    &&& forall|id: KmsObjectId| #[trigger] st.spec_planes().contains_key(id) ==> objects.spec_get::<
                        DrmPlane,
                    >(id) is Some
                    &&& forall|id: KmsObjectId| #[trigger] st.spec_crtcs().contains_key(id) ==> objects.spec_get::<
                        DrmCrtc,
                    >(id) is Some
                    &&& forall|id: KmsObjectId| #[trigger] st.spec_conns().contains_key(id) ==> objects.spec_get::<
                        DrmConnector,
                    >(id) is Some
                },
                Err(e) => !requests_valid(*objects, requests@) && request_error(*objects, requests@, e),
            },
    {
        let mut st = DrmAtomicState::default();
        let ghost mut tbs: Seq<Tables> = seq![st.tables()];
        proof {
            assert(decode_trace(*objects, requests@.take(0), tbs));
        }
        let mut i: usize = 0;
        while i < requests.len()
            invariant
                i <= requests@.len(),
                requests_valid(*objects, requests@.take(i as int)),
                decode_trace(*objects, requests@.take(i as int), tbs),
                tbs[i as int] == st.tables(),
                st.spec_effect() == no_effect(),
                st.wf(),
                forall|id: KmsObjectId| #[trigger] st.spec_planes().contains_key(id) ==> objects.spec_get::<DrmPlane>(id) is Some,
                forall|id: KmsObjectId| #[trigger] st.spec_crtcs().contains_key(id) ==> objects.spec_get::<DrmCrtc>(id) is Some,
                forall|id: KmsObjectId| #[trigger] st.spec_conns().contains_key(id) ==> objects.spec_get::<DrmConnector>(id) is Some,
            decreases requests@.len() - i,
        {
            let request = &requests[i];
            let object_id = request.object_id;
            let object = match objects.get_unknow_type_object(object_id) {
                Some(o) => o,
                None => {
                    proof {
                        lemma_missing_object(*objects, requests@, i as int);
                    }
                    return Err(DrmError::NotFound);
                },
            };
            let entries = request.properties.entries();
            let ghost mut steps: Seq<Tables> = seq![st.tables()];
            let mut j: usize = 0;
            while j < entries.len()
                invariant
                    i < requests@.len(),
                    decode_trace(*objects, requests@.take(i as int), tbs),
                    tbs.len() == i + 1,
                    steps.len() == j + 1,
                    steps[0] == tbs[i as int],
                    steps[j as int] == st.tables(),
                    forall|a: int| #![trigger entries@[a]] 0 <= a < j ==> write_applied(*objects, object_id, entries@[a].0, entries@[a].1, steps[a], steps[a + 1]),
                    forall|a: int, b: int| 0 <= a < b < entries@.len() ==> #[trigger] entries@[a].0 != #[trigger] entries@[b].0,
                    request == requests@[i as int],
                    objects.spec_objects().contains_key(object_id),
                    object_id == request.spec_object_id(),
                    *object == objects.spec_objects()[object_id],
                    entries@.len() == request.spec_writes().dom().len(),
                    forall|a: int| #![trigger entries@[a]] 0 <= a < entries@.len() ==> request.spec_writes().contains_key(entries@[a].0)
                        && request.spec_writes()[entries@[a].0] == entries@[a].1,
                    forall|k: u32| #[trigger] request.spec_writes().contains_key(k) ==> exists|a: int| 0 <= a < entries@.len()
                        && #[trigger] entries@[a].0 == k,
                    j <= entries@.len(),
                    forall|a: int| 0 <= a < j ==> write_error(*objects, object_id, #[trigger] entries@[a].0, entries@[a].1) is None,
                    st.spec_effect() == no_effect(),
                    st.wf(),
                    forall|id: KmsObjectId| #[trigger] st.spec_planes().contains_key(id) ==> objects.spec_get::<DrmPlane>(id) is Some,
                    forall|id: KmsObjectId| #[trigger] st.spec_crtcs().contains_key(id) ==> objects.spec_get::<DrmCrtc>(id) is Some,
                    forall|id: KmsObjectId| #[trigger] st.spec_conns().contains_key(id) ==> objects.spec_get::<DrmConnector>(id) is Some,
                decreases entries@.len() - j,
            {
                let (prop_id, prop_value) = entries[j];
                proof {
                    assert(request.spec_writes().contains_key(prop_id));
                }
                let props = match object.properties() {
                    Ok(p) => p,
                    Err(e) => {
                        proof {
                            lemma_invalid_write(*objects, requests@, i as int, prop_id, e);
                        }
                        return Err(e);
                    },
                };
                let ids = props.ids();
                if !ids_contain(ids.as_slice(), prop_id) {
                    proof {
                        lemma_invalid_write(*objects, requests@, i as int, prop_id, DrmError::NotFound);
                    }
                    return Err(DrmError::NotFound);
                }
                let property = match objects.get_object::<DrmProperty>(prop_id) {
                    Some(p) => p,
                    None => {
                        proof {
                            lemma_invalid_write(*objects, requests@, i as int, prop_id, DrmError::NotFound);
                        }
                        return Err(DrmError::NotFound);
                    },
                };
                match object {
                    DrmKmsObject::Plane(plane) => {
                        let mut pending = match plane_table_get(&st.plane_states, object_id) {
                            Some(p) => p,
                            None => DrmPendingPlaneState::default(),
                        };
                        match plane.decode_property(objects, property, prop_value, &mut pending) {
                            Ok(()) => {},
                            Err(e) => {
                                proof {
                                    lemma_invalid_write(*objects, requests@, i as int, prop_id, e);
                                }
                                return Err(e);
                            },
                        }
                        assert(objects.spec_get::<DrmPlane>(object_id) == Some(*plane));
                        let ghost before = st.spec_planes();
                        let ghost crtcs0 = st.spec_crtcs();
                        let ghost conns0 = st.spec_conns();
                        let ghost tb0 = st.tables();
                        plane_table_insert(&mut st.plane_states, object_id, pending);
                        assert(st.spec_crtcs() == crtcs0);
                        assert(st.spec_conns() == conns0);
                        assert(st.spec_planes() == before.insert(object_id, pending));
                        assert(write_applied(*objects, object_id, prop_id, prop_value, tb0, st.tables()));
                        assert forall|id: KmsObjectId| #[trigger] st.spec_planes().contains_key(id) implies objects.spec_get::<DrmPlane>(id) is Some by {
                            if id != object_id {
                                assert(before.contains_key(id));
                            }
                        }
                    },
                    DrmKmsObject::Crtc(crtc) => {
                        let ghost planes0 = st.spec_planes();
                        let mut pending = match crtc_table_get(&st.crtc_states, object_id) {
                            Some(p) => p,
                            None => DrmPendingCrtcState::default(),
                        };
                        match crtc.decode_property(objects, property, prop_value, &mut pending) {
                            Ok(()) => {},
                            Err(e) => {
                                proof {
                                    lemma_invalid_write(*objects, requests@, i as int, prop_id, e);
                                }
                                return Err(e);
                            },
                        }
                        assert(objects.spec_get::<DrmCrtc>(object_id) == Some(*crtc));
                        let ghost before = st.spec_crtcs();
                        let ghost conns0 = st.spec_conns();
                        let ghost tb0 = st.tables();
                        crtc_table_insert(&mut st.crtc_states, object_id, pending);
                        assert(st.spec_conns() == conns0);
                        assert(st.spec_crtcs() == before.insert(object_id, pending));
                        assert(st.spec_planes() == planes0);
                        assert(write_applied(*objects, object_id, prop_id, prop_value, tb0, st.tables()));
                        assert forall|id: KmsObjectId| #[trigger] st.spec_crtcs().contains_key(id) implies objects.spec_get::<DrmCrtc>(id) is Some by {
                            if id != object_id {
                                assert(before.contains_key(id));
                            }
                        }
                        assert(st.spec_planes() == planes0);
                    },
                    DrmKmsObject::Connector(connector) => {
                        let mut pending = match conn_table_get(&st.connector_states, object_id) {
                            Some(p) => p,
                            None => DrmPendingConnState::default(),
                        };
                        match connector.decode_property(objects, property, prop_value, &mut pending) {
                            Ok(()) => {},
                            Err(e) => {
                                proof {
                                    lemma_invalid_write(*objects, requests@, i as int, prop_id, e);
                                }
                                return Err(e);
                            },
                        }
                        assert(objects.spec_get::<DrmConnector>(object_id) == Some(*connector));
                        let ghost before = st.spec_conns();
                        let ghost planes0 = st.spec_planes();
                        let ghost crtcs0 = st.spec_crtcs();
                        let ghost tb0 = st.tables();
                        conn_table_insert(&mut st.connector_states, object_id, pending);
                        assert(st.spec_planes() == planes0);
                        assert(st.spec_crtcs() == crtcs0);
                        assert(st.spec_conns() == before.insert(object_id, pending));
                        assert(write_applied(*objects, object_id, prop_id, prop_value, tb0, st.tables()));
                        assert forall|id: KmsObjectId| #[trigger] st.spec_conns().contains_key(id) implies objects.spec_get::<DrmConnector>(id) is Some by {
                            if id != object_id {
                                assert(before.contains_key(id));
                            }
                        }
                    },
                    _ => {
                        proof {
                            assert(false);
                        }
                        return Err(DrmError::Invalid);
                    },
                }
                proof {
                    assert(write_error(*objects, object_id, prop_id, prop_value) is None);
                    let steps0 = steps;
                    steps = steps.push(st.tables());
                    assert forall|a: int| #![trigger entries@[a]] 0 <= a < j + 1 implies write_applied(*objects, object_id, entries@[a].0, entries@[a].1, steps[a], steps[a + 1]) by {
                        if a < j {
                            assert(steps[a] == steps0[a] && steps[a + 1] == steps0[a + 1]);
                        }
                    }
                }
                j = j + 1;
            }
            proof {
                assert forall|k: KmsObjectId| #[trigger] request.spec_writes().contains_key(k) implies write_error(
                    *objects,
                    object_id,
                    k,
                    request.spec_writes()[k],
                ) is None by {
                    let a = choose|a: int| 0 <= a < entries@.len() && #[trigger] entries@[a].0 == k;
                    assert(write_error(*objects, object_id, entries@[a].0, entries@[a].1) is None);
                }
                assert forall|a: int| 0 <= a < i + 1 implies {
                    &&& objects.spec_objects().contains_key(#[trigger] requests@.take(i + 1)[a].spec_object_id())
                    &&& forall|k: KmsObjectId| #[trigger] requests@.take(i + 1)[a].spec_writes().contains_key(k) ==> write_error(
                        *objects,
                        requests@.take(i + 1)[a].spec_object_id(),
                        k,
                        requests@.take(i + 1)[a].spec_writes()[k],
                    ) is None
                } by {
                    if a < i {
                        assert(requests@.take(i + 1)[a] == requests@.take(i as int)[a]);
                    }
                }
                assert(lists_writes(request.spec_writes(), entries@));
                assert(steps_apply(*objects, request.spec_object_id(), entries@, steps));
                assert(request_applied(*objects, *request, tbs[i as int], st.tables()));
                let tbs0 = tbs;
                tbs = tbs.push(st.tables());
                assert forall|a: int| #![trigger requests@.take(i + 1)[a]] 0 <= a < i + 1 implies request_applied(*objects, requests@.take(i + 1)[a], tbs[a], tbs[a + 1]) by {
                    if a < i {
                        assert(requests@.take(i + 1)[a] == requests@.take(i as int)[a]);
                        assert(request_applied(*objects, requests@.take(i as int)[a], tbs0[a], tbs0[a + 1]));
                        assert(tbs[a] == tbs0[a] && tbs[a + 1] == tbs0[a + 1]);
                    } else {
                        assert(requests@.take(i + 1)[a] == *request);
                    }
                }
                assert(decode_trace(*objects, requests@.take(i + 1), tbs));
            }
            i = i + 1;
        }
        proof {
            assert(requests@.take(i as int) =~= requests@);
            assert(decode_trace(*objects, requests@, tbs));
            assert(decoded_tables(*objects, requests@, st.tables()));
        }
        Ok(st)
    }
}

/// Whether some index below `n` satisfies `p`.
pub open spec fn exists_before(n: int, p: spec_fn(int) -> bool) -> bool {
    exists|a: int| 0 <= a < n && #[trigger] p(a)
}

proof fn lemma_exists_before_step(n: int, p: spec_fn(int) -> bool)
    requires
        0 <= n,
    ensures
        exists_before(n + 1, p) == (exists_before(n, p) || p(n)),
{
    if exists_before(n + 1, p) && !p(n) {
        let a = choose|a: int| 0 <= a < n + 1 && #[trigger] p(a);
        assert(a < n);
    }
    if p(n) {
        assert(0 <= n < n + 1 && p(n));
    }
}

/// Whether every entry of table `t` checks out.
pub open spec fn table_all_ok(objects: DrmKmsObjectStore, tb: Tables, t: int) -> bool {
    forall|id: KmsObjectId| #[trigger] has_entry(tb, t, id) ==> entry_outcome(objects, tb, t, id) is Ok
}

/// Whether some entry of table `t` fails with `e`.
pub open spec fn table_fails(objects: DrmKmsObjectStore, tb: Tables, t: int, e: DrmError) -> bool {
    exists|id: KmsObjectId| #[trigger] has_entry(tb, t, id) && entry_outcome(objects, tb, t, id) == Err::<
        EffectView,
        DrmError,
    >(e)
}

/// Whether some entry of table `t` needs a modeset.
pub open spec fn table_modeset(objects: DrmKmsObjectStore, tb: Tables, t: int) -> bool {
    exists|id: KmsObjectId| #[trigger] has_entry(tb, t, id) && ok_modeset(entry_outcome(objects, tb, t, id))
}

/// Whether some entry of table `t` touches CRTC `x`.
pub open spec fn table_affects(objects: DrmKmsObjectStore, tb: Tables, t: int, x: KmsObjectId) -> bool {
    exists|id: KmsObjectId| #[trigger] has_entry(tb, t, id) && ok_affects(entry_outcome(objects, tb, t, id), x)
}

/// Whether some entry of table `t` owes an event on CRTC `x`.
pub open spec fn table_event(objects: DrmKmsObjectStore, tb: Tables, t: int, x: KmsObjectId) -> bool {
    exists|id: KmsObjectId| #[trigger] has_entry(tb, t, id) && ok_event(entry_outcome(objects, tb, t, id), x)
}

/// Whether `a` and `b` hold the same requested changes.
pub open spec fn same_tables(a: DrmAtomicState, b: DrmAtomicState) -> bool {
    a.spec_planes() == b.spec_planes() && a.spec_crtcs() == b.spec_crtcs() && a.spec_conns() == b.spec_conns()
}

/// Whether the effect `e1` is `e0` with the effects of the entries of
/// table `t` folded in.
pub open spec fn folded(objects: DrmKmsObjectStore, tb: Tables, t: int, e0: EffectView, e1: EffectView) -> bool {
    &&& e1.0 == (e0.0 || table_modeset(objects, tb, t))
    &&& forall|x: KmsObjectId| #[trigger] e1.1.contains(x) <==> (e0.1.contains(x) || table_affects(objects, tb, t, x))
    &&& forall|x: KmsObjectId| #[trigger] e1.2.contains(x) <==> (e0.2.contains(x) || table_event(objects, tb, t, x))
}

/// The keys of table `t`.
pub open spec fn table_keys_of(tb: Tables, t: int, keys: Seq<KmsObjectId>) -> bool {
    if t == 0 {
        lists_keys(keys, tb.0)
    } else if t == 1 {
        lists_keys(keys, tb.1)
    } else {
        lists_keys(keys, tb.2)
    }
}

proof fn lemma_fold_step(
    objects: DrmKmsObjectStore,
    tb: Tables,
    t: int,
    keys: Seq<KmsObjectId>,
    i: int,
    e0: EffectView,
    e_prev: EffectView,
    part: EffectView,
    e_next: EffectView,
)
    requires
        0 <= i < keys.len(),
        e_prev.1.no_duplicates(),
        e_prev.2.no_duplicates(),
        entry_outcome(objects, tb, t, keys[i]) == Ok::<EffectView, DrmError>(part),
        e_next.0 == (e_prev.0 || part.0),
        e_next.1 == merge_ids(e_prev.1, part.1),
        e_next.2 == merge_ids(e_prev.2, part.2),
        e_prev.0 == (e0.0 || exists_before(i, |a: int| ok_modeset(entry_outcome(objects, tb, t, keys[a])))),
        forall|x: KmsObjectId| #[trigger] e_prev.1.contains(x) <==> (e0.1.contains(x) || exists_before(
            i,
            |a: int| ok_affects(entry_outcome(objects, tb, t, keys[a]), x),
        )),
        forall|x: KmsObjectId| #[trigger] e_prev.2.contains(x) <==> (e0.2.contains(x) || exists_before(
            i,
            |a: int| ok_event(entry_outcome(objects, tb, t, keys[a]), x),
        )),
    ensures
        e_next.1.no_duplicates(),
        e_next.2.no_duplicates(),
        e_next.0 == (e0.0 || exists_before(i + 1, |a: int| ok_modeset(entry_outcome(objects, tb, t, keys[a])))),
        forall|x: KmsObjectId| #[trigger] e_next.1.contains(x) <==> (e0.1.contains(x) || exists_before(
            i + 1,
            |a: int| ok_affects(entry_outcome(objects, tb, t, keys[a]), x),
        )),
        forall|x: KmsObjectId| #[trigger] e_next.2.contains(x) <==> (e0.2.contains(x) || exists_before(
            i + 1,
            |a: int| ok_event(entry_outcome(objects, tb, t, keys[a]), x),
        )),
{
    crate::effect::law_merge_union(e_prev.1, part.1);
    crate::effect::law_merge_union(e_prev.2, part.2);
    lemma_exists_before_step(i, |a: int| ok_modeset(entry_outcome(objects, tb, t, keys[a])));
    assert forall|x: KmsObjectId| #[trigger] e_next.1.contains(x) <==> (e0.1.contains(x) || exists_before(
        i + 1,
        |a: int| ok_affects(entry_outcome(objects, tb, t, keys[a]), x),
    )) by {
        lemma_exists_before_step(i, |a: int| ok_affects(entry_outcome(objects, tb, t, keys[a]), x));
        assert(e_prev.1.contains(x) <==> (e0.1.contains(x) || exists_before(
            i,
            |a: int| ok_affects(entry_outcome(objects, tb, t, keys[a]), x),
        )));
    }
    assert forall|x: KmsObjectId| #[trigger] e_next.2.contains(x) <==> (e0.2.contains(x) || exists_before(
        i + 1,
        |a: int| ok_event(entry_outcome(objects, tb, t, keys[a]), x),
    )) by {
        lemma_exists_before_step(i, |a: int| ok_event(entry_outcome(objects, tb, t, keys[a]), x));
        assert(e_prev.2.contains(x) <==> (e0.2.contains(x) || exists_before(
            i,
            |a: int| ok_event(entry_outcome(objects, tb, t, keys[a]), x),
        )));
    }
}

proof fn lemma_fold_done(
    objects: DrmKmsObjectStore,
    tb: Tables,
    t: int,
    keys: Seq<KmsObjectId>,
    e0: EffectView,
    e1: EffectView,
)
    requires
        0 <= t <= 2,
        table_keys_of(tb, t, keys),
        forall|a: int| 0 <= a < keys.len() ==> entry_outcome(objects, tb, t, #[trigger] keys[a]) is Ok,
        e1.0 == (e0.0 || exists_before(keys.len() as int, |a: int| ok_modeset(entry_outcome(objects, tb, t, keys[a])))),
        forall|x: KmsObjectId| #[trigger] e1.1.contains(x) <==> (e0.1.contains(x) || exists_before(
            keys.len() as int,
            |a: int| ok_affects(entry_outcome(objects, tb, t, keys[a]), x),
        )),
        forall|x: KmsObjectId| #[trigger] e1.2.contains(x) <==> (e0.2.contains(x) || exists_before(
            keys.len() as int,
            |a: int| ok_event(entry_outcome(objects, tb, t, keys[a]), x),
        )),
    ensures
        table_all_ok(objects, tb, t),
        folded(objects, tb, t, e0, e1),
{
    let n = keys.len() as int;
    assert forall|id: KmsObjectId| #[trigger] has_entry(tb, t, id) implies (keys.contains(id)) by {}
    assert forall|a: int| 0 <= a < n implies #[trigger] has_entry(tb, t, keys[a]) by {}
    assert forall|id: KmsObjectId| #[trigger] has_entry(tb, t, id) implies entry_outcome(objects, tb, t, id) is Ok by {
        let a = choose|a: int| 0 <= a < n && keys[a] == id;
        assert(entry_outcome(objects, tb, t, keys[a]) is Ok);
    }
    let pm = |a: int| ok_modeset(entry_outcome(objects, tb, t, keys[a]));
    if exists_before(n, pm) {
        let a = choose|a: int| 0 <= a < n && #[trigger] pm(a);
        assert(has_entry(tb, t, keys[a]));
    }
    if table_modeset(objects, tb, t) {
        let id = choose|id: KmsObjectId| #[trigger] has_entry(tb, t, id) && ok_modeset(entry_outcome(objects, tb, t, id));
        let a = choose|a: int| 0 <= a < n && keys[a] == id;
        assert(pm(a));
    }
    assert forall|x: KmsObjectId| #[trigger] e1.1.contains(x) <==> (e0.1.contains(x) || table_affects(objects, tb, t, x)) by {
        let p = |a: int| ok_affects(entry_outcome(objects, tb, t, keys[a]), x);
        if exists_before(n, p) {
            let a = choose|a: int| 0 <= a < n && #[trigger] p(a);
            assert(has_entry(tb, t, keys[a]));
        }
        if table_affects(objects, tb, t, x) {
            let id = choose|id: KmsObjectId| #[trigger] has_entry(tb, t, id) && ok_affects(entry_outcome(objects, tb, t, id), x);
            let a = choose|a: int| 0 <= a < n && keys[a] == id;
            assert(p(a));
        }
    }
    assert forall|x: KmsObjectId| #[trigger] e1.2.contains(x) <==> (e0.2.contains(x) || table_event(objects, tb, t, x)) by {
        let p = |a: int| ok_event(entry_outcome(objects, tb, t, keys[a]), x);
        if exists_before(n, p) {
            let a = choose|a: int| 0 <= a < n && #[trigger] p(a);
            assert(has_entry(tb, t, keys[a]));
        }
        if table_event(objects, tb, t, x) {
            let id = choose|id: KmsObjectId| #[trigger] has_entry(tb, t, id) && ok_event(entry_outcome(objects, tb, t, id), x);
            let a = choose|a: int| 0 <= a < n && keys[a] == id;
            assert(p(a));
        }
    }
}

/// Checks every requested plane change and folds the effects in.
fn check_planes(objects: &DrmKmsObjectStore, atomic_state: &mut DrmAtomicState) -> (r: Result<(), DrmError>)
    requires
        objects.masks_fit(),
        old(atomic_state).wf(),
    ensures
        final(atomic_state).wf(),
        same_tables(*final(atomic_state), *old(atomic_state)),
        match r {
            Ok(()) => table_all_ok(*objects, old(atomic_state).tables(), 0) && folded(
                *objects,
                old(atomic_state).tables(),
                0,
                old(atomic_state).spec_effect(),
                final(atomic_state).spec_effect(),
            ),
            Err(e) => table_fails(*objects, old(atomic_state).tables(), 0, e),
        },
{
    let ghost s0 = *atomic_state;
    let ghost e0 = atomic_state.spec_effect();
    let keys = plane_table_keys(&atomic_state.plane_states);
    let mut i: usize = 0;
    while i < keys.len()
        invariant
            i <= keys@.len(),
            objects.masks_fit(),
            table_keys_of(s0.tables(), 0, keys@),
            s0 == *old(atomic_state),
            e0 == s0.spec_effect(),
            same_tables(*atomic_state, s0),
            atomic_state.wf(),
            forall|a: int| 0 <= a < i ==> entry_outcome(*objects, s0.tables(), 0, #[trigger] keys@[a]) is Ok,
            atomic_state.spec_effect().0 == (e0.0 || exists_before(
                i as int,
                |a: int| ok_modeset(entry_outcome(*objects, s0.tables(), 0, keys@[a])),
            )),
            forall|x: KmsObjectId| #[trigger] atomic_state.spec_effect().1.contains(x) <==> (e0.1.contains(x)
                || exists_before(i as int, |a: int| ok_affects(entry_outcome(*objects, s0.tables(), 0, keys@[a]), x))),
            forall|x: KmsObjectId| #[trigger] atomic_state.spec_effect().2.contains(x) <==> (e0.2.contains(x)
                || exists_before(i as int, |a: int| ok_event(entry_outcome(*objects, s0.tables(), 0, keys@[a]), x))),
        decreases keys@.len() - i,
    {
        let plane_id = keys[i];
        proof {
            assert(has_entry(s0.tables(), 0, plane_id));
        }
        let plane_state = match plane_table_get(&atomic_state.plane_states, plane_id) {
            Some(p) => p,
            None => {
                return Err(DrmError::NotFound);
            },
        };
        let plane = match objects.get_object::<DrmPlane>(plane_id) {
            Some(p) => p,
            None => {
                assert(entry_outcome(*objects, s0.tables(), 0, plane_id) == Err::<EffectView, DrmError>(DrmError::NotFound));
                return Err(DrmError::NotFound);
            },
        };
        let snapshot = plane.snapshot();
        let final_crtc_id = match plane_state.crtc_id {
            Some(c) => c,
            None => snapshot.crtc_id(),
        };
        let final_display_mode = match final_crtc_id {
            Some(crtc_id) => {
                let requested = match crtc_table_get(&atomic_state.crtc_states, crtc_id) {
                    Some(cs) => cs.display_mode,
                    None => None,
                };
                match requested {
                    Some(dm) => dm,
                    None => match objects.get_object::<DrmCrtc>(crtc_id) {
                        Some(crtc) => crtc.snapshot().display_mode(),
                        None => {
                            assert(entry_outcome(*objects, s0.tables(), 0, plane_id) == Err::<EffectView, DrmError>(
                                DrmError::NotFound,
                            ));
                            return Err(DrmError::NotFound);
                        },
                    },
                }
            },
            None => None,
        };
        assert(plane_display_mode(*objects, s0.spec_crtcs(), *plane, plane_state) == Ok::<
            Option<DrmDisplayMode>,
            DrmError,
        >(final_display_mode));
        let effect = match plane.check_pending_state(objects, &plane_state, final_display_mode) {
            Ok(e) => e,
            Err(e) => {
                assert(entry_outcome(*objects, s0.tables(), 0, plane_id) == Err::<EffectView, DrmError>(e));
                return Err(e);
            },
        };
        let ghost part = effect.view();
        assert(entry_outcome(*objects, s0.tables(), 0, plane_id) == Ok::<EffectView, DrmError>(part));
        let ghost e_prev = atomic_state.spec_effect();
        proof {
            atomic_state.lemma_wf();
        }
        atomic_state.effect.merge(effect);
        proof {
            lemma_fold_step(*objects, s0.tables(), 0, keys@, i as int, e0, e_prev, part, atomic_state.spec_effect());
        }
        i = i + 1;
    }
    proof {
        lemma_fold_done(*objects, s0.tables(), 0, keys@, e0, atomic_state.spec_effect());
    }
    Ok(())
}

/// Checks every requested CRTC change and folds the effects in.
fn check_crtcs(objects: &DrmKmsObjectStore, atomic_state: &mut DrmAtomicState) -> (r: Result<(), DrmError>)
    requires
        old(atomic_state).wf(),
    ensures
        final(atomic_state).wf(),
        same_tables(*final(atomic_state), *old(atomic_state)),
        match r {
            Ok(()) => table_all_ok(*objects, old(atomic_state).tables(), 1) && folded(
                *objects,
                old(atomic_state).tables(),
                1,
                old(atomic_state).spec_effect(),
                final(atomic_state).spec_effect(),
            ),
            Err(e) => table_fails(*objects, old(atomic_state).tables(), 1, e),
        },
{
    let ghost s0 = *atomic_state;
    let ghost e0 = atomic_state.spec_effect();
    let keys = crtc_table_keys(&atomic_state.crtc_states);
    let mut i: usize = 0;
    while i < keys.len()
        invariant
            i <= keys@.len(),
            table_keys_of(s0.tables(), 1, keys@),
            s0 == *old(atomic_state),
            e0 == s0.spec_effect(),
            same_tables(*atomic_state, s0),
            atomic_state.wf(),
            forall|a: int| 0 <= a < i ==> entry_outcome(*objects, s0.tables(), 1, #[trigger] keys@[a]) is Ok,
            atomic_state.spec_effect().0 == (e0.0 || exists_before(
                i as int,
                |a: int| ok_modeset(entry_outcome(*objects, s0.tables(), 1, keys@[a])),
            )),
            forall|x: KmsObjectId| #[trigger] atomic_state.spec_effect().1.contains(x) <==> (e0.1.contains(x)
                || exists_before(i as int, |a: int| ok_affects(entry_outcome(*objects, s0.tables(), 1, keys@[a]), x))),
            forall|x: KmsObjectId| #[trigger] atomic_state.spec_effect().2.contains(x) <==> (e0.2.contains(x)
                || exists_before(i as int, |a: int| ok_event(entry_outcome(*objects, s0.tables(), 1, keys@[a]), x))),
        decreases keys@.len() - i,
    {
        let crtc_id = keys[i];
        proof {
            assert(has_entry(s0.tables(), 1, crtc_id));
        }
        let crtc_state = match crtc_table_get(&atomic_state.crtc_states, crtc_id) {
            Some(c) => c,
            None => {
                return Err(DrmError::NotFound);
            },
        };
        let crtc = match objects.get_object::<DrmCrtc>(crtc_id) {
            Some(c) => c,
            None => {
                assert(entry_outcome(*objects, s0.tables(), 1, crtc_id) == Err::<EffectView, DrmError>(DrmError::NotFound));
                return Err(DrmError::NotFound);
            },
        };
        let effect = match crtc.check_pending_state(crtc_id, objects, &crtc_state) {
            Ok(e) => e,
            Err(e) => {
                assert(entry_outcome(*objects, s0.tables(), 1, crtc_id) == Err::<EffectView, DrmError>(e));
                return Err(e);
            },
        };
        let ghost part = effect.view();
        assert(entry_outcome(*objects, s0.tables(), 1, crtc_id) == Ok::<EffectView, DrmError>(part));
        let ghost e_prev = atomic_state.spec_effect();
        proof {
            atomic_state.lemma_wf();
        }
        atomic_state.effect.merge(effect);
        proof {
            lemma_fold_step(*objects, s0.tables(), 1, keys@, i as int, e0, e_prev, part, atomic_state.spec_effect());
        }
        i = i + 1;
    }
    proof {
        lemma_fold_done(*objects, s0.tables(), 1, keys@, e0, atomic_state.spec_effect());
    }
    Ok(())
}

/// Checks every requested connector change, completing each request, and
/// folds the effects in.
fn check_conns(objects: &DrmKmsObjectStore, atomic_state: &mut DrmAtomicState) -> (r: Result<(), DrmError>)
    requires
        objects.masks_fit(),
        old(atomic_state).wf(),
    ensures
        final(atomic_state).wf(),
        final(atomic_state).spec_planes() == old(atomic_state).spec_planes(),
        final(atomic_state).spec_crtcs() == old(atomic_state).spec_crtcs(),
        final(atomic_state).spec_conns().dom() == old(atomic_state).spec_conns().dom(),
        match r {
            Ok(()) => {
                &&& table_all_ok(*objects, old(atomic_state).tables(), 2)
                &&& folded(
                    *objects,
                    old(atomic_state).tables(),
                    2,
                    old(atomic_state).spec_effect(),
                    final(atomic_state).spec_effect(),
                )
                &&& forall|id: KmsObjectId| #[trigger] old(atomic_state).spec_conns().contains_key(id)
                    ==> final(atomic_state).spec_conns()[id] == conn_entry_spec(
                    *objects,
                    id,
                    old(atomic_state).spec_conns()[id],
                ).1
            },
            Err(e) => table_fails(*objects, old(atomic_state).tables(), 2, e),
        },
{
    let ghost s0 = *atomic_state;
    let ghost e0 = atomic_state.spec_effect();
    let keys = conn_table_keys(&atomic_state.connector_states);
    let mut i: usize = 0;
    while i < keys.len()
        invariant
            i <= keys@.len(),
            objects.masks_fit(),
            table_keys_of(s0.tables(), 2, keys@),
            s0 == *old(atomic_state),
            e0 == s0.spec_effect(),
            atomic_state.spec_planes() == s0.spec_planes(),
            atomic_state.spec_crtcs() == s0.spec_crtcs(),
            atomic_state.spec_conns().dom() == s0.spec_conns().dom(),
            forall|a: int| 0 <= a < i ==> atomic_state.spec_conns()[#[trigger] keys@[a]] == conn_entry_spec(
                *objects,
                keys@[a],
                s0.spec_conns()[keys@[a]],
            ).1,
            forall|a: int| i <= a < keys@.len() ==> atomic_state.spec_conns()[#[trigger] keys@[a]] == s0.spec_conns()[keys@[a]],
            atomic_state.wf(),
            forall|a: int| 0 <= a < i ==> entry_outcome(*objects, s0.tables(), 2, #[trigger] keys@[a]) is Ok,
            atomic_state.spec_effect().0 == (e0.0 || exists_before(
                i as int,
                |a: int| ok_modeset(entry_outcome(*objects, s0.tables(), 2, keys@[a])),
            )),
            forall|x: KmsObjectId| #[trigger] atomic_state.spec_effect().1.contains(x) <==> (e0.1.contains(x)
                || exists_before(i as int, |a: int| ok_affects(entry_outcome(*objects, s0.tables(), 2, keys@[a]), x))),
            forall|x: KmsObjectId| #[trigger] atomic_state.spec_effect().2.contains(x) <==> (e0.2.contains(x)
                || exists_before(i as int, |a: int| ok_event(entry_outcome(*objects, s0.tables(), 2, keys@[a]), x))),
        decreases keys@.len() - i,
    {
        let conn_id = keys[i];
        proof {
            assert(has_entry(s0.tables(), 2, conn_id));
        }
        let mut conn_state = match conn_table_get(&atomic_state.connector_states, conn_id) {
            Some(c) => c,
            None => {
                return Err(DrmError::NotFound);
            },
        };
        assert(conn_state == s0.spec_conns()[conn_id]);
        let connector = match objects.get_object::<DrmConnector>(conn_id) {
            Some(c) => c,
            None => {
                assert(entry_outcome(*objects, s0.tables(), 2, conn_id) == Err::<EffectView, DrmError>(DrmError::NotFound));
                return Err(DrmError::NotFound);
            },
        };
        let checked = connector.check_pending_state(objects, &mut conn_state);
        let ghost conns_before = atomic_state.spec_conns();
        let ghost planes_before = atomic_state.spec_planes();
        let ghost crtcs_before = atomic_state.spec_crtcs();
        let ghost eff_before = atomic_state.spec_effect();
        conn_table_insert(&mut atomic_state.connector_states, conn_id, conn_state);
        assert(atomic_state.spec_planes() == planes_before);
        assert(atomic_state.spec_crtcs() == crtcs_before);
        assert(atomic_state.spec_effect() == eff_before);
        assert(atomic_state.spec_conns() == conns_before.insert(conn_id, conn_state));
        let effect = match checked {
            Ok(e) => e,
            Err(e) => {
                assert(entry_outcome(*objects, s0.tables(), 2, conn_id) == Err::<EffectView, DrmError>(e));
                return Err(e);
            },
        };
        let ghost part = effect.view();
        assert(entry_outcome(*objects, s0.tables(), 2, conn_id) == Ok::<EffectView, DrmError>(part));
        let ghost e_prev = atomic_state.spec_effect();
        proof {
            atomic_state.lemma_wf();
        }
        atomic_state.effect.merge(effect);
        assert(atomic_state.spec_conns() == conns_before.insert(conn_id, conn_state));
        proof {
            lemma_fold_step(*objects, s0.tables(), 2, keys@, i as int, e0, e_prev, part, atomic_state.spec_effect());
            assert(atomic_state.spec_conns().dom() =~= s0.spec_conns().dom());
            assert forall|a: int| 0 <= a < i + 1 implies atomic_state.spec_conns()[#[trigger] keys@[a]] == conn_entry_spec(
                *objects,
                keys@[a],
                s0.spec_conns()[keys@[a]],
            ).1 by {
                if a < i {
                    assert(keys@[a] != conn_id);
                }
            }
            assert forall|a: int| i + 1 <= a < keys@.len() implies atomic_state.spec_conns()[#[trigger] keys@[a]]
                == s0.spec_conns()[keys@[a]] by {
                assert(keys@[a] != conn_id);
            }
        }
        i = i + 1;
    }
    proof {
        lemma_fold_done(*objects, s0.tables(), 2, keys@, e0, atomic_state.spec_effect());
        assert forall|id: KmsObjectId| #[trigger] s0.spec_conns().contains_key(id) implies atomic_state.spec_conns()[id]
            == conn_entry_spec(*objects, id, s0.spec_conns()[id]).1 by {
            assert(keys@.contains(id));
            let a = choose|a: int| 0 <= a < keys@.len() && keys@[a] == id;
            assert(atomic_state.spec_conns()[keys@[a]] == conn_entry_spec(*objects, keys@[a], s0.spec_conns()[keys@[a]]).1);
        }
    }
    Ok(())
}

/// Whether the flags allow a modeset.
pub open spec fn allows_modeset(flags: DrmAtomicFlags) -> bool {
    flags.spec_bits() & 0x400u32 == 0x400u32
}

proof fn lemma_tables_join(objects: DrmKmsObjectStore, tb: Tables)
    ensures
        all_entries_ok(objects, tb) == (table_all_ok(objects, tb, 0) && table_all_ok(objects, tb, 1) && table_all_ok(
            objects,
            tb,
            2,
        )),
        some_entry_modeset(objects, tb) == (table_modeset(objects, tb, 0) || table_modeset(objects, tb, 1)
            || table_modeset(objects, tb, 2)),
        forall|x: KmsObjectId| #[trigger] some_entry_affects(objects, tb, x) == (table_affects(objects, tb, 0, x)
            || table_affects(objects, tb, 1, x) || table_affects(objects, tb, 2, x)),
        forall|x: KmsObjectId| #[trigger] some_entry_event(objects, tb, x) == (table_event(objects, tb, 0, x)
            || table_event(objects, tb, 1, x) || table_event(objects, tb, 2, x)),
        forall|e: DrmError, t: int| #[trigger] table_fails(objects, tb, t, e) ==> some_entry_fails(objects, tb, e),
{
    if table_all_ok(objects, tb, 0) && table_all_ok(objects, tb, 1) && table_all_ok(objects, tb, 2) {
        assert forall|t: int, id: KmsObjectId| #[trigger] has_entry(tb, t, id) implies entry_outcome(objects, tb, t, id) is Ok by {
            if t == 0 {
                assert(has_entry(tb, 0, id));
            } else if t == 1 {
                assert(has_entry(tb, 1, id));
            } else {
                assert(has_entry(tb, 2, id));
            }
        }
    }
    if some_entry_modeset(objects, tb) {
        let (t, id) = choose|t: int, id: KmsObjectId| #[trigger] has_entry(tb, t, id) && ok_modeset(entry_outcome(objects, tb, t, id));
        if t == 0 {
            assert(has_entry(tb, 0, id));
        } else if t == 1 {
            assert(has_entry(tb, 1, id));
        } else {
            assert(has_entry(tb, 2, id));
        }
    }
    assert forall|x: KmsObjectId| #[trigger] some_entry_affects(objects, tb, x) == (table_affects(objects, tb, 0, x)
        || table_affects(objects, tb, 1, x) || table_affects(objects, tb, 2, x)) by {
        if some_entry_affects(objects, tb, x) {
            let (t, id) = choose|t: int, id: KmsObjectId| #[trigger] has_entry(tb, t, id) && ok_affects(entry_outcome(objects, tb, t, id), x);
            if t == 0 {
                assert(has_entry(tb, 0, id));
            } else if t == 1 {
                assert(has_entry(tb, 1, id));
            } else {
                assert(has_entry(tb, 2, id));
            }
        }
    }
    assert forall|x: KmsObjectId| #[trigger] some_entry_event(objects, tb, x) == (table_event(objects, tb, 0, x)
        || table_event(objects, tb, 1, x) || table_event(objects, tb, 2, x)) by {
        if some_entry_event(objects, tb, x) {
            let (t, id) = choose|t: int, id: KmsObjectId| #[trigger] has_entry(tb, t, id) && ok_event(entry_outcome(objects, tb, t, id), x);
            if t == 0 {
                assert(has_entry(tb, 0, id));
            } else if t == 1 {
                assert(has_entry(tb, 1, id));
            } else {
                assert(has_entry(tb, 2, id));
            }
        }
    }
}

/// Validates the requested changes against each other and the current
/// objects, and records their effect.
///
/// Every plane, CRTC and connector entry is checked against its final
/// configuration; planes see the mode requested for their CRTC, or else
/// its current mode. The check fails with the error of a failing entry, or
/// as invalid when the update needs a modeset that `flags` do not allow.
/// The effect gains the modeset need, touched CRTCs and owed events of all
/// entries, and each connector request is completed. The order in which
/// entries are visited is the tables' and is not stated.
pub fn atomic_check(objects: &DrmKmsObjectStore, atomic_state: &mut DrmAtomicState, flags: DrmAtomicFlags) -> (r:
    Result<(), DrmError>)
    requires
        objects.masks_fit(),
        old(atomic_state).wf(),
    ensures
        final(atomic_state).wf(),
        final(atomic_state).spec_planes() == old(atomic_state).spec_planes(),
        final(atomic_state).spec_crtcs() == old(atomic_state).spec_crtcs(),
        final(atomic_state).spec_conns().dom() == old(atomic_state).spec_conns().dom(),
        match r {
            Ok(()) => {
                let tb = old(atomic_state).tables();
                let e0 = old(atomic_state).spec_effect();
                let e1 = final(atomic_state).spec_effect();
                &&& all_entries_ok(*objects, tb)
                &&& e1.0 == (e0.0 || some_entry_modeset(*objects, tb))
                &&& forall|x: KmsObjectId| #[trigger] e1.1.contains(x) <==> (e0.1.contains(x) || some_entry_affects(
                    *objects,
                    tb,
                    x,
                ))
                &&& forall|x: KmsObjectId| #[trigger] e1.2.contains(x) <==> (e0.2.contains(x) || some_entry_event(
                    *objects,
                    tb,
                    x,
                ))
                &&& e1.0 ==> allows_modeset(flags)
                &&& forall|id: KmsObjectId| #[trigger] tb.2.contains_key(id) ==> final(atomic_state).spec_conns()[id]
                    == conn_entry_spec(*objects, id, tb.2[id]).1
            },
            Err(e) => {
                let tb = old(atomic_state).tables();
                ||| some_entry_fails(*objects, tb, e)
                ||| (e == DrmError::Invalid && all_entries_ok(*objects, tb) && (old(atomic_state).spec_effect().0
                    || some_entry_modeset(*objects, tb)) && !allows_modeset(flags))
            },
        },
{
    let ghost s0 = *atomic_state;
    proof {
        lemma_tables_join(*objects, s0.tables());
    }
    match check_planes(objects, atomic_state) {
        Ok(()) => {},
        Err(e) => {
            return Err(e);
        },
    }
    let ghost s1 = *atomic_state;
    assert(s1.tables() == s0.tables());
    match check_crtcs(objects, atomic_state) {
        Ok(()) => {},
        Err(e) => {
            return Err(e);
        },
    }
    let ghost s2 = *atomic_state;
    assert(s2.tables() == s0.tables());
    match check_conns(objects, atomic_state) {
        Ok(()) => {},
        Err(e) => {
            return Err(e);
        },
    }
    let ghost s3 = *atomic_state;
    proof {
        let e0 = s0.spec_effect();
        let e3 = s3.spec_effect();
        assert forall|x: KmsObjectId| #[trigger] e3.1.contains(x) <==> (e0.1.contains(x) || some_entry_affects(
            *objects,
            s0.tables(),
            x,
        )) by {
            assert(s1.spec_effect().1.contains(x) <==> (e0.1.contains(x) || table_affects(*objects, s0.tables(), 0, x)));
            assert(s2.spec_effect().1.contains(x) <==> (s1.spec_effect().1.contains(x) || table_affects(*objects, s0.tables(), 1, x)));
            assert(e3.1.contains(x) <==> (s2.spec_effect().1.contains(x) || table_affects(*objects, s0.tables(), 2, x)));
        }
        assert forall|x: KmsObjectId| #[trigger] e3.2.contains(x) <==> (e0.2.contains(x) || some_entry_event(
            *objects,
            s0.tables(),
            x,
        )) by {
            assert(s1.spec_effect().2.contains(x) <==> (e0.2.contains(x) || table_event(*objects, s0.tables(), 0, x)));
            assert(s2.spec_effect().2.contains(x) <==> (s1.spec_effect().2.contains(x) || table_event(*objects, s0.tables(), 1, x)));
            assert(e3.2.contains(x) <==> (s2.spec_effect().2.contains(x) || table_event(*objects, s0.tables(), 2, x)));
        }
    }
    if atomic_state.effect.request_modeset() && !flags.contains(DrmAtomicFlags::ALLOW_MODESET()) {
        return Err(DrmError::Invalid);
    }
    Ok(())
}

/// The plane under `id` with the requested changes `p` applied.
pub open spec fn committed_plane(objects: DrmKmsObjectStore, id: KmsObjectId, p: DrmPendingPlaneState) -> DrmPlane {
    let plane = objects.spec_get::<DrmPlane>(id).unwrap();
    plane.spec_with_state(crate::plane_update::plane_final(plane.spec_state(), p))
}

/// The CRTC under `id` with the requested changes `p` applied.
pub open spec fn committed_crtc(objects: DrmKmsObjectStore, id: KmsObjectId, p: DrmPendingCrtcState) -> DrmCrtc {
    let crtc = objects.spec_get::<DrmCrtc>(id).unwrap();
    crtc.spec_with_state(crate::crtc_update::crtc_final(crtc.spec_state(), p))
}

/// The encoder a connector uses after committing routing request `p`; its
/// current one `cur` when nothing was requested.
pub open spec fn committed_encoder(cur: Option<KmsObjectId>, p: DrmPendingConnState) -> Option<KmsObjectId> {
    match p.crtc_id {
        None => cur,
        Some(None) => None,
        Some(Some(_)) => p.encoder_id.unwrap(),
    }
}

/// Whether the commit of every requested change will find what it needs:
/// the planes, CRTCs and connectors requested, and for each routing the
/// encoders it names.
pub open spec fn commit_ok(objects: DrmKmsObjectStore, tb: Tables) -> bool {
    &&& forall|id: KmsObjectId| #[trigger] tb.0.contains_key(id) ==> objects.spec_get::<DrmPlane>(id) is Some
    &&& forall|id: KmsObjectId| #[trigger] tb.1.contains_key(id) ==> objects.spec_get::<DrmCrtc>(id) is Some
    &&& forall|id: KmsObjectId| #[trigger] tb.2.contains_key(id) ==> crate::connector_update::conn_commit_spec(
        objects,
        id,
        tb.2[id],
    ).0 is Ok
}

proof fn lemma_conn_commit_ok_same_kinds(a: DrmKmsObjectStore, b: DrmKmsObjectStore, id: KmsObjectId, p: DrmPendingConnState)
    requires
        a.same_kinds(&b),
    ensures
        (crate::connector_update::conn_commit_spec(a, id, p).0 is Ok) == (crate::connector_update::conn_commit_spec(
            b,
            id,
            p,
        ).0 is Ok),
{
    a.lemma_same_kinds_get(&b, id);
    if let Some(e) = p.old_encoder_id {
        a.lemma_same_kinds_get(&b, e);
    }
    if let Some(Some(e)) = p.encoder_id {
        a.lemma_same_kinds_get(&b, e);
    }
}

/// Commits the requested plane changes.
fn commit_planes(objects: &mut DrmKmsObjectStore, st: &DrmAtomicState) -> (r: Result<(), DrmError>)
    requires
        old(objects).wf(),
    ensures
        final(objects).wf(),
        old(objects).same_kinds(final(objects)),
        forall|t: crate::object_type::DrmKmsObjectType| #[trigger] final(objects).spec_ids(t) == old(objects).spec_ids(t),
        final(objects).spec_next_id() == old(objects).spec_next_id(),
        forall|id: KmsObjectId| !st.spec_planes().contains_key(id) && #[trigger] old(objects).spec_objects().contains_key(id)
            ==> final(objects).spec_objects()[id] == old(objects).spec_objects()[id],
        match r {
            Ok(()) => forall|id: KmsObjectId| #[trigger] st.spec_planes().contains_key(id) ==> old(objects).spec_get::<
                DrmPlane,
            >(id) is Some && final(objects).spec_get::<DrmPlane>(id) == Some(
                committed_plane(*old(objects), id, st.spec_planes()[id]),
            ),
            Err(e) => e == DrmError::NotFound && exists|id: KmsObjectId| #[trigger] st.spec_planes().contains_key(id)
                && old(objects).spec_get::<DrmPlane>(id) is None,
        },
{
    let ghost s0 = *objects;
    let keys = plane_table_keys(&st.plane_states);
    let mut i: usize = 0;
    while i < keys.len()
        invariant
            i <= keys@.len(),
            lists_keys(keys@, st.spec_planes()),
            s0 == *old(objects),
            objects.wf(),
            s0.same_kinds(objects),
            forall|t: crate::object_type::DrmKmsObjectType| #[trigger] objects.spec_ids(t) == s0.spec_ids(t),
            objects.spec_next_id() == s0.spec_next_id(),
            forall|a: int| 0 <= a < i ==> s0.spec_get::<DrmPlane>(#[trigger] keys@[a]) is Some && objects.spec_get::<DrmPlane>(keys@[a])
                == Some(committed_plane(s0, keys@[a], st.spec_planes()[keys@[a]])),
            forall|id: KmsObjectId| #[trigger] s0.spec_objects().contains_key(id) && !keys@.take(i as int).contains(id)
                ==> objects.spec_objects()[id] == s0.spec_objects()[id],
        decreases keys@.len() - i,
    {
        let plane_id = keys[i];
        let ps = match plane_table_get(&st.plane_states, plane_id) {
            Some(p) => p,
            None => {
                return Err(DrmError::NotFound);
            },
        };
        let ghost before = *objects;
        proof {
            if s0.spec_objects().contains_key(plane_id) {
                assert(!keys@.take(i as int).contains(plane_id));
            }
            s0.lemma_same_kinds_get(&before, plane_id);
        }
        match objects.commit_plane_state(plane_id, &ps) {
            Ok(()) => {},
            Err(e) => {
                assert(s0.spec_get::<DrmPlane>(plane_id) is None);
                return Err(e);
            },
        }
        proof {
            assert(before.spec_objects()[plane_id] == s0.spec_objects()[plane_id]);
            assert(keys@.take(i + 1) == keys@.take(i as int).push(plane_id));
            assert forall|id: KmsObjectId| #[trigger] s0.spec_objects().contains_key(id) && !keys@.take(i + 1).contains(id)
                implies objects.spec_objects()[id] == s0.spec_objects()[id] by {
                assert(keys@.take(i + 1)[i as int] == plane_id);
                if id == plane_id {
                    assert(keys@.take(i + 1).contains(id));
                }
                assert(!keys@.take(i as int).contains(id)) by {
                    if keys@.take(i as int).contains(id) {
                        let k = choose|k: int| 0 <= k < i && keys@.take(i as int)[k] == id;
                        assert(keys@.take(i + 1)[k] == id);
                    }
                }
            }
            assert forall|id: KmsObjectId| #[trigger] s0.spec_objects().contains_key(id) implies objects.spec_objects()[id].kind()
                == s0.spec_objects()[id].kind() by {
                if id != plane_id {
                    assert(before.spec_objects()[id].kind() == s0.spec_objects()[id].kind());
                }
            }
            assert(objects.spec_objects().dom() =~= s0.spec_objects().dom());
            assert forall|a: int| 0 <= a < i + 1 implies s0.spec_get::<DrmPlane>(#[trigger] keys@[a]) is Some && objects.spec_get::<DrmPlane>(keys@[a])
                == Some(committed_plane(s0, keys@[a], st.spec_planes()[keys@[a]])) by {
                if a < i {
                    assert(keys@[a] != plane_id);
                }
            }
        }
        i = i + 1;
    }
    proof {
        assert forall|id: KmsObjectId| #[trigger] st.spec_planes().contains_key(id) implies s0.spec_get::<DrmPlane>(id) is Some
            && objects.spec_get::<DrmPlane>(id) == Some(committed_plane(s0, id, st.spec_planes()[id])) by {
            let a = choose|a: int| 0 <= a < keys@.len() && keys@[a] == id;
            assert(s0.spec_get::<DrmPlane>(keys@[a]) is Some);
        }
        assert forall|id: KmsObjectId| !st.spec_planes().contains_key(id) && #[trigger] s0.spec_objects().contains_key(id)
            implies objects.spec_objects()[id] == s0.spec_objects()[id] by {
            if keys@.take(i as int).contains(id) {
                let k = choose|k: int| 0 <= k < i && keys@.take(i as int)[k] == id;
                assert(keys@[k] == id);
            }
        }
    }
    Ok(())
}

/// Commits the requested CRTC changes.
fn commit_crtcs(objects: &mut DrmKmsObjectStore, st: &DrmAtomicState) -> (r: Result<(), DrmError>)
    requires
        old(objects).wf(),
    ensures
        final(objects).wf(),
        old(objects).same_kinds(final(objects)),
        forall|t: crate::object_type::DrmKmsObjectType| #[trigger] final(objects).spec_ids(t) == old(objects).spec_ids(t),
        final(objects).spec_next_id() == old(objects).spec_next_id(),
        forall|id: KmsObjectId| !st.spec_crtcs().contains_key(id) && #[trigger] old(objects).spec_objects().contains_key(id)
            ==> final(objects).spec_objects()[id] == old(objects).spec_objects()[id],
        match r {
            Ok(()) => forall|id: KmsObjectId| #[trigger] st.spec_crtcs().contains_key(id) ==> old(objects).spec_get::<
                DrmCrtc,
            >(id) is Some && final(objects).spec_get::<DrmCrtc>(id) == Some(
                committed_crtc(*old(objects), id, st.spec_crtcs()[id]),
            ),
            Err(e) => e == DrmError::NotFound && exists|id: KmsObjectId| #[trigger] st.spec_crtcs().contains_key(id)
                && old(objects).spec_get::<DrmCrtc>(id) is None,
        },
{
    let ghost s0 = *objects;
    let keys = crtc_table_keys(&st.crtc_states);
    let mut i: usize = 0;
    while i < keys.len()
        invariant
            i <= keys@.len(),
            lists_keys(keys@, st.spec_crtcs()),
            s0 == *old(objects),
            objects.wf(),
            s0.same_kinds(objects),
            forall|t: crate::object_type::DrmKmsObjectType| #[trigger] objects.spec_ids(t) == s0.spec_ids(t),
            objects.spec_next_id() == s0.spec_next_id(),
            forall|a: int| 0 <= a < i ==> s0.spec_get::<DrmCrtc>(#[trigger] keys@[a]) is Some && objects.spec_get::<DrmCrtc>(keys@[a])
                == Some(committed_crtc(s0, keys@[a], st.spec_crtcs()[keys@[a]])),
            forall|id: KmsObjectId| #[trigger] s0.spec_objects().contains_key(id) && !keys@.take(i as int).contains(id)
                ==> objects.spec_objects()[id] == s0.spec_objects()[id],
        decreases keys@.len() - i,
    {
        let crtc_id = keys[i];
        let ps = match crtc_table_get(&st.crtc_states, crtc_id) {
            Some(p) => p,
            None => {
                return Err(DrmError::NotFound);
            },
        };
        let ghost before = *objects;
        proof {
            if s0.spec_objects().contains_key(crtc_id) {
                assert(!keys@.take(i as int).contains(crtc_id));
            }
            s0.lemma_same_kinds_get(&before, crtc_id);
        }
        match objects.commit_crtc_state(crtc_id, &ps) {
            Ok(()) => {},
            Err(e) => {
                assert(s0.spec_get::<DrmCrtc>(crtc_id) is None);
                return Err(e);
            },
        }
        proof {
            assert(before.spec_objects()[crtc_id] == s0.spec_objects()[crtc_id]);
            assert(keys@.take(i + 1) == keys@.take(i as int).push(crtc_id));
            assert forall|id: KmsObjectId| #[trigger] s0.spec_objects().contains_key(id) && !keys@.take(i + 1).contains(id)
                implies objects.spec_objects()[id] == s0.spec_objects()[id] by {
                assert(keys@.take(i + 1)[i as int] == crtc_id);
                if id == crtc_id {
                    assert(keys@.take(i + 1).contains(id));
                }
                assert(!keys@.take(i as int).contains(id)) by {
                    if keys@.take(i as int).contains(id) {
                        let k = choose|k: int| 0 <= k < i && keys@.take(i as int)[k] == id;
                        assert(keys@.take(i + 1)[k] == id);
                    }
                }
            }
            assert forall|id: KmsObjectId| #[trigger] s0.spec_objects().contains_key(id) implies objects.spec_objects()[id].kind()
                == s0.spec_objects()[id].kind() by {
                if id != crtc_id {
                    assert(before.spec_objects()[id].kind() == s0.spec_objects()[id].kind());
                }
            }
            assert(objects.spec_objects().dom() =~= s0.spec_objects().dom());
            assert forall|a: int| 0 <= a < i + 1 implies s0.spec_get::<DrmCrtc>(#[trigger] keys@[a]) is Some && objects.spec_get::<DrmCrtc>(keys@[a])
                == Some(committed_crtc(s0, keys@[a], st.spec_crtcs()[keys@[a]])) by {
                if a < i {
                    assert(keys@[a] != crtc_id);
                }
            }
        }
        i = i + 1;
    }
    proof {
        assert forall|id: KmsObjectId| #[trigger] st.spec_crtcs().contains_key(id) implies s0.spec_get::<DrmCrtc>(id) is Some
            && objects.spec_get::<DrmCrtc>(id) == Some(committed_crtc(s0, id, st.spec_crtcs()[id])) by {
            let a = choose|a: int| 0 <= a < keys@.len() && keys@[a] == id;
            assert(s0.spec_get::<DrmCrtc>(keys@[a]) is Some);
        }
        assert forall|id: KmsObjectId| !st.spec_crtcs().contains_key(id) && #[trigger] s0.spec_objects().contains_key(id)
            implies objects.spec_objects()[id] == s0.spec_objects()[id] by {
            if keys@.take(i as int).contains(id) {
                let k = choose|k: int| 0 <= k < i && keys@.take(i as int)[k] == id;
                assert(keys@[k] == id);
            }
        }
    }
    Ok(())
}

proof fn lemma_conn_commit_kinds(s: DrmKmsObjectStore, id: KmsObjectId, p: DrmPendingConnState)
    requires
        s.wf(),
    ensures
        ({
            let m = crate::connector_update::conn_commit_spec(s, id, p).1;
            &&& m.dom() == s.spec_objects().dom()
            &&& forall|k: KmsObjectId| #[trigger] s.spec_objects().contains_key(k) ==> m[k].kind() == s.spec_objects()[k].kind()
            &&& forall|k: KmsObjectId| #[trigger] s.spec_objects().contains_key(k) && k != id && s.spec_objects()[k].kind()
                != crate::object_type::DrmKmsObjectType::Encoder ==> m[k] == s.spec_objects()[k]
        }),
{
    let m = crate::connector_update::conn_commit_spec(s, id, p).1;
    let objs = s.spec_objects();
    if let Some(e) = p.old_encoder_id {
        if s.spec_get::<crate::encoder::DrmEncoder>(e) is Some {
            assert(objs.contains_key(e));
        }
    }
    if let Some(Some(e)) = p.encoder_id {
        if s.spec_get::<crate::encoder::DrmEncoder>(e) is Some {
            assert(objs.contains_key(e));
        }
    }
    if s.spec_get::<DrmConnector>(id) is Some {
        assert(objs.contains_key(id));
    }
    assert(m.dom() =~= objs.dom());
}

/// Commits the requested connector routings.
fn commit_conns(objects: &mut DrmKmsObjectStore, st: &DrmAtomicState) -> (r: Result<(), DrmError>)
    requires
        old(objects).wf(),
    ensures
        final(objects).wf(),
        old(objects).same_kinds(final(objects)),
        forall|t: crate::object_type::DrmKmsObjectType| #[trigger] final(objects).spec_ids(t) == old(objects).spec_ids(t),
        final(objects).spec_next_id() == old(objects).spec_next_id(),
        forall|id: KmsObjectId| !st.spec_conns().contains_key(id) && #[trigger] old(objects).spec_objects().contains_key(id)
            && old(objects).spec_objects()[id].kind() != crate::object_type::DrmKmsObjectType::Encoder
            ==> final(objects).spec_objects()[id] == old(objects).spec_objects()[id],
        match r {
            Ok(()) => forall|id: KmsObjectId| #[trigger] st.spec_conns().contains_key(id) ==> {
                let c = old(objects).spec_get::<DrmConnector>(id).unwrap();
                &&& crate::connector_update::conn_commit_spec(*old(objects), id, st.spec_conns()[id]).0 is Ok
                &&& final(objects).spec_get::<DrmConnector>(id) == Some(
                    c.spec_with_encoder(committed_encoder(c.spec_encoder_id(), st.spec_conns()[id])),
                )
            },
            Err(e) => exists|id: KmsObjectId| #[trigger] st.spec_conns().contains_key(id)
                && crate::connector_update::conn_commit_spec(*old(objects), id, st.spec_conns()[id]).0 == Err::<
                (),
                DrmError,
            >(e),
        },
{
    let ghost s0 = *objects;
    let keys = conn_table_keys(&st.connector_states);
    let mut i: usize = 0;
    while i < keys.len()
        invariant
            i <= keys@.len(),
            lists_keys(keys@, st.spec_conns()),
            s0 == *old(objects),
            objects.wf(),
            s0.same_kinds(objects),
            forall|t: crate::object_type::DrmKmsObjectType| #[trigger] objects.spec_ids(t) == s0.spec_ids(t),
            objects.spec_next_id() == s0.spec_next_id(),
            forall|a: int| 0 <= a < i ==> {
                let c = s0.spec_get::<DrmConnector>(#[trigger] keys@[a]).unwrap();
                &&& crate::connector_update::conn_commit_spec(s0, keys@[a], st.spec_conns()[keys@[a]]).0 is Ok
                &&& objects.spec_get::<DrmConnector>(keys@[a]) == Some(
                    c.spec_with_encoder(committed_encoder(c.spec_encoder_id(), st.spec_conns()[keys@[a]])),
                )
            },
            forall|id: KmsObjectId| #[trigger] s0.spec_objects().contains_key(id) && !keys@.take(i as int).contains(id)
                && s0.spec_objects()[id].kind() != crate::object_type::DrmKmsObjectType::Encoder
                ==> objects.spec_objects()[id] == s0.spec_objects()[id],
        decreases keys@.len() - i,
    {
        let conn_id = keys[i];
        let cs = match conn_table_get(&st.connector_states, conn_id) {
            Some(c) => c,
            None => {
                return Err(DrmError::NotFound);
            },
        };
        let ghost before = *objects;
        proof {
            s0.lemma_same_kinds_get(&before, conn_id);
            lemma_conn_commit_ok_same_kinds(s0, before, conn_id, cs);
            if s0.spec_objects().contains_key(conn_id) && s0.spec_objects()[conn_id].kind()
                != crate::object_type::DrmKmsObjectType::Encoder {
                assert(!keys@.take(i as int).contains(conn_id));
                assert(before.spec_objects()[conn_id] == s0.spec_objects()[conn_id]);
            }
            lemma_conn_commit_kinds(before, conn_id, cs);
        }
        let r = objects.commit_connector_state(conn_id, &cs);
        match r {
            Ok(()) => {},
            Err(e) => {
                assert(crate::connector_update::conn_commit_spec(s0, conn_id, cs).0 is Err);
                assert(crate::connector_update::conn_commit_spec(s0, conn_id, cs).0 == Err::<(), DrmError>(e)) by {
                    if s0.spec_get::<DrmConnector>(conn_id) is Some {
                        assert(before.spec_get::<DrmConnector>(conn_id) == s0.spec_get::<DrmConnector>(conn_id));
                    }
                    if let Some(x) = cs.old_encoder_id {
                        s0.lemma_same_kinds_get(&before, x);
                    }
                    if let Some(Some(x)) = cs.encoder_id {
                        s0.lemma_same_kinds_get(&before, x);
                    }
                }
                return Err(e);
            },
        }
        proof {
            let c = s0.spec_get::<DrmConnector>(conn_id).unwrap();
            assert(before.spec_get::<DrmConnector>(conn_id) == Some(c));
            c.lemma_with_encoder(None);
            assert(objects.spec_get::<DrmConnector>(conn_id) == Some(
                c.spec_with_encoder(committed_encoder(c.spec_encoder_id(), cs)),
            )) by {
                if let Some(Some(_)) = cs.crtc_id {
                    if let Some(Some(x)) = cs.encoder_id {
                        assert(before.spec_get::<crate::encoder::DrmEncoder>(x) is Some);
                        assert(x != conn_id);
                    }
                }
            }
            assert(keys@.take(i + 1) == keys@.take(i as int).push(conn_id));
            assert forall|id: KmsObjectId| #[trigger] s0.spec_objects().contains_key(id) && !keys@.take(i + 1).contains(id)
                && s0.spec_objects()[id].kind() != crate::object_type::DrmKmsObjectType::Encoder
                implies objects.spec_objects()[id] == s0.spec_objects()[id] by {
                assert(keys@.take(i + 1)[i as int] == conn_id);
                assert(!keys@.take(i as int).contains(id)) by {
                    if keys@.take(i as int).contains(id) {
                        let k = choose|k: int| 0 <= k < i && keys@.take(i as int)[k] == id;
                        assert(keys@.take(i + 1)[k] == id);
                    }
                }
                assert(before.spec_objects()[id] == s0.spec_objects()[id]);
                assert(before.spec_objects()[id].kind() != crate::object_type::DrmKmsObjectType::Encoder);
            }
            assert forall|k: KmsObjectId| #[trigger] s0.spec_objects().contains_key(k) implies objects.spec_objects()[k].kind()
                == s0.spec_objects()[k].kind() by {
                assert(before.spec_objects()[k].kind() == s0.spec_objects()[k].kind());
            }
            assert(objects.spec_objects().dom() =~= s0.spec_objects().dom());
            assert forall|a: int| 0 <= a < i + 1 implies {
                let c2 = s0.spec_get::<DrmConnector>(#[trigger] keys@[a]).unwrap();
                &&& crate::connector_update::conn_commit_spec(s0, keys@[a], st.spec_conns()[keys@[a]]).0 is Ok
                &&& objects.spec_get::<DrmConnector>(keys@[a]) == Some(
                    c2.spec_with_encoder(committed_encoder(c2.spec_encoder_id(), st.spec_conns()[keys@[a]])),
                )
            } by {
                if a < i {
                    let k = keys@[a];
                    assert(k != conn_id);
                    assert(before.spec_get::<DrmConnector>(k) is Some);
                    assert(before.spec_objects()[k].kind() != crate::object_type::DrmKmsObjectType::Encoder);
                }
            }
        }
        i = i + 1;
    }
    proof {
        assert forall|id: KmsObjectId| #[trigger] st.spec_conns().contains_key(id) implies {
            let c = s0.spec_get::<DrmConnector>(id).unwrap();
            &&& crate::connector_update::conn_commit_spec(s0, id, st.spec_conns()[id]).0 is Ok
            &&& objects.spec_get::<DrmConnector>(id) == Some(
                c.spec_with_encoder(committed_encoder(c.spec_encoder_id(), st.spec_conns()[id])),
            )
        } by {
            let a = choose|a: int| 0 <= a < keys@.len() && keys@[a] == id;
            assert(crate::connector_update::conn_commit_spec(s0, keys@[a], st.spec_conns()[keys@[a]]).0 is Ok);
        }
        assert forall|id: KmsObjectId| !st.spec_conns().contains_key(id) && #[trigger] s0.spec_objects().contains_key(id)
            && s0.spec_objects()[id].kind() != crate::object_type::DrmKmsObjectType::Encoder
            implies objects.spec_objects()[id] == s0.spec_objects()[id] by {
            if keys@.take(i as int).contains(id) {
                let k = choose|k: int| 0 <= k < i && keys@.take(i as int)[k] == id;
                assert(keys@[k] == id);
            }
        }
    }
    Ok(())
}

/// Commits the checked requested changes into the objects: planes, then
/// CRTCs, then connector routings, each table in its own order. It
/// succeeds exactly when every requested object is there and every routing
/// names encoders that are; a failing step leaves the steps before it done.
pub fn atomic_commit(objects: &mut DrmKmsObjectStore, atomic_state: &DrmAtomicState) -> (r: Result<(), DrmError>)
    requires
        old(objects).wf(),
    ensures
        final(objects).wf(),
        old(objects).same_kinds(final(objects)),
        forall|t: crate::object_type::DrmKmsObjectType| #[trigger] final(objects).spec_ids(t) == old(objects).spec_ids(t),
        final(objects).spec_next_id() == old(objects).spec_next_id(),
        (r is Ok) == commit_ok(*old(objects), atomic_state.tables()),
        r matches Err(e) ==> e == DrmError::NotFound || e == DrmError::Invalid,
        r is Ok ==> {
            &&& forall|id: KmsObjectId| #[trigger] atomic_state.spec_planes().contains_key(id)
                ==> final(objects).spec_get::<DrmPlane>(id) == Some(committed_plane(*old(objects), id, atomic_state.spec_planes()[id]))
            &&& forall|id: KmsObjectId| #[trigger] atomic_state.spec_crtcs().contains_key(id)
                ==> final(objects).spec_get::<DrmCrtc>(id) == Some(committed_crtc(*old(objects), id, atomic_state.spec_crtcs()[id]))
            &&& forall|id: KmsObjectId| #[trigger] atomic_state.spec_conns().contains_key(id) ==> {
                let c = old(objects).spec_get::<DrmConnector>(id).unwrap();
                final(objects).spec_get::<DrmConnector>(id) == Some(
                    c.spec_with_encoder(committed_encoder(c.spec_encoder_id(), atomic_state.spec_conns()[id])),
                )
            }
        },
{
    let ghost s0 = *objects;
    let ghost tb = atomic_state.tables();
    match commit_planes(objects, atomic_state) {
        Ok(()) => {},
        Err(e) => {
            proof {
                let id = choose|id: KmsObjectId| #[trigger] atomic_state.spec_planes().contains_key(id) && s0.spec_get::<
                    DrmPlane,
                >(id) is None;
                assert(atomic_state.tables().0.contains_key(id));
            }
            return Err(e);
        },
    }
    let ghost s1 = *objects;
    match commit_crtcs(objects, atomic_state) {
        Ok(()) => {},
        Err(e) => {
            proof {
                let id = choose|id: KmsObjectId| #[trigger] atomic_state.spec_crtcs().contains_key(id) && s1.spec_get::<
                    DrmCrtc,
                >(id) is None;
                s0.lemma_same_kinds_get(&s1, id);
                assert(atomic_state.tables().1.contains_key(id));
            }
            return Err(e);
        },
    }
    let ghost s2 = *objects;
    assert(s0.same_kinds(&s2));
    match commit_conns(objects, atomic_state) {
        Ok(()) => {},
        Err(e) => {
            proof {
                let id = choose|id: KmsObjectId| #[trigger] atomic_state.spec_conns().contains_key(id)
                    && crate::connector_update::conn_commit_spec(s2, id, atomic_state.spec_conns()[id]).0 == Err::<
                    (),
                    DrmError,
                >(e);
                lemma_conn_commit_ok_same_kinds(s0, s2, id, atomic_state.spec_conns()[id]);
                let c = crate::connector_update::conn_commit_spec(s2, id, atomic_state.spec_conns()[id]).0;
                assert(c == Err::<(), DrmError>(DrmError::NotFound) || c == Err::<(), DrmError>(DrmError::Invalid));
                assert(atomic_state.tables().2.contains_key(id));
            }
            return Err(e);
        },
    }
    let ghost s3 = *objects;
    proof {
        assert(s0.same_kinds(&s3));
        assert forall|id: KmsObjectId| #[trigger] atomic_state.spec_crtcs().contains_key(id) implies s0.spec_get::<DrmCrtc>(id) is Some by {
            s0.lemma_same_kinds_get(&s1, id);
        }
        assert forall|id: KmsObjectId| #[trigger] atomic_state.spec_conns().contains_key(id) implies crate::connector_update::conn_commit_spec(
            s0,
            id,
            atomic_state.spec_conns()[id],
        ).0 is Ok by {
            lemma_conn_commit_ok_same_kinds(s0, s2, id, atomic_state.spec_conns()[id]);
        }
        assert forall|id: KmsObjectId| #[trigger] atomic_state.spec_planes().contains_key(id) implies objects.spec_get::<DrmPlane>(id)
            == Some(committed_plane(s0, id, atomic_state.spec_planes()[id])) by {
            assert(s1.spec_get::<DrmPlane>(id) is Some);
            assert(s1.spec_objects().contains_key(id));
            assert(s1.spec_objects()[id].kind() == crate::object_type::DrmKmsObjectType::Plane);
            if atomic_state.spec_crtcs().contains_key(id) {
                assert(s2.spec_get::<DrmCrtc>(id) is Some);
            }
            assert(s2.spec_objects()[id] == s1.spec_objects()[id]);
            if atomic_state.spec_conns().contains_key(id) {
                assert(crate::connector_update::conn_commit_spec(s2, id, atomic_state.spec_conns()[id]).0 is Ok);
                assert(s2.spec_get::<DrmConnector>(id) is Some);
            }
            assert(s3.spec_objects()[id] == s2.spec_objects()[id]);
        }
        assert forall|id: KmsObjectId| #[trigger] atomic_state.spec_crtcs().contains_key(id) implies objects.spec_get::<DrmCrtc>(id)
            == Some(committed_crtc(s0, id, atomic_state.spec_crtcs()[id])) by {
            s0.lemma_same_kinds_get(&s1, id);
            assert(s0.spec_objects().contains_key(id));
            if atomic_state.spec_planes().contains_key(id) {
                assert(s0.spec_get::<DrmPlane>(id) is Some);
            }
            assert(s1.spec_objects()[id] == s0.spec_objects()[id]);
            assert(s2.spec_get::<DrmCrtc>(id) is Some);
            if atomic_state.spec_conns().contains_key(id) {
                assert(crate::connector_update::conn_commit_spec(s2, id, atomic_state.spec_conns()[id]).0 is Ok);
                assert(s2.spec_get::<DrmConnector>(id) is Some);
            }
            assert(s3.spec_objects()[id] == s2.spec_objects()[id]);
        }
        assert forall|id: KmsObjectId| #[trigger] atomic_state.spec_conns().contains_key(id) implies ({
            let c = s0.spec_get::<DrmConnector>(id).unwrap();
            objects.spec_get::<DrmConnector>(id) == Some(
                c.spec_with_encoder(committed_encoder(c.spec_encoder_id(), atomic_state.spec_conns()[id])),
            )
        }) by {
            assert(crate::connector_update::conn_commit_spec(s2, id, atomic_state.spec_conns()[id]).0 is Ok);
            assert(s2.spec_get::<DrmConnector>(id) is Some);
            s0.lemma_same_kinds_get(&s2, id);
            assert(s0.spec_objects().contains_key(id));
            if atomic_state.spec_planes().contains_key(id) {
                assert(s0.spec_get::<DrmPlane>(id) is Some);
            }
            assert(s1.spec_objects()[id] == s0.spec_objects()[id]);
            s0.lemma_same_kinds_get(&s1, id);
            if atomic_state.spec_crtcs().contains_key(id) {
                assert(s1.spec_get::<DrmCrtc>(id) is Some);
            }
            assert(s2.spec_objects()[id] == s1.spec_objects()[id]);
        }
    }
    Ok(())
}

/// A new handle to the event context; calls `Arc::clone`, which hands out
/// another pointer to the same context.
#[verifier::external_body]
fn share_ctx<C: DrmIoctlEventCtx + ?Sized>(ctx: &Arc<C>) -> (r: Arc<C>)
    ensures
        r == *ctx,
{
    Arc::clone(ctx)
}

/// The flip-complete event for CRTC `crtc_id`.
pub open spec fn flip_event(user_data: u64, crtc_id: KmsObjectId) -> DrmVblankEvent {
    DrmVblankEvent {
        base: DrmEventBase { type_: 2, length: DRM_VBLANK_EVENT_SIZE },
        user_data,
        tv_sec: 0,
        tv_usec: 0,
        sequence: 0,
        crtc_id,
    }
}

/// Whether an event can be queued on CRTC `c`: it exists and its vblank
/// counter has a next value.
pub open spec fn event_queueable(objects: DrmKmsObjectStore, c: KmsObjectId) -> bool {
    objects.spec_get::<DrmCrtc>(c) is Some && objects.spec_get::<DrmCrtc>(c).unwrap().spec_vblank().spec_sequence() < u32::MAX
}

/// Whether `c1` is `c0` with a flip-complete event for `user_data` queued,
/// due at the vblank after the current one.
pub open spec fn queued(c0: DrmCrtc, c1: DrmCrtc, user_data: u64, crtc_id: KmsObjectId) -> bool {
    let p0 = c0.spec_vblank().spec_pending();
    let p1 = c1.spec_vblank().spec_pending();
    &&& c1 == c0.spec_with_vblank(c1.spec_vblank())
    &&& p1.len() == p0.len() + 1
    &&& p1.drop_last() == p0
    &&& p1.last().target_sequence == c0.spec_vblank().spec_sequence() + 1
    &&& p1.last().event == flip_event(user_data, crtc_id)
    &&& c1.spec_vblank().spec_sequence() == c0.spec_vblank().spec_sequence()
    &&& c1.spec_vblank().spec_last_time() == c0.spec_vblank().spec_last_time()
}

/// Queues a flip-complete event, due at the next vblank, on every CRTC
/// that owes one. It succeeds exactly when each of them exists and its
/// counter has a next value; queuing stops at the first that fails.
pub fn atomic_queue_vblank_event(
    objects: &mut DrmKmsObjectStore,
    atomic_state: &DrmAtomicState,
    user_data: u64,
    event_ctx: &Arc<dyn DrmIoctlEventCtx>,
) -> (r: Result<(), DrmError>)
    requires
        old(objects).wf(),
        atomic_state.wf(),
    ensures
        final(objects).wf(),
        old(objects).same_kinds(final(objects)),
        forall|t: crate::object_type::DrmKmsObjectType| #[trigger] final(objects).spec_ids(t) == old(objects).spec_ids(t),
        final(objects).spec_next_id() == old(objects).spec_next_id(),
        forall|id: KmsObjectId| #[trigger] old(objects).spec_objects().contains_key(id) && !atomic_state.spec_effect().2.contains(id)
            ==> final(objects).spec_objects()[id] == old(objects).spec_objects()[id],
        (r is Ok) == (forall|c: KmsObjectId| #[trigger] atomic_state.spec_effect().2.contains(c) ==> event_queueable(
            *old(objects),
            c,
        )),
        r matches Err(e) ==> e == DrmError::NotFound || e == DrmError::Invalid,
        r is Ok ==> forall|c: KmsObjectId| #[trigger] atomic_state.spec_effect().2.contains(c) ==> {
            let c0 = old(objects).spec_get::<DrmCrtc>(c).unwrap();
            &&& final(objects).spec_get::<DrmCrtc>(c) is Some
            &&& queued(c0, final(objects).spec_get::<DrmCrtc>(c).unwrap(), user_data, c)
            &&& final(objects).spec_get::<DrmCrtc>(c).unwrap().spec_vblank().spec_pending().last().ctx == *event_ctx
        },
{
    let ghost s0 = *objects;
    let crtcs = atomic_state.effect.event_crtcs();
    proof {
        atomic_state.lemma_wf();
    }
    let mut i: usize = 0;
    while i < crtcs.len()
        invariant
            i <= crtcs@.len(),
            crtcs@ == atomic_state.spec_effect().2,
            crtcs@.no_duplicates(),
            s0 == *old(objects),
            objects.wf(),
            s0.same_kinds(objects),
            forall|t: crate::object_type::DrmKmsObjectType| #[trigger] objects.spec_ids(t) == s0.spec_ids(t),
            objects.spec_next_id() == s0.spec_next_id(),
            forall|a: int| 0 <= a < i ==> event_queueable(s0, #[trigger] crtcs@[a]),
            forall|a: int| 0 <= a < i ==> {
                let c0 = s0.spec_get::<DrmCrtc>(#[trigger] crtcs@[a]).unwrap();
                &&& objects.spec_get::<DrmCrtc>(crtcs@[a]) is Some
                &&& queued(c0, objects.spec_get::<DrmCrtc>(crtcs@[a]).unwrap(), user_data, crtcs@[a])
                &&& objects.spec_get::<DrmCrtc>(crtcs@[a]).unwrap().spec_vblank().spec_pending().last().ctx == *event_ctx
            },
            forall|id: KmsObjectId| #[trigger] s0.spec_objects().contains_key(id) && !crtcs@.take(i as int).contains(id)
                ==> objects.spec_objects()[id] == s0.spec_objects()[id],
        decreases crtcs@.len() - i,
    {
        let crtc_id = crtcs[i];
        proof {
            if s0.spec_objects().contains_key(crtc_id) {
                assert(!crtcs@.take(i as int).contains(crtc_id)) by {
                    if crtcs@.take(i as int).contains(crtc_id) {
                        let k = choose|k: int| 0 <= k < i && crtcs@.take(i as int)[k] == crtc_id;
                        assert(crtcs@[k] == crtc_id);
                    }
                }
            }
            s0.lemma_same_kinds_get(objects, crtc_id);
        }
        assert(crtcs@[i as int] == crtc_id);
        assert(atomic_state.spec_effect().2.contains(crtc_id));
        let crtc = match objects.get_object::<DrmCrtc>(crtc_id) {
            Some(c) => c,
            None => {
                assert(!event_queueable(s0, crtc_id));
                return Err(DrmError::NotFound);
            },
        };
        assert(s0.spec_objects().contains_key(crtc_id));
        assert(objects.spec_objects()[crtc_id] == s0.spec_objects()[crtc_id]);
        let sequence = crtc.vblank_sequence();
        if sequence == u32::MAX {
            assert(!event_queueable(s0, crtc_id));
            return Err(DrmError::Invalid);
        }
        let target_sequence = sequence + 1;
        let event = DrmPendingVblankEvent::new_flip_complete(target_sequence, user_data, crtc_id, share_ctx(event_ctx));
        let ghost before = *objects;
        objects.queue_crtc_vblank_event(crtc_id, event);
        proof {
            assert(event.event == flip_event(user_data, crtc_id));
            let c0 = s0.spec_get::<DrmCrtc>(crtc_id).unwrap();
            let c1 = objects.spec_get::<DrmCrtc>(crtc_id).unwrap();
            assert(before.spec_get::<DrmCrtc>(crtc_id) == Some(c0));
            assert(c1.spec_vblank().spec_pending() == c0.spec_vblank().spec_pending().push(event));
            assert(c1.spec_vblank().spec_pending().drop_last() =~= c0.spec_vblank().spec_pending());
            assert(c1.spec_vblank().spec_pending().last() == event);
            assert(queued(c0, c1, user_data, crtc_id));
            assert(event.ctx == *event_ctx);
            assert(crtcs@.take(i + 1) == crtcs@.take(i as int).push(crtc_id));
            assert forall|id: KmsObjectId| #[trigger] s0.spec_objects().contains_key(id) && !crtcs@.take(i + 1).contains(id)
                implies objects.spec_objects()[id] == s0.spec_objects()[id] by {
                assert(crtcs@.take(i + 1)[i as int] == crtc_id);
                assert(!crtcs@.take(i as int).contains(id)) by {
                    if crtcs@.take(i as int).contains(id) {
                        let k = choose|k: int| 0 <= k < i && crtcs@.take(i as int)[k] == id;
                        assert(crtcs@.take(i + 1)[k] == id);
                    }
                }
            }
            assert forall|k: KmsObjectId| #[trigger] s0.spec_objects().contains_key(k) implies objects.spec_objects()[k].kind()
                == s0.spec_objects()[k].kind() by {
                assert(before.spec_objects()[k].kind() == s0.spec_objects()[k].kind());
            }
            assert(objects.spec_objects().dom() =~= s0.spec_objects().dom());
            assert forall|a: int| 0 <= a < i + 1 implies {
                let c0 = s0.spec_get::<DrmCrtc>(#[trigger] crtcs@[a]).unwrap();
                &&& objects.spec_get::<DrmCrtc>(crtcs@[a]) is Some
                &&& queued(c0, objects.spec_get::<DrmCrtc>(crtcs@[a]).unwrap(), user_data, crtcs@[a])
                &&& objects.spec_get::<DrmCrtc>(crtcs@[a]).unwrap().spec_vblank().spec_pending().last().ctx == *event_ctx
            } by {
                if a < i {
                    assert(crtcs@[a] != crtc_id);
                }
            }
        }
        i = i + 1;
    }
    proof {
        assert forall|c: KmsObjectId| #[trigger] atomic_state.spec_effect().2.contains(c) implies event_queueable(s0, c) by {
            let a = choose|a: int| 0 <= a < crtcs@.len() && crtcs@[a] == c;
            assert(event_queueable(s0, crtcs@[a]));
        }
        assert forall|c: KmsObjectId| #[trigger] atomic_state.spec_effect().2.contains(c) implies ({
            let c0 = s0.spec_get::<DrmCrtc>(c).unwrap();
            &&& objects.spec_get::<DrmCrtc>(c) is Some
            &&& queued(c0, objects.spec_get::<DrmCrtc>(c).unwrap(), user_data, c)
            &&& objects.spec_get::<DrmCrtc>(c).unwrap().spec_vblank().spec_pending().last().ctx == *event_ctx
        }) by {
            let a = choose|a: int| 0 <= a < crtcs@.len() && crtcs@[a] == c;
            assert(objects.spec_get::<DrmCrtc>(crtcs@[a]) is Some);
        }
        assert forall|id: KmsObjectId| #[trigger] s0.spec_objects().contains_key(id) && !atomic_state.spec_effect().2.contains(id)
            implies objects.spec_objects()[id] == s0.spec_objects()[id] by {
            if crtcs@.take(i as int).contains(id) {
                let k = choose|k: int| 0 <= k < i && crtcs@.take(i as int)[k] == id;
                assert(crtcs@[k] == id);
            }
        }
    }
    Ok(())
}

/// The requested changes `tb` once checked: each connector request
/// completed by its check.
pub open spec fn checked_tables(o0: DrmKmsObjectStore, tb: Tables) -> Tables {
    (tb.0, tb.1, Map::new(|id: KmsObjectId| tb.2.contains_key(id), |id: KmsObjectId| conn_entry_spec(o0, id, tb.2[id]).1))
}

/// Whether checking `tb` with initial effect `e0` finds a modeset that is
/// not allowed.
pub open spec fn modeset_refused(o0: DrmKmsObjectStore, tb: Tables, e0: EffectView, allow: bool) -> bool {
    (e0.0 || some_entry_modeset(o0, tb)) && !allow
}

/// What checking and committing the requested changes `tb` with initial
/// effect `e0` yields, from objects `o0` to objects `o1`, where `allow`
/// says whether a modeset is allowed: on success the checked state `st`,
/// whose connector requests are completed and whose effect gained those of
/// all entries, with its changes committed; on failure the error of a
/// failing entry, of a modeset that is not allowed, or of a commit step.
pub open spec fn checked_and_committed(
    o0: DrmKmsObjectStore,
    o1: DrmKmsObjectStore,
    tb: Tables,
    e0: EffectView,
    allow: bool,
    r: Result<DrmAtomicState, DrmError>,
) -> bool {
    match r {
        Ok(st) => {
            let e1 = st.spec_effect();
            &&& st.wf()
            &&& all_entries_ok(o0, tb)
            &&& st.spec_planes() == tb.0
            &&& st.spec_crtcs() == tb.1
            &&& st.spec_conns().dom() == tb.2.dom()
            &&& forall|id: KmsObjectId| #[trigger] tb.2.contains_key(id) ==> st.spec_conns()[id] == conn_entry_spec(
                o0,
                id,
                tb.2[id],
            ).1
            &&& e1.0 == (e0.0 || some_entry_modeset(o0, tb))
            &&& forall|x: KmsObjectId| #[trigger] e1.1.contains(x) <==> (e0.1.contains(x) || some_entry_affects(o0, tb, x))
            &&& forall|x: KmsObjectId| #[trigger] e1.2.contains(x) <==> (e0.2.contains(x) || some_entry_event(o0, tb, x))
            &&& e1.0 ==> allow
            &&& commit_ok(o0, st.tables())
            &&& forall|id: KmsObjectId| #[trigger] tb.0.contains_key(id) ==> o1.spec_get::<DrmPlane>(id) == Some(
                committed_plane(o0, id, tb.0[id]),
            )
            &&& forall|id: KmsObjectId| #[trigger] tb.1.contains_key(id) ==> o1.spec_get::<DrmCrtc>(id) == Some(
                committed_crtc(o0, id, tb.1[id]),
            )
            &&& forall|id: KmsObjectId| #[trigger] tb.2.contains_key(id) ==> {
                let c = o0.spec_get::<DrmConnector>(id).unwrap();
                o1.spec_get::<DrmConnector>(id) == Some(
                    c.spec_with_encoder(committed_encoder(c.spec_encoder_id(), st.spec_conns()[id])),
                )
            }
        },
        Err(e) => {
            ||| some_entry_fails(o0, tb, e)
            ||| (e == DrmError::Invalid && all_entries_ok(o0, tb) && modeset_refused(o0, tb, e0, allow))
            ||| (all_entries_ok(o0, tb) && !modeset_refused(o0, tb, e0, allow) && !commit_ok(o0, checked_tables(o0, tb)) && (e
                == DrmError::NotFound || e == DrmError::Invalid))
        },
    }
}

/// Checks the requested changes of `atomic_state` and, when they check out,
/// commits them.
fn check_and_commit(objects: &mut DrmKmsObjectStore, atomic_state: DrmAtomicState, flags: DrmAtomicFlags) -> (r: Result<
    DrmAtomicState,
    DrmError,
>)
    requires
        old(objects).wf(),
        old(objects).masks_fit(),
        atomic_state.wf(),
    ensures
        final(objects).wf(),
        old(objects).same_kinds(final(objects)),
        forall|t: crate::object_type::DrmKmsObjectType| #[trigger] final(objects).spec_ids(t) == old(objects).spec_ids(t),
        final(objects).spec_next_id() == old(objects).spec_next_id(),
        checked_and_committed(
            *old(objects),
            *final(objects),
            atomic_state.tables(),
            atomic_state.spec_effect(),
            allows_modeset(flags),
            r,
        ),
        r is Err && *final(objects) != *old(objects) ==> all_entries_ok(*old(objects), atomic_state.tables()),
{
    let mut st = atomic_state;
    match atomic_check(objects, &mut st, flags) {
        Ok(()) => {},
        Err(e) => {
            return Err(e);
        },
    }
    proof {
        assert(st.spec_conns() =~= checked_tables(*old(objects), atomic_state.tables()).2);
        assert(st.tables() == checked_tables(*old(objects), atomic_state.tables()));
    }
    match atomic_commit(objects, &st) {
        Ok(()) => {},
        Err(e) => {
            return Err(e);
        },
    }
    Ok(st)
}

/// The changes a legacy set-CRTC request asks for: with a mode, the CRTC
/// active with that mode, its primary plane showing framebuffer `fb_id` at
/// (`x`, `y`) unscaled over the whole mode, and each listed connector
/// routed to the CRTC; without a mode, the CRTC off and its primary plane
/// cleared. A missing CRTC, a mode without connectors, a connector listed
/// twice, or a source position beyond 16.16 range is refused.
pub open spec fn set_crtc_request(
    objects: DrmKmsObjectStore,
    crtc_id: KmsObjectId,
    fb_id: KmsObjectId,
    x: u32,
    y: u32,
    display_mode: Option<DrmDisplayMode>,
    connectors: Seq<KmsObjectId>,
) -> Result<Tables, DrmError> {
    match objects.spec_get::<DrmCrtc>(crtc_id) {
        None => Err(DrmError::NotFound),
        Some(crtc) => {
            let plane_id = crtc.spec_primary_plane_id();
            match display_mode {
                Some(m) => {
                    let w = m.hdisplay as u32;
                    let h = m.vdisplay as u32;
                    if connectors.len() == 0 || !connectors.no_duplicates() {
                        Err(DrmError::Invalid)
                    } else if x * 65536 > u32::MAX || y * 65536 > u32::MAX || w * 65536 > u32::MAX || h * 65536
                        > u32::MAX {
                        Err(DrmError::Invalid)
                    } else {
                        Ok((
                            map![plane_id => DrmPendingPlaneState {
                                crtc_rect: Some(crate::geometry::RectU32 { x: 0, y: 0, w, h }),
                                src_rect: Some(crate::geometry::RectU32 {
                                    x: (x * 65536) as u32,
                                    y: (y * 65536) as u32,
                                    w: (w * 65536) as u32,
                                    h: (h * 65536) as u32,
                                }),
                                crtc_id: Some(Some(crtc_id)),
                                fb_id: Some(Some(fb_id)),
                            }],
                            map![crtc_id => DrmPendingCrtcState { active: Some(true), display_mode: Some(Some(m)) }],
                            Map::new(
                                |k: KmsObjectId| connectors.contains(k),
                                |k: KmsObjectId| DrmPendingConnState::new_spec(Some(Some(crtc_id))),
                            ),
                        ))
                    }
                },
                None => Ok((
                    map![plane_id => DrmPendingPlaneState {
                        crtc_rect: Some(crate::geometry::RectU32::zero()),
                        src_rect: Some(crate::geometry::RectU32::zero()),
                        crtc_id: Some(None),
                        fb_id: Some(None),
                    }],
                    map![crtc_id => DrmPendingCrtcState { active: Some(false), display_mode: Some(None) }],
                    Map::empty(),
                )),
            }
        },
    }
}

/// Whether `ids` lists an id twice.
fn has_repeat(ids: &[KmsObjectId]) -> (r: bool)
    ensures
        r == !ids@.no_duplicates(),
{
    let mut index: usize = 0;
    while index < ids.len()
        invariant
            index <= ids@.len(),
            forall|a: int, b: int| 0 <= a < b < index ==> ids@[a] != ids@[b],
        decreases ids@.len() - index,
    {
        let id = ids[index];
        let mut j: usize = 0;
        while j < index
            invariant
                j <= index < ids@.len(),
                id == ids@[index as int],
                forall|a: int| 0 <= a < j ==> ids@[a] != id,
            decreases index - j,
        {
            if ids[j] == id {
                return true;
            }
            j = j + 1;
        }
        index = index + 1;
    }
    false
}

/// The state of a fresh atomic update with the given requested changes.
pub open spec fn fresh_with(st: DrmAtomicState, tb: Tables) -> bool {
    st.tables() == tb && st.spec_effect() == no_effect() && st.wf()
}

/// Applies a legacy set-CRTC request through the atomic path, with modesets
/// allowed: builds the changes `set_crtc_request` describes, checks them
/// and commits them. Returns the committed update, whose touched CRTCs the
/// caller hands to `atomic_commit_tail` once it has released the objects.
pub fn atomic_set_crtc(
    objects: &mut DrmKmsObjectStore,
    crtc_id: KmsObjectId,
    fb_id: KmsObjectId,
    x: u32,
    y: u32,
    display_mode: Option<DrmDisplayMode>,
    connector_ids: Vec<KmsObjectId>,
) -> (r: Result<DrmAtomicState, DrmError>)
    requires
        old(objects).wf(),
        old(objects).masks_fit(),
    ensures
        final(objects).wf(),
        old(objects).same_kinds(final(objects)),
        forall|t: crate::object_type::DrmKmsObjectType| #[trigger] final(objects).spec_ids(t) == old(objects).spec_ids(t),
        final(objects).spec_next_id() == old(objects).spec_next_id(),
        match set_crtc_request(*old(objects), crtc_id, fb_id, x, y, display_mode, connector_ids@) {
            Err(e) => r == Err::<DrmAtomicState, DrmError>(e) && *final(objects) == *old(objects),
            Ok(tb) => checked_and_committed(*old(objects), *final(objects), tb, no_effect(), true, r),
        },
{
    let flags = DrmAtomicFlags::ALLOW_MODESET();
    let mut st = DrmAtomicState::default();
    let crtc = match objects.get_object::<DrmCrtc>(crtc_id) {
        Some(c) => c,
        None => {
            return Err(DrmError::NotFound);
        },
    };
    let plane_id = crtc.primary_plane_id();
    let ghost request = set_crtc_request(*objects, crtc_id, fb_id, x, y, display_mode, connector_ids@);
    match display_mode {
        Some(display_mode) => {
            if connector_ids.len() == 0 {
                return Err(DrmError::Invalid);
            }
            if has_repeat(connector_ids.as_slice()) {
                return Err(DrmError::Invalid);
            }
            let mode_width = display_mode.hdisplay() as u32;
            let mode_height = display_mode.vdisplay() as u32;
            let fixed_point_scale: u32 = 1u32 << 16u32;
            assert(fixed_point_scale == 65536) by (bit_vector)
                requires
                    fixed_point_scale == 1u32 << 16u32,
            ;
            let src_x = match x.checked_mul(fixed_point_scale) {
                Some(v) => v,
                None => {
                    return Err(DrmError::Invalid);
                },
            };
            let src_y = match y.checked_mul(fixed_point_scale) {
                Some(v) => v,
                None => {
                    return Err(DrmError::Invalid);
                },
            };
            let src_w = match mode_width.checked_mul(fixed_point_scale) {
                Some(v) => v,
                None => {
                    return Err(DrmError::Invalid);
                },
            };
            let src_h = match mode_height.checked_mul(fixed_point_scale) {
                Some(v) => v,
                None => {
                    return Err(DrmError::Invalid);
                },
            };
            let src_rect = crate::geometry::RectU32::new(src_x, src_y, src_w, src_h);
            let crtc_rect = crate::geometry::RectU32::new(0, 0, mode_width, mode_height);
            crtc_table_insert(
                &mut st.crtc_states,
                crtc_id,
                DrmPendingCrtcState::new(Some(true), Some(Some(display_mode))),
            );
            plane_table_insert(
                &mut st.plane_states,
                plane_id,
                DrmPendingPlaneState::new(Some(crtc_rect), Some(src_rect), Some(Some(crtc_id)), Some(Some(fb_id))),
            );
            let mut i: usize = 0;
            while i < connector_ids.len()
                invariant
                    i <= connector_ids@.len(),
                    st.wf(),
                    st.spec_effect() == no_effect(),
                    st.spec_planes() == map![plane_id => DrmPendingPlaneState {
                        crtc_rect: Some(crtc_rect),
                        src_rect: Some(src_rect),
                        crtc_id: Some(Some(crtc_id)),
                        fb_id: Some(Some(fb_id)),
                    }],
                    st.spec_crtcs() == map![crtc_id => DrmPendingCrtcState { active: Some(true), display_mode: Some(Some(display_mode)) }],
                    st.spec_conns() == Map::new(
                        |k: KmsObjectId| connector_ids@.take(i as int).contains(k),
                        |k: KmsObjectId| DrmPendingConnState::new_spec(Some(Some(crtc_id))),
                    ),
                decreases connector_ids@.len() - i,
            {
                let connector_id = connector_ids[i];
                let ghost conns_before = st.spec_conns();
                let ghost planes_before = st.spec_planes();
                let ghost crtcs_before = st.spec_crtcs();
                conn_table_insert(
                    &mut st.connector_states,
                    connector_id,
                    DrmPendingConnState::new(Some(Some(crtc_id))),
                );
                assert(st.spec_planes() == planes_before);
                assert(st.spec_crtcs() == crtcs_before);
                assert(st.spec_conns() == conns_before.insert(connector_id, DrmPendingConnState::new_spec(Some(Some(crtc_id)))));
                proof {
                    assert(connector_ids@.take(i + 1) == connector_ids@.take(i as int).push(connector_id));
                    assert forall|k: KmsObjectId| #[trigger] st.spec_conns().contains_key(k) == connector_ids@.take(i + 1).contains(k) by {
                        if connector_ids@.take(i + 1).contains(k) && k != connector_id {
                            let a = choose|a: int| 0 <= a < i + 1 && #[trigger] connector_ids@.take(i + 1)[a] == k;
                            assert(connector_ids@.take(i as int)[a] == k);
                            assert(conns_before.contains_key(k));
                        }
                        if conns_before.contains_key(k) {
                            assert(connector_ids@.take(i as int).contains(k));
                            let a = choose|a: int| 0 <= a < i && #[trigger] connector_ids@.take(i as int)[a] == k;
                            assert(connector_ids@.take(i + 1)[a] == k);
                        }
                        if k == connector_id {
                            assert(connector_ids@.take(i + 1)[i as int] == k);
                        }
                    }
                    assert(st.spec_conns() =~= Map::new(
                        |k: KmsObjectId| connector_ids@.take(i + 1).contains(k),
                        |k: KmsObjectId| DrmPendingConnState::new_spec(Some(Some(crtc_id))),
                    ));
                }
                i = i + 1;
            }
            proof {
                assert(connector_ids@.take(i as int) =~= connector_ids@);
                assert(fresh_with(st, request.unwrap()));
            }
        },
        None => {
            crtc_table_insert(&mut st.crtc_states, crtc_id, DrmPendingCrtcState::new(Some(false), Some(None)));
            plane_table_insert(
                &mut st.plane_states,
                plane_id,
                DrmPendingPlaneState::new(
                    Some(crate::geometry::RectU32::default()),
                    Some(crate::geometry::RectU32::default()),
                    Some(None),
                    Some(None),
                ),
            );
            proof {
                assert(st.spec_planes() =~= request.unwrap().0);
                assert(st.spec_crtcs() =~= request.unwrap().1);
                assert(st.spec_conns() =~= request.unwrap().2);
                assert(fresh_with(st, request.unwrap()));
            }
        },
    }
    proof {
        assert(allows_modeset(flags)) by {
            assert(0x0400u32 & 0x400u32 == 0x400u32) by (bit_vector);
        }
    }
    check_and_commit(objects, st, flags)
}

/// Whether `o2` is `o1` with a flip-complete event for `user_data` and
/// `ctx` queued on each CRTC of `events`, and nothing else changed.
pub open spec fn events_queued(
    o1: DrmKmsObjectStore,
    o2: DrmKmsObjectStore,
    events: Seq<KmsObjectId>,
    user_data: u64,
    ctx: &Arc<dyn DrmIoctlEventCtx>,
) -> bool {
    &&& o2.wf()
    &&& o1.same_kinds(&o2)
    &&& forall|t: crate::object_type::DrmKmsObjectType| #[trigger] o2.spec_ids(t) == o1.spec_ids(t)
    &&& o2.spec_next_id() == o1.spec_next_id()
    &&& forall|id: KmsObjectId| #[trigger] o1.spec_objects().contains_key(id) && !events.contains(id)
        ==> o2.spec_objects()[id] == o1.spec_objects()[id]
    &&& forall|c: KmsObjectId| #[trigger] events.contains(c) ==> {
        &&& o2.spec_get::<DrmCrtc>(c) is Some
        &&& queued(o1.spec_get::<DrmCrtc>(c).unwrap(), o2.spec_get::<DrmCrtc>(c).unwrap(), user_data, c)
        &&& o2.spec_get::<DrmCrtc>(c).unwrap().spec_vblank().spec_pending().last().ctx == *ctx
    }
}

/// Whether every CRTC of `events` can take an event.
pub open spec fn all_queueable(o: DrmKmsObjectStore, events: Seq<KmsObjectId>) -> bool {
    forall|c: KmsObjectId| #[trigger] events.contains(c) ==> event_queueable(o, c)
}

/// What checking, committing and arming events for the requested changes
/// `tb` yields from `o0` to `o2`: the outcome of checking and committing,
/// then, once committed, a flip-complete event queued on every CRTC that
/// owes one, which fails unless every such CRTC can take it.
pub open spec fn committed_with_events(
    o0: DrmKmsObjectStore,
    o2: DrmKmsObjectStore,
    tb: Tables,
    allow: bool,
    user_data: u64,
    ctx: &Arc<dyn DrmIoctlEventCtx>,
    r: Result<DrmAtomicState, DrmError>,
) -> bool {
    match r {
        Ok(st) => exists|o1: DrmKmsObjectStore|
            checked_and_committed(o0, o1, tb, no_effect(), allow, Ok::<DrmAtomicState, DrmError>(st)) && all_queueable(
                o1,
                st.spec_effect().2,
            ) && #[trigger] events_queued(o1, o2, st.spec_effect().2, user_data, ctx),
        Err(e) => {
            ||| checked_and_committed(o0, o2, tb, no_effect(), allow, Err::<DrmAtomicState, DrmError>(e))
            ||| (exists|st: DrmAtomicState, o1: DrmKmsObjectStore|
                #[trigger] checked_and_committed(o0, o1, tb, no_effect(), allow, Ok::<DrmAtomicState, DrmError>(st))
                    && !all_queueable(o1, st.spec_effect().2) && (e == DrmError::NotFound || e == DrmError::Invalid))
        },
    }
}

/// Checks and commits the requested changes, then queues their events.
fn commit_with_events(
    objects: &mut DrmKmsObjectStore,
    atomic_state: DrmAtomicState,
    flags: DrmAtomicFlags,
    user_data: u64,
    event_ctx: &Arc<dyn DrmIoctlEventCtx>,
) -> (r: Result<DrmAtomicState, DrmError>)
    requires
        old(objects).wf(),
        old(objects).masks_fit(),
        atomic_state.wf(),
        atomic_state.spec_effect() == no_effect(),
    ensures
        final(objects).wf(),
        old(objects).same_kinds(final(objects)),
        forall|t: crate::object_type::DrmKmsObjectType| #[trigger] final(objects).spec_ids(t) == old(objects).spec_ids(t),
        final(objects).spec_next_id() == old(objects).spec_next_id(),
        committed_with_events(
            *old(objects),
            *final(objects),
            atomic_state.tables(),
            allows_modeset(flags),
            user_data,
            event_ctx,
            r,
        ),
{
    let ghost o0 = *objects;
    let ghost tb = atomic_state.tables();
    let st = match check_and_commit(objects, atomic_state, flags) {
        Ok(st) => st,
        Err(e) => {
            return Err(e);
        },
    };
    let ghost o1 = *objects;
    match atomic_queue_vblank_event(objects, &st, user_data, event_ctx) {
        Ok(()) => {},
        Err(e) => {
            proof {
                assert(checked_and_committed(o0, o1, tb, no_effect(), allows_modeset(flags), Ok::<DrmAtomicState, DrmError>(st)));
                assert(!all_queueable(o1, st.spec_effect().2));
            }
            return Err(e);
        },
    }
    assert(events_queued(o1, *objects, st.spec_effect().2, user_data, event_ctx));
    Ok(st)
}

/// The changes a page flip asks for: the primary plane of CRTC `crtc_id`,
/// which must be showing on that CRTC, switches to framebuffer `fb_id`.
pub open spec fn page_flip_request(objects: DrmKmsObjectStore, crtc_id: KmsObjectId, fb_id: KmsObjectId) -> Result<
    Tables,
    DrmError,
> {
    match objects.spec_get::<DrmCrtc>(crtc_id) {
        None => Err(DrmError::NotFound),
        Some(crtc) => {
            let plane_id = crtc.spec_primary_plane_id();
            match objects.spec_get::<DrmPlane>(plane_id) {
                None => Err(DrmError::NotFound),
                Some(plane) => if plane.spec_state().crtc_id != Some(crtc_id) {
                    Err(DrmError::Invalid)
                } else {
                    Ok((
                        map![plane_id => DrmPendingPlaneState { crtc_rect: None, src_rect: None, crtc_id: None, fb_id: Some(Some(fb_id)) }],
                        Map::empty(),
                        Map::empty(),
                    ))
                },
            }
        },
    }
}

/// Flips the primary plane of a CRTC to another framebuffer through the
/// atomic path, without allowing a modeset, and arms a flip-complete event
/// for `user_data` on every CRTC that owes one. Returns the committed
/// update for `atomic_commit_tail`.
pub fn atomic_page_flip(
    objects: &mut DrmKmsObjectStore,
    crtc_id: KmsObjectId,
    fb_id: KmsObjectId,
    user_data: u64,
    event_ctx: &Arc<dyn DrmIoctlEventCtx>,
) -> (r: Result<DrmAtomicState, DrmError>)
    requires
        old(objects).wf(),
        old(objects).masks_fit(),
    ensures
        final(objects).wf(),
        old(objects).same_kinds(final(objects)),
        forall|t: crate::object_type::DrmKmsObjectType| #[trigger] final(objects).spec_ids(t) == old(objects).spec_ids(t),
        final(objects).spec_next_id() == old(objects).spec_next_id(),
        match page_flip_request(*old(objects), crtc_id, fb_id) {
            Err(e) => r == Err::<DrmAtomicState, DrmError>(e) && *final(objects) == *old(objects),
            Ok(tb) => committed_with_events(*old(objects), *final(objects), tb, false, user_data, event_ctx, r),
        },
{
    let flags = DrmAtomicFlags::PAGE_FLIP_EVENT();
    let mut st = DrmAtomicState::default();
    let crtc = match objects.get_object::<DrmCrtc>(crtc_id) {
        Some(c) => c,
        None => {
            return Err(DrmError::NotFound);
        },
    };
    let plane_id = crtc.primary_plane_id();
    let plane = match objects.get_object::<DrmPlane>(plane_id) {
        Some(p) => p,
        None => {
            return Err(DrmError::NotFound);
        },
    };
    if plane.snapshot().crtc_id() != Some(crtc_id) {
        return Err(DrmError::Invalid);
    }
    plane_table_insert(&mut st.plane_states, plane_id, DrmPendingPlaneState::new(None, None, None, Some(Some(fb_id))));
    proof {
        let tb = page_flip_request(*objects, crtc_id, fb_id).unwrap();
        assert(st.spec_planes() =~= tb.0);
        assert(st.spec_crtcs() =~= tb.1);
        assert(st.spec_conns() =~= tb.2);
        assert(allows_modeset(flags) == false) by {
            assert(0x0001u32 & 0x400u32 == 0u32) by (bit_vector);
        }
    }
    commit_with_events(objects, st, flags, user_data, event_ctx)
}

/// The CRTCs showing framebuffer `fb_id` through the planes `plane_ids`,
/// in plane order, each once.
pub open spec fn dirty_crtcs(objects: DrmKmsObjectStore, plane_ids: Seq<KmsObjectId>, fb_id: KmsObjectId) -> Seq<
    KmsObjectId,
>
    decreases plane_ids.len(),
{
    if plane_ids.len() == 0 {
        Seq::empty()
    } else {
        let rest = dirty_crtcs(objects, plane_ids.drop_last(), fb_id);
        let plane = objects.spec_get::<DrmPlane>(plane_ids.last()).unwrap();
        if plane.spec_state().fb_id == Some(fb_id) {
            crate::plane_update::add_opt(rest, plane.spec_state().crtc_id)
        } else {
            rest
        }
    }
}

/// Marks framebuffer `fb_id` as redrawn: an update with no requested
/// changes that touches every CRTC a plane shows it on, in plane order.
/// Returns it for `atomic_commit_tail`.
pub fn atomic_dirty_fb(objects: &DrmKmsObjectStore, fb_id: KmsObjectId) -> (r: Result<DrmAtomicState, DrmError>)
    requires
        objects.wf(),
    ensures
        match r {
            Ok(st) => {
                &&& objects.spec_get::<crate::framebuffer::DrmFramebuffer>(fb_id) is Some
                &&& st.wf()
                &&& st.tables() == (no_plane_entries(), no_crtc_entries(), no_conn_entries())
                &&& st.spec_effect() == (false, dirty_crtcs(
                    *objects,
                    objects.spec_ids(crate::object_type::DrmKmsObjectType::Plane),
                    fb_id,
                ), Seq::<KmsObjectId>::empty())
            },
            Err(e) => e == DrmError::NotFound && objects.spec_get::<crate::framebuffer::DrmFramebuffer>(fb_id) is None,
        },
{
    let mut st = DrmAtomicState::default();
    if objects.get_object::<crate::framebuffer::DrmFramebuffer>(fb_id).is_none() {
        return Err(DrmError::NotFound);
    }
    let plane_ids = objects.collect_object_ids(crate::object_type::DrmKmsObjectType::Plane, None);
    let ghost ids = objects.spec_ids(crate::object_type::DrmKmsObjectType::Plane);
    proof {
        lemma_masked_none(ids);
    }
    let mut i: usize = 0;
    while i < plane_ids.len()
        invariant
            i <= plane_ids@.len(),
            plane_ids@ == ids,
            ids == objects.spec_ids(crate::object_type::DrmKmsObjectType::Plane),
            objects.wf(),
            st.wf(),
            st.tables() == (no_plane_entries(), no_crtc_entries(), no_conn_entries()),
            st.spec_effect() == (false, dirty_crtcs(*objects, ids.take(i as int), fb_id), Seq::<KmsObjectId>::empty()),
        decreases plane_ids@.len() - i,
    {
        let plane_id = plane_ids[i];
        proof {
            assert(crate::store::is_listed_type(crate::object_type::DrmKmsObjectType::Plane));
            assert(objects.spec_objects().contains_key(ids[i as int]));
            assert(ids.take(i + 1).drop_last() =~= ids.take(i as int));
            assert(ids.take(i + 1).last() == plane_id);
            crate::effect::law_add_unique(st.spec_effect().1, 0);
        }
        let plane = match objects.get_object::<DrmPlane>(plane_id) {
            Some(p) => p,
            None => {
                return Err(DrmError::NotFound);
            },
        };
        let snapshot = plane.snapshot();
        if snapshot.fb_id() == Some(fb_id) {
            if let Some(crtc_id) = snapshot.crtc_id() {
                proof {
                    crate::effect::law_add_unique(st.spec_effect().1, crtc_id);
                }
                let ghost before = st.tables();
                st.effect.add_affected_crtc(crtc_id);
                assert(st.tables() == before);
            }
        }
        i = i + 1;
    }
    proof {
        assert(ids.take(i as int) =~= ids);
    }
    Ok(st)
}

proof fn lemma_masked_none(ids: Seq<KmsObjectId>)
    ensures
        crate::store::masked_ids(ids, None) == ids,
    decreases ids.len(),
{
    if ids.len() > 0 {
        lemma_masked_none(ids.drop_last());
        assert(ids.drop_last().push(ids.last()) =~= ids);
    }
}

/// The driver side of atomic updates.
pub trait DrmAtomicOps {
    /// Pushes the committed configuration of CRTC `crtc_id` to the display.
    fn atomic_flush(&self, crtc_id: KmsObjectId) -> Result<(), DrmError>;
}

/// Whether flushing CRTC `crtc_id` through `ops` can report success.
pub open spec fn flush_ok<D: DrmAtomicOps + ?Sized>(ops: &D, crtc_id: KmsObjectId) -> bool {
    call_ensures(D::atomic_flush, (ops, crtc_id), Ok::<(), DrmError>(()))
}

/// Applies a committed update to the display: flushes every touched CRTC
/// in order, stopping at the first flush that fails. An update that
/// touches no CRTC succeeds.
pub fn atomic_commit_tail<D: DrmAtomicOps + ?Sized>(
    ops: &D,
    atomic_state: DrmAtomicState,
    _flags: DrmAtomicFlags,
) -> (r: Result<(), DrmError>)
    ensures
        atomic_state.spec_effect().1.len() == 0 ==> r is Ok,
        r is Ok ==> forall|i: int|
            0 <= i < atomic_state.spec_effect().1.len() ==> flush_ok(ops, #[trigger] atomic_state.spec_effect().1[i]),
        (r matches Err(e) ==> exists|i: int|
            0 <= i < atomic_state.spec_effect().1.len()
                && (forall|j: int| 0 <= j < i ==> flush_ok(ops, #[trigger] atomic_state.spec_effect().1[j]))
                && call_ensures(D::atomic_flush, (ops, #[trigger] atomic_state.spec_effect().1[i]), Err::<(), DrmError>(e))),
{
    let crtcs = atomic_state.effect.affected_crtcs();
    let ghost ids = atomic_state.spec_effect().1;
    let mut i: usize = 0;
    while i < crtcs.len()
        invariant
            i <= crtcs@.len(),
            crtcs@ == ids,
            ids == atomic_state.spec_effect().1,
            forall|j: int| 0 <= j < i ==> flush_ok(ops, #[trigger] ids[j]),
        decreases crtcs@.len() - i,
    {
        let flush = D::atomic_flush;
        let res = flush(ops, crtcs[i]);
        match res {
            Ok(()) => {
                assert(res == Ok::<(), DrmError>(())) by {
                    let u: () = res->Ok_0;
                    assert(u == ());
                }
                assert(flush_ok(ops, ids[i as int]));
            },
            Err(e) => {
                assert(call_ensures(D::atomic_flush, (ops, ids[i as int]), Err::<(), DrmError>(e)));
                return Err(e);
            },
        }
        i = i + 1;
    }
    Ok(())
}

/// Whether `flags` ask for a check without commit.
pub open spec fn is_test_only(flags: DrmAtomicFlags) -> bool {
    flags.spec_bits() & 0x100u32 == 0x100u32
}

/// Whether `flags` ask for a nonblocking commit or an asynchronous flip.
pub open spec fn is_deferred(flags: DrmAtomicFlags) -> bool {
    flags.spec_bits() & 0x200u32 == 0x200u32 || flags.spec_bits() & 0x2u32 == 0x2u32
}

/// Whether `flags` ask for flip-complete events.
pub open spec fn wants_events(flags: DrmAtomicFlags) -> bool {
    flags.spec_bits() & 0x1u32 == 0x1u32
}

/// What a batch with the requested changes `tb` yields from `o0` to `o2`
/// under `flags`. With `TEST_ONLY` nothing changes, and the result is no
/// update exactly when every entry checks and any modeset is allowed, else
/// the error of a failing entry or of the refused modeset. Otherwise the
/// outcome of checking and committing, with flip-complete events armed
/// when `PAGE_FLIP_EVENT` asks for them; a success returns the committed
/// update.
pub open spec fn request_outcome(
    o0: DrmKmsObjectStore,
    o2: DrmKmsObjectStore,
    tb: Tables,
    flags: DrmAtomicFlags,
    user_data: u64,
    ctx: &Arc<dyn DrmIoctlEventCtx>,
    r: Result<Option<DrmAtomicState>, DrmError>,
) -> bool {
    let allow = allows_modeset(flags);
    if is_test_only(flags) {
        &&& o2 == o0
        &&& match r {
            Ok(x) => x is None && all_entries_ok(o0, tb) && !modeset_refused(o0, tb, no_effect(), allow),
            Err(e) => some_entry_fails(o0, tb, e) || (e == DrmError::Invalid && all_entries_ok(o0, tb) && modeset_refused(
                o0,
                tb,
                no_effect(),
                allow,
            )),
        }
    } else if wants_events(flags) {
        match r {
            Ok(Some(st)) => committed_with_events(o0, o2, tb, allow, user_data, ctx, Ok::<DrmAtomicState, DrmError>(st)),
            Ok(None) => false,
            Err(e) => committed_with_events(o0, o2, tb, allow, user_data, ctx, Err::<DrmAtomicState, DrmError>(e)),
        }
    } else {
        match r {
            Ok(Some(st)) => checked_and_committed(o0, o2, tb, no_effect(), allow, Ok::<DrmAtomicState, DrmError>(st)),
            Ok(None) => false,
            Err(e) => checked_and_committed(o0, o2, tb, no_effect(), allow, Err::<DrmAtomicState, DrmError>(e)),
        }
    }
}

/// Applies a batch of property writes from userspace.
///
/// With `TEST_ONLY` the writes are decoded and checked but nothing changes,
/// and the result holds no update. Otherwise nonblocking commits and
/// asynchronous flips are not supported; the writes are decoded, checked
/// and committed, and with `PAGE_FLIP_EVENT` flip-complete events for
/// `user_data` are armed; the committed update is returned for
/// `atomic_commit_tail`. Invalid writes fail with the error of one of them.
pub fn atomic_commit_request(
    objects: &mut DrmKmsObjectStore,
    requests: Vec<DrmAtomicObjectRequest>,
    flags: DrmAtomicFlags,
    user_data: u64,
    event_ctx: &Arc<dyn DrmIoctlEventCtx>,
) -> (r: Result<Option<DrmAtomicState>, DrmError>)
    requires
        old(objects).wf(),
        old(objects).masks_fit(),
    ensures
        final(objects).wf(),
        old(objects).same_kinds(final(objects)),
        forall|t: crate::object_type::DrmKmsObjectType| #[trigger] final(objects).spec_ids(t) == old(objects).spec_ids(t),
        final(objects).spec_next_id() == old(objects).spec_next_id(),
        !is_test_only(flags) && is_deferred(flags) ==> r == Err::<Option<DrmAtomicState>, DrmError>(DrmError::NotSupported)
            && *final(objects) == *old(objects),
        (is_test_only(flags) || !is_deferred(flags)) && !requests_valid(*old(objects), requests@) ==> *final(objects)
            == *old(objects) && (r matches Err(e) && request_error(*old(objects), requests@, e)),
        (is_test_only(flags) || !is_deferred(flags)) && requests_valid(*old(objects), requests@) ==> exists|tb: Tables|
            #[trigger] decoded_tables(*old(objects), requests@, tb) && request_outcome(
                *old(objects),
                *final(objects),
                tb,
                flags,
                user_data,
                event_ctx,
                r,
            ),
{
    let ghost o0 = *objects;
    if flags.contains(DrmAtomicFlags::TEST_ONLY()) {
        let mut st = match DrmAtomicState::new(objects, requests) {
            Ok(st) => st,
            Err(e) => {
                return Err(e);
            },
        };
        let ghost tb = st.tables();
        let r: Result<Option<DrmAtomicState>, DrmError> = match atomic_check(objects, &mut st, flags) {
            Ok(()) => Ok(None),
            Err(e) => Err(e),
        };
        proof {
            assert(is_test_only(flags));
            assert(request_outcome(o0, *objects, tb, flags, user_data, event_ctx, r));
        }
        r
    } else {
        if flags.contains(DrmAtomicFlags::NONBLOCK()) || flags.contains(DrmAtomicFlags::PAGE_FLIP_ASYNC()) {
            return Err(DrmError::NotSupported);
        }
        let st = match DrmAtomicState::new(objects, requests) {
            Ok(st) => st,
            Err(e) => {
                return Err(e);
            },
        };
        let ghost tb = st.tables();
        if flags.contains(DrmAtomicFlags::PAGE_FLIP_EVENT()) {
            let r: Result<Option<DrmAtomicState>, DrmError> = match commit_with_events(objects, st, flags, user_data, event_ctx) {
                Ok(st) => Ok(Some(st)),
                Err(e) => Err(e),
            };
            proof {
                assert(!is_test_only(flags) && wants_events(flags));
                assert(request_outcome(o0, *objects, tb, flags, user_data, event_ctx, r));
            }
            r
        } else {
            let r: Result<Option<DrmAtomicState>, DrmError> = match check_and_commit(objects, st, flags) {
                Ok(st) => Ok(Some(st)),
                Err(e) => Err(e),
            };
            proof {
                assert(!is_test_only(flags) && !wants_events(flags));
                assert(request_outcome(o0, *objects, tb, flags, user_data, event_ctx, r));
            }
            r
        }
    }
}

} // verus!
