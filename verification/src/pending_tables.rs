//! The tables of requested changes of an atomic update, keyed by object id,
//! held in `hashbrown::HashMap`s.
use vstd::prelude::*;

use crate::connector_update::DrmPendingConnState;
use crate::crtc_update::DrmPendingCrtcState;
use crate::object_type::KmsObjectId;
use crate::plane_update::DrmPendingPlaneState;

verus! {

/// Requested plane changes by plane id.
#[verifier::external_body]
pub struct DrmPendingPlaneTable {
    map: hashbrown::HashMap<KmsObjectId, DrmPendingPlaneState>,
}

/// Requested CRTC changes by CRTC id.
#[verifier::external_body]
pub struct DrmPendingCrtcTable {
    map: hashbrown::HashMap<KmsObjectId, DrmPendingCrtcState>,
}

/// Requested connector changes by connector id.
#[verifier::external_body]
pub struct DrmPendingConnTable {
    map: hashbrown::HashMap<KmsObjectId, DrmPendingConnState>,
}

/// The entries of a plane table.
pub uninterp spec fn plane_entries(t: DrmPendingPlaneTable) -> Map<KmsObjectId, DrmPendingPlaneState>;

/// The entries of a CRTC table.
pub uninterp spec fn crtc_entries(t: DrmPendingCrtcTable) -> Map<KmsObjectId, DrmPendingCrtcState>;

/// The entries of a connector table.
pub uninterp spec fn conn_entries(t: DrmPendingConnTable) -> Map<KmsObjectId, DrmPendingConnState>;

pub open spec fn no_plane_entries() -> Map<KmsObjectId, DrmPendingPlaneState> {
    Map::empty()
}

pub open spec fn no_crtc_entries() -> Map<KmsObjectId, DrmPendingCrtcState> {
    Map::empty()
}

pub open spec fn no_conn_entries() -> Map<KmsObjectId, DrmPendingConnState> {
    Map::empty()
}

/// Whether `keys` lists every key of `m` exactly once.
pub open spec fn lists_keys<V>(keys: Seq<KmsObjectId>, m: Map<KmsObjectId, V>) -> bool {
    &&& keys.no_duplicates()
    &&& forall|i: int| 0 <= i < keys.len() ==> m.contains_key(#[trigger] keys[i])
    &&& forall|k: KmsObjectId| #[trigger] m.contains_key(k) ==> keys.contains(k)
}

/// Creates an empty plane table; calls `hashbrown::HashMap::new`.
#[verifier::external_body]
pub(crate) fn plane_table_new() -> (t: DrmPendingPlaneTable)
    ensures
        plane_entries(t) == no_plane_entries(),
{
    DrmPendingPlaneTable { map: hashbrown::HashMap::new() }
}

/// Looks up a plane entry; calls `hashbrown::HashMap::get`.
#[verifier::external_body]
pub(crate) fn plane_table_get(t: &DrmPendingPlaneTable, id: KmsObjectId) -> (r: Option<DrmPendingPlaneState>)
    ensures
        r == (if plane_entries(*t).contains_key(id) {
            Some(plane_entries(*t)[id])
        } else {
            None
        }),
{
    t.map.get(&id).copied()
}

/// Stores a plane entry, replacing an earlier one; calls
/// `hashbrown::HashMap::insert`.
#[verifier::external_body]
pub(crate) fn plane_table_insert(t: &mut DrmPendingPlaneTable, id: KmsObjectId, v: DrmPendingPlaneState)
    ensures
        plane_entries(*final(t)) == plane_entries(*old(t)).insert(id, v),
{
    t.map.insert(id, v);
}

/// Lists the keys of a plane table in its iteration order, which is not
/// stated; calls `hashbrown::HashMap::keys`.
#[verifier::external_body]
pub(crate) fn plane_table_keys(t: &DrmPendingPlaneTable) -> (r: Vec<KmsObjectId>)
    ensures
        lists_keys(r@, plane_entries(*t)),
{
    t.map.keys().copied().collect()
}

/// Creates an empty CRTC table; calls `hashbrown::HashMap::new`.
#[verifier::external_body]
pub(crate) fn crtc_table_new() -> (t: DrmPendingCrtcTable)
    ensures
        crtc_entries(t) == no_crtc_entries(),
{
    DrmPendingCrtcTable { map: hashbrown::HashMap::new() }
}

/// Looks up a CRTC entry; calls `hashbrown::HashMap::get`.
#[verifier::external_body]
pub(crate) fn crtc_table_get(t: &DrmPendingCrtcTable, id: KmsObjectId) -> (r: Option<DrmPendingCrtcState>)
    ensures
        r == (if crtc_entries(*t).contains_key(id) {
            Some(crtc_entries(*t)[id])
        } else {
            None
        }),
{
    t.map.get(&id).copied()
}

/// Stores a CRTC entry, replacing an earlier one; calls
/// `hashbrown::HashMap::insert`.
#[verifier::external_body]
pub(crate) fn crtc_table_insert(t: &mut DrmPendingCrtcTable, id: KmsObjectId, v: DrmPendingCrtcState)
    ensures
        crtc_entries(*final(t)) == crtc_entries(*old(t)).insert(id, v),
{
    t.map.insert(id, v);
}

/// Lists the keys of a CRTC table in its iteration order, which is not
/// stated; calls `hashbrown::HashMap::keys`.
#[verifier::external_body]
pub(crate) fn crtc_table_keys(t: &DrmPendingCrtcTable) -> (r: Vec<KmsObjectId>)
    ensures
        lists_keys(r@, crtc_entries(*t)),
{
    t.map.keys().copied().collect()
}

/// Creates an empty connector table; calls `hashbrown::HashMap::new`.
#[verifier::external_body]
pub(crate) fn conn_table_new() -> (t: DrmPendingConnTable)
    ensures
        conn_entries(t) == no_conn_entries(),
{
    DrmPendingConnTable { map: hashbrown::HashMap::new() }
}

/// Looks up a connector entry; calls `hashbrown::HashMap::get`.
#[verifier::external_body]
pub(crate) fn conn_table_get(t: &DrmPendingConnTable, id: KmsObjectId) -> (r: Option<DrmPendingConnState>)
    ensures
        r == (if conn_entries(*t).contains_key(id) {
            Some(conn_entries(*t)[id])
        } else {
            None
        }),
{
    t.map.get(&id).copied()
}

/// Stores a connector entry, replacing an earlier one; calls
/// `hashbrown::HashMap::insert`.
#[verifier::external_body]
pub(crate) fn conn_table_insert(t: &mut DrmPendingConnTable, id: KmsObjectId, v: DrmPendingConnState)
    ensures
        conn_entries(*final(t)) == conn_entries(*old(t)).insert(id, v),
{
    t.map.insert(id, v);
}

/// Lists the keys of a connector table in its iteration order, which is
/// not stated; calls `hashbrown::HashMap::keys`.
#[verifier::external_body]
pub(crate) fn conn_table_keys(t: &DrmPendingConnTable) -> (r: Vec<KmsObjectId>)
    ensures
        lists_keys(r@, conn_entries(*t)),
{
    t.map.keys().copied().collect()
}

} // verus!
