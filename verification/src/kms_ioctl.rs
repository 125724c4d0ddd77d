//! The mode-setting query and object ioctls of an open DRM file: what each
//! answers from the object store, and what it changes there.
use vstd::prelude::*;

use crate::atomic::DrmAtomicObjectRequest;
use crate::blob::DrmPropertyBlob;
use crate::connector::DrmConnector;
use crate::crtc::DrmCrtc;
use crate::effect::DrmAtomicFlags;
use crate::display::{mode_to_info_spec, DrmDisplayFormat, DrmDisplayMode, DrmModeModeInfo};
use crate::encoder::DrmEncoder;
use crate::error::{DrmError, DrmFileError, Errno};
use crate::ioctl_types::{
    DrmModeAtomic, DrmModeCrtc, DrmModeGetBlob, DrmModeGetConnector, DrmModeGetEncoder, DrmModeGetPlane, DrmModeGetPlaneRes,
    DrmModeGetResources, DrmModeObjectGetProps,
};
use crate::object_type::{DrmKmsObjectType, KmsObjectId};
use crate::plane::DrmPlane;
use crate::property::{
    name_field_spec, DrmKmsObjectProp, DrmProperty, DrmPropertyEnum, DrmPropertyFlags, DrmPropertyKind,
};
use crate::store::{masked_ids, DrmKmsObjectStore};
use crate::vma_manager::{covering_object, DrmVmaOffsetManager, DrmVmaOffsetNode, PAGE_SIZE};

verus! {

/// How many values of an array of `len` to copy to a user buffer of
/// `user_capacity` values at `user_ptr`: none without a buffer or values,
/// else as many as fit; more values than a `u32` counts overflow.
pub open spec fn copy_count_spec(user_ptr: u64, user_capacity: u32, len: usize) -> Result<u32, Errno> {
    if user_ptr == 0 || user_capacity == 0 || len == 0 {
        Ok(0)
    } else if len > u32::MAX {
        Err(Errno::EOVERFLOW)
    } else if user_capacity < len {
        Ok(user_capacity)
    } else {
        Ok(len as u32)
    }
}

/// The number of values that copying an array of `len` values to the user
/// buffer of `user_capacity` values at `user_ptr` copies.
pub fn copy_array_to_user_count(user_ptr: u64, user_capacity: u32, len: usize) -> (r: Result<u32, Errno>)
    ensures
        r == copy_count_spec(user_ptr, user_capacity, len),
{
    if user_ptr == 0 || user_capacity == 0 || len == 0 {
        return Ok(0);
    }
    if len > u32::MAX as usize {
        return Err(Errno::EOVERFLOW);
    }
    let total = len as u32;
    if user_capacity < total {
        Ok(user_capacity)
    } else {
        Ok(total)
    }
}

/// The user address of element `index` of an array of `elem_size`-byte
/// elements at `user_ptr`; an address past the address space overflows.
pub fn user_array_ptr_at(user_ptr: u64, index: usize, elem_size: usize) -> (r: Result<u64, Errno>)
    ensures
        match r {
            Ok(addr) => index * elem_size + (user_ptr as usize) <= usize::MAX && addr == (user_ptr as usize + index
                * elem_size) as u64,
            Err(e) => e == Errno::EOVERFLOW && index * elem_size + (user_ptr as usize) > usize::MAX,
        },
{
    let offset = match index.checked_mul(elem_size) {
        Some(o) => o,
        None => {
            return Err(Errno::EOVERFLOW);
        },
    };
    let address = match (user_ptr as usize).checked_add(offset) {
        Some(a) => a,
        None => {
            return Err(Errno::EOVERFLOW);
        },
    };
    Ok(address as u64)
}

/// The user addresses of the `count` elements of an array of
/// `elem_size`-byte elements at `user_ptr`, read in order, up to the first
/// that does not fit; `complete` tells whether all fit.
pub fn user_array_addresses(user_ptr: u64, count: u32, elem_size: usize) -> (r: (Vec<usize>, bool))
    ensures
        r.0@.len() <= count,
        forall|i: int| 0 <= i < r.0@.len() ==> #[trigger] r.0@[i] == (user_ptr as usize) + i * elem_size,
        r.1 == (r.0@.len() == count),
        r.0@.len() < count ==> r.0@.len() * elem_size + (user_ptr as usize) > usize::MAX,
{
    let n = count as usize;
    let base = user_ptr as usize;
    let mut addresses: Vec<usize> = Vec::new();
    let mut index: usize = 0;
    while index < n
        invariant
            n == count,
            base == user_ptr as usize,
            index <= n,
            addresses@.len() == index,
            forall|i: int| 0 <= i < index ==> #[trigger] addresses@[i] == base + i * elem_size,
        decreases n - index,
    {
        let offset = match index.checked_mul(elem_size) {
            Some(o) => o,
            None => {
                return (addresses, false);
            },
        };
        let address = match base.checked_add(offset) {
            Some(a) => a,
            None => {
                return (addresses, false);
            },
        };
        addresses.push(address);
        index = index + 1;
    }
    (addresses, true)
}

/// Whether property `id` exists in `store` and a client with or without
/// atomic support sees it: atomic properties only with.
pub open spec fn prop_visible(store: DrmKmsObjectStore, id: KmsObjectId, has_atomic: bool) -> bool {
    store.spec_get::<DrmProperty>(id) matches Some(p) && (has_atomic || p.spec_flags().spec_bits() & 0x8000_0000u32
        != 0x8000_0000u32)
}

/// Whether every property attached in `table` exists in `store`.
pub open spec fn props_known(store: DrmKmsObjectStore, table: Map<KmsObjectId, u64>) -> bool {
    forall|id: KmsObjectId| #[trigger] table.contains_key(id) ==> store.spec_get::<DrmProperty>(id) is Some
}

/// Whether `ids` and `values` list, once each and side by side, the
/// attachments of `table` that the client sees.
pub open spec fn visible_listing(
    store: DrmKmsObjectStore,
    table: Map<KmsObjectId, u64>,
    has_atomic: bool,
    ids: Seq<KmsObjectId>,
    values: Seq<u64>,
) -> bool {
    &&& ids.len() == values.len()
    &&& ids.no_duplicates()
    &&& forall|a: int|
        0 <= a < ids.len() ==> table.contains_key(#[trigger] ids[a]) && table[ids[a]] == values[a] && prop_visible(
            store,
            ids[a],
            has_atomic,
        )
    &&& forall|k: KmsObjectId| #[trigger] table.contains_key(k) && prop_visible(store, k, has_atomic) ==> ids.contains(k)
}

/// Lists the attachments of `properties` that a client with or without
/// atomic support sees, in the table's order; an attached property missing
/// from the store is not found.
pub fn visible_property_values(
    objects: &DrmKmsObjectStore,
    properties: &DrmKmsObjectProp,
    has_atomic: bool,
) -> (r: Result<(Vec<KmsObjectId>, Vec<u64>), Errno>)
    ensures
        match r {
            Ok((ids, values)) => props_known(*objects, properties@) && visible_listing(
                *objects,
                properties@,
                has_atomic,
                ids@,
                values@,
            ),
            Err(e) => e == Errno::ENOENT && !props_known(*objects, properties@),
        },
{
    let entries = properties.entries();
    let ghost table = properties@;
    let mut prop_ids: Vec<KmsObjectId> = Vec::new();
    let mut prop_values: Vec<u64> = Vec::new();
    let ghost mut src: Seq<int> = Seq::empty();
    let mut i: usize = 0;
    while i < entries.len()
        invariant
            table == properties@,
            i <= entries@.len(),
            entries@.len() == table.dom().len(),
            forall|j: int| #![trigger entries@[j]] 0 <= j < entries@.len() ==> table.contains_key(entries@[j].0)
                && table[entries@[j].0] == entries@[j].1,
            forall|k: u32| #[trigger] table.contains_key(k) ==> exists|j: int| 0 <= j < entries@.len() && #[trigger] entries@[j].0
                == k,
            forall|j1: int| forall|j2: int| 0 <= j1 < j2 < entries@.len() ==> #[trigger] entries@[j1].0 != #[trigger] entries@[j2].0,
            prop_ids@.len() == prop_values@.len(),
            src.len() == prop_ids@.len(),
            forall|a: int|
                0 <= a < src.len() ==> 0 <= #[trigger] src[a] < i && entries@[src[a]].0 == prop_ids@[a]
                    && entries@[src[a]].1 == prop_values@[a],
            forall|a: int, b: int| 0 <= a < b < src.len() ==> #[trigger] src[a] < #[trigger] src[b],
            forall|j: int| 0 <= j < i ==> objects.spec_get::<DrmProperty>(#[trigger] entries@[j].0) is Some,
            forall|j: int|
                0 <= j < i && prop_visible(*objects, #[trigger] entries@[j].0, has_atomic) ==> prop_ids@.contains(entries@[j].0),
            forall|a: int| 0 <= a < prop_ids@.len() ==> prop_visible(*objects, #[trigger] prop_ids@[a], has_atomic),
        decreases entries@.len() - i,
    {
        let (id, value) = entries[i];
        assert(entries@[i as int].0 == id);
        let flags = match objects.get_object::<DrmProperty>(id) {
            Some(property) => *property.flags(),
            None => {
                proof {
                    assert(table.contains_key(id));
                }
                return Err(Errno::ENOENT);
            },
        };
        if flags.contains(DrmPropertyFlags::ATOMIC()) && !has_atomic {
            assert(!prop_visible(*objects, id, has_atomic));
        } else {
            let ghost before_ids = prop_ids@;
            proof {
                assert forall|a: int| 0 <= a < src.len() implies #[trigger] prop_ids@[a] != id by {
                    assert(entries@[src[a]].0 == prop_ids@[a]);
                }
            }
            prop_ids.push(id);
            prop_values.push(value);
            proof {
                src = src.push(i as int);
                assert(prop_ids@[prop_ids@.len() - 1] == id);
                assert forall|j: int|
                    0 <= j < i + 1 && prop_visible(*objects, #[trigger] entries@[j].0, has_atomic) implies prop_ids@.contains(
                    entries@[j].0,
                ) by {
                    if j < i {
                        assert(before_ids.contains(entries@[j].0));
                        let a = choose|a: int| 0 <= a < before_ids.len() && before_ids[a] == entries@[j].0;
                        assert(prop_ids@[a] == entries@[j].0);
                    } else {
                        assert(prop_ids@[prop_ids@.len() - 1] == entries@[j].0);
                    }
                }
            }
        }
        i = i + 1;
    }
    proof {
        assert forall|id: KmsObjectId| #[trigger] table.contains_key(id) implies objects.spec_get::<DrmProperty>(id) is Some by {
            let j = choose|j: int| 0 <= j < entries@.len() && #[trigger] entries@[j].0 == id;
            assert(objects.spec_get::<DrmProperty>(entries@[j].0) is Some);
        }
        assert forall|k: KmsObjectId| #[trigger] table.contains_key(k) && prop_visible(*objects, k, has_atomic) implies prop_ids@.contains(
            k,
        ) by {
            let j = choose|j: int| 0 <= j < entries@.len() && #[trigger] entries@[j].0 == k;
            assert(prop_visible(*objects, entries@[j].0, has_atomic));
        }
        assert forall|a: int| 0 <= a < prop_ids@.len() implies table.contains_key(#[trigger] prop_ids@[a])
            && table[prop_ids@[a]] == prop_values@[a] && prop_visible(*objects, prop_ids@[a], has_atomic) by {
            assert(entries@[src[a]].0 == prop_ids@[a]);
        }
        assert forall|a: int, b: int| 0 <= a < prop_ids@.len() && 0 <= b < prop_ids@.len() && a != b implies prop_ids@[a]
            != prop_ids@[b] by {
            if a < b {
                assert(src[a] < src[b]);
            } else {
                assert(src[b] < src[a]);
            }
        }
    }
    assert(prop_ids@.no_duplicates());
    assert(visible_listing(*objects, table, has_atomic, prop_ids@, prop_values@));
    Ok((prop_ids, prop_values))
}

/// The objects that `DRM_IOCTL_MODE_GETRESOURCES` lists, by type, and the
/// reply: the counts of the lists and the device's framebuffer limits.
pub struct ResourcesReply {
    pub crtc_ids: Vec<KmsObjectId>,
    pub encoder_ids: Vec<KmsObjectId>,
    pub connector_ids: Vec<KmsObjectId>,
    pub framebuffer_ids: Vec<KmsObjectId>,
    pub args: DrmModeGetResources,
}

/// Answers `DRM_IOCTL_MODE_GETRESOURCES`: the ids of the CRTCs, encoders,
/// connectors and framebuffers, with their counts and the limits
/// `min_width`, `max_width`, `min_height`, `max_height`.
pub fn get_resources_reply(
    objects: &DrmKmsObjectStore,
    args: DrmModeGetResources,
    min_width: u32,
    max_width: u32,
    min_height: u32,
    max_height: u32,
) -> (r: ResourcesReply)
    ensures
        r.crtc_ids@ == objects.spec_ids(DrmKmsObjectType::Crtc),
        r.encoder_ids@ == objects.spec_ids(DrmKmsObjectType::Encoder),
        r.connector_ids@ == objects.spec_ids(DrmKmsObjectType::Connector),
        r.framebuffer_ids@ == objects.spec_ids(DrmKmsObjectType::Framebuffer),
        r.args == (DrmModeGetResources {
            count_crtcs: r.crtc_ids@.len() as u32,
            count_encoders: r.encoder_ids@.len() as u32,
            count_connectors: r.connector_ids@.len() as u32,
            count_fbs: r.framebuffer_ids@.len() as u32,
            min_width,
            max_width,
            min_height,
            max_height,
            ..args
        }),
{
    let crtc_ids = objects.collect_object_ids(DrmKmsObjectType::Crtc, None);
    let encoder_ids = objects.collect_object_ids(DrmKmsObjectType::Encoder, None);
    let connector_ids = objects.collect_object_ids(DrmKmsObjectType::Connector, None);
    let framebuffer_ids = objects.collect_object_ids(DrmKmsObjectType::Framebuffer, None);
    proof {
        crate::store::lemma_masked_ids_all(objects.spec_ids(DrmKmsObjectType::Crtc));
        crate::store::lemma_masked_ids_all(objects.spec_ids(DrmKmsObjectType::Encoder));
        crate::store::lemma_masked_ids_all(objects.spec_ids(DrmKmsObjectType::Connector));
        crate::store::lemma_masked_ids_all(objects.spec_ids(DrmKmsObjectType::Framebuffer));
    }
    let reply = DrmModeGetResources {
        count_crtcs: crtc_ids.len() as u32,
        count_encoders: encoder_ids.len() as u32,
        count_connectors: connector_ids.len() as u32,
        count_fbs: framebuffer_ids.len() as u32,
        min_width,
        max_width,
        min_height,
        max_height,
        ..args
    };
    ResourcesReply { crtc_ids, encoder_ids, connector_ids, framebuffer_ids, args: reply }
}

/// What `DRM_IOCTL_MODE_GETCRTC` reports of CRTC `crtc_id`: its gamma size,
/// its primary plane's position and framebuffer, and its mode while it is
/// enabled; without the CRTC or its primary plane, nothing.
pub open spec fn crtc_report(store: DrmKmsObjectStore, crtc_id: KmsObjectId) -> Option<(u32, u32, u32, u32, Option<DrmDisplayMode>)> {
    match store.spec_get::<DrmCrtc>(crtc_id) {
        None => None,
        Some(crtc) => match store.spec_get::<DrmPlane>(crtc.spec_primary_plane_id()) {
            None => None,
            Some(plane) => Some(
                (
                    crtc.spec_gamma_size(),
                    plane.spec_state().crtc_rect_px.x,
                    plane.spec_state().crtc_rect_px.y,
                    match plane.spec_state().fb_id {
                        Some(id) => id,
                        None => 0,
                    },
                    if crtc.spec_state().enable {
                        crtc.spec_state().display_mode
                    } else {
                        None
                    },
                ),
            ),
        },
    }
}

/// Answers `DRM_IOCTL_MODE_GETCRTC` for the CRTC named in `args`.
pub fn get_crtc_reply(objects: &DrmKmsObjectStore, args: DrmModeCrtc) -> (r: Result<DrmModeCrtc, Errno>)
    ensures
        match crtc_report(*objects, args.crtc_id) {
            None => r matches Err(e) && e == Errno::ENOENT,
            Some((gamma, x, y, fb_id, mode)) => r matches Ok(reply) && {
                &&& reply.gamma_size == gamma && reply.x == x && reply.y == y && reply.fb_id == fb_id
                &&& reply.set_connectors_ptr == args.set_connectors_ptr && reply.count_connectors == args.count_connectors
                &&& reply.crtc_id == args.crtc_id
                &&& match mode {
                    Some(m) => reply.mode_valid == 1 && reply.mode == mode_to_info_spec(m),
                    None => reply.mode_valid == 0 && reply.mode == args.mode,
                }
            },
        },
{
    let (gamma_size, primary_id, snapshot) = match objects.get_object::<DrmCrtc>(args.crtc_id) {
        Some(crtc) => (crtc.gamma_size_px(), crtc.primary_plane_id(), crtc.snapshot()),
        None => {
            return Err(Errno::ENOENT);
        },
    };
    let (x, y, fb_id) = match objects.get_object::<DrmPlane>(primary_id) {
        Some(plane) => {
            let state = plane.state();
            let fb_id = match state.fb_id {
                Some(id) => id,
                None => 0,
            };
            (state.crtc_rect_px.x, state.crtc_rect_px.y, fb_id)
        },
        None => {
            return Err(Errno::ENOENT);
        },
    };
    let mode = if snapshot.enable {
        snapshot.display_mode
    } else {
        None
    };
    let mut reply = args;
    reply.gamma_size = gamma_size;
    reply.x = x;
    reply.y = y;
    reply.fb_id = fb_id;
    match mode {
        Some(m) => {
            reply.mode = m.to_mode_info();
            reply.mode_valid = 1;
        },
        None => {
            reply.mode_valid = 0;
        },
    }
    Ok(reply)
}

/// Answers `DRM_IOCTL_MODE_GETENCODER` for the encoder named in `args`: the
/// CRTC it drives (0 for none), its type and the CRTCs it can take.
pub fn get_encoder_reply(objects: &DrmKmsObjectStore, args: DrmModeGetEncoder) -> (r: Result<DrmModeGetEncoder, Errno>)
    ensures
        match objects.spec_get::<DrmEncoder>(args.encoder_id) {
            None => r == Err::<DrmModeGetEncoder, Errno>(Errno::ENOENT),
            Some(e) => r == Ok::<DrmModeGetEncoder, Errno>(
                DrmModeGetEncoder {
                    encoder_id: args.encoder_id,
                    crtc_id: match e.spec_crtc_id() {
                        Some(id) => id,
                        None => 0,
                    },
                    encoder_type: e.spec_type().spec_value(),
                    possible_crtcs: e.spec_possible_crtcs(),
                    possible_clones: 0,
                },
            ),
        },
{
    match objects.get_object::<DrmEncoder>(args.encoder_id) {
        Some(encoder) => {
            let crtc_id = match encoder.crtc_id() {
                Some(id) => id,
                None => 0,
            };
            Ok(
                DrmModeGetEncoder {
                    encoder_id: args.encoder_id,
                    crtc_id,
                    encoder_type: encoder.type_().value(),
                    possible_crtcs: encoder.possible_crtcs(),
                    possible_clones: 0,
                },
            )
        },
        None => Err(Errno::ENOENT),
    }
}

/// Whether `DRM_IOCTL_MODE_GETCONNECTOR` probes the connector first: only
/// the master's calls that ask for no modes do.
pub fn connector_probe_wanted(count_modes: u32, is_master: bool) -> (b: bool)
    ensures
        b == (count_modes == 0 && is_master),
{
    count_modes == 0 && is_master
}

/// What `DRM_IOCTL_MODE_GETCONNECTOR` reports of a connector.
pub struct ConnectorReply {
    pub encoder_ids: Vec<KmsObjectId>,
    pub modes: Vec<DrmModeModeInfo>,
    pub prop_ids: Vec<KmsObjectId>,
    pub prop_values: Vec<u64>,
    pub encoder_id: u32,
    pub connector_type: u32,
    pub connector_type_id: u32,
    pub connection: u32,
    pub mm_width: u32,
    pub mm_height: u32,
    pub subpixel: u32,
}

/// The mode of each display mode, as userspace sees it.
pub open spec fn infos_of(modes: Seq<DrmDisplayMode>) -> Seq<DrmModeModeInfo> {
    modes.map_values(|m: DrmDisplayMode| mode_to_info_spec(m))
}

/// Gathers what `DRM_IOCTL_MODE_GETCONNECTOR` reports of connector
/// `connector_id`: the encoders it can use, its modes, the properties the
/// client sees, its encoder (0 for none), type, index among its type,
/// status and physical properties.
pub fn get_connector_reply(objects: &DrmKmsObjectStore, connector_id: KmsObjectId, has_atomic: bool) -> (r: Result<
    ConnectorReply,
    Errno,
>)
    ensures
        match objects.spec_get::<DrmConnector>(connector_id) {
            None => r matches Err(e) && e == Errno::ENOENT,
            Some(c) => if !props_known(*objects, c.spec_properties()@) {
                r matches Err(e) && e == Errno::ENOENT
            } else {
                r matches Ok(reply) && {
                    &&& reply.encoder_ids@ == masked_ids(
                        objects.spec_ids(DrmKmsObjectType::Encoder),
                        Some(c.spec_possible_encoders()),
                    )
                    &&& reply.modes@ == infos_of(c.spec_display_modes())
                    &&& visible_listing(*objects, c.spec_properties()@, has_atomic, reply.prop_ids@, reply.prop_values@)
                    &&& reply.encoder_id == (match c.spec_encoder_id() {
                        Some(id) => id,
                        None => 0,
                    })
                    &&& reply.connector_type == c.spec_type().spec_value()
                    &&& reply.connector_type_id == c.spec_type_index()
                    &&& reply.connection == c.spec_status().spec_value()
                    &&& reply.mm_width == c.spec_display_info().mm_width
                    &&& reply.mm_height == c.spec_display_info().mm_height
                    &&& reply.subpixel == c.spec_display_info().subpixel_order.spec_value()
                }
            },
        },
{
    let connector = match objects.get_object::<DrmConnector>(connector_id) {
        Some(c) => c,
        None => {
            return Err(Errno::ENOENT);
        },
    };
    let snapshot = connector.snapshot();
    let encoder_ids = objects.collect_object_ids(DrmKmsObjectType::Encoder, Some(connector.possible_encoders()));
    let mut modes: Vec<DrmModeModeInfo> = Vec::new();
    let mut i: usize = 0;
    while i < snapshot.display_modes.len()
        invariant
            i <= snapshot.display_modes@.len(),
            modes@ == infos_of(snapshot.display_modes@.take(i as int)),
        decreases snapshot.display_modes@.len() - i,
    {
        let info = snapshot.display_modes[i].to_mode_info();
        modes.push(info);
        i = i + 1;
        proof {
            assert(infos_of(snapshot.display_modes@.take(i as int)) =~= infos_of(snapshot.display_modes@.take(i - 1)).push(
                info,
            ));
        }
    }
    proof {
        assert(snapshot.display_modes@.take(i as int) =~= snapshot.display_modes@);
    }
    let (prop_ids, prop_values) = match visible_property_values(objects, connector.properties(), has_atomic) {
        Ok(v) => v,
        Err(e) => {
            return Err(e);
        },
    };
    let encoder_id = match snapshot.encoder_id {
        Some(id) => id,
        None => 0,
    };
    Ok(
        ConnectorReply {
            encoder_ids,
            modes,
            prop_ids,
            prop_values,
            encoder_id,
            connector_type: connector.type_().value(),
            connector_type_id: connector.type_index(),
            connection: snapshot.status.value(),
            mm_width: snapshot.mm_width,
            mm_height: snapshot.mm_height,
            subpixel: snapshot.subpixel,
        },
    )
}

/// The arguments of `DRM_IOCTL_MODE_GETCONNECTOR` as they go back: the
/// counts of the lists and what was gathered.
pub fn get_connector_args(args: DrmModeGetConnector, reply: &ConnectorReply) -> (a: DrmModeGetConnector)
    ensures
        a == (DrmModeGetConnector {
            count_encoders: reply.encoder_ids@.len() as u32,
            count_modes: reply.modes@.len() as u32,
            count_props: reply.prop_ids@.len() as u32,
            encoder_id: reply.encoder_id,
            connector_type: reply.connector_type,
            connector_type_id: reply.connector_type_id,
            connection: reply.connection,
            mm_width: reply.mm_width,
            mm_height: reply.mm_height,
            subpixel: reply.subpixel,
            pad: 0,
            ..args
        }),
{
    DrmModeGetConnector {
        count_encoders: reply.encoder_ids.len() as u32,
        count_modes: reply.modes.len() as u32,
        count_props: reply.prop_ids.len() as u32,
        encoder_id: reply.encoder_id,
        connector_type: reply.connector_type,
        connector_type_id: reply.connector_type_id,
        connection: reply.connection,
        mm_width: reply.mm_width,
        mm_height: reply.mm_height,
        subpixel: reply.subpixel,
        pad: 0,
        ..args
    }
}

/// The values `DRM_IOCTL_MODE_GETPROPERTY` reports for a value domain: the
/// bounds of a range, the values of an enumeration or bitmask, the object
/// type of an object property, none otherwise.
pub open spec fn kind_values_spec(kind: DrmPropertyKind) -> Seq<u64> {
    match kind {
        DrmPropertyKind::Range { min, max } => seq![min, max],
        DrmPropertyKind::SignedRange { min, max } => seq![min as u64, max as u64],
        DrmPropertyKind::Enum(entries) => entries@.map_values(|e: DrmPropertyEnum| e.value),
        DrmPropertyKind::Bitmask(entries) => entries@.map_values(|e: DrmPropertyEnum| e.value),
        DrmPropertyKind::Object(t) => seq![t.spec_value() as u64],
        _ => Seq::empty(),
    }
}

/// The named values `DRM_IOCTL_MODE_GETPROPERTY` reports for a value
/// domain: those of an enumeration or bitmask.
pub open spec fn kind_entries_spec(kind: DrmPropertyKind) -> Seq<DrmPropertyEnum> {
    match kind {
        DrmPropertyKind::Enum(entries) => entries@,
        DrmPropertyKind::Bitmask(entries) => entries@,
        _ => Seq::empty(),
    }
}

/// What `DRM_IOCTL_MODE_GETPROPERTY` reports of a property.
pub struct PropertyReply {
    pub values: Vec<u64>,
    pub enum_entries: Vec<DrmPropertyEnum>,
    pub name: [u8; 32],
    pub flags: u32,
}

fn enum_values(entries: &Vec<DrmPropertyEnum>) -> (v: Vec<u64>)
    ensures
        v@ == entries@.map_values(|e: DrmPropertyEnum| e.value),
{
    let mut v: Vec<u64> = Vec::new();
    let mut i: usize = 0;
    while i < entries.len()
        invariant
            i <= entries@.len(),
            v@ == entries@.take(i as int).map_values(|e: DrmPropertyEnum| e.value),
        decreases entries@.len() - i,
    {
        v.push(entries[i].value);
        i = i + 1;
        proof {
            assert(entries@.take(i as int).map_values(|e: DrmPropertyEnum| e.value) =~= entries@.take(i - 1).map_values(
                |e: DrmPropertyEnum| e.value,
            ).push(entries@[i - 1].value));
        }
    }
    proof {
        assert(entries@.take(i as int) =~= entries@);
    }
    v
}

fn enum_copy(entries: &Vec<DrmPropertyEnum>) -> (v: Vec<DrmPropertyEnum>)
    ensures
        v@ == entries@,
{
    let mut v: Vec<DrmPropertyEnum> = Vec::new();
    let mut i: usize = 0;
    while i < entries.len()
        invariant
            i <= entries@.len(),
            v@ == entries@.take(i as int),
        decreases entries@.len() - i,
    {
        v.push(entries[i]);
        i = i + 1;
        proof {
            assert(entries@.take(i as int) =~= entries@.take(i - 1).push(entries@[i - 1]));
        }
    }
    proof {
        assert(entries@.take(i as int) =~= entries@);
    }
    v
}

/// Gathers what `DRM_IOCTL_MODE_GETPROPERTY` reports of property `prop_id`:
/// its values, its named values, its name and its flags.
pub fn get_property_reply(objects: &DrmKmsObjectStore, prop_id: KmsObjectId) -> (r: Result<PropertyReply, Errno>)
    ensures
        match objects.spec_get::<DrmProperty>(prop_id) {
            None => r matches Err(e) && e == Errno::ENOENT,
            Some(p) => r matches Ok(reply) && {
                &&& reply.values@ == kind_values_spec(p.spec_kind())
                &&& reply.enum_entries@ == kind_entries_spec(p.spec_kind())
                &&& reply.name@ == name_field_spec(p.spec_name())
                &&& reply.flags == p.spec_flags().spec_bits()
            },
        },
{
    let property = match objects.get_object::<DrmProperty>(prop_id) {
        Some(p) => p,
        None => {
            return Err(Errno::ENOENT);
        },
    };
    let (values, enum_entries) = match property.kind() {
        DrmPropertyKind::Range { min, max } => (vec![*min, *max], Vec::new()),
        DrmPropertyKind::SignedRange { min, max } => (vec![*min as u64, *max as u64], Vec::new()),
        DrmPropertyKind::Enum(entries) => (enum_values(entries), enum_copy(entries)),
        DrmPropertyKind::Bitmask(entries) => (enum_values(entries), enum_copy(entries)),
        DrmPropertyKind::Object(object_type) => (vec![object_type.value() as u64], Vec::new()),
        _ => (Vec::new(), Vec::new()),
    };
    proof {
        assert(values@ =~= kind_values_spec(property.spec_kind()));
        assert(enum_entries@ =~= kind_entries_spec(property.spec_kind()));
    }
    Ok(PropertyReply { values, enum_entries, name: property.name_to_u8(), flags: property.flags().bits() })
}

/// Answers `DRM_IOCTL_MODE_GETPROPBLOB` for the blob named in `args`: the
/// bytes to copy to the client's buffer (as many as fit, none without a
/// buffer) and the arguments with the blob's full length.
pub fn get_blob_reply(objects: &DrmKmsObjectStore, args: DrmModeGetBlob) -> (r: Result<(DrmModeGetBlob, Option<Vec<u8>>), Errno>)
    ensures
        match objects.spec_get::<DrmPropertyBlob>(args.blob_id) {
            None => r matches Err(e) && e == Errno::ENOENT,
            Some(b) => r matches Ok((reply, bytes)) && {
                let data = b.spec_data();
                &&& reply == (DrmModeGetBlob { length: data.len() as u32, ..args })
                &&& if args.data != 0 && args.length != 0 && data.len() > 0 {
                    bytes matches Some(v) && v@ == data.take(if args.length < data.len() { args.length as int } else { data.len() as int })
                } else {
                    bytes is None
                }
            },
        },
{
    let blob = match objects.get_object::<DrmPropertyBlob>(args.blob_id) {
        Some(b) => b,
        None => {
            return Err(Errno::ENOENT);
        },
    };
    let data = blob.data();
    let bytes = if args.data != 0 && args.length != 0 && data.len() > 0 {
        let write_len: usize = if (args.length as usize) < data.len() {
            args.length as usize
        } else {
            data.len()
        };
        let mut out: Vec<u8> = Vec::new();
        let mut i: usize = 0;
        while i < write_len
            invariant
                i <= write_len <= data@.len(),
                out@ == data@.take(i as int),
            decreases write_len - i,
        {
            out.push(data[i]);
            i = i + 1;
            proof {
                assert(data@.take(i as int) =~= data@.take(i - 1).push(data@[i - 1]));
            }
        }
        Some(out)
    } else {
        None
    };
    Ok((DrmModeGetBlob { length: blob.length() as u32, ..args }, bytes))
}

/// Answers `DRM_IOCTL_MODE_GETPLANERESOURCES`: the plane ids, and the
/// arguments with their count.
pub fn get_plane_resources_reply(objects: &DrmKmsObjectStore, args: DrmModeGetPlaneRes) -> (r: (
    Vec<KmsObjectId>,
    DrmModeGetPlaneRes,
))
    ensures
        r.0@ == objects.spec_ids(DrmKmsObjectType::Plane),
        r.1 == (DrmModeGetPlaneRes { count_planes: r.0@.len() as u32, ..args }),
{
    let ids = objects.collect_object_ids(DrmKmsObjectType::Plane, None);
    proof {
        crate::store::lemma_masked_ids_all(objects.spec_ids(DrmKmsObjectType::Plane));
    }
    let count = ids.len() as u32;
    (ids, DrmModeGetPlaneRes { count_planes: count, ..args })
}

/// The codes of formats.
pub open spec fn codes_of(formats: Seq<DrmDisplayFormat>) -> Seq<u32> {
    formats.map_values(|f: DrmDisplayFormat| f.spec_code())
}

/// Answers `DRM_IOCTL_MODE_GETPLANE` for the plane named in `args`: the
/// codes of its formats, and the arguments with its CRTC and framebuffer
/// (0 for none), the CRTCs it can feed and the format count.
pub fn get_plane_reply(objects: &DrmKmsObjectStore, args: DrmModeGetPlane) -> (r: Result<(Vec<u32>, DrmModeGetPlane), Errno>)
    ensures
        match objects.spec_get::<DrmPlane>(args.plane_id) {
            None => r matches Err(e) && e == Errno::ENOENT,
            Some(p) => r matches Ok((codes, reply)) && {
                &&& codes@ == codes_of(p.spec_format_types())
                &&& reply == (DrmModeGetPlane {
                    crtc_id: match p.spec_state().crtc_id {
                        Some(id) => id,
                        None => 0,
                    },
                    fb_id: match p.spec_state().fb_id {
                        Some(id) => id,
                        None => 0,
                    },
                    possible_crtcs: p.spec_possible_crtcs(),
                    gamma_size: 0,
                    count_format_types: codes@.len() as u32,
                    ..args
                })
            },
        },
{
    let plane = match objects.get_object::<DrmPlane>(args.plane_id) {
        Some(p) => p,
        None => {
            return Err(Errno::ENOENT);
        },
    };
    let state = plane.state();
    let formats = plane.format_types();
    let mut codes: Vec<u32> = Vec::new();
    let mut i: usize = 0;
    while i < formats.len()
        invariant
            i <= formats@.len(),
            codes@ == codes_of(formats@.take(i as int)),
        decreases formats@.len() - i,
    {
        codes.push(formats[i].code());
        i = i + 1;
        proof {
            assert(codes_of(formats@.take(i as int)) =~= codes_of(formats@.take(i - 1)).push(formats@[i - 1].spec_code()));
        }
    }
    proof {
        assert(formats@.take(i as int) =~= formats@);
    }
    let crtc_id = match state.crtc_id {
        Some(id) => id,
        None => 0,
    };
    let fb_id = match state.fb_id {
        Some(id) => id,
        None => 0,
    };
    let count = codes.len() as u32;
    let reply = DrmModeGetPlane {
        crtc_id,
        fb_id,
        possible_crtcs: plane.possible_crtcs(),
        gamma_size: 0,
        count_format_types: count,
        ..args
    };
    Ok((codes, reply))
}

/// What listing the properties of object `obj_id` of type `t` gives: not
/// found without such an object, invalid for a type without properties,
/// not found for a property missing from the store, else the properties
/// the client sees.
pub open spec fn object_props_outcome(
    objects: DrmKmsObjectStore,
    obj_id: KmsObjectId,
    t: DrmKmsObjectType,
    has_atomic: bool,
    r: Result<(Vec<KmsObjectId>, Vec<u64>), DrmFileError>,
) -> bool {
    let s = objects.spec_objects();
    if !(s.contains_key(obj_id) && s[obj_id].kind() == t) {
        r matches Err(e) && e == DrmFileError::Drm(DrmError::NotFound)
    } else {
        match s[obj_id].spec_properties() {
            None => r matches Err(e) && e == DrmFileError::Drm(DrmError::Invalid),
            Some(props) => if !props_known(objects, props@) {
                r matches Err(e) && e == DrmFileError::Errno(Errno::ENOENT)
            } else {
                r matches Ok((ids, values)) && visible_listing(objects, props@, has_atomic, ids@, values@)
            },
        }
    }
}

/// Gathers the properties that `DRM_IOCTL_MODE_OBJ_GETPROPERTIES` reports
/// of the object named in `args`, as the client sees them: an unknown
/// object type is invalid; the store's lookup error passes on.
pub fn get_object_props_reply(objects: &DrmKmsObjectStore, args: DrmModeObjectGetProps, has_atomic: bool) -> (r: Result<
    (Vec<KmsObjectId>, Vec<u64>),
    DrmFileError,
>)
    ensures
        (forall|t: DrmKmsObjectType| #[trigger] t.spec_value() != args.obj_type) ==> (r matches Err(e) && e
            == DrmFileError::Errno(Errno::EINVAL)),
        forall|t: DrmKmsObjectType| #[trigger] t.spec_value() == args.obj_type ==> object_props_outcome(
            *objects,
            args.obj_id,
            t,
            has_atomic,
            r,
        ),
{
    let object_type = match DrmKmsObjectType::try_from_u32(args.obj_type) {
        Ok(t) => t,
        Err(_) => {
            return Err(DrmFileError::Errno(Errno::EINVAL));
        },
    };
    let properties = match objects.get_object_props(args.obj_id, object_type) {
        Ok(p) => p,
        Err(e) => {
            return Err(DrmFileError::Drm(e));
        },
    };
    match visible_property_values(objects, properties, has_atomic) {
        Ok(v) => Ok(v),
        Err(e) => Err(DrmFileError::Errno(e)),
    }
}

/// The arguments of a property listing ioctl as they go back: the number
/// of properties.
pub fn object_props_args(args: DrmModeObjectGetProps, count: usize) -> (a: DrmModeObjectGetProps)
    ensures
        a == (DrmModeObjectGetProps { count_props: count as u32, ..args }),
{
    DrmModeObjectGetProps { count_props: count as u32, ..args }
}

/// Checks `DRM_IOCTL_MODE_ATOMIC` before its arrays are read: the client
/// must have asked for atomic support, and the reserved field is zero.
pub fn atomic_ioctl_check(has_atomic: bool, args: &DrmModeAtomic) -> (r: Result<(), Errno>)
    ensures
        r == (if !has_atomic || args.reserved != 0 {
            Err(Errno::EINVAL)
        } else {
            Ok(())
        }),
{
    if !has_atomic {
        return Err(Errno::EINVAL);
    }
    if args.reserved != 0 {
        return Err(Errno::EINVAL);
    }
    Ok(())
}

/// The writes of `ids` and `values` paired in order, as far as both go;
/// a later write to a property wins.
pub open spec fn writes_of(ids: Seq<KmsObjectId>, values: Seq<u64>) -> Map<KmsObjectId, u64>
    decreases ids.len(),
{
    if ids.len() == 0 || values.len() == 0 {
        Map::empty()
    } else {
        let n = if ids.len() < values.len() { ids.len() } else { values.len() };
        writes_of(ids.take(n - 1), values.take(n - 1)).insert(ids[n - 1], values[n - 1])
    }
}

proof fn lemma_writes_of_step(ids: Seq<KmsObjectId>, values: Seq<u64>, i: int)
    requires
        0 <= i < ids.len(),
        i < values.len(),
    ensures
        writes_of(ids.take(i + 1), values.take(i + 1)) == writes_of(ids.take(i), values.take(i)).insert(ids[i], values[i]),
{
    assert(ids.take(i + 1).take(i) =~= ids.take(i));
    assert(values.take(i + 1).take(i) =~= values.take(i));
}

proof fn lemma_writes_of_min(ids: Seq<KmsObjectId>, values: Seq<u64>)
    ensures
        writes_of(ids, values) == ({
            let n = if ids.len() < values.len() { ids.len() } else { values.len() };
            writes_of(ids.take(n as int), values.take(n as int))
        }),
{
    let n = if ids.len() < values.len() { ids.len() } else { values.len() };
    if n > 0 {
        assert(ids.take(n as int).take(n - 1) =~= ids.take(n - 1));
        assert(values.take(n as int).take(n - 1) =~= values.take(n - 1));
    }
}

/// The request for object `object_id` with the writes of `prop_ids` and
/// `prop_values`, paired in order as far as both go.
pub fn atomic_object_request(object_id: KmsObjectId, prop_ids: &Vec<KmsObjectId>, prop_values: &Vec<u64>) -> (r:
    DrmAtomicObjectRequest)
    ensures
        r.spec_object_id() == object_id,
        r.spec_writes() == writes_of(prop_ids@, prop_values@),
{
    let mut request = DrmAtomicObjectRequest::new(object_id);
    let n = if prop_ids.len() < prop_values.len() {
        prop_ids.len()
    } else {
        prop_values.len()
    };
    let mut i: usize = 0;
    proof {
        assert(prop_ids@.take(0).len() == 0);
    }
    while i < n
        invariant
            n <= prop_ids@.len(),
            n <= prop_values@.len(),
            i <= n,
            request.spec_object_id() == object_id,
            request.spec_writes() == writes_of(prop_ids@.take(i as int), prop_values@.take(i as int)),
        decreases n - i,
    {
        proof {
            lemma_writes_of_step(prop_ids@, prop_values@, i as int);
        }
        request.add_property(prop_ids[i], prop_values[i]);
        i = i + 1;
    }
    proof {
        lemma_writes_of_min(prop_ids@, prop_values@);
    }
    request
}

/// Where the next object's properties start in the arrays of
/// `DRM_IOCTL_MODE_ATOMIC`: past this object's; past a `u32` overflows.
pub fn next_prop_index(prop_index: u32, prop_count: u32) -> (r: Result<u32, Errno>)
    ensures
        r == (if prop_index + prop_count > u32::MAX {
            Err(Errno::EOVERFLOW)
        } else {
            Ok((prop_index + prop_count) as u32)
        }),
{
    match prop_index.checked_add(prop_count) {
        Some(n) => Ok(n),
        None => Err(Errno::EOVERFLOW),
    }
}

/// Decodes the flags of `DRM_IOCTL_MODE_ATOMIC`; an undefined flag is
/// invalid.
pub fn atomic_ioctl_flags(bits: u32) -> (r: Result<DrmAtomicFlags, Errno>)
    ensures
        match r {
            Ok(f) => bits & !DrmAtomicFlags::all_bits() == 0u32 && f.spec_bits() == bits,
            Err(e) => e == Errno::EINVAL && bits & !DrmAtomicFlags::all_bits() != 0u32,
        },
{
    match DrmAtomicFlags::from_bits(bits) {
        Some(f) => Ok(f),
        None => Err(Errno::EINVAL),
    }
}

/// Finds the GEM object that a mapping of `map_size` bytes at `offset` of
/// the device node covers: the offset must be page aligned, and some
/// object must cover all the pages.
pub fn map_lookup(vma: &DrmVmaOffsetManager, offset: usize, map_size: usize) -> (r: Result<u64, Errno>)
    requires
        vma.wf(),
    ensures
        r == (if offset % PAGE_SIZE != 0 {
            Err(Errno::EINVAL)
        } else {
            let pages = map_size / PAGE_SIZE + (if map_size % PAGE_SIZE != 0 { 1int } else { 0int });
            match covering_object(vma.objects_spec(), (offset / PAGE_SIZE) as u64, pages as u64) {
                Some(key) => Ok(key),
                None => Err(Errno::EFAULT),
            }
        }),
{
    if offset % PAGE_SIZE != 0 {
        return Err(Errno::EINVAL);
    }
    let map_pages = map_size / PAGE_SIZE + if map_size % PAGE_SIZE != 0 {
        1
    } else {
        0
    };
    let start_page = offset / PAGE_SIZE;
    match vma.lookup(start_page as u64, map_pages as u64) {
        Some(key) => Ok(key),
        None => Err(Errno::EFAULT),
    }
}

/// Where in the GEM object a mapping at `offset` of the device node
/// starts: the file must be allowed on the object's node, and the offset
/// lie at or past the node's start.
pub fn map_object_offset(node: &DrmVmaOffsetNode, file_id: u32, offset: usize) -> (r: Result<usize, Errno>)
    ensures
        r == (if !node.allowed_spec().contains_key(file_id) {
            Err(Errno::EACCES)
        } else {
            let start = node.offset_addr_spec() as usize;
            if offset < start {
                Err(Errno::EFAULT)
            } else {
                Ok((offset - start) as usize)
            }
        }),
{
    if !node.is_allowed(file_id) {
        return Err(Errno::EACCES);
    }
    let start = node.offset_addr() as usize;
    match offset.checked_sub(start) {
        Some(o) => Ok(o),
        None => Err(Errno::EFAULT),
    }
}

/// The page of the GEM object that a fault at `offset` of a mapping that
/// starts at `object_offset` of the object falls in, by its byte offset.
pub fn fault_page_offset(object_offset: usize, offset: usize) -> (r: Result<usize, Errno>)
    ensures
        r == (if object_offset + offset > usize::MAX {
            Err(Errno::EOVERFLOW)
        } else {
            Ok((((object_offset + offset) as usize) / PAGE_SIZE * PAGE_SIZE) as usize)
        }),
{
    let at = match object_offset.checked_add(offset) {
        Some(a) => a,
        None => {
            return Err(Errno::EOVERFLOW);
        },
    };
    Ok(at / PAGE_SIZE * PAGE_SIZE)
}

} // verus!
