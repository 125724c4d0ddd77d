//! What an open DRM file owns: its GEM handles and the blobs and
//! framebuffers it created, and the ioctls that create and destroy them.
use vstd::prelude::*;

use crate::blob::DrmPropertyBlob;
use crate::display::DrmDisplayFormat;
use crate::drm_file::DrmDeviceCaps;
use crate::error::{DrmError, DrmFileError, Errno};
use crate::framebuffer::DrmFramebuffer;
use crate::ioctl_types::{fb_cmd2_of, DrmModeCreateDumb, DrmModeFbCmd, DrmModeFbCmd2};
use crate::object_type::{DrmKmsObjectType, KmsObjectId};
use crate::plane::{DrmPlane, DrmPlaneState};
use crate::store::{DrmKmsObject, DrmKmsObjectStore};

verus! {

/// A GEM object as a handle of a file names it: its key and its size.
#[derive(Debug, Clone, Copy, PartialEq, Eq, Structural)]
pub struct DrmGemRef {
    pub key: u64,
    pub size: usize,
}

/// The GEM objects of a file by handle, held in a `hashbrown::HashMap`.
#[verifier::external_body]
pub struct DrmGemTable {
    map: hashbrown::HashMap<u32, DrmGemRef>,
}

/// The entries of a GEM table.
pub uninterp spec fn gem_entries(t: DrmGemTable) -> Map<u32, DrmGemRef>;

pub open spec fn no_gem_entries() -> Map<u32, DrmGemRef> {
    Map::empty()
}

/// Creates an empty table; calls `hashbrown::HashMap::new`.
#[verifier::external_body]
fn gem_table_new() -> (t: DrmGemTable)
    ensures
        gem_entries(t) == no_gem_entries(),
{
    DrmGemTable { map: hashbrown::HashMap::new() }
}

/// Looks up a handle; calls `hashbrown::HashMap::get`.
#[verifier::external_body]
fn gem_table_get(t: &DrmGemTable, handle: u32) -> (r: Option<DrmGemRef>)
    ensures
        r == (if gem_entries(*t).contains_key(handle) {
            Some(gem_entries(*t)[handle])
        } else {
            None
        }),
{
    t.map.get(&handle).copied()
}

/// Stores a handle, replacing an earlier entry; calls
/// `hashbrown::HashMap::insert`.
#[verifier::external_body]
fn gem_table_insert(t: &mut DrmGemTable, handle: u32, gem: DrmGemRef)
    ensures
        gem_entries(*final(t)) == gem_entries(*old(t)).insert(handle, gem),
{
    t.map.insert(handle, gem);
}

/// Removes a handle; calls `hashbrown::HashMap::remove`.
#[verifier::external_body]
fn gem_table_remove(t: &mut DrmGemTable, handle: u32) -> (r: Option<DrmGemRef>)
    ensures
        gem_entries(*final(t)) == gem_entries(*old(t)).remove(handle),
        r == (if gem_entries(*old(t)).contains_key(handle) {
            Some(gem_entries(*old(t))[handle])
        } else {
            None
        }),
{
    t.map.remove(&handle)
}

/// Lists the entries' GEM objects, one per handle; walks
/// `hashbrown::HashMap::values`. The order is not stated.
#[verifier::external_body]
fn gem_table_values(t: &DrmGemTable) -> (r: Vec<DrmGemRef>)
    ensures
        exists|handles: Seq<u32>| #![trigger handles.len()] {
            &&& handles.len() == r@.len()
            &&& handles.no_duplicates()
            &&& forall|i: int| #![trigger handles[i]] 0 <= i < handles.len() ==> gem_entries(*t).contains_key(handles[i])
                    && gem_entries(*t)[handles[i]] == r@[i]
            &&& forall|h: u32| #[trigger] gem_entries(*t).contains_key(h) ==> handles.contains(h)
        },
{
    t.map.values().copied().collect()
}

/// Why creating a framebuffer from `cmd` fails, if it does, the GEM object
/// of its first handle being `gem`: a size outside the device's limits,
/// unknown flags, modifiers the device lacks or that the flags do not
/// announce, more than one memory plane, an unknown format, an unknown
/// handle, no pitch, or too little memory behind the offset.
pub open spec fn framebuffer_error(caps: DrmDeviceCaps, cmd: DrmModeFbCmd2, gem: Option<DrmGemRef>) -> Option<Errno> {
    if cmd.width == 0 || cmd.height == 0 {
        Some(Errno::EINVAL)
    } else if cmd.width < caps.min_fb_width_px || cmd.width > caps.max_fb_width_px || cmd.height
        < caps.min_fb_height_px || cmd.height > caps.max_fb_height_px {
        Some(Errno::EINVAL)
    } else if cmd.flags & !3u32 != 0 {
        Some(Errno::EINVAL)
    } else if cmd.flags & 2u32 != 0 && !caps.has_fb_modifiers {
        Some(Errno::EOPNOTSUPP)
    } else if cmd.flags & 2u32 == 0 && cmd.modifier@[0] != 0 {
        Some(Errno::EINVAL)
    } else if extra_planes_used(cmd) {
        Some(Errno::EOPNOTSUPP)
    } else {
        match DrmDisplayFormat::spec_from_code(cmd.pixel_format) {
            None => Some(Errno::EINVAL),
            Some(format) => match gem {
                None => Some(Errno::ENONET),
                Some(g) => if cmd.pitches@[0] == 0 {
                    Some(Errno::EINVAL)
                } else if g.size < cmd.offsets@[0] {
                    Some(Errno::EINVAL)
                } else if cmd.pitches@[0] * cmd.height > g.size - cmd.offsets@[0] {
                    Some(Errno::EINVAL)
                } else if format == DrmDisplayFormat::Unknown {
                    Some(Errno::EINVAL)
                } else {
                    None
                },
            },
        }
    }
}

/// Whether `cmd` uses a memory plane past the first.
pub open spec fn extra_planes_used(cmd: DrmModeFbCmd2) -> bool {
    exists|i: int|
        1 <= i < 4 && (cmd.handles@[i] != 0 || cmd.pitches@[i] != 0 || cmd.offsets@[i] != 0 || cmd.modifier@[i] != 0)
}

/// Whether `fb` is the framebuffer that `cmd` describes, backed by the GEM
/// object with key `key`.
pub open spec fn framebuffer_of(fb: DrmFramebuffer, cmd: DrmModeFbCmd2, key: u64) -> bool {
    &&& fb.spec_width() == cmd.width
    &&& fb.spec_height() == cmd.height
    &&& Some(fb.spec_pixel_format()) == DrmDisplayFormat::spec_from_code(cmd.pixel_format)
    &&& fb.spec_flags() == cmd.flags
    &&& fb.spec_pitches() == cmd.pitches@
    &&& fb.spec_offsets() == cmd.offsets@
    &&& fb.spec_modifiers() == cmd.modifier@
    &&& fb.spec_gem_objects() == seq![Some(key), None, None, None]
}

/// A plane object with its framebuffer taken away when that is one of
/// `fb_ids`; any other object as it is.
pub open spec fn detach_fbs(obj: DrmKmsObject, fb_ids: Seq<KmsObjectId>) -> DrmKmsObject {
    match obj {
        DrmKmsObject::Plane(p) => match p.spec_state().fb_id {
            Some(f) => if fb_ids.contains(f) {
                DrmKmsObject::Plane(p.spec_with_state(DrmPlaneState { fb_id: None, ..p.spec_state() }))
            } else {
                obj
            },
            None => obj,
        },
        _ => obj,
    }
}

/// The objects with no plane showing one of `fb_ids` any more.
pub open spec fn fbs_detached(objects: Map<KmsObjectId, DrmKmsObject>, fb_ids: Seq<KmsObjectId>) -> Map<
    KmsObjectId,
    DrmKmsObject,
> {
    objects.map_values(|obj: DrmKmsObject| detach_fbs(obj, fb_ids))
}

/// Whether the object under `id` is a blob listed in `blob_ids` or a
/// framebuffer listed in `fb_ids`.
pub open spec fn owned_by(obj: DrmKmsObject, id: KmsObjectId, blob_ids: Seq<KmsObjectId>, fb_ids: Seq<KmsObjectId>) -> bool {
    ||| obj is Blob && blob_ids.contains(id)
    ||| obj is Framebuffer && fb_ids.contains(id)
}

/// The objects after a file with blobs `blob_ids` and framebuffers
/// `fb_ids` is closed: those are gone, and no plane shows those
/// framebuffers.
pub open spec fn released_objects(
    objects: Map<KmsObjectId, DrmKmsObject>,
    blob_ids: Seq<KmsObjectId>,
    fb_ids: Seq<KmsObjectId>,
) -> Map<KmsObjectId, DrmKmsObject> {
    Map::new(
        |id: KmsObjectId| objects.contains_key(id) && !owned_by(objects[id], id, blob_ids, fb_ids),
        |id: KmsObjectId| detach_fbs(objects[id], fb_ids),
    )
}

/// Whether `i` is the first position of `x` in `s`.
pub open spec fn is_first_index(s: Seq<KmsObjectId>, x: KmsObjectId, i: int) -> bool {
    0 <= i < s.len() && s[i] == x && forall|j: int| 0 <= j < i ==> s[j] != x
}

/// The first position of `x` in `v`, if any.
fn first_position(v: &Vec<KmsObjectId>, x: KmsObjectId) -> (r: Option<usize>)
    ensures
        match r {
            Some(i) => is_first_index(v@, x, i as int),
            None => !v@.contains(x),
        },
{
    let mut i: usize = 0;
    while i < v.len()
        invariant
            i <= v@.len(),
            forall|j: int| 0 <= j < i ==> v@[j] != x,
        decreases v@.len() - i,
    {
        if v[i] == x {
            return Some(i);
        }
        i = i + 1;
    }
    None
}

/// What an open file owns: its GEM handles and the next one to hand out,
/// and the blobs and framebuffers it created.
pub struct DrmFileObjects {
    gems: DrmGemTable,
    next_gem_handle: u32,
    blob_ids: Vec<KmsObjectId>,
    framebuffer_ids: Vec<KmsObjectId>,
}

impl DrmFileObjects {
    pub closed spec fn spec_gems(&self) -> Map<u32, DrmGemRef> {
        gem_entries(self.gems)
    }

    pub closed spec fn spec_next_gem_handle(&self) -> u32 {
        self.next_gem_handle
    }

    pub closed spec fn spec_blob_ids(&self) -> Seq<KmsObjectId> {
        self.blob_ids@
    }

    pub closed spec fn spec_framebuffer_ids(&self) -> Seq<KmsObjectId> {
        self.framebuffer_ids@
    }

    /// A freshly opened file: no handles, the first to hand out is 1, no
    /// blobs and no framebuffers.
    pub fn new() -> (f: Self)
        ensures
            f.spec_gems() == no_gem_entries(),
            f.spec_next_gem_handle() == 1,
            f.spec_blob_ids().len() == 0,
            f.spec_framebuffer_ids().len() == 0,
    {
        DrmFileObjects { gems: gem_table_new(), next_gem_handle: 1, blob_ids: Vec::new(), framebuffer_ids: Vec::new() }
    }

    /// Hands out the next GEM handle; the counter wraps around.
    fn next_gem_handle(&mut self) -> (h: u32)
        ensures
            h == old(self).spec_next_gem_handle(),
            final(self).spec_next_gem_handle() == (if h == u32::MAX { 0 } else { h + 1 }),
            final(self).spec_gems() == old(self).spec_gems(),
            final(self).spec_blob_ids() == old(self).spec_blob_ids(),
            final(self).spec_framebuffer_ids() == old(self).spec_framebuffer_ids(),
    {
        let h = self.next_gem_handle;
        self.next_gem_handle = h.wrapping_add(1);
        proof {
            assert(h.wrapping_add(1) == (if h == u32::MAX { 0 } else { h + 1 })) by (bit_vector);
        }
        h
    }

    /// Registers a GEM object under the next handle, which it returns.
    pub fn add_gem_object(&mut self, gem: DrmGemRef) -> (h: u32)
        ensures
            h == old(self).spec_next_gem_handle(),
            final(self).spec_next_gem_handle() == (if h == u32::MAX { 0 } else { h + 1 }),
            final(self).spec_gems() == old(self).spec_gems().insert(h, gem),
            final(self).spec_blob_ids() == old(self).spec_blob_ids(),
            final(self).spec_framebuffer_ids() == old(self).spec_framebuffer_ids(),
    {
        let h = self.next_gem_handle();
        gem_table_insert(&mut self.gems, h, gem);
        h
    }

    /// The GEM object behind `handle`; an unknown handle is reported as
    /// `ENONET`.
    pub fn lookup_gem(&self, handle: u32) -> (r: Result<DrmGemRef, Errno>)
        ensures
            r == (if self.spec_gems().contains_key(handle) {
                Ok(self.spec_gems()[handle])
            } else {
                Err(Errno::ENONET)
            }),
    {
        match gem_table_get(&self.gems, handle) {
            Some(g) => Ok(g),
            None => Err(Errno::ENONET),
        }
    }

    /// Drops `handle`, returning the GEM object it named, if any.
    pub fn remove_gem_object(&mut self, handle: u32) -> (r: Option<DrmGemRef>)
        ensures
            r == (if old(self).spec_gems().contains_key(handle) {
                Some(old(self).spec_gems()[handle])
            } else {
                None
            }),
            final(self).spec_gems() == old(self).spec_gems().remove(handle),
            final(self).spec_next_gem_handle() == old(self).spec_next_gem_handle(),
            final(self).spec_blob_ids() == old(self).spec_blob_ids(),
            final(self).spec_framebuffer_ids() == old(self).spec_framebuffer_ids(),
    {
        gem_table_remove(&mut self.gems, handle)
    }

    /// Creates a framebuffer from `cmd` for this file, checked against the
    /// device's limits and the GEM object of its first handle; returns its
    /// id. A store out of ids is reported as invalid.
    pub fn create_framebuffer(&mut self, objects: &mut DrmKmsObjectStore, caps: &DrmDeviceCaps, cmd: &DrmModeFbCmd2) -> (r: Result<
        KmsObjectId,
        Errno,
    >)
        requires
            old(objects).wf(),
        ensures
            final(objects).wf(),
            final(self).spec_gems() == old(self).spec_gems(),
            final(self).spec_next_gem_handle() == old(self).spec_next_gem_handle(),
            final(self).spec_blob_ids() == old(self).spec_blob_ids(),
            ({
                let gem = if old(self).spec_gems().contains_key(cmd.handles@[0]) {
                    Some(old(self).spec_gems()[cmd.handles@[0]])
                } else {
                    None
                };
                match framebuffer_error(*caps, *cmd, gem) {
                    Some(e) => r == Err::<KmsObjectId, Errno>(e) && *final(objects) == *old(objects) && final(self).spec_framebuffer_ids()
                        == old(self).spec_framebuffer_ids(),
                    None => if old(objects).spec_next_id() == u32::MAX {
                        r == Err::<KmsObjectId, Errno>(Errno::EINVAL) && *final(objects) == *old(objects)
                            && final(self).spec_framebuffer_ids() == old(self).spec_framebuffer_ids()
                    } else {
                        r matches Ok(id) && {
                            &&& id == old(objects).spec_next_id()
                            &&& final(objects).spec_objects().dom() == old(objects).spec_objects().dom().insert(id)
                            &&& final(objects).spec_get::<DrmFramebuffer>(id) matches Some(fb) && framebuffer_of(
                                fb,
                                *cmd,
                                gem.unwrap().key,
                            )
                            &&& forall|k: KmsObjectId| k != id ==> #[trigger] final(objects).spec_objects().get(k)
                                == old(objects).spec_objects().get(k)
                            &&& forall|t: DrmKmsObjectType| #[trigger] final(objects).spec_ids(t) == old(objects).spec_ids(t)
                            &&& final(self).spec_framebuffer_ids() == old(self).spec_framebuffer_ids().push(id)
                        }
                    },
                }
            }),
    {
        if cmd.width == 0 || cmd.height == 0 {
            return Err(Errno::EINVAL);
        }
        if cmd.width < caps.min_fb_width_px || cmd.width > caps.max_fb_width_px || cmd.height < caps.min_fb_height_px
            || cmd.height > caps.max_fb_height_px {
            return Err(Errno::EINVAL);
        }
        if cmd.flags & !3u32 != 0 {
            return Err(Errno::EINVAL);
        }
        if cmd.flags & 2u32 != 0 && !caps.has_fb_modifiers {
            return Err(Errno::EOPNOTSUPP);
        }
        if cmd.flags & 2u32 == 0 && cmd.modifier[0] != 0 {
            return Err(Errno::EINVAL);
        }
        if cmd.handles[1] != 0 || cmd.pitches[1] != 0 || cmd.offsets[1] != 0 || cmd.modifier[1] != 0 {
            return Err(Errno::EOPNOTSUPP);
        }
        if cmd.handles[2] != 0 || cmd.pitches[2] != 0 || cmd.offsets[2] != 0 || cmd.modifier[2] != 0 {
            return Err(Errno::EOPNOTSUPP);
        }
        if cmd.handles[3] != 0 || cmd.pitches[3] != 0 || cmd.offsets[3] != 0 || cmd.modifier[3] != 0 {
            return Err(Errno::EOPNOTSUPP);
        }
        proof {
            assert(!extra_planes_used(*cmd));
        }
        let pixel_format = match DrmDisplayFormat::from_code(cmd.pixel_format) {
            Some(f) => f,
            None => {
                return Err(Errno::EINVAL);
            },
        };
        let gem = match self.lookup_gem(cmd.handles[0]) {
            Ok(g) => g,
            Err(e) => {
                return Err(e);
            },
        };
        if cmd.pitches[0] == 0 {
            return Err(Errno::EINVAL);
        }
        proof {
            let p = cmd.pitches@[0];
            let h = cmd.height;
            assert(p * h <= 0xFFFF_FFFFu64 * 0xFFFF_FFFFu64) by (nonlinear_arith)
                requires
                    p <= 0xFFFF_FFFFu32,
                    h <= 0xFFFF_FFFFu32,
            ;
        }
        let required_size = (cmd.pitches[0] as u64) * (cmd.height as u64);
        if (gem.size as u64) < (cmd.offsets[0] as u64) {
            return Err(Errno::EINVAL);
        }
        let accessible_size = (gem.size as u64) - (cmd.offsets[0] as u64);
        if required_size > accessible_size {
            return Err(Errno::EINVAL);
        }
        let framebuffer = match DrmFramebuffer::new(
            cmd.width,
            cmd.height,
            pixel_format,
            cmd.flags,
            cmd.pitches,
            cmd.offsets,
            cmd.modifier,
            [Some(gem.key), None, None, None],
        ) {
            Ok(fb) => fb,
            Err(_) => {
                return Err(Errno::EINVAL);
            },
        };
        let ghost fb_g = framebuffer;
        let id = match objects.add_object(DrmKmsObject::Framebuffer(framebuffer)) {
            Ok(id) => id,
            Err(_) => {
                return Err(Errno::EINVAL);
            },
        };
        self.framebuffer_ids.push(id);
        proof {
            assert(fb_g.spec_gem_objects() =~= seq![Some(gem.key), None, None, None]);
            assert forall|k: KmsObjectId| k != id implies #[trigger] objects.spec_objects().get(k) == old(objects).spec_objects().get(
                k,
            ) by {}
            assert(objects.spec_objects().dom() =~= old(objects).spec_objects().dom().insert(id));
        }
        Ok(id)
    }

    /// Handles `DRM_IOCTL_MODE_ADDFB`: the legacy request stands for a
    /// one-plane request; returns the arguments with the new id.
    pub fn add_fb(&mut self, objects: &mut DrmKmsObjectStore, caps: &DrmDeviceCaps, args: DrmModeFbCmd) -> (r: Result<
        DrmModeFbCmd,
        Errno,
    >)
        requires
            old(objects).wf(),
        ensures
            final(objects).wf(),
            ({
                let cmd = DrmModeFbCmd2 { fb_id: 0, ..fb_cmd2_of(args) };
                let gem = if old(self).spec_gems().contains_key(cmd.handles@[0]) {
                    Some(old(self).spec_gems()[cmd.handles@[0]])
                } else {
                    None
                };
                match framebuffer_error(*caps, cmd, gem) {
                    Some(e) => r == Err::<DrmModeFbCmd, Errno>(e),
                    None => old(objects).spec_next_id() < u32::MAX ==> r == Ok::<DrmModeFbCmd, Errno>(
                        DrmModeFbCmd { fb_id: old(objects).spec_next_id(), ..args },
                    ),
                }
            }),
    {
        let mut cmd = DrmModeFbCmd2::from(args);
        cmd.fb_id = 0;
        match self.create_framebuffer(objects, caps, &cmd) {
            Ok(id) => Ok(DrmModeFbCmd { fb_id: id, ..args }),
            Err(e) => Err(e),
        }
    }

    /// Handles `DRM_IOCTL_MODE_ADDFB2`: returns the arguments with the new
    /// id.
    pub fn add_fb2(&mut self, objects: &mut DrmKmsObjectStore, caps: &DrmDeviceCaps, args: DrmModeFbCmd2) -> (r: Result<
        DrmModeFbCmd2,
        Errno,
    >)
        requires
            old(objects).wf(),
        ensures
            final(objects).wf(),
            ({
                let cmd = DrmModeFbCmd2 { fb_id: 0, ..args };
                let gem = if old(self).spec_gems().contains_key(cmd.handles@[0]) {
                    Some(old(self).spec_gems()[cmd.handles@[0]])
                } else {
                    None
                };
                match framebuffer_error(*caps, cmd, gem) {
                    Some(e) => r matches Err(e2) && e2 == e,
                    None => old(objects).spec_next_id() < u32::MAX ==> (r matches Ok(a) && a.fb_id == old(objects).spec_next_id()
                        && a.width == args.width && a.height == args.height && a.pixel_format == args.pixel_format),
                }
            }),
    {
        let mut cmd = args;
        cmd.fb_id = 0;
        match self.create_framebuffer(objects, caps, &cmd) {
            Ok(id) => {
                cmd.fb_id = id;
                Ok(cmd)
            },
            Err(e) => Err(e),
        }
    }

    /// Takes framebuffer `fb_id` off every plane that shows it; other
    /// objects stay.
    fn detach_framebuffer(objects: &mut DrmKmsObjectStore, fb_id: KmsObjectId)
        requires
            old(objects).wf(),
        ensures
            final(objects).wf(),
            final(objects).spec_objects() == fbs_detached(old(objects).spec_objects(), seq![fb_id]),
            forall|t: DrmKmsObjectType| #[trigger] final(objects).spec_ids(t) == old(objects).spec_ids(t),
            final(objects).spec_next_id() == old(objects).spec_next_id(),
    {
        let ghost s0 = *objects;
        let ghost fbs = seq![fb_id];
        let plane_ids = objects.collect_object_ids(DrmKmsObjectType::Plane, None);
        proof {
            crate::store::lemma_masked_ids_all(s0.spec_ids(DrmKmsObjectType::Plane));
        }
        let mut i: usize = 0;
        while i < plane_ids.len()
            invariant
                s0.wf(),
                fbs == seq![fb_id],
                plane_ids@ == s0.spec_ids(DrmKmsObjectType::Plane),
                i <= plane_ids@.len(),
                objects.wf(),
                forall|t: DrmKmsObjectType| #[trigger] objects.spec_ids(t) == s0.spec_ids(t),
                objects.spec_next_id() == s0.spec_next_id(),
                objects.spec_objects().dom() == s0.spec_objects().dom(),
                forall|id: KmsObjectId|
                    #[trigger] s0.spec_objects().contains_key(id) ==> objects.spec_objects()[id] == (if plane_ids@.take(
                        i as int,
                    ).contains(id) {
                        detach_fbs(s0.spec_objects()[id], fbs)
                    } else {
                        s0.spec_objects()[id]
                    }),
            decreases plane_ids@.len() - i,
        {
            let plane_id = plane_ids[i];
            proof {
                assert(s0.spec_objects().contains_key(plane_id));
                assert(crate::store::is_listed_type(DrmKmsObjectType::Plane));
                assert(plane_ids@.no_duplicates());
                assert(!plane_ids@.take(i as int).contains(plane_id));
            }
            let shows = match objects.get_object::<DrmPlane>(plane_id) {
                Some(plane) => {
                    if plane.state().fb_id == Some(fb_id) {
                        Some(*plane.state())
                    } else {
                        None
                    }
                },
                None => None,
            };
            let ghost before = *objects;
            if let Some(state) = shows {
                let mut new_state = state;
                new_state.set_fb_id(None);
                objects.set_plane_state(plane_id, new_state);
            }
            proof {
                assert forall|id: KmsObjectId| #[trigger] s0.spec_objects().contains_key(id) implies objects.spec_objects()[id]
                    == (if plane_ids@.take(i + 1).contains(id) {
                    detach_fbs(s0.spec_objects()[id], fbs)
                } else {
                    s0.spec_objects()[id]
                }) by {
                    if id == plane_id {
                        assert(plane_ids@.take(i + 1)[i as int] == id);
                        assert(fbs[0] == fb_id);
                        assert(fbs.contains(fb_id));
                        assert(forall|f: KmsObjectId| fbs.contains(f) ==> f == fb_id);
                    } else {
                        assert(plane_ids@.take(i + 1).contains(id) == plane_ids@.take(i as int).contains(id)) by {
                            if plane_ids@.take(i + 1).contains(id) {
                                let j = choose|j: int| 0 <= j < i + 1 && #[trigger] plane_ids@.take(i + 1)[j] == id;
                                assert(plane_ids@.take(i as int)[j] == id);
                            }
                            if plane_ids@.take(i as int).contains(id) {
                                let j = choose|j: int| 0 <= j < i && #[trigger] plane_ids@.take(i as int)[j] == id;
                                assert(plane_ids@.take(i + 1)[j] == id);
                            }
                        }
                    }
                }
                assert(objects.spec_objects().dom() =~= s0.spec_objects().dom());
            }
            i = i + 1;
        }
        proof {
            assert(plane_ids@.take(i as int) =~= plane_ids@);
            assert forall|id: KmsObjectId| #[trigger] s0.spec_objects().contains_key(id) && !plane_ids@.contains(id) implies detach_fbs(
                s0.spec_objects()[id],
                fbs,
            ) == s0.spec_objects()[id] by {
                if s0.spec_objects()[id] is Plane {
                    assert(crate::store::is_listed_type(s0.spec_objects()[id].kind()));
                }
            }
            assert(objects.spec_objects() =~= fbs_detached(s0.spec_objects(), fbs));
        }
    }

    /// Handles `DRM_IOCTL_MODE_RMFB`: only a framebuffer this file created
    /// can go; the planes that show it show nothing, then it is removed.
    pub fn rm_fb(&mut self, objects: &mut DrmKmsObjectStore, fb_id: KmsObjectId) -> (r: Result<(), Errno>)
        requires
            old(objects).wf(),
        ensures
            final(objects).wf(),
            final(self).spec_gems() == old(self).spec_gems(),
            final(self).spec_blob_ids() == old(self).spec_blob_ids(),
            if !old(self).spec_framebuffer_ids().contains(fb_id) {
                r == Err::<(), Errno>(Errno::ENOENT) && *final(objects) == *old(objects) && final(self).spec_framebuffer_ids()
                    == old(self).spec_framebuffer_ids()
            } else {
                let detached = fbs_detached(old(objects).spec_objects(), seq![fb_id]);
                &&& exists|i: int| is_first_index(old(self).spec_framebuffer_ids(), fb_id, i)
                    && final(self).spec_framebuffer_ids() == old(self).spec_framebuffer_ids().remove(i)
                &&& if old(objects).spec_get::<DrmFramebuffer>(fb_id) is Some {
                    r is Ok && final(objects).spec_objects() == detached.remove(fb_id)
                } else {
                    r == Err::<(), Errno>(Errno::ENOENT) && final(objects).spec_objects() == detached
                }
            },
    {
        let position = match first_position(&self.framebuffer_ids, fb_id) {
            Some(p) => p,
            None => {
                return Err(Errno::ENOENT);
            },
        };
        self.framebuffer_ids.remove(position);
        let ghost s0 = *objects;
        Self::detach_framebuffer(objects, fb_id);
        proof {
            assert(objects.spec_get::<DrmFramebuffer>(fb_id) == s0.spec_get::<DrmFramebuffer>(fb_id));
        }
        match objects.remove_framebuffer(fb_id) {
            Some(_) => Ok(()),
            None => Err(Errno::ENOENT),
        }
    }

    /// Handles `DRM_IOCTL_MODE_CREATEPROPBLOB` with the client's `data`:
    /// the store's error passes on; returns the new blob's id.
    pub fn create_blob(&mut self, objects: &mut DrmKmsObjectStore, data: Vec<u8>) -> (r: Result<KmsObjectId, DrmFileError>)
        requires
            old(objects).wf(),
        ensures
            final(objects).wf(),
            final(self).spec_gems() == old(self).spec_gems(),
            final(self).spec_framebuffer_ids() == old(self).spec_framebuffer_ids(),
            match r {
                Ok(id) => {
                    &&& id == old(objects).spec_next_id()
                    &&& final(objects).spec_objects() == old(objects).spec_objects().insert(id, final(objects).spec_objects()[id])
                    &&& final(objects).spec_get::<DrmPropertyBlob>(id) matches Some(b) && b.spec_data() == data@
                    &&& final(self).spec_blob_ids() == old(self).spec_blob_ids().push(id)
                },
                Err(e) => e == DrmFileError::Drm(DrmError::NoMemory) && old(objects).spec_next_id() == u32::MAX
                    && *final(objects) == *old(objects) && final(self).spec_blob_ids() == old(self).spec_blob_ids(),
            },
    {
        let blob = DrmPropertyBlob::new(data);
        match objects.add_object(DrmKmsObject::Blob(blob)) {
            Ok(id) => {
                self.blob_ids.push(id);
                Ok(id)
            },
            Err(e) => Err(DrmFileError::Drm(e)),
        }
    }

    /// Handles `DRM_IOCTL_MODE_DESTROYPROPBLOB`: only a blob this file
    /// created can go.
    pub fn destroy_blob(&mut self, objects: &mut DrmKmsObjectStore, blob_id: KmsObjectId) -> (r: Result<(), Errno>)
        requires
            old(objects).wf(),
        ensures
            final(objects).wf(),
            final(self).spec_gems() == old(self).spec_gems(),
            final(self).spec_framebuffer_ids() == old(self).spec_framebuffer_ids(),
            if !old(self).spec_blob_ids().contains(blob_id) {
                r == Err::<(), Errno>(Errno::EPERM) && *final(objects) == *old(objects) && final(self).spec_blob_ids()
                    == old(self).spec_blob_ids()
            } else if old(objects).spec_get::<DrmPropertyBlob>(blob_id) is None {
                r == Err::<(), Errno>(Errno::ENOENT) && final(objects).spec_objects() == old(objects).spec_objects()
                    && final(self).spec_blob_ids() == old(self).spec_blob_ids()
            } else {
                &&& r is Ok
                &&& final(objects).spec_objects() == old(objects).spec_objects().remove(blob_id)
                &&& exists|i: int| is_first_index(old(self).spec_blob_ids(), blob_id, i)
                    && final(self).spec_blob_ids() == old(self).spec_blob_ids().remove(i)
            },
    {
        let position = match first_position(&self.blob_ids, blob_id) {
            Some(p) => p,
            None => {
                return Err(Errno::EPERM);
            },
        };
        match objects.remove_blob(blob_id) {
            Some(_) => {},
            None => {
                return Err(Errno::ENOENT);
            },
        }
        self.blob_ids.remove(position);
        Ok(())
    }
}

/// The objects without the blobs among the first `n` of `blob_ids`.
pub open spec fn blobs_removed(objects: Map<KmsObjectId, DrmKmsObject>, blob_ids: Seq<KmsObjectId>) -> Map<
    KmsObjectId,
    DrmKmsObject,
> {
    Map::new(
        |id: KmsObjectId| objects.contains_key(id) && !(objects[id] is Blob && blob_ids.contains(id)),
        |id: KmsObjectId| objects[id],
    )
}

/// The objects without the framebuffers of `fb_ids`, and no plane showing
/// them.
pub open spec fn fbs_removed(objects: Map<KmsObjectId, DrmKmsObject>, fb_ids: Seq<KmsObjectId>) -> Map<
    KmsObjectId,
    DrmKmsObject,
> {
    Map::new(
        |id: KmsObjectId| objects.contains_key(id) && !(objects[id] is Framebuffer && fb_ids.contains(id)),
        |id: KmsObjectId| detach_fbs(objects[id], fb_ids),
    )
}

proof fn lemma_detach_push(o: DrmKmsObject, fbs: Seq<KmsObjectId>, f: KmsObjectId)
    ensures
        detach_fbs(detach_fbs(o, fbs), seq![f]) == detach_fbs(o, fbs.push(f)),
        detach_fbs(o, fbs) is Framebuffer == o is Framebuffer,
        detach_fbs(o, fbs) is Blob == o is Blob,
{
    assert(seq![f][0] == f);
    assert(fbs.push(f)[fbs.len() as int] == f);
    assert forall|g: KmsObjectId| fbs.push(f).contains(g) <==> (fbs.contains(g) || g == f) by {
        if fbs.contains(g) {
            let k = choose|k: int| 0 <= k < fbs.len() && fbs[k] == g;
            assert(fbs.push(f)[k] == g);
        }
        if fbs.push(f).contains(g) {
            let k = choose|k: int| 0 <= k < fbs.push(f).len() && fbs.push(f)[k] == g;
            if k < fbs.len() {
                assert(fbs[k] == g);
            }
        }
    }
    assert forall|g: KmsObjectId| seq![f].contains(g) <==> g == f by {
        if seq![f].contains(g) {
            let k = choose|k: int| 0 <= k < 1 && seq![f][k] == g;
        }
    }
    if let DrmKmsObject::Plane(p) = o {
        p.lemma_with_state(DrmPlaneState { fb_id: None, ..p.spec_state() });
    }
}

proof fn lemma_contains_push(s: Seq<KmsObjectId>, x: KmsObjectId, g: KmsObjectId)
    ensures
        s.push(x).contains(g) <==> (s.contains(g) || g == x),
{
    if s.contains(g) {
        let k = choose|k: int| 0 <= k < s.len() && s[k] == g;
        assert(s.push(x)[k] == g);
    }
    if s.push(x).contains(g) {
        let k = choose|k: int| 0 <= k < s.push(x).len() && s.push(x)[k] == g;
        if k < s.len() {
            assert(s[k] == g);
        }
    }
    assert(s.push(x)[s.len() as int] == x);
}

impl DrmFileObjects {
    /// Releases what the file owns when it is closed: its handles, whose
    /// GEM objects it returns, and its blobs and framebuffers, which leave
    /// the store after the planes that show those framebuffers let go.
    pub fn release(&mut self, objects: &mut DrmKmsObjectStore) -> (gems: Vec<DrmGemRef>)
        requires
            old(objects).wf(),
        ensures
            final(objects).wf(),
            final(objects).spec_objects() == released_objects(
                old(objects).spec_objects(),
                old(self).spec_blob_ids(),
                old(self).spec_framebuffer_ids(),
            ),
            forall|t: DrmKmsObjectType| #[trigger] final(objects).spec_ids(t) == old(objects).spec_ids(t),
            final(self).spec_gems() == no_gem_entries(),
            final(self).spec_blob_ids().len() == 0,
            final(self).spec_framebuffer_ids().len() == 0,
            final(self).spec_next_gem_handle() == old(self).spec_next_gem_handle(),
            exists|handles: Seq<u32>| #![trigger handles.len()] {
                &&& handles.len() == gems@.len()
                &&& handles.no_duplicates()
                &&& forall|i: int| #![trigger handles[i]] 0 <= i < handles.len() ==> old(self).spec_gems().contains_key(
                    handles[i],
                ) && old(self).spec_gems()[handles[i]] == gems@[i]
                &&& forall|h: u32| #[trigger] old(self).spec_gems().contains_key(h) ==> handles.contains(h)
            },
    {
        let gems = gem_table_values(&self.gems);
        self.gems = gem_table_new();
        let ghost s0 = objects.spec_objects();
        let ghost blob_list = self.blob_ids@;
        let ghost fb_list = self.framebuffer_ids@;
        let mut i: usize = 0;
        proof {
            assert(objects.spec_objects() =~= blobs_removed(s0, blob_list.take(0)));
        }
        while i < self.blob_ids.len()
            invariant
                blob_list == self.blob_ids@,
                s0 == old(objects).spec_objects(),
                i <= blob_list.len(),
                objects.wf(),
                forall|t: DrmKmsObjectType| #[trigger] objects.spec_ids(t) == old(objects).spec_ids(t),
                objects.spec_objects() == blobs_removed(s0, blob_list.take(i as int)),
            decreases blob_list.len() - i,
        {
            let blob_id = self.blob_ids[i];
            let ghost before = objects.spec_objects();
            let _ = objects.remove_blob(blob_id);
            proof {
                assert(blob_list.take(i + 1) =~= blob_list.take(i as int).push(blob_id));
                assert forall|id: KmsObjectId| true implies #[trigger] blob_list.take(i + 1).contains(id) <==> (blob_list.take(
                    i as int,
                ).contains(id) || id == blob_id) by {
                    lemma_contains_push(blob_list.take(i as int), blob_id, id);
                }
                assert(objects.spec_objects() =~= blobs_removed(s0, blob_list.take(i + 1)));
            }
            i = i + 1;
        }
        let ghost s1 = objects.spec_objects();
        proof {
            assert(blob_list.take(i as int) =~= blob_list);
            assert(objects.spec_objects() =~= fbs_removed(s1, fb_list.take(0))) by {
                assert forall|id: KmsObjectId| #[trigger] s1.contains_key(id) implies detach_fbs(s1[id], fb_list.take(0))
                    == s1[id] by {
                    assert(!fb_list.take(0).contains(0u32) && fb_list.take(0).len() == 0);
                }
            }
        }
        let mut j: usize = 0;
        while j < self.framebuffer_ids.len()
            invariant
                fb_list == self.framebuffer_ids@,
                j <= fb_list.len(),
                objects.wf(),
                forall|t: DrmKmsObjectType| #[trigger] objects.spec_ids(t) == old(objects).spec_ids(t),
                objects.spec_objects() == fbs_removed(s1, fb_list.take(j as int)),
            decreases fb_list.len() - j,
        {
            let fb_id = self.framebuffer_ids[j];
            let ghost before = objects.spec_objects();
            Self::detach_framebuffer(objects, fb_id);
            let _ = objects.remove_framebuffer(fb_id);
            proof {
                let done = fb_list.take(j as int);
                assert(fb_list.take(j + 1) =~= done.push(fb_id));
                assert forall|id: KmsObjectId| true implies #[trigger] fb_list.take(j + 1).contains(id) <==> (done.contains(id)
                    || id == fb_id) by {
                    lemma_contains_push(done, fb_id, id);
                }
                assert forall|id: KmsObjectId| #[trigger] s1.contains_key(id) implies detach_fbs(detach_fbs(s1[id], done), seq![fb_id])
                    == detach_fbs(s1[id], fb_list.take(j + 1)) && (detach_fbs(s1[id], done) is Framebuffer == s1[id] is Framebuffer) by {
                    lemma_detach_push(s1[id], done, fb_id);
                }
                assert(objects.spec_objects() =~= fbs_removed(s1, fb_list.take(j + 1)));
            }
            j = j + 1;
        }
        proof {
            assert(fb_list.take(j as int) =~= fb_list);
            assert forall|id: KmsObjectId| #[trigger] s0.contains_key(id) implies (detach_fbs(s0[id], fb_list) is Blob == s0[id] is Blob) by {
                lemma_detach_push(s0[id], fb_list, 0);
            }
            assert(objects.spec_objects() =~= released_objects(s0, blob_list, fb_list));
        }
        self.blob_ids = Vec::new();
        self.framebuffer_ids = Vec::new();
        gems
    }
}

/// Checks that a device offers dumb buffers before a dumb-buffer ioctl.
pub fn dumb_buffers_supported(caps: &DrmDeviceCaps) -> (r: Result<(), Errno>)
    ensures
        r == (if caps.has_dumb_buffer {
            Ok(())
        } else {
            Err(Errno::ENOSYS)
        }),
{
    if !caps.has_dumb_buffer {
        return Err(Errno::ENOSYS);
    }
    Ok(())
}

/// Checks a `DRM_IOCTL_MODE_CREATE_DUMB` request before the buffer is
/// made: the device must offer dumb buffers, and the size and depth must
/// not be zero.
pub fn create_dumb_check(caps: &DrmDeviceCaps, args: &DrmModeCreateDumb) -> (r: Result<(), Errno>)
    ensures
        r == (if !caps.has_dumb_buffer {
            Err(Errno::ENOSYS)
        } else if args.width == 0 || args.height == 0 || args.bpp == 0 {
            Err(Errno::EINVAL)
        } else {
            Ok(())
        }),
{
    if !caps.has_dumb_buffer {
        return Err(Errno::ENOSYS);
    }
    if args.width == 0 || args.height == 0 || args.bpp == 0 {
        return Err(Errno::EINVAL);
    }
    Ok(())
}

} // verus!
