//! A display driver for the framebuffer that the firmware set up at boot:
//! one primary plane, one CRTC, one virtual encoder and one virtual
//! connector, with frames copied into the boot framebuffer.
use vstd::prelude::*;

use crate::builder::{
    attachments_fit, all_consistent, build_cost, connector_cost, crtc_cost, plane_cost, topology_valid, total_cost,
    DrmKmsObjectBuilder,
};
use crate::connector::{DrmConnStatus, DrmConnType, DrmConnector};
use crate::crtc::{DrmCrtc, DrmCrtcState};
use crate::display::{DrmDisplayFormat, DrmDisplayInfo, DrmDisplayMode, SubpixelOrder};
use crate::encoder::{DrmEncoder, DrmEncoderType};
use crate::error::DrmError;
use crate::framebuffer::DrmFramebuffer;
use crate::geometry::RectU32;
use crate::mask::index_mask;
use crate::object_type::{DrmKmsObjectType, KmsObjectId};
use crate::plane::{DrmPlane, DrmPlaneState, DrmPlaneType};
use crate::store::{masked_ids, DrmKmsObject, DrmKmsObjectStore};
use crate::vma_manager::DrmVmaOffsetManager;

verus! {

/// The resolution assumed for the boot framebuffer.
pub const SIMPLEDRM_DPI: u32 = 96;

/// The refresh rate assumed for the boot framebuffer.
pub const SIMPLEDRM_VFRESH: u32 = 60;

/// The physical size in millimetres of `resolution_px` pixels at `dpi`
/// dots per inch, rounded down.
pub open spec fn res_mm_spec(resolution_px: u32, dpi: u32) -> int {
    (resolution_px * 254) / (dpi * 10)
}

/// The physical size in millimetres of `resolution_px` pixels at `dpi`.
pub fn drm_mode_res_mm(resolution_px: u32, dpi: u32) -> (mm: u32)
    requires
        resolution_px * 254 <= u32::MAX,
        0 < dpi * 10 <= u32::MAX,
    ensures
        mm == res_mm_spec(resolution_px, dpi),
{
    (resolution_px * 254) / (dpi * 10)
}

/// The geometry of the boot framebuffer: its size in pixels and the length
/// of one of its lines in bytes.
#[derive(Debug, Clone, Copy)]
pub struct FirmwareFb {
    pub width: usize,
    pub height: usize,
    pub line_size: usize,
}

/// How to copy a framebuffer into the boot framebuffer: for each row, from
/// which offset of the GEM object and to which offset of the boot
/// framebuffer `line_len` bytes go. `complete` is false when the offsets of
/// a row did not fit: the rows before it are copied, and the copy fails.
pub struct FirmwareCopy {
    pub gem_object: u64,
    pub line_len: usize,
    pub rows: Vec<(usize, usize)>,
    pub complete: bool,
}

/// Why copying `fb` into the boot framebuffer fails before any row is
/// copied, if it does.
pub open spec fn firmware_copy_error(fb: DrmFramebuffer, firmware: Option<FirmwareFb>) -> Option<DrmError> {
    match firmware {
        None => Some(DrmError::NotFound),
        Some(fw) => if !fb.has_plane(0) {
            Some(DrmError::NotFound)
        } else {
            match fb.spec_pixel_format().spec_bytes_per_pixel() {
                None => Some(DrmError::Invalid),
                Some(bpp) => {
                    let line = fb.spec_width() * bpp;
                    if line > usize::MAX || line > fb.spec_pitches()[0] || fb.spec_width() > fw.width
                        || fb.spec_height() > fw.height || line > fw.line_size {
                        Some(DrmError::Invalid)
                    } else {
                        None
                    }
                },
            }
        },
    }
}

/// Whether both offsets of row `row` fit in `usize`.
pub open spec fn row_fits(offset: int, pitch: int, line_size: int, row: int) -> bool {
    offset + row * pitch <= usize::MAX && row * line_size <= usize::MAX
}

/// Whether entry `r` of `rows` holds the offsets of row `r`, which fit.
pub open spec fn row_planned(rows: Seq<(usize, usize)>, offset: int, pitch: int, line_size: int, r: int) -> bool {
    row_fits(offset, pitch, line_size, r) && rows[r] == ((offset + r * pitch) as usize, (r * line_size) as usize)
}

/// Whether `rows` lists the offsets of the rows of a copy of `height` rows,
/// up to the first row whose offsets do not fit.
pub open spec fn rows_planned(rows: Seq<(usize, usize)>, offset: int, pitch: int, line_size: int, height: int) -> bool {
    &&& rows.len() <= height
    &&& forall|r: int| 0 <= r < rows.len() ==> #[trigger] row_planned(rows, offset, pitch, line_size, r)
    &&& rows.len() < height ==> !row_fits(offset, pitch, line_size, rows.len() as int)
}

/// Whether `copy` is the copy of `fb` into the boot framebuffer `fw`.
pub open spec fn firmware_copy_planned(fb: DrmFramebuffer, fw: FirmwareFb, copy: FirmwareCopy) -> bool {
    &&& Some(copy.gem_object) == fb.spec_gem_objects()[0]
    &&& copy.line_len == fb.spec_width() * fb.spec_pixel_format().spec_bytes_per_pixel().unwrap()
    &&& rows_planned(
        copy.rows@,
        fb.spec_offsets()[0] as int,
        fb.spec_pitches()[0] as int,
        fw.line_size as int,
        fb.spec_height() as int,
    )
    &&& copy.complete == (copy.rows@.len() == fb.spec_height())
}

/// The display driver of the boot framebuffer.
pub struct SimpleDrmDevice {
    objects: DrmKmsObjectStore,
    vma_manager: DrmVmaOffsetManager,
}

impl SimpleDrmDevice {
    pub closed spec fn spec_objects(&self) -> DrmKmsObjectStore {
        self.objects
    }

    pub closed spec fn spec_vma_manager(&self) -> DrmVmaOffsetManager {
        self.vma_manager
    }

    /// The device's invariant: its store is well formed.
    pub open spec fn wf(&self) -> bool {
        self.spec_objects().wf()
    }

    /// Whether `store` holds the objects of this driver: the primary plane,
    /// the CRTC it feeds, the virtual encoder of that CRTC and the virtual
    /// connector of that encoder, first of their types, all unconfigured.
    pub open spec fn initial_objects(store: DrmKmsObjectStore) -> bool {
        let plane_ids = store.spec_ids(DrmKmsObjectType::Plane);
        let crtc_ids = store.spec_ids(DrmKmsObjectType::Crtc);
        let encoder_ids = store.spec_ids(DrmKmsObjectType::Encoder);
        let connector_ids = store.spec_ids(DrmKmsObjectType::Connector);
        &&& store.wf()
        &&& plane_ids.len() == 1 && crtc_ids.len() == 1 && encoder_ids.len() == 1 && connector_ids.len() == 1
        &&& store.spec_get::<DrmPlane>(plane_ids[0]) matches Some(p) && {
            &&& p.spec_type() == DrmPlaneType::Primary
            &&& p.spec_state() == DrmPlaneState::spec_default()
            &&& p.spec_possible_crtcs() == 1
            &&& p.spec_format_types() == seq![DrmDisplayFormat::XRGB8888]
        }
        &&& store.spec_get::<DrmCrtc>(crtc_ids[0]) matches Some(c) && {
            &&& c.spec_primary_plane_id() == plane_ids[0]
            &&& c.spec_cursor_plane_id() is None
            &&& c.spec_gamma_size() == 0
            &&& c.spec_state() == DrmCrtcState::spec_default()
        }
        &&& store.spec_get::<DrmEncoder>(encoder_ids[0]) matches Some(e) && {
            &&& e.spec_type() == DrmEncoderType::VIRTUAL
            &&& e.spec_crtc_id() is None
            &&& e.spec_possible_crtcs() == 1
        }
        &&& store.spec_get::<DrmConnector>(connector_ids[0]) matches Some(n) && {
            &&& n.spec_type() == DrmConnType::VIRTUAL
            &&& n.spec_type_index() == 0
            &&& n.spec_status() == DrmConnStatus::Unknownconnection
            &&& n.spec_encoder_id() is None
            &&& n.spec_possible_encoders() == 1
        }
    }

    /// Creates the device with its objects and an empty offset manager.
    pub fn new() -> (r: Result<Self, DrmError>)
        ensures
            r matches Ok(dev) && Self::initial_objects(dev.spec_objects()) && dev.spec_vma_manager().wf(),
    {
        let objects = match Self::build_kms_objects() {
            Ok(objects) => objects,
            Err(e) => {
                return Err(e);
            },
        };
        Ok(SimpleDrmDevice { objects, vma_manager: DrmVmaOffsetManager::new() })
    }

    /// Declares and builds the driver's objects.
    pub fn build_kms_objects() -> (r: Result<DrmKmsObjectStore, DrmError>)
        ensures
            r matches Ok(store) && Self::initial_objects(store),
    {
        let mut builder = DrmKmsObjectBuilder::default();
        let format_types = vec![DrmDisplayFormat::XRGB8888];
        let primary = builder.add_plane(DrmPlaneType::Primary, format_types);
        let crtc = builder.add_crtc(0, primary, None);
        let encoder = builder.add_encoder(DrmEncoderType::VIRTUAL);
        let connector = builder.add_connector(DrmConnType::VIRTUAL);
        if builder.plane_attach_crtc(primary, crtc).is_err() {
            return Err(DrmError::Invalid);
        }
        if builder.encoder_attach_crtc(encoder, crtc).is_err() {
            return Err(DrmError::Invalid);
        }
        if builder.connector_attach_encoder(connector, encoder).is_err() {
            return Err(DrmError::Invalid);
        }
        let ghost pl = builder.spec_planes();
        let ghost cr = builder.spec_crtcs();
        let ghost en = builder.spec_encoders();
        let ghost co = builder.spec_connectors();
        proof {
            assert(pl[0].attached_crtcs@ =~= seq![0usize]);
            assert(en[0].attached_crtcs@ =~= seq![0usize]);
            assert(co[0].attached_encoders@ =~= seq![0usize]);
            assert(pl[0].attached_crtcs@[0] == 0usize);
            assert(crate::builder::crtc_topology_ok(pl, cr, 0));
            assert(topology_valid(pl, cr));
            assert(attachments_fit(pl, en, co));
            assert(all_consistent(pl, cr, co));
            assert(crate::builder::props_cost(pl[0].property_values@) == 3) by {
                reveal_with_fuel(total_cost, 3);
            }
            assert(total_cost(pl, plane_cost()) == 4) by {
                reveal_with_fuel(total_cost, 2);
            }
            assert(total_cost(cr, crtc_cost()) == 1) by {
                reveal_with_fuel(total_cost, 2);
            }
            assert(total_cost(co, connector_cost()) == 1) by {
                reveal_with_fuel(total_cost, 2);
            }
            assert(1 + build_cost(pl, cr, en, co) <= u32::MAX);
            assert(index_mask(seq![0usize]) == 1) by {
                reveal_with_fuel(index_mask, 2);
                assert(0u32 | (1u32 << 0u32) == 1u32) by (bit_vector);
            }
            assert(co.take(0).len() == 0);
        }
        let r = builder.build();
        proof {
            if r is Ok {
                let store = r->Ok_0;
                assert(crate::builder::plane_at(store, pl, 0));
                assert(crate::builder::crtc_at(store, cr, 0));
                assert(crate::builder::encoder_at(store, en, 0));
                assert(crate::builder::connector_at(store, co, 0));
                let plane_ids = store.spec_ids(DrmKmsObjectType::Plane);
                assert(store.wf());
                assert(plane_ids.len() == 1);
                let p = store.spec_get::<DrmPlane>(plane_ids[0]).unwrap();
                assert(p.spec_type() == DrmPlaneType::Primary);
                assert(p.spec_possible_crtcs() == 1);
                assert(p.spec_format_types() == seq![DrmDisplayFormat::XRGB8888]);
                let c = store.spec_get::<DrmCrtc>(store.spec_ids(DrmKmsObjectType::Crtc)[0]).unwrap();
                assert(c.spec_primary_plane_id() == plane_ids[0]);
                let n = store.spec_get::<DrmConnector>(store.spec_ids(DrmKmsObjectType::Connector)[0]).unwrap();
                assert(n.spec_type_index() == 0);
            }
        }
        r
    }
}

/// Plans the copy of `fb` into the boot framebuffer `firmware`: one line of
/// `width` pixels per row, read from the GEM object of the first memory
/// plane at its offset plus the row times its pitch, written at the row
/// times the boot framebuffer's line size.
pub fn write_firmware_fb(fb: &DrmFramebuffer, firmware: Option<FirmwareFb>) -> (r: Result<FirmwareCopy, DrmError>)
    ensures
        match firmware_copy_error(*fb, firmware) {
            Some(e) => r == Err::<FirmwareCopy, DrmError>(e),
            None => r matches Ok(copy) && firmware_copy_planned(*fb, firmware.unwrap(), copy),
        },
{
    let fw = match firmware {
        Some(fw) => fw,
        None => {
            return Err(DrmError::NotFound);
        },
    };
    let width = fb.width() as usize;
    let height = fb.height() as usize;
    let pitch = match fb.pitch(0) {
        Some(p) => p as usize,
        None => {
            return Err(DrmError::NotFound);
        },
    };
    let offset = match fb.offset(0) {
        Some(o) => o as usize,
        None => {
            return Err(DrmError::NotFound);
        },
    };
    let gem_object = match fb.gem_object(0) {
        Some(g) => g,
        None => {
            return Err(DrmError::NotFound);
        },
    };
    let bytes_per_pixel = match fb.pixel_format().bytes_per_pixel() {
        Some(n) => n,
        None => {
            return Err(DrmError::Invalid);
        },
    };
    let copy_width_bytes = match width.checked_mul(bytes_per_pixel) {
        Some(n) => n,
        None => {
            return Err(DrmError::Invalid);
        },
    };
    if copy_width_bytes > pitch || width > fw.width || height > fw.height || copy_width_bytes > fw.line_size {
        return Err(DrmError::Invalid);
    }
    let mut rows: Vec<(usize, usize)> = Vec::new();
    let mut row: usize = 0;
    let mut complete = true;
    while row < height
        invariant_except_break
            complete,
        invariant
            row <= height,
            rows@.len() == row,
            forall|r: int| 0 <= r < row ==> #[trigger] row_planned(rows@, offset as int, pitch as int, fw.line_size as int, r),
        ensures
            complete == (row == height),
            row < height ==> !row_fits(offset as int, pitch as int, fw.line_size as int, row as int),
        decreases height - row,
    {
        let src = match row.checked_mul(pitch) {
            Some(step) => match offset.checked_add(step) {
                Some(src) => src,
                None => {
                    complete = false;
                    break;
                },
            },
            None => {
                complete = false;
                break;
            },
        };
        let ghost old_rows = rows@;
        let dst = match row.checked_mul(fw.line_size) {
            Some(dst) => dst,
            None => {
                complete = false;
                break;
            },
        };
        rows.push((src, dst));
        proof {
            assert(rows@[row as int] == ((offset + row * pitch) as usize, (row * fw.line_size) as usize));
            assert forall|r: int| 0 <= r < row + 1 implies #[trigger] row_planned(
                rows@,
                offset as int,
                pitch as int,
                fw.line_size as int,
                r,
            ) by {
                if r < row {
                    assert(row_planned(old_rows, offset as int, pitch as int, fw.line_size as int, r));
                    assert(rows@[r] == old_rows[r]);
                }
            }
        }
        row = row + 1;
    }
    Ok(FirmwareCopy { gem_object, line_len: copy_width_bytes, rows, complete })
}

/// The first id of `s`, if any.
pub open spec fn first_id(s: Seq<KmsObjectId>) -> Option<KmsObjectId> {
    if s.len() > 0 {
        Some(s[0])
    } else {
        None
    }
}

/// The encoder a connector is taken to use: its current one, else the first
/// encoder it can use.
pub open spec fn encoder_choice(store: DrmKmsObjectStore, c: DrmConnector) -> Option<KmsObjectId> {
    match c.spec_encoder_id() {
        Some(e) => Some(e),
        None => first_id(masked_ids(store.spec_ids(DrmKmsObjectType::Encoder), Some(c.spec_possible_encoders()))),
    }
}

/// A length in pixels clamped to what a display mode can hold.
pub open spec fn clamp_px(n: usize) -> u16 {
    if n > 0xFFFF {
        0xFFFF
    } else {
        n as u16
    }
}

/// Whether the display mode of the boot framebuffer `fw` can be formed.
pub open spec fn firmware_mode_fits(fw: FirmwareFb) -> bool {
    clamp_px(fw.width) * clamp_px(fw.height) * SIMPLEDRM_VFRESH <= u32::MAX
}

/// The single mode that the boot framebuffer `fw` offers.
pub open spec fn firmware_mode(fw: FirmwareFb) -> DrmDisplayMode {
    DrmDisplayMode::simple_mode_spec(clamp_px(fw.width), clamp_px(fw.height), SIMPLEDRM_VFRESH)
}

/// The physical properties of the boot framebuffer `fw`, assuming 96 DPI.
pub open spec fn firmware_info(fw: FirmwareFb) -> DrmDisplayInfo {
    DrmDisplayInfo {
        mm_width: res_mm_spec(clamp_px(fw.width) as u32, SIMPLEDRM_DPI) as u32,
        mm_height: res_mm_spec(clamp_px(fw.height) as u32, SIMPLEDRM_DPI) as u32,
        subpixel_order: SubpixelOrder::Unknown,
    }
}

/// Whether `c1` is connector `c0` after probing, with the boot framebuffer
/// `firmware` (if any) as its display, the encoder of `store` chosen for it.
pub open spec fn connector_probed(store: DrmKmsObjectStore, c0: DrmConnector, c1: DrmConnector, firmware: Option<FirmwareFb>) -> bool {
    match firmware {
        None => c0.same_but_state(
            &c1,
            DrmConnStatus::Disconnected,
            Seq::empty(),
            DrmDisplayInfo { mm_width: 0, mm_height: 0, subpixel_order: SubpixelOrder::Unknown },
            None,
        ),
        Some(fw) => c0.same_but_state(
            &c1,
            DrmConnStatus::Connected,
            seq![firmware_mode(fw)],
            firmware_info(fw),
            encoder_choice(store, c0),
        ),
    }
}

impl SimpleDrmDevice {
    pub fn objects(&self) -> (o: &DrmKmsObjectStore)
        ensures
            *o == self.spec_objects(),
    {
        &self.objects
    }

    pub fn vma_manager(&self) -> (m: &DrmVmaOffsetManager)
        ensures
            *m == self.spec_vma_manager(),
    {
        &self.vma_manager
    }

    /// The object store, for changes made by the files of the device.
    pub fn objects_mut(&mut self) -> (o: &mut DrmKmsObjectStore)
        ensures
            *o == old(self).spec_objects(),
            final(self).spec_objects() == *final(o),
            final(self).spec_vma_manager() == old(self).spec_vma_manager(),
    {
        &mut self.objects
    }

    /// The mmap offset manager, for the GEM objects of the device.
    pub fn vma_manager_mut(&mut self) -> (m: &mut DrmVmaOffsetManager)
        ensures
            *m == old(self).spec_vma_manager(),
            final(self).spec_vma_manager() == *final(m),
            final(self).spec_objects() == old(self).spec_objects(),
    {
        &mut self.vma_manager
    }

    pub fn name(&self) -> (n: &'static str)
        ensures
            n@ == "simpledrm"@,
    {
        "simpledrm"
    }

    pub fn desc(&self) -> (d: &'static str)
        ensures
            d@ == "DRM driver for simple-framebuffer platform devices"@,
    {
        "DRM driver for simple-framebuffer platform devices"
    }

    /// The encoder a connector is taken to use: its current one, else the
    /// first one it can use.
    fn choose_encoder(&self, connector: &DrmConnector) -> (e: Option<KmsObjectId>)
        ensures
            e == encoder_choice(self.spec_objects(), *connector),
    {
        match connector.snapshot().encoder_id {
            Some(id) => Some(id),
            None => {
                let ids = self.objects.collect_object_ids(DrmKmsObjectType::Encoder, Some(connector.possible_encoders()));
                if ids.len() > 0 {
                    Some(ids[0])
                } else {
                    None
                }
            },
        }
    }

    /// Probes connector `conn_id`: it uses its current encoder, else the
    /// first it can use; with a boot framebuffer `firmware` it is connected
    /// with that framebuffer's one mode, else it is disconnected.
    pub fn update_connector_state(&mut self, conn_id: KmsObjectId, firmware: Option<FirmwareFb>) -> (r: Result<(), DrmError>)
        requires
            old(self).wf(),
            firmware matches Some(fw) ==> firmware_mode_fits(fw),
        ensures
            final(self).wf(),
            final(self).spec_vma_manager() == old(self).spec_vma_manager(),
            match old(self).spec_objects().spec_get::<DrmConnector>(conn_id) {
                None => r == Err::<(), DrmError>(DrmError::NotFound) && *final(self) == *old(self),
                Some(c0) => {
                    &&& r is Ok
                    &&& final(self).spec_objects().spec_get::<DrmConnector>(conn_id) matches Some(c1) && {
                        &&& connector_probed(old(self).spec_objects(), c0, c1, firmware)
                        &&& old(self).spec_objects().replaced(&final(self).spec_objects(), conn_id, DrmKmsObject::Connector(c1))
                    }
                },
            },
    {
        let ghost s0 = self.objects;
        let encoder_id = match self.objects.get_object::<DrmConnector>(conn_id) {
            Some(connector) => self.choose_encoder(connector),
            None => {
                return Err(DrmError::NotFound);
            },
        };
        let ghost c0 = s0.spec_get::<DrmConnector>(conn_id).unwrap();
        self.objects.set_connector_encoder(conn_id, encoder_id);
        let ghost s1 = self.objects;
        proof {
            c0.lemma_with_encoder(encoder_id);
            assert(s1.spec_objects().contains_key(conn_id));
        }
        match firmware {
            None => {
                let no_modes: Vec<DrmDisplayMode> = Vec::new();
                let no_info = DrmDisplayInfo::default();
                proof {
                    assert(no_modes@ =~= Seq::<DrmDisplayMode>::empty());
                    assert(no_info == (DrmDisplayInfo { mm_width: 0, mm_height: 0, subpixel_order: SubpixelOrder::Unknown }));
                }
                self.objects.set_connector_display_state(conn_id, DrmConnStatus::Disconnected, no_modes, no_info, None);
            },
            Some(fw) => {
                let width: u16 = if fw.width > 0xFFFF {
                    0xFFFF
                } else {
                    fw.width as u16
                };
                let height: u16 = if fw.height > 0xFFFF {
                    0xFFFF
                } else {
                    fw.height as u16
                };
                let display_mode = DrmDisplayMode::new(width, height, SIMPLEDRM_VFRESH);
                let display_info = DrmDisplayInfo::new(
                    drm_mode_res_mm(width as u32, SIMPLEDRM_DPI),
                    drm_mode_res_mm(height as u32, SIMPLEDRM_DPI),
                    SubpixelOrder::Unknown,
                );
                let modes = vec![display_mode];
                proof {
                    assert(width == clamp_px(fw.width));
                    assert(height == clamp_px(fw.height));
                    assert(modes@ =~= seq![firmware_mode(fw)]);
                    assert(display_info == firmware_info(fw));
                }
                self.objects.set_connector_display_state(
                    conn_id,
                    DrmConnStatus::Connected,
                    modes,
                    display_info,
                    encoder_id,
                );
            },
        }
        proof {
            let c1 = self.objects.spec_get::<DrmConnector>(conn_id).unwrap();
            assert(self.objects.spec_objects() =~= s0.spec_objects().insert(conn_id, DrmKmsObject::Connector(c1)));
            assert(s0.replaced(&self.objects, conn_id, DrmKmsObject::Connector(c1)));
            assert(connector_probed(s0, c0, c1, firmware));
        }
        Ok(())
    }
}

/// Whether `s1` lists the same objects by type as `s0` and hands out the
/// same next id.
pub open spec fn lists_kept(s0: DrmKmsObjectStore, s1: DrmKmsObjectStore) -> bool {
    &&& forall|t: DrmKmsObjectType| #[trigger] s1.spec_ids(t) == s0.spec_ids(t)
    &&& s1.spec_next_id() == s0.spec_next_id()
}

/// What a mode set does not find or does not accept, if anything, checked
/// in this order: the CRTC, the framebuffer, the CRTC's primary plane, the
/// framebuffer's size against the mode, a connector given, that connector,
/// an encoder for it, that encoder, and whether it can take the CRTC.
pub open spec fn mode_set_error(
    store: DrmKmsObjectStore,
    crtc_id: KmsObjectId,
    fb_id: KmsObjectId,
    mode: DrmDisplayMode,
    connector_ids: Seq<KmsObjectId>,
) -> Option<DrmError> {
    match store.spec_get::<DrmCrtc>(crtc_id) {
        None => Some(DrmError::NotFound),
        Some(crtc) => match store.spec_get::<DrmFramebuffer>(fb_id) {
            None => Some(DrmError::NotFound),
            Some(fb) => if store.spec_get::<DrmPlane>(crtc.spec_primary_plane_id()) is None {
                Some(DrmError::NotFound)
            } else if fb.spec_width() < mode.spec_hdisplay() || fb.spec_height() < mode.spec_vdisplay() {
                Some(DrmError::Invalid)
            } else if connector_ids.len() == 0 {
                Some(DrmError::Invalid)
            } else {
                match store.spec_get::<DrmConnector>(connector_ids[0]) {
                    None => Some(DrmError::NotFound),
                    Some(conn) => match encoder_choice(store, conn) {
                        None => Some(DrmError::NotFound),
                        Some(eid) => match store.spec_get::<DrmEncoder>(eid) {
                            None => Some(DrmError::NotFound),
                            Some(enc) => if masked_ids(store.spec_ids(DrmKmsObjectType::Crtc), Some(enc.spec_possible_crtcs())).contains(
                                crtc_id,
                            ) {
                                None
                            } else {
                                Some(DrmError::Invalid)
                            },
                        },
                    },
                }
            },
        },
    }
}

/// The state a mode set gives the primary plane: the source rectangle at
/// (`x`, `y`) and the CRTC rectangle at the origin, both `hdisplay` wide and
/// `vdisplay` high, showing `fb_id` on `crtc_id`.
pub open spec fn mode_set_plane_state(crtc_id: KmsObjectId, fb_id: KmsObjectId, x: u32, y: u32, mode: DrmDisplayMode) -> DrmPlaneState {
    let w = mode.spec_hdisplay() as u32;
    let h = mode.spec_vdisplay() as u32;
    DrmPlaneState {
        src_rect_px: RectU32 { x, y, w, h },
        crtc_rect_px: RectU32 { x: 0, y: 0, w, h },
        fb_id: Some(fb_id),
        crtc_id: Some(crtc_id),
    }
}

/// The objects after a mode set that passed its checks: the connector uses
/// the encoder, the encoder takes the CRTC, the primary plane shows the
/// framebuffer and the CRTC is on with the mode.
pub open spec fn mode_set_objects(
    store: DrmKmsObjectStore,
    crtc_id: KmsObjectId,
    fb_id: KmsObjectId,
    x: u32,
    y: u32,
    mode: DrmDisplayMode,
    conn_id: KmsObjectId,
    encoder_id: KmsObjectId,
) -> Map<KmsObjectId, DrmKmsObject> {
    let crtc = store.spec_get::<DrmCrtc>(crtc_id).unwrap();
    let plane_id = crtc.spec_primary_plane_id();
    let plane = store.spec_get::<DrmPlane>(plane_id).unwrap();
    let conn = store.spec_get::<DrmConnector>(conn_id).unwrap();
    let enc = store.spec_get::<DrmEncoder>(encoder_id).unwrap();
    store.spec_objects().insert(conn_id, DrmKmsObject::Connector(conn.spec_with_encoder(Some(encoder_id)))).insert(
        encoder_id,
        DrmKmsObject::Encoder(enc.spec_with_crtc(Some(crtc_id))),
    ).insert(plane_id, DrmKmsObject::Plane(plane.spec_with_state(mode_set_plane_state(crtc_id, fb_id, x, y, mode)))).insert(
        crtc_id,
        DrmKmsObject::Crtc(crtc.spec_with_state(DrmCrtcState { display_mode: Some(mode), enable: true, active: true })),
    )
}

/// The objects after turning CRTC `crtc_id` and its primary plane off.
pub open spec fn crtc_off_objects(store: DrmKmsObjectStore, crtc_id: KmsObjectId) -> Map<KmsObjectId, DrmKmsObject> {
    let crtc = store.spec_get::<DrmCrtc>(crtc_id).unwrap();
    let plane_id = crtc.spec_primary_plane_id();
    let plane = store.spec_get::<DrmPlane>(plane_id).unwrap();
    store.spec_objects().insert(
        plane_id,
        DrmKmsObject::Plane(plane.spec_with_state(DrmPlaneState { fb_id: None, crtc_id: None, ..plane.spec_state() })),
    ).insert(crtc_id, DrmKmsObject::Crtc(crtc.spec_with_state(DrmCrtcState { display_mode: None, enable: false, active: false })))
}

/// What turning CRTC `crtc_id` off returns and leaves: nothing changes
/// without the CRTC or its primary plane; otherwise both are turned off,
/// then the first connector, if it uses an encoder that drives the CRTC,
/// is unlinked from it. A missing connector or encoder is reported after
/// the CRTC is off.
pub open spec fn crtc_off_outcome(store: DrmKmsObjectStore, crtc_id: KmsObjectId) -> (
    Result<(), DrmError>,
    Map<KmsObjectId, DrmKmsObject>,
) {
    match store.spec_get::<DrmCrtc>(crtc_id) {
        None => (Err(DrmError::NotFound), store.spec_objects()),
        Some(crtc) => if store.spec_get::<DrmPlane>(crtc.spec_primary_plane_id()) is None {
            (Err(DrmError::NotFound), store.spec_objects())
        } else {
            let off = crtc_off_objects(store, crtc_id);
            let conns = store.spec_ids(DrmKmsObjectType::Connector);
            if conns.len() == 0 {
                (Err(DrmError::NotFound), off)
            } else {
                let conn = store.spec_get::<DrmConnector>(conns[0]).unwrap();
                match conn.spec_encoder_id() {
                    None => (Ok(()), off),
                    Some(eid) => match store.spec_get::<DrmEncoder>(eid) {
                        None => (Err(DrmError::NotFound), off),
                        Some(enc) => if enc.spec_crtc_id() == Some(crtc_id) {
                            (
                                Ok(()),
                                off.insert(conns[0], DrmKmsObject::Connector(conn.spec_with_encoder(None))).insert(
                                    eid,
                                    DrmKmsObject::Encoder(enc.spec_with_crtc(None)),
                                ),
                            )
                        } else {
                            (Ok(()), off)
                        },
                    },
                }
            }
        },
    }
}

impl SimpleDrmDevice {
    /// Turns CRTC `crtc_id` and its primary plane off, and unlinks the
    /// first connector from it.
    fn crtc_off(&mut self, crtc_id: KmsObjectId) -> (r: Result<(), DrmError>)
        requires
            old(self).wf(),
        ensures
            final(self).wf(),
            final(self).spec_vma_manager() == old(self).spec_vma_manager(),
            lists_kept(old(self).spec_objects(), final(self).spec_objects()),
            r == crtc_off_outcome(old(self).spec_objects(), crtc_id).0,
            final(self).spec_objects().spec_objects() == crtc_off_outcome(old(self).spec_objects(), crtc_id).1,
    {
        let ghost s0 = self.objects;
        let (primary_id, crtc_state) = match self.objects.get_object::<DrmCrtc>(crtc_id) {
            Some(crtc) => (crtc.primary_plane_id(), *crtc.state()),
            None => {
                return Err(DrmError::NotFound);
            },
        };
        let plane_state = match self.objects.get_object::<DrmPlane>(primary_id) {
            Some(plane) => *plane.state(),
            None => {
                return Err(DrmError::NotFound);
            },
        };
        let mut new_plane_state = plane_state;
        new_plane_state.set_fb_id(None);
        new_plane_state.set_crtc_id(None);
        self.objects.set_plane_state(primary_id, new_plane_state);
        let ghost s1 = self.objects;
        let mut new_crtc_state = crtc_state;
        new_crtc_state.set_enable(false);
        new_crtc_state.set_active(false);
        new_crtc_state.set_display_mode(None);
        self.objects.set_crtc_state(crtc_id, new_crtc_state);
        let ghost s2 = self.objects;
        proof {
            assert(s2.spec_objects() =~= crtc_off_objects(s0, crtc_id));
        }
        let conns = self.objects.collect_object_ids(DrmKmsObjectType::Connector, None);
        proof {
            crate::store::lemma_masked_ids_all(s2.spec_ids(DrmKmsObjectType::Connector));
        }
        if conns.len() == 0 {
            return Err(DrmError::NotFound);
        }
        let conn_id = conns[0];
        proof {
            assert(s2.spec_objects().contains_key(conn_id));
            assert(s0.spec_get::<DrmConnector>(conn_id) == s2.spec_get::<DrmConnector>(conn_id));
        }
        let encoder_id = match self.objects.get_object::<DrmConnector>(conn_id) {
            Some(connector) => connector.snapshot().encoder_id,
            None => {
                return Err(DrmError::NotFound);
            },
        };
        if let Some(eid) = encoder_id {
            proof {
                assert(s0.spec_get::<DrmEncoder>(eid) == s2.spec_get::<DrmEncoder>(eid));
            }
            let driven = match self.objects.get_object::<DrmEncoder>(eid) {
                Some(encoder) => encoder.crtc_id(),
                None => {
                    return Err(DrmError::NotFound);
                },
            };
            if driven == Some(crtc_id) {
                self.objects.set_connector_encoder(conn_id, None);
                self.objects.set_encoder_crtc(eid, None);
            }
        }
        Ok(())
    }

    /// Checks and performs a mode set, then plans the copy of the
    /// framebuffer into the boot framebuffer.
    fn mode_set(
        &mut self,
        crtc_id: KmsObjectId,
        fb_id: KmsObjectId,
        x: u32,
        y: u32,
        mode: DrmDisplayMode,
        connector_ids: &[KmsObjectId],
        firmware: Option<FirmwareFb>,
    ) -> (r: Result<FirmwareCopy, DrmError>)
        requires
            old(self).wf(),
        ensures
            final(self).wf(),
            final(self).spec_vma_manager() == old(self).spec_vma_manager(),
            match mode_set_error(old(self).spec_objects(), crtc_id, fb_id, mode, connector_ids@) {
                Some(e) => r == Err::<FirmwareCopy, DrmError>(e) && *final(self) == *old(self),
                None => {
                    let s0 = old(self).spec_objects();
                    let conn_id = connector_ids@[0];
                    let eid = encoder_choice(s0, s0.spec_get::<DrmConnector>(conn_id).unwrap()).unwrap();
                    let fb = s0.spec_get::<DrmFramebuffer>(fb_id).unwrap();
                    &&& lists_kept(s0, final(self).spec_objects())
                    &&& final(self).spec_objects().spec_objects() == mode_set_objects(s0, crtc_id, fb_id, x, y, mode, conn_id, eid)
                    &&& match firmware_copy_error(fb, firmware) {
                        Some(e) => r == Err::<FirmwareCopy, DrmError>(e),
                        None => r matches Ok(copy) && firmware_copy_planned(fb, firmware.unwrap(), copy),
                    }
                },
            },
    {
        let ghost s0 = self.objects;
        let (primary_id, crtc_state) = match self.objects.get_object::<DrmCrtc>(crtc_id) {
            Some(crtc) => (crtc.primary_plane_id(), *crtc.state()),
            None => {
                return Err(DrmError::NotFound);
            },
        };
        let fb: DrmFramebuffer = match self.objects.get_object::<DrmFramebuffer>(fb_id) {
            Some(fb) => *fb,
            None => {
                return Err(DrmError::NotFound);
            },
        };
        if self.objects.get_object::<DrmPlane>(primary_id).is_none() {
            return Err(DrmError::NotFound);
        }
        if fb.width() < mode.hdisplay() as u32 || fb.height() < mode.vdisplay() as u32 {
            return Err(DrmError::Invalid);
        }
        if connector_ids.len() == 0 {
            return Err(DrmError::Invalid);
        }
        let conn_id = connector_ids[0];
        let encoder_choice = match self.objects.get_object::<DrmConnector>(conn_id) {
            Some(connector) => self.choose_encoder(connector),
            None => {
                return Err(DrmError::NotFound);
            },
        };
        let encoder_id = match encoder_choice {
            Some(id) => id,
            None => {
                return Err(DrmError::NotFound);
            },
        };
        let possible_crtcs = match self.objects.get_object::<DrmEncoder>(encoder_id) {
            Some(encoder) => encoder.possible_crtcs(),
            None => {
                return Err(DrmError::NotFound);
            },
        };
        let crtcs = self.objects.collect_object_ids(DrmKmsObjectType::Crtc, Some(possible_crtcs));
        if !crate::object_type::ids_contain(crtcs.as_slice(), crtc_id) {
            return Err(DrmError::Invalid);
        }
        let w = mode.hdisplay() as u32;
        let h = mode.vdisplay() as u32;
        let src_rect = RectU32::new(x, y, w, h);
        let crtc_rect = RectU32::new(0, 0, w, h);
        self.objects.set_connector_encoder(conn_id, Some(encoder_id));
        self.objects.set_encoder_crtc(encoder_id, Some(crtc_id));
        let plane_state = DrmPlaneState { src_rect_px: src_rect, crtc_rect_px: crtc_rect, fb_id: Some(fb_id), crtc_id: Some(crtc_id) };
        self.objects.set_plane_state(primary_id, plane_state);
        let mut new_crtc_state = crtc_state;
        new_crtc_state.set_enable(true);
        new_crtc_state.set_active(true);
        new_crtc_state.set_display_mode(Some(mode));
        self.objects.set_crtc_state(crtc_id, new_crtc_state);
        proof {
            assert(self.objects.spec_objects() =~= mode_set_objects(s0, crtc_id, fb_id, x, y, mode, conn_id, encoder_id));
        }
        write_firmware_fb(&fb, firmware)
    }

    /// The legacy mode set: without a mode, turns the CRTC off; with one,
    /// shows framebuffer `fb_id` from (`x`, `y`) on CRTC `crtc_id` through
    /// the first of `connector_ids`, and returns how to copy it into the
    /// boot framebuffer `firmware`.
    pub fn set_crtc(
        &mut self,
        crtc_id: KmsObjectId,
        fb_id: KmsObjectId,
        x: u32,
        y: u32,
        display_mode: Option<DrmDisplayMode>,
        connector_ids: Vec<KmsObjectId>,
        firmware: Option<FirmwareFb>,
    ) -> (r: Result<Option<FirmwareCopy>, DrmError>)
        requires
            old(self).wf(),
        ensures
            final(self).wf(),
            final(self).spec_vma_manager() == old(self).spec_vma_manager(),
            lists_kept(old(self).spec_objects(), final(self).spec_objects()),
            match display_mode {
                None => {
                    let (res, objs) = crtc_off_outcome(old(self).spec_objects(), crtc_id);
                    &&& final(self).spec_objects().spec_objects() == objs
                    &&& match res {
                        Ok(()) => r matches Ok(None),
                        Err(e) => r matches Err(e2) && e2 == e,
                    }
                },
                Some(mode) => match mode_set_error(old(self).spec_objects(), crtc_id, fb_id, mode, connector_ids@) {
                    Some(e) => r matches Err(e2) && e2 == e && *final(self) == *old(self),
                    None => {
                        let s0 = old(self).spec_objects();
                        let conn_id = connector_ids@[0];
                        let eid = encoder_choice(s0, s0.spec_get::<DrmConnector>(conn_id).unwrap()).unwrap();
                        let fb = s0.spec_get::<DrmFramebuffer>(fb_id).unwrap();
                        &&& final(self).spec_objects().spec_objects() == mode_set_objects(s0, crtc_id, fb_id, x, y, mode, conn_id, eid)
                        &&& match firmware_copy_error(fb, firmware) {
                            Some(e) => r matches Err(e2) && e2 == e,
                            None => r matches Ok(Some(copy)) && firmware_copy_planned(fb, firmware.unwrap(), copy),
                        }
                    },
                },
            },
    {
        match display_mode {
            None => match self.crtc_off(crtc_id) {
                Ok(()) => Ok(None),
                Err(e) => Err(e),
            },
            Some(mode) => match self.mode_set(crtc_id, fb_id, x, y, mode, connector_ids.as_slice(), firmware) {
                Ok(copy) => Ok(Some(copy)),
                Err(e) => Err(e),
            },
        }
    }

    /// The layout of a dumb buffer of `width` x `height` pixels of `bpp`
    /// bits: its size in bytes and its pitch; too large a buffer is invalid.
    pub fn create_dumb(&self, width: u32, height: u32, bpp: u32) -> (r: Result<(usize, u32), DrmError>)
        ensures
            match r {
                Ok((size, pitch)) => pitch == width * (bpp / 8) && size == pitch * height,
                Err(e) => e == DrmError::Invalid && (width * (bpp / 8) > u32::MAX || width * (bpp / 8) * height > u32::MAX),
            },
    {
        let pitch = match width.checked_mul(bpp / 8) {
            Some(p) => p,
            None => {
                return Err(DrmError::Invalid);
            },
        };
        let size = match pitch.checked_mul(height) {
            Some(s) => s as usize,
            None => {
                return Err(DrmError::Invalid);
            },
        };
        Ok((size, pitch))
    }
}

} // verus!
