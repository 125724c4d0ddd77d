//! Planes: the scan-out sources that feed CRTCs.
use vstd::prelude::*;

use crate::display::DrmDisplayFormat;
use crate::geometry::RectU32;
use crate::mask::{index_mask, indices_fit, mask_of};
use crate::object_type::{KmsObjectId, KmsObjectIndex};
use crate::property::DrmKmsObjectProp;

verus! {

/// The role of a plane (`DRM_PLANE_TYPE_*`).
#[derive(Debug, Clone, Copy, PartialEq, Eq, Structural)]
pub enum DrmPlaneType {
    Overlay,
    Primary,
    Cursor,
}

impl DrmPlaneType {
    /// The `DRM_PLANE_TYPE_*` number of the role.
    pub open spec fn spec_value(self) -> u64 {
        match self {
            DrmPlaneType::Overlay => 0,
            DrmPlaneType::Primary => 1,
            DrmPlaneType::Cursor => 2,
        }
    }

    pub fn value(self) -> (v: u64)
        ensures
            v == self.spec_value(),
    {
        match self {
            DrmPlaneType::Overlay => 0,
            DrmPlaneType::Primary => 1,
            DrmPlaneType::Cursor => 2,
        }
    }
}

/// The committed configuration of a plane.
#[derive(Debug, Clone, Copy, PartialEq, Eq, Structural)]
pub struct DrmPlaneState {
    pub src_rect_px: RectU32,
    pub crtc_rect_px: RectU32,
    pub fb_id: Option<KmsObjectId>,
    pub crtc_id: Option<KmsObjectId>,
}

impl DrmPlaneState {
    /// A plane that shows nothing: empty rectangles, no framebuffer, no CRTC.
    pub open spec fn spec_default() -> DrmPlaneState {
        DrmPlaneState { src_rect_px: RectU32::zero(), crtc_rect_px: RectU32::zero(), fb_id: None, crtc_id: None }
    }

    pub fn set_src_rect(&mut self, rect: RectU32)
        ensures
            *final(self) == (DrmPlaneState { src_rect_px: rect, ..*old(self) }),
    {
        self.src_rect_px = rect;
    }

    pub fn set_crtc_rect(&mut self, rect: RectU32)
        ensures
            *final(self) == (DrmPlaneState { crtc_rect_px: rect, ..*old(self) }),
    {
        self.crtc_rect_px = rect;
    }

    pub fn set_fb_id(&mut self, fb_id: Option<KmsObjectId>)
        ensures
            *final(self) == (DrmPlaneState { fb_id, ..*old(self) }),
    {
        self.fb_id = fb_id;
    }

    pub fn set_crtc_id(&mut self, crtc_id: Option<KmsObjectId>)
        ensures
            *final(self) == (DrmPlaneState { crtc_id, ..*old(self) }),
    {
        self.crtc_id = crtc_id;
    }
}

impl Default for DrmPlaneState {
    fn default() -> (s: Self)
        ensures
            s == DrmPlaneState::spec_default(),
    {
        DrmPlaneState {
            src_rect_px: RectU32::new(0, 0, 0, 0),
            crtc_rect_px: RectU32::new(0, 0, 0, 0),
            fb_id: None,
            crtc_id: None,
        }
    }
}

/// A copy of a plane's configuration taken at one moment.
#[derive(Debug, Clone, Copy, PartialEq, Eq, Structural)]
pub struct DrmPlaneSnapshot {
    pub src_rect_px: RectU32,
    pub crtc_rect_px: RectU32,
    pub fb_id: Option<KmsObjectId>,
    pub crtc_id: Option<KmsObjectId>,
}

impl DrmPlaneSnapshot {
    /// The snapshot of a plane in state `s`.
    pub open spec fn of(s: DrmPlaneState) -> DrmPlaneSnapshot {
        DrmPlaneSnapshot { src_rect_px: s.src_rect_px, crtc_rect_px: s.crtc_rect_px, fb_id: s.fb_id, crtc_id: s.crtc_id }
    }

    pub fn src_rect(&self) -> (r: RectU32)
        ensures
            r == self.src_rect_px,
    {
        self.src_rect_px
    }

    pub fn crtc_rect(&self) -> (r: RectU32)
        ensures
            r == self.crtc_rect_px,
    {
        self.crtc_rect_px
    }

    pub fn fb_id(&self) -> (id: Option<KmsObjectId>)
        ensures
            id == self.fb_id,
    {
        self.fb_id
    }

    pub fn crtc_id(&self) -> (id: Option<KmsObjectId>)
        ensures
            id == self.crtc_id,
    {
        self.crtc_id
    }
}

/// A plane: its role, configuration, the CRTCs it can feed and the pixel
/// formats it can scan out.
pub struct DrmPlane {
    type_: DrmPlaneType,
    state: DrmPlaneState,
    possible_crtcs: u32,
    format_types: Vec<DrmDisplayFormat>,
    properties: DrmKmsObjectProp,
}

impl DrmPlane {
    pub closed spec fn spec_type(&self) -> DrmPlaneType {
        self.type_
    }

    pub closed spec fn spec_state(&self) -> DrmPlaneState {
        self.state
    }

    /// The mask of CRTC indices this plane can feed.
    pub closed spec fn spec_possible_crtcs(&self) -> u32 {
        self.possible_crtcs
    }

    pub closed spec fn spec_format_types(&self) -> Seq<DrmDisplayFormat> {
        self.format_types@
    }

    pub closed spec fn spec_properties(&self) -> DrmKmsObjectProp {
        self.properties
    }

    /// The same plane in state `s`.
    pub closed spec fn spec_with_state(&self, s: DrmPlaneState) -> DrmPlane {
        DrmPlane { state: s, ..*self }
    }

    pub proof fn lemma_with_state(&self, s: DrmPlaneState)
        ensures
            self.spec_with_state(s).spec_state() == s,
            self.spec_with_state(s).spec_type() == self.spec_type(),
            self.spec_with_state(s).spec_possible_crtcs() == self.spec_possible_crtcs(),
            self.spec_with_state(s).spec_format_types() == self.spec_format_types(),
            self.spec_with_state(s).spec_properties() == self.spec_properties(),
    {
    }

    /// Creates a plane that shows nothing; `possible_crtcs` lists the indices
    /// of the CRTCs it can feed.
    pub fn new(
        type_: DrmPlaneType,
        format_types: Vec<DrmDisplayFormat>,
        possible_crtcs: &[KmsObjectIndex],
        properties: DrmKmsObjectProp,
    ) -> (p: Self)
        requires
            indices_fit(possible_crtcs@),
        ensures
            p.spec_type() == type_,
            p.spec_state() == DrmPlaneState::spec_default(),
            p.spec_possible_crtcs() == index_mask(possible_crtcs@),
            p.spec_format_types() == format_types@,
            p.spec_properties() == properties,
    {
        let possible_crtcs_mask = mask_of(possible_crtcs);
        DrmPlane {
            type_,
            state: DrmPlaneState::default(),
            possible_crtcs: possible_crtcs_mask,
            format_types,
            properties,
        }
    }

    pub fn type_(&self) -> (t: DrmPlaneType)
        ensures
            t == self.spec_type(),
    {
        self.type_
    }

    pub fn state(&self) -> (s: &DrmPlaneState)
        ensures
            *s == self.spec_state(),
    {
        &self.state
    }

    pub fn snapshot(&self) -> (s: DrmPlaneSnapshot)
        ensures
            s == DrmPlaneSnapshot::of(self.spec_state()),
    {
        DrmPlaneSnapshot {
            src_rect_px: self.state.src_rect_px,
            crtc_rect_px: self.state.crtc_rect_px,
            fb_id: self.state.fb_id,
            crtc_id: self.state.crtc_id,
        }
    }

    pub fn properties(&self) -> (p: &DrmKmsObjectProp)
        ensures
            *p == self.spec_properties(),
    {
        &self.properties
    }

    pub fn possible_crtcs(&self) -> (m: u32)
        ensures
            m == self.spec_possible_crtcs(),
    {
        self.possible_crtcs
    }

    pub fn format_types(&self) -> (f: &[DrmDisplayFormat])
        ensures
            f@ == self.spec_format_types(),
    {
        self.format_types.as_slice()
    }

    /// Replaces the whole configuration.
    pub fn set_state(&mut self, s: DrmPlaneState)
        ensures
            *final(self) == old(self).spec_with_state(s),
    {
        self.state = s;
    }

    pub fn set_crtc_id(&mut self, crtc_id: Option<KmsObjectId>)
        ensures
            *final(self) == old(self).spec_with_state(DrmPlaneState { crtc_id, ..old(self).spec_state() }),
    {
        self.state.crtc_id = crtc_id;
    }

    pub fn set_fb_id(&mut self, fb_id: Option<KmsObjectId>)
        ensures
            *final(self) == old(self).spec_with_state(DrmPlaneState { fb_id, ..old(self).spec_state() }),
    {
        self.state.fb_id = fb_id;
    }

    pub fn set_src_rect(&mut self, rect: RectU32)
        ensures
            *final(self) == old(self).spec_with_state(DrmPlaneState { src_rect_px: rect, ..old(self).spec_state() }),
    {
        self.state.src_rect_px = rect;
    }

    pub fn set_crtc_rect(&mut self, rect: RectU32)
        ensures
            *final(self) == old(self).spec_with_state(DrmPlaneState { crtc_rect_px: rect, ..old(self).spec_state() }),
    {
        self.state.crtc_rect_px = rect;
    }

    /// Whether the plane can scan out `format`.
    pub(crate) fn supports_format(&self, format: DrmDisplayFormat) -> (r: bool)
        ensures
            r == self.spec_format_types().contains(format),
    {
        let mut i: usize = 0;
        while i < self.format_types.len()
            invariant
                i <= self.format_types@.len(),
                forall|j: int| 0 <= j < i ==> self.format_types@[j] != format,
            decreases self.format_types@.len() - i,
        {
            if self.format_types[i] == format {
                assert(self.format_types@[i as int] == format);
                return true;
            }
            i = i + 1;
        }
        false
    }
}

} // verus!
