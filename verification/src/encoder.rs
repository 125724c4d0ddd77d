//! Encoders: the links between CRTCs and connectors.
use vstd::prelude::*;

use crate::mask::{index_mask, indices_fit, mask_of};
use crate::object_type::{KmsObjectId, KmsObjectIndex};

verus! {

/// The committed configuration of an encoder: the CRTC it is driven by.
#[derive(Debug, Clone, Copy, PartialEq, Eq, Structural)]
pub struct DrmEncoderState {
    pub crtc_id: Option<KmsObjectId>,
}

impl Default for DrmEncoderState {
    fn default() -> (s: Self)
        ensures
            s.crtc_id is None,
    {
        DrmEncoderState { crtc_id: None }
    }
}

/// Kinds of encoders (`DRM_MODE_ENCODER_*`).
#[allow(non_camel_case_types, clippy::upper_case_acronyms)]
#[derive(Debug, Clone, Copy, PartialEq, Eq, Structural)]
pub enum DrmEncoderType {
    NONE,
    DAC,
    TMDS,
    LVDS,
    TVDAC,
    VIRTUAL,
    DSI,
    DPMST,
    DPI,
}

impl DrmEncoderType {
    /// The `DRM_MODE_ENCODER_*` number of the kind.
    pub open spec fn spec_value(self) -> u32 {
        match self {
            DrmEncoderType::NONE => 0,
            DrmEncoderType::DAC => 1,
            DrmEncoderType::TMDS => 2,
            DrmEncoderType::LVDS => 3,
            DrmEncoderType::TVDAC => 4,
            DrmEncoderType::VIRTUAL => 5,
            DrmEncoderType::DSI => 6,
            DrmEncoderType::DPMST => 7,
            DrmEncoderType::DPI => 8,
        }
    }

    pub fn value(self) -> (v: u32)
        ensures
            v == self.spec_value(),
    {
        match self {
            DrmEncoderType::NONE => 0,
            DrmEncoderType::DAC => 1,
            DrmEncoderType::TMDS => 2,
            DrmEncoderType::LVDS => 3,
            DrmEncoderType::TVDAC => 4,
            DrmEncoderType::VIRTUAL => 5,
            DrmEncoderType::DSI => 6,
            DrmEncoderType::DPMST => 7,
            DrmEncoderType::DPI => 8,
        }
    }
}

/// An encoder: its kind, the CRTC driving it, and the CRTCs it can take.
pub struct DrmEncoder {
    type_: DrmEncoderType,
    state: DrmEncoderState,
    possible_crtcs: u32,
}

impl DrmEncoder {
    pub closed spec fn spec_type(&self) -> DrmEncoderType {
        self.type_
    }

    pub closed spec fn spec_crtc_id(&self) -> Option<KmsObjectId> {
        self.state.crtc_id
    }

    /// The mask of CRTC indices this encoder can take.
    pub closed spec fn spec_possible_crtcs(&self) -> u32 {
        self.possible_crtcs
    }

    /// The same encoder driven by `crtc_id`.
    pub closed spec fn spec_with_crtc(&self, crtc_id: Option<KmsObjectId>) -> DrmEncoder {
        DrmEncoder { state: DrmEncoderState { crtc_id }, ..*self }
    }

    /// Creates an encoder driven by no CRTC; `possible_crtcs` lists the
    /// indices of the CRTCs it can take.
    pub fn new(type_: DrmEncoderType, possible_crtcs: &[KmsObjectIndex]) -> (e: Self)
        requires
            indices_fit(possible_crtcs@),
        ensures
            e.spec_type() == type_,
            e.spec_crtc_id() is None,
            e.spec_possible_crtcs() == index_mask(possible_crtcs@),
    {
        DrmEncoder { type_, state: DrmEncoderState::default(), possible_crtcs: mask_of(possible_crtcs) }
    }

    pub fn type_(&self) -> (t: DrmEncoderType)
        ensures
            t == self.spec_type(),
    {
        self.type_
    }

    pub fn state(&self) -> (s: &DrmEncoderState)
        ensures
            s.crtc_id == self.spec_crtc_id(),
    {
        &self.state
    }

    pub fn possible_crtcs(&self) -> (m: u32)
        ensures
            m == self.spec_possible_crtcs(),
    {
        self.possible_crtcs
    }

    pub fn crtc_id(&self) -> (id: Option<KmsObjectId>)
        ensures
            id == self.spec_crtc_id(),
    {
        self.state.crtc_id
    }

    pub fn set_crtc_id(&mut self, crtc_id: Option<KmsObjectId>)
        ensures
            *final(self) == old(self).spec_with_crtc(crtc_id),
    {
        self.state.crtc_id = crtc_id;
    }
}

} // verus!
