//! Connectors: the outputs a display is plugged into.
use vstd::prelude::*;

use crate::display::{DrmDisplayInfo, DrmDisplayMode};
use crate::error::DrmError;
use crate::mask::{index_mask, indices_fit, mask_of};
use crate::object_type::{KmsObjectId, KmsObjectIndex};
use crate::property::DrmKmsObjectProp;

verus! {

/// Kinds of connectors (`DRM_MODE_CONNECTOR_*`).
#[allow(non_camel_case_types, clippy::upper_case_acronyms)]
#[derive(Debug, Clone, Copy, Eq, PartialEq, Hash, Structural)]
pub enum DrmConnType {
    UNKNOWN,
    VGA,
    DVII,
    DVID,
    DVIA,
    COMPOSITE,
    SVIDEO,
    LVDS,
    COMPONENT,
    _9PINDIN,
    DISPLAYPORT,
    HDMIA,
    HDMIB,
    TV,
    EDP,
    VIRTUAL,
    DSI,
    DPI,
    WRITEBACK,
    SPI,
    USB,
}

impl DrmConnType {
    /// The `DRM_MODE_CONNECTOR_*` number of the kind.
    pub open spec fn spec_value(self) -> u32 {
        match self {
            DrmConnType::UNKNOWN => 0,
            DrmConnType::VGA => 1,
            DrmConnType::DVII => 2,
            DrmConnType::DVID => 3,
            DrmConnType::DVIA => 4,
            DrmConnType::COMPOSITE => 5,
            DrmConnType::SVIDEO => 6,
            DrmConnType::LVDS => 7,
            DrmConnType::COMPONENT => 8,
            DrmConnType::_9PINDIN => 9,
            DrmConnType::DISPLAYPORT => 10,
            DrmConnType::HDMIA => 11,
            DrmConnType::HDMIB => 12,
            DrmConnType::TV => 13,
            DrmConnType::EDP => 14,
            DrmConnType::VIRTUAL => 15,
            DrmConnType::DSI => 16,
            DrmConnType::DPI => 17,
            DrmConnType::WRITEBACK => 18,
            DrmConnType::SPI => 19,
            DrmConnType::USB => 20,
        }
    }

    pub fn value(self) -> (v: u32)
        ensures
            v == self.spec_value(),
    {
        match self {
            DrmConnType::UNKNOWN => 0,
            DrmConnType::VGA => 1,
            DrmConnType::DVII => 2,
            DrmConnType::DVID => 3,
            DrmConnType::DVIA => 4,
            DrmConnType::COMPOSITE => 5,
            DrmConnType::SVIDEO => 6,
            DrmConnType::LVDS => 7,
            DrmConnType::COMPONENT => 8,
            DrmConnType::_9PINDIN => 9,
            DrmConnType::DISPLAYPORT => 10,
            DrmConnType::HDMIA => 11,
            DrmConnType::HDMIB => 12,
            DrmConnType::TV => 13,
            DrmConnType::EDP => 14,
            DrmConnType::VIRTUAL => 15,
            DrmConnType::DSI => 16,
            DrmConnType::DPI => 17,
            DrmConnType::WRITEBACK => 18,
            DrmConnType::SPI => 19,
            DrmConnType::USB => 20,
        }
    }
}

/// Whether a display is attached to a connector.
#[derive(Debug, Clone, Copy, PartialEq, Eq, Structural)]
pub enum DrmConnStatus {
    Connected,
    Disconnected,
    Unknownconnection,
}

impl DrmConnStatus {
    /// The `DRM_MODE_CONNECTED` family number of the status.
    pub open spec fn spec_value(self) -> u32 {
        match self {
            DrmConnStatus::Connected => 1,
            DrmConnStatus::Disconnected => 2,
            DrmConnStatus::Unknownconnection => 3,
        }
    }

    pub fn value(self) -> (v: u32)
        ensures
            v == self.spec_value(),
    {
        match self {
            DrmConnStatus::Connected => 1,
            DrmConnStatus::Disconnected => 2,
            DrmConnStatus::Unknownconnection => 3,
        }
    }
}

impl Default for DrmConnStatus {
    fn default() -> (s: Self)
        ensures
            s == DrmConnStatus::Unknownconnection,
    {
        DrmConnStatus::Unknownconnection
    }
}

/// The detected display and the encoder currently used by a connector.
#[derive(Debug)]
pub struct DrmConnState {
    pub status: DrmConnStatus,
    pub display_modes: Vec<DrmDisplayMode>,
    pub display_info: DrmDisplayInfo,
    pub encoder_id: Option<KmsObjectId>,
}

impl Default for DrmConnState {
    fn default() -> (s: Self)
        ensures
            s.status == DrmConnStatus::Unknownconnection,
            s.display_modes@.len() == 0,
            s.display_info == (DrmDisplayInfo { mm_width: 0, mm_height: 0, subpixel_order: crate::display::SubpixelOrder::Unknown }),
            s.encoder_id is None,
    {
        DrmConnState {
            status: DrmConnStatus::default(),
            display_modes: Vec::new(),
            display_info: DrmDisplayInfo::default(),
            encoder_id: None,
        }
    }
}

/// A copy of a connector's state taken at one moment.
#[derive(Debug)]
pub struct DrmConnectorSnapshot {
    pub status: DrmConnStatus,
    pub display_modes: Vec<DrmDisplayMode>,
    pub mm_width: u32,
    pub mm_height: u32,
    pub subpixel: u32,
    pub encoder_id: Option<KmsObjectId>,
}

impl DrmConnectorSnapshot {
    pub fn status(&self) -> (s: DrmConnStatus)
        ensures
            s == self.status,
    {
        self.status
    }

    pub fn display_modes(&self) -> (m: &[DrmDisplayMode])
        ensures
            m@ == self.display_modes@,
    {
        self.display_modes.as_slice()
    }

    pub fn mm_width(&self) -> (w: u32)
        ensures
            w == self.mm_width,
    {
        self.mm_width
    }

    pub fn mm_height(&self) -> (h: u32)
        ensures
            h == self.mm_height,
    {
        self.mm_height
    }

    pub fn subpixel(&self) -> (s: u32)
        ensures
            s == self.subpixel,
    {
        self.subpixel
    }

    pub fn encoder_id(&self) -> (id: Option<KmsObjectId>)
        ensures
            id == self.encoder_id,
    {
        self.encoder_id
    }
}

/// Copies a list of modes.
fn copy_modes(modes: &[DrmDisplayMode]) -> (r: Vec<DrmDisplayMode>)
    ensures
        r@ == modes@,
{
    let mut r: Vec<DrmDisplayMode> = Vec::new();
    let mut i: usize = 0;
    while i < modes.len()
        invariant
            i <= modes@.len(),
            r@ == modes@.take(i as int),
        decreases modes@.len() - i,
    {
        r.push(modes[i]);
        i = i + 1;
        assert(r@ =~= modes@.take(i as int));
    }
    assert(modes@.take(i as int) =~= modes@);
    r
}

/// A connector: its kind, its number among connectors of that kind, its
/// state, and the encoders it can use.
pub struct DrmConnector {
    type_: DrmConnType,
    type_index: u32,
    state: DrmConnState,
    possible_encoders: u32,
    properties: DrmKmsObjectProp,
}

impl DrmConnector {
    pub closed spec fn spec_type(&self) -> DrmConnType {
        self.type_
    }

    pub closed spec fn spec_type_index(&self) -> u32 {
        self.type_index
    }

    pub closed spec fn spec_status(&self) -> DrmConnStatus {
        self.state.status
    }

    pub closed spec fn spec_display_modes(&self) -> Seq<DrmDisplayMode> {
        self.state.display_modes@
    }

    pub closed spec fn spec_display_info(&self) -> DrmDisplayInfo {
        self.state.display_info
    }

    pub closed spec fn spec_encoder_id(&self) -> Option<KmsObjectId> {
        self.state.encoder_id
    }

    /// The mask of encoder indices this connector can use.
    pub closed spec fn spec_possible_encoders(&self) -> u32 {
        self.possible_encoders
    }

    pub closed spec fn spec_properties(&self) -> DrmKmsObjectProp {
        self.properties
    }

    /// The same connector using encoder `encoder_id`.
    pub closed spec fn spec_with_encoder(&self, encoder_id: Option<KmsObjectId>) -> DrmConnector {
        DrmConnector { state: DrmConnState { encoder_id, ..self.state }, ..*self }
    }

    pub proof fn lemma_with_encoder(&self, encoder_id: Option<KmsObjectId>)
        ensures
            self.same_but_state(
                &self.spec_with_encoder(encoder_id),
                self.spec_status(),
                self.spec_display_modes(),
                self.spec_display_info(),
                encoder_id,
            ),
            self.spec_with_encoder(self.spec_encoder_id()) == *self,
    {
    }

    /// Whether `other` is this connector with only the state's encoder and
    /// display fields changed as given.
    pub open spec fn same_but_state(
        &self,
        other: &DrmConnector,
        status: DrmConnStatus,
        modes: Seq<DrmDisplayMode>,
        info: DrmDisplayInfo,
        encoder_id: Option<KmsObjectId>,
    ) -> bool {
        &&& other.spec_type() == self.spec_type()
        &&& other.spec_type_index() == self.spec_type_index()
        &&& other.spec_possible_encoders() == self.spec_possible_encoders()
        &&& other.spec_properties() == self.spec_properties()
        &&& other.spec_status() == status
        &&& other.spec_display_modes() == modes
        &&& other.spec_display_info() == info
        &&& other.spec_encoder_id() == encoder_id
    }

    /// Creates a connector with no display detected; `possible_encoders`
    /// lists the indices of the encoders it can use.
    pub fn new(
        type_: DrmConnType,
        type_index: u32,
        possible_encoders: &[KmsObjectIndex],
        properties: DrmKmsObjectProp,
    ) -> (c: Self)
        requires
            indices_fit(possible_encoders@),
        ensures
            c.spec_type() == type_,
            c.spec_type_index() == type_index,
            c.spec_status() == DrmConnStatus::Unknownconnection,
            c.spec_display_modes().len() == 0,
            c.spec_display_info() == (DrmDisplayInfo { mm_width: 0, mm_height: 0, subpixel_order: crate::display::SubpixelOrder::Unknown }),
            c.spec_encoder_id() is None,
            c.spec_possible_encoders() == index_mask(possible_encoders@),
            c.spec_properties() == properties,
    {
        DrmConnector {
            type_,
            type_index,
            state: DrmConnState::default(),
            possible_encoders: mask_of(possible_encoders),
            properties,
        }
    }

    pub fn type_(&self) -> (t: DrmConnType)
        ensures
            t == self.spec_type(),
    {
        self.type_
    }

    pub fn type_index(&self) -> (i: u32)
        ensures
            i == self.spec_type_index(),
    {
        self.type_index
    }

    pub fn state(&self) -> (s: &DrmConnState)
        ensures
            s.status == self.spec_status(),
            s.display_modes@ == self.spec_display_modes(),
            s.display_info == self.spec_display_info(),
            s.encoder_id == self.spec_encoder_id(),
    {
        &self.state
    }

    pub fn snapshot(&self) -> (s: DrmConnectorSnapshot)
        ensures
            s.status == self.spec_status(),
            s.display_modes@ == self.spec_display_modes(),
            s.mm_width == self.spec_display_info().mm_width,
            s.mm_height == self.spec_display_info().mm_height,
            s.subpixel == self.spec_display_info().subpixel_order.spec_value(),
            s.encoder_id == self.spec_encoder_id(),
    {
        DrmConnectorSnapshot {
            status: self.state.status,
            display_modes: copy_modes(self.state.display_modes.as_slice()),
            mm_width: self.state.display_info.mm_width(),
            mm_height: self.state.display_info.mm_height(),
            subpixel: self.state.display_info.subpixel_order(),
            encoder_id: self.state.encoder_id,
        }
    }

    pub fn properties(&self) -> (p: &DrmKmsObjectProp)
        ensures
            *p == self.spec_properties(),
    {
        &self.properties
    }

    pub fn possible_encoders(&self) -> (m: u32)
        ensures
            m == self.spec_possible_encoders(),
    {
        self.possible_encoders
    }

    pub fn set_current_encoder_id(&mut self, encoder_id: Option<KmsObjectId>)
        ensures
            *final(self) == old(self).spec_with_encoder(encoder_id),
    {
        self.state.encoder_id = encoder_id;
    }

    /// Records what the connector detected: its status, modes and display,
    /// and the encoder in use.
    pub fn set_display_state(
        &mut self,
        status: DrmConnStatus,
        display_modes: Vec<DrmDisplayMode>,
        display_info: DrmDisplayInfo,
        encoder_id: Option<KmsObjectId>,
    ) -> (r: Result<(), DrmError>)
        ensures
            r is Ok,
            old(self).same_but_state(final(self), status, display_modes@, display_info, encoder_id),
    {
        self.state.status = status;
        self.state.display_modes = display_modes;
        self.state.display_info = display_info;
        self.state.encoder_id = encoder_id;
        Ok(())
    }
}

} // verus!
