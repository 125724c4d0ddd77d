//! The standard properties of connectors, CRTCs and planes.
use vstd::prelude::*;

use crate::object_type::DrmKmsObjectType;
use crate::property::{DrmProperty, DrmPropertyEnum, DrmPropertyFlags, DrmPropertyKind, DrmPropertySpec};

verus! {

/// The values of an enumeration or bitmask kind, in order.
pub open spec fn kind_enum_values(kind: DrmPropertyKind) -> Option<Seq<u64>> {
    match kind {
        DrmPropertyKind::Enum(entries) => Some(entries@.map_values(|e: DrmPropertyEnum| e.value)),
        DrmPropertyKind::Bitmask(entries) => Some(entries@.map_values(|e: DrmPropertyEnum| e.value)),
        _ => None,
    }
}

/// Connector properties.
#[derive(Debug, Clone, Copy, PartialEq, Eq, Hash, Structural)]
pub enum DrmConnectorProps {
    Edid,
    Path,
    HdrOutputMetadata,
    CrtcId,
    Dpms,
    LinkStatus,
    NonDesktop,
    Tile,
}

impl DrmConnectorProps {
    /// The flag bits of the property definition.
    pub open spec fn spec_flag_bits(self) -> u32 {
        match self {
            DrmConnectorProps::Edid | DrmConnectorProps::Path | DrmConnectorProps::Tile => 4u32 | 0x10u32,
            DrmConnectorProps::HdrOutputMetadata => 0x8000_0000u32 | 0x10u32,
            DrmConnectorProps::CrtcId => 0x8000_0000u32 | 0x40u32,
            DrmConnectorProps::Dpms | DrmConnectorProps::LinkStatus => 0u32 | 8u32,
            DrmConnectorProps::NonDesktop => 4u32 | 2u32,
        }
    }
}

impl DrmPropertySpec for DrmConnectorProps {
    open spec fn spec_name(&self) -> &'static str {
        match self {
            DrmConnectorProps::Edid => "EDID",
            DrmConnectorProps::Path => "PATH",
            DrmConnectorProps::HdrOutputMetadata => "HDR_OUTPUT_METADATA",
            DrmConnectorProps::CrtcId => "CRTC_ID",
            DrmConnectorProps::Dpms => "DPMS",
            DrmConnectorProps::LinkStatus => "link-status",
            DrmConnectorProps::NonDesktop => "non-desktop",
            DrmConnectorProps::Tile => "TILE",
        }
    }

    fn name(&self) -> (n: &'static str) {
        match self {
            DrmConnectorProps::Edid => "EDID",
            DrmConnectorProps::Path => "PATH",
            DrmConnectorProps::HdrOutputMetadata => "HDR_OUTPUT_METADATA",
            DrmConnectorProps::CrtcId => "CRTC_ID",
            DrmConnectorProps::Dpms => "DPMS",
            DrmConnectorProps::LinkStatus => "link-status",
            DrmConnectorProps::NonDesktop => "non-desktop",
            DrmConnectorProps::Tile => "TILE",
        }
    }

    fn build(&self) -> (p: DrmProperty)
        ensures
            p.spec_flags().spec_bits() == self.spec_flag_bits(),
            match self {
                DrmConnectorProps::CrtcId => p.spec_kind() == DrmPropertyKind::Object(DrmKmsObjectType::Crtc),
                DrmConnectorProps::Dpms => kind_enum_values(p.spec_kind()) == Some(seq![0u64, 1, 2, 3]),
                DrmConnectorProps::LinkStatus => kind_enum_values(p.spec_kind()) == Some(seq![0u64, 1]),
                DrmConnectorProps::NonDesktop => p.spec_kind() == (DrmPropertyKind::Range { min: 0, max: 1 }),
                _ => p.spec_kind() == DrmPropertyKind::Blob,
            },
    {
        match self {
            DrmConnectorProps::Edid => DrmProperty::create_blob(self.name(), DrmPropertyFlags::IMMUTABLE()),
            DrmConnectorProps::Path => DrmProperty::create_blob(self.name(), DrmPropertyFlags::IMMUTABLE()),
            DrmConnectorProps::HdrOutputMetadata => DrmProperty::create_blob(self.name(), DrmPropertyFlags::ATOMIC()),
            DrmConnectorProps::CrtcId => DrmProperty::create_object(
                self.name(),
                DrmPropertyFlags::ATOMIC(),
                DrmKmsObjectType::Crtc,
            ),
            DrmConnectorProps::Dpms => {
                let entries = vec![
                    DrmPropertyEnum::new(0, "On"),
                    DrmPropertyEnum::new(1, "Standby"),
                    DrmPropertyEnum::new(2, "Suspend"),
                    DrmPropertyEnum::new(3, "Off"),
                ];
                let p = DrmProperty::create_enum(self.name(), DrmPropertyFlags::empty(), entries);
                assert(kind_enum_values(p.spec_kind()).unwrap() =~= seq![0u64, 1, 2, 3]);
                p
            },
            DrmConnectorProps::LinkStatus => {
                let entries = vec![DrmPropertyEnum::new(0, "Good"), DrmPropertyEnum::new(1, "Bad")];
                let p = DrmProperty::create_enum(self.name(), DrmPropertyFlags::empty(), entries);
                assert(kind_enum_values(p.spec_kind()).unwrap() =~= seq![0u64, 1]);
                p
            },
            DrmConnectorProps::NonDesktop => DrmProperty::create_bool(self.name(), DrmPropertyFlags::IMMUTABLE()),
            DrmConnectorProps::Tile => DrmProperty::create_blob(self.name(), DrmPropertyFlags::IMMUTABLE()),
        }
    }
}

/// CRTC properties.
#[derive(Debug, Clone, Copy, PartialEq, Eq, Hash, Structural)]
pub enum DrmCrtcProps {
    Active,
    ModeId,
}

impl DrmPropertySpec for DrmCrtcProps {
    open spec fn spec_name(&self) -> &'static str {
        match self {
            DrmCrtcProps::Active => "ACTIVE",
            DrmCrtcProps::ModeId => "MODE_ID",
        }
    }

    fn name(&self) -> (n: &'static str) {
        match self {
            DrmCrtcProps::Active => "ACTIVE",
            DrmCrtcProps::ModeId => "MODE_ID",
        }
    }

    fn build(&self) -> (p: DrmProperty)
        ensures
            match self {
                DrmCrtcProps::Active => p.spec_kind() == (DrmPropertyKind::Range { min: 0, max: 1 })
                    && p.spec_flags().spec_bits() == 0x8000_0000u32 | 2,
                DrmCrtcProps::ModeId => p.spec_kind() == DrmPropertyKind::Blob
                    && p.spec_flags().spec_bits() == 0x8000_0000u32 | 0x10,
            },
    {
        match self {
            DrmCrtcProps::Active => DrmProperty::create_bool(self.name(), DrmPropertyFlags::ATOMIC()),
            DrmCrtcProps::ModeId => DrmProperty::create_blob(self.name(), DrmPropertyFlags::ATOMIC()),
        }
    }
}

/// Plane properties.
#[derive(Debug, Clone, Copy, PartialEq, Eq, Hash, Structural)]
pub enum DrmPlaneProps {
    Type,
    InFormats,
    SrcX,
    SrcY,
    SrcW,
    SrcH,
    CrtcX,
    CrtcY,
    CrtcW,
    CrtcH,
    FbId,
    CrtcId,
}

impl DrmPropertySpec for DrmPlaneProps {
    open spec fn spec_name(&self) -> &'static str {
        match self {
            DrmPlaneProps::Type => "type",
            DrmPlaneProps::InFormats => "IN_FORMATS",
            DrmPlaneProps::SrcX => "SRC_X",
            DrmPlaneProps::SrcY => "SRC_Y",
            DrmPlaneProps::SrcW => "SRC_W",
            DrmPlaneProps::SrcH => "SRC_H",
            DrmPlaneProps::CrtcX => "CRTC_X",
            DrmPlaneProps::CrtcY => "CRTC_Y",
            DrmPlaneProps::CrtcW => "CRTC_W",
            DrmPlaneProps::CrtcH => "CRTC_H",
            DrmPlaneProps::FbId => "FB_ID",
            DrmPlaneProps::CrtcId => "CRTC_ID",
        }
    }

    fn name(&self) -> (n: &'static str) {
        match self {
            DrmPlaneProps::Type => "type",
            DrmPlaneProps::InFormats => "IN_FORMATS",
            DrmPlaneProps::SrcX => "SRC_X",
            DrmPlaneProps::SrcY => "SRC_Y",
            DrmPlaneProps::SrcW => "SRC_W",
            DrmPlaneProps::SrcH => "SRC_H",
            DrmPlaneProps::CrtcX => "CRTC_X",
            DrmPlaneProps::CrtcY => "CRTC_Y",
            DrmPlaneProps::CrtcW => "CRTC_W",
            DrmPlaneProps::CrtcH => "CRTC_H",
            DrmPlaneProps::FbId => "FB_ID",
            DrmPlaneProps::CrtcId => "CRTC_ID",
        }
    }

    fn build(&self) -> (p: DrmProperty)
        ensures
            match self {
                DrmPlaneProps::Type => kind_enum_values(p.spec_kind()) == Some(seq![1u64, 0, 2])
                    && p.spec_flags().spec_bits() == 0x8000_0000u32 | 8,
                DrmPlaneProps::InFormats => p.spec_kind() == DrmPropertyKind::Blob
                    && p.spec_flags().spec_bits() == (0x8000_0000u32 | 4) | 0x10,
                DrmPlaneProps::FbId => p.spec_kind() == DrmPropertyKind::Object(DrmKmsObjectType::Framebuffer)
                    && p.spec_flags().spec_bits() == 0x8000_0000u32 | 0x40,
                DrmPlaneProps::CrtcId => p.spec_kind() == DrmPropertyKind::Object(DrmKmsObjectType::Crtc)
                    && p.spec_flags().spec_bits() == 0x8000_0000u32 | 0x40,
                _ => p.spec_kind() == (DrmPropertyKind::Range { min: 0, max: 0xFFFF_FFFF })
                    && p.spec_flags().spec_bits() == 0x8000_0000u32 | 2,
            },
    {
        match self {
            DrmPlaneProps::Type => {
                let entries = vec![
                    DrmPropertyEnum::new(1, "Primary"),
                    DrmPropertyEnum::new(0, "Overlay"),
                    DrmPropertyEnum::new(2, "Cursor"),
                ];
                let p = DrmProperty::create_enum(self.name(), DrmPropertyFlags::ATOMIC(), entries);
                assert(kind_enum_values(p.spec_kind()).unwrap() =~= seq![1u64, 0, 2]);
                p
            },
            DrmPlaneProps::InFormats => DrmProperty::create_blob(
                self.name(),
                DrmPropertyFlags::ATOMIC().union(DrmPropertyFlags::IMMUTABLE()),
            ),
            DrmPlaneProps::FbId => DrmProperty::create_object(
                self.name(),
                DrmPropertyFlags::ATOMIC(),
                DrmKmsObjectType::Framebuffer,
            ),
            DrmPlaneProps::CrtcId => DrmProperty::create_object(
                self.name(),
                DrmPropertyFlags::ATOMIC(),
                DrmKmsObjectType::Crtc,
            ),
            _ => DrmProperty::create_range(self.name(), DrmPropertyFlags::ATOMIC(), 0, 0xFFFF_FFFF),
        }
    }
}

} // verus!
