//! Object identifiers and object types of the KMS object model.
use vstd::prelude::*;

use crate::error::DrmError;

verus! {

/// The global identifier of a KMS object.
pub type KmsObjectId = u32;

/// The position of an object among the objects of its type.
pub type KmsObjectIndex = usize;

/// The value of a property attached to a KMS object.
pub type KmsObjectPropValue = u64;

/// Whether the list `v` holds the id `x`.
pub fn ids_contain(v: &[KmsObjectId], x: KmsObjectId) -> (r: bool)
    ensures
        r == v@.contains(x),
{
    let mut i: usize = 0;
    while i < v.len()
        invariant
            i <= v@.len(),
            forall|j: int| 0 <= j < i ==> v@[j] != x,
        decreases v@.len() - i,
    {
        if v[i] == x {
            assert(v@[i as int] == x);
            return true;
        }
        i = i + 1;
    }
    false
}

/// The types of KMS objects (`DRM_MODE_OBJECT_*`).
#[derive(Debug, PartialEq, Eq, Clone, Copy, Structural)]
pub enum DrmKmsObjectType {
    Any,
    Crtc,
    Connector,
    Encoder,
    Mode,
    Property,
    Framebuffer,
    Blob,
    Plane,
}

impl DrmKmsObjectType {
    /// The `DRM_MODE_OBJECT_*` number of the type.
    pub open spec fn spec_value(self) -> u32 {
        match self {
            DrmKmsObjectType::Any => 0,
            DrmKmsObjectType::Crtc => 0xCCCC_CCCC,
            DrmKmsObjectType::Connector => 0xC0C0_C0C0,
            DrmKmsObjectType::Encoder => 0xE0E0_E0E0,
            DrmKmsObjectType::Mode => 0xDEDE_DEDE,
            DrmKmsObjectType::Property => 0xB0B0_B0B0,
            DrmKmsObjectType::Framebuffer => 0xFBFB_FBFB,
            DrmKmsObjectType::Blob => 0xBBBB_BBBB,
            DrmKmsObjectType::Plane => 0xEEEE_EEEE,
        }
    }

    /// Returns the `DRM_MODE_OBJECT_*` number of the type.
    pub fn value(self) -> (v: u32)
        ensures
            v == self.spec_value(),
    {
        match self {
            DrmKmsObjectType::Any => 0,
            DrmKmsObjectType::Crtc => 0xCCCC_CCCC,
            DrmKmsObjectType::Connector => 0xC0C0_C0C0,
            DrmKmsObjectType::Encoder => 0xE0E0_E0E0,
            DrmKmsObjectType::Mode => 0xDEDE_DEDE,
            DrmKmsObjectType::Property => 0xB0B0_B0B0,
            DrmKmsObjectType::Framebuffer => 0xFBFB_FBFB,
            DrmKmsObjectType::Blob => 0xBBBB_BBBB,
            DrmKmsObjectType::Plane => 0xEEEE_EEEE,
        }
    }

    /// Returns the type whose number is `value`; any other number is invalid.
    pub fn try_from_u32(value: u32) -> (r: Result<Self, DrmError>)
        ensures
            match r {
                Ok(t) => t.spec_value() == value,
                Err(e) => e == DrmError::Invalid && forall|t: DrmKmsObjectType| t.spec_value() != value,
            },
            r == object_type_of(value),
    {
        match value {
            0 => Ok(DrmKmsObjectType::Any),
            0xCCCC_CCCC => Ok(DrmKmsObjectType::Crtc),
            0xC0C0_C0C0 => Ok(DrmKmsObjectType::Connector),
            0xE0E0_E0E0 => Ok(DrmKmsObjectType::Encoder),
            0xDEDE_DEDE => Ok(DrmKmsObjectType::Mode),
            0xB0B0_B0B0 => Ok(DrmKmsObjectType::Property),
            0xFBFB_FBFB => Ok(DrmKmsObjectType::Framebuffer),
            0xBBBB_BBBB => Ok(DrmKmsObjectType::Blob),
            0xEEEE_EEEE => Ok(DrmKmsObjectType::Plane),
            _ => Err(DrmError::Invalid),
        }
    }
}

/// The type whose number is `value`, or invalid.
pub open spec fn object_type_of(value: u32) -> Result<DrmKmsObjectType, DrmError> {
    if value == 0 {
        Ok(DrmKmsObjectType::Any)
    } else if value == 0xCCCC_CCCC {
        Ok(DrmKmsObjectType::Crtc)
    } else if value == 0xC0C0_C0C0 {
        Ok(DrmKmsObjectType::Connector)
    } else if value == 0xE0E0_E0E0 {
        Ok(DrmKmsObjectType::Encoder)
    } else if value == 0xDEDE_DEDE {
        Ok(DrmKmsObjectType::Mode)
    } else if value == 0xB0B0_B0B0 {
        Ok(DrmKmsObjectType::Property)
    } else if value == 0xFBFB_FBFB {
        Ok(DrmKmsObjectType::Framebuffer)
    } else if value == 0xBBBB_BBBB {
        Ok(DrmKmsObjectType::Blob)
    } else if value == 0xEEEE_EEEE {
        Ok(DrmKmsObjectType::Plane)
    } else {
        Err(DrmError::Invalid)
    }
}

impl TryFrom<u32> for DrmKmsObjectType {
    type Error = DrmError;

    fn try_from(value: u32) -> (r: Result<Self, DrmError>) {
        Self::try_from_u32(value)
    }
}

impl vstd::std_specs::convert::TryFromSpecImpl<u32> for DrmKmsObjectType {
    open spec fn obeys_try_from_spec() -> bool {
        true
    }

    open spec fn try_from_spec(value: u32) -> Result<Self, DrmError> {
        object_type_of(value)
    }
}

/// Reading a type back from its number gives the same type.
pub proof fn law_object_type_round_trip(t: DrmKmsObjectType, u: DrmKmsObjectType)
    ensures
        t.spec_value() == u.spec_value() ==> t == u,
{
}

} // verus!
