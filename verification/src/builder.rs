//! Declaring the KMS topology of a driver and materializing it as a store.
use vstd::prelude::*;

use crate::blob::DrmPropertyBlob;
use crate::connector::{DrmConnStatus, DrmConnType, DrmConnector};
use crate::crtc::{DrmCrtc, DrmCrtcState};
use crate::display::DrmDisplayFormat;
use crate::encoder::{DrmEncoder, DrmEncoderType};
use crate::error::DrmError;
use crate::mask::{index_mask, indices_fit};
use crate::object_type::{DrmKmsObjectType, KmsObjectId, KmsObjectIndex, KmsObjectPropValue};
use crate::plane::{DrmPlane, DrmPlaneState, DrmPlaneType};
use crate::property::{str_eq, DrmKmsObjectProp, DrmProperty, DrmPropertyKind, DrmPropertySpec};
use crate::props::DrmPlaneProps;
use crate::store::{is_listed_type, DrmKmsObject, DrmKmsObjectStore};

verus! {

/// The initial value of a property attached while building: a plain value,
/// or a payload that becomes a blob object whose id is the value.
pub enum PendingObjectPropValue {
    Value(KmsObjectPropValue),
    Blob(DrmPropertyBlob),
}

/// A property to attach, with its initial value.
pub struct PendingObjectProp {
    pub name: &'static str,
    pub property: DrmProperty,
    pub value: PendingObjectPropValue,
}

/// A declared plane.
pub struct PendingPlane {
    pub type_: DrmPlaneType,
    pub format_types: Vec<DrmDisplayFormat>,
    pub attached_crtcs: Vec<KmsObjectIndex>,
    pub property_values: Vec<PendingObjectProp>,
}

/// A declared CRTC: its gamma size and its planes, by plane index.
pub struct PendingCrtc {
    pub gamma_size_px: u32,
    pub primary_plane: KmsObjectIndex,
    pub cursor_plane: Option<KmsObjectIndex>,
    pub property_values: Vec<PendingObjectProp>,
}

/// A declared encoder.
pub struct PendingEncoder {
    pub type_: DrmEncoderType,
    pub attached_crtcs: Vec<KmsObjectIndex>,
}

/// A declared connector.
pub struct PendingConnector {
    pub type_: DrmConnType,
    pub attached_encoders: Vec<KmsObjectIndex>,
    pub property_values: Vec<PendingObjectProp>,
}

/// The position of the first property named `name` in `props`.
pub open spec fn find_named(props: Seq<PendingObjectProp>, name: Seq<char>) -> Option<int>
    decreases props.len(),
{
    if props.len() == 0 {
        None
    } else {
        match find_named(props.drop_last(), name) {
            Some(i) => Some(i),
            None => if props.last().name@ == name {
                Some(props.len() - 1)
            } else {
                None
            },
        }
    }
}

/// `props` with `item` replacing the first property of the same name, or
/// appended when there is none.
pub open spec fn override_prop(props: Seq<PendingObjectProp>, item: PendingObjectProp) -> Seq<PendingObjectProp> {
    match find_named(props, item.name@) {
        Some(i) => props.update(i, item),
        None => props.push(item),
    }
}

/// `s` with `x` appended unless it already holds it.
pub open spec fn add_index(s: Seq<KmsObjectIndex>, x: KmsObjectIndex) -> Seq<KmsObjectIndex> {
    if s.contains(x) {
        s
    } else {
        s.push(x)
    }
}

proof fn lemma_find_named_first(props: Seq<PendingObjectProp>, name: Seq<char>, j: int)
    requires
        0 <= j < props.len(),
        forall|k: int| 0 <= k < j ==> props[k].name@ != name,
    ensures
        props[j].name@ == name ==> find_named(props, name) == Some(j),
        props[j].name@ != name ==> find_named(props.take(j + 1), name) is None,
    decreases props.len(),
{
    if j < props.len() - 1 {
        lemma_find_named_first(props.drop_last(), name, j);
        assert(props.drop_last().take(j + 1) =~= props.take(j + 1));
        if props[j].name@ == name {
            assert(props.drop_last()[j] == props[j]);
        }
    } else {
        if j > 0 {
            lemma_find_named_none(props.drop_last(), name);
        }
        assert(props.take(j + 1) =~= props);
    }
}

proof fn lemma_find_named_none(props: Seq<PendingObjectProp>, name: Seq<char>)
    requires
        forall|k: int| 0 <= k < props.len() ==> props[k].name@ != name,
    ensures
        find_named(props, name) is None,
    decreases props.len(),
{
    if props.len() > 0 {
        lemma_find_named_none(props.drop_last(), name);
    }
}

/// Replaces the property of the same name, or appends it.
fn add_or_override_property(property_values: &mut Vec<PendingObjectProp>, item: PendingObjectProp)
    ensures
        final(property_values)@ == override_prop(old(property_values)@, item),
{
    let mut i: usize = 0;
    while i < property_values.len()
        invariant
            i <= property_values@.len(),
            property_values@ == old(property_values)@,
            forall|k: int| 0 <= k < i ==> property_values@[k].name@ != item.name@,
        decreases property_values@.len() - i,
    {
        if str_eq(property_values[i].name, item.name) {
            proof {
                lemma_find_named_first(property_values@, item.name@, i as int);
            }
            property_values.set(i, item);
            return;
        }
        i = i + 1;
    }
    proof {
        lemma_find_named_none(property_values@, item.name@);
    }
    property_values.push(item);
}

/// Whether index `x` is in `v`.
fn index_listed(v: &Vec<KmsObjectIndex>, x: KmsObjectIndex) -> (r: bool)
    ensures
        r == v@.contains(x),
{
    let mut i: usize = 0;
    while i < v.len()
        invariant
            i <= v@.len(),
            forall|j: int| 0 <= j < i ==> v@[j] != x,
        decreases v@.len() - i,
    {
        if v[i] == x {
            assert(v@[i as int] == x);
            return true;
        }
        i = i + 1;
    }
    false
}

impl PendingPlane {
    /// A declared plane with its standard properties: `type` with the
    /// plane's role, and `IN_FORMATS` with the blob of its formats.
    fn new(type_: DrmPlaneType, format_types: Vec<DrmDisplayFormat>) -> (p: Self)
        requires
            format_types@.len() <= 0x3FFF_FFF8,
        ensures
            p.type_ == type_,
            p.format_types@ == format_types@,
            p.attached_crtcs@.len() == 0,
            p.property_values@.len() == 2,
            p.property_values@[0].name@ == "type"@,
            p.property_values@[0].value == PendingObjectPropValue::Value(type_.spec_value()),
            p.property_values@[1].name@ == "IN_FORMATS"@,
            p.property_values@[1].value matches PendingObjectPropValue::Blob(b) && b.spec_data()
                == crate::blob::in_formats_spec(format_types@),
            props_consistent(p.property_values@),
    {
        let blob = DrmPropertyBlob::encode_in_formats(format_types.as_slice());
        let type_prop = PendingObjectProp {
            name: DrmPlaneProps::Type.name(),
            property: DrmPlaneProps::Type.build(),
            value: PendingObjectPropValue::Value(type_.value()),
        };
        let formats_prop = PendingObjectProp {
            name: DrmPlaneProps::InFormats.name(),
            property: DrmPlaneProps::InFormats.build(),
            value: PendingObjectPropValue::Blob(blob),
        };
        let mut property_values: Vec<PendingObjectProp> = Vec::new();
        property_values.push(type_prop);
        property_values.push(formats_prop);
        proof {
            assert forall|k: int| 0 <= k < property_values@.len() implies (#[trigger] property_values@[k].value is Blob
                ==> property_values@[k].property.spec_kind() == DrmPropertyKind::Blob) by {}
        }
        PendingPlane { type_, format_types, attached_crtcs: Vec::new(), property_values }
    }
}

/// Collects the KMS topology of a driver during initialization: planes,
/// CRTCs, encoders and connectors, then their static links, and finally
/// `build` validates it and materializes the store. All indices refer to
/// objects declared on the same builder, each type counted on its own.
pub struct DrmKmsObjectBuilder {
    planes: Vec<PendingPlane>,
    crtcs: Vec<PendingCrtc>,
    encoders: Vec<PendingEncoder>,
    connectors: Vec<PendingConnector>,
}

impl Default for DrmKmsObjectBuilder {
    fn default() -> (b: Self)
        ensures
            b.spec_planes().len() == 0,
            b.spec_crtcs().len() == 0,
            b.spec_encoders().len() == 0,
            b.spec_connectors().len() == 0,
    {
        DrmKmsObjectBuilder { planes: Vec::new(), crtcs: Vec::new(), encoders: Vec::new(), connectors: Vec::new() }
    }
}

impl DrmKmsObjectBuilder {
    pub closed spec fn spec_planes(&self) -> Seq<PendingPlane> {
        self.planes@
    }

    pub closed spec fn spec_crtcs(&self) -> Seq<PendingCrtc> {
        self.crtcs@
    }

    pub closed spec fn spec_encoders(&self) -> Seq<PendingEncoder> {
        self.encoders@
    }

    pub closed spec fn spec_connectors(&self) -> Seq<PendingConnector> {
        self.connectors@
    }

    /// Declares a plane with its formats; returns its index. The format
    /// count and the byte offsets of the `IN_FORMATS` blob are 32-bit
    /// fields of its layout, so the list is bounded to keep them in range.
    pub fn add_plane(&mut self, type_: DrmPlaneType, format_types: Vec<DrmDisplayFormat>) -> (index: KmsObjectIndex)
        requires
            format_types@.len() <= 0x3FFF_FFF8,
        ensures
            index == old(self).spec_planes().len(),
            final(self).spec_planes().len() == old(self).spec_planes().len() + 1,
            final(self).spec_planes().drop_last() == old(self).spec_planes(),
            final(self).spec_planes().last().type_ == type_,
            final(self).spec_planes().last().format_types@ == format_types@,
            final(self).spec_planes().last().attached_crtcs@.len() == 0,
            final(self).spec_planes().last().property_values@.len() == 2,
            final(self).spec_planes().last().property_values@[0].name@ == "type"@,
            final(self).spec_planes().last().property_values@[0].value == PendingObjectPropValue::Value(type_.spec_value()),
            final(self).spec_planes().last().property_values@[1].name@ == "IN_FORMATS"@,
            final(self).spec_planes().last().property_values@[1].value matches PendingObjectPropValue::Blob(b)
                && b.spec_data() == crate::blob::in_formats_spec(format_types@),
            props_consistent(final(self).spec_planes().last().property_values@),
            final(self).spec_crtcs() == old(self).spec_crtcs(),
            final(self).spec_encoders() == old(self).spec_encoders(),
            final(self).spec_connectors() == old(self).spec_connectors(),
    {
        let pending = PendingPlane::new(type_, format_types);
        let index = self.planes.len();
        self.planes.push(pending);
        assert(self.planes@.drop_last() =~= old(self).planes@);
        index
    }

    /// Declares a CRTC with its primary and cursor planes, by plane index;
    /// returns its index.
    pub fn add_crtc(
        &mut self,
        gamma_size_px: u32,
        primary_plane: KmsObjectIndex,
        cursor_plane: Option<KmsObjectIndex>,
    ) -> (index: KmsObjectIndex)
        ensures
            index == old(self).spec_crtcs().len(),
            final(self).spec_crtcs().len() == old(self).spec_crtcs().len() + 1,
            final(self).spec_crtcs().drop_last() == old(self).spec_crtcs(),
            final(self).spec_crtcs().last().gamma_size_px == gamma_size_px,
            final(self).spec_crtcs().last().primary_plane == primary_plane,
            final(self).spec_crtcs().last().cursor_plane == cursor_plane,
            final(self).spec_crtcs().last().property_values@.len() == 0,
            final(self).spec_planes() == old(self).spec_planes(),
            final(self).spec_encoders() == old(self).spec_encoders(),
            final(self).spec_connectors() == old(self).spec_connectors(),
    {
        let pending = PendingCrtc { gamma_size_px, primary_plane, cursor_plane, property_values: Vec::new() };
        let index = self.crtcs.len();
        self.crtcs.push(pending);
        assert(self.crtcs@.drop_last() =~= old(self).crtcs@);
        index
    }

    /// Declares an encoder; returns its index.
    pub fn add_encoder(&mut self, type_: DrmEncoderType) -> (index: KmsObjectIndex)
        ensures
            index == old(self).spec_encoders().len(),
            final(self).spec_encoders().len() == old(self).spec_encoders().len() + 1,
            final(self).spec_encoders().drop_last() == old(self).spec_encoders(),
            final(self).spec_encoders().last().type_ == type_,
            final(self).spec_encoders().last().attached_crtcs@.len() == 0,
            final(self).spec_planes() == old(self).spec_planes(),
            final(self).spec_crtcs() == old(self).spec_crtcs(),
            final(self).spec_connectors() == old(self).spec_connectors(),
    {
        let pending = PendingEncoder { type_, attached_crtcs: Vec::new() };
        let index = self.encoders.len();
        self.encoders.push(pending);
        assert(self.encoders@.drop_last() =~= old(self).encoders@);
        index
    }

    /// Declares a connector; returns its index.
    pub fn add_connector(&mut self, type_: DrmConnType) -> (index: KmsObjectIndex)
        ensures
            index == old(self).spec_connectors().len(),
            final(self).spec_connectors().len() == old(self).spec_connectors().len() + 1,
            final(self).spec_connectors().drop_last() == old(self).spec_connectors(),
            final(self).spec_connectors().last().type_ == type_,
            final(self).spec_connectors().last().attached_encoders@.len() == 0,
            final(self).spec_connectors().last().property_values@.len() == 0,
            final(self).spec_planes() == old(self).spec_planes(),
            final(self).spec_crtcs() == old(self).spec_crtcs(),
            final(self).spec_encoders() == old(self).spec_encoders(),
    {
        let pending = PendingConnector { type_, attached_encoders: Vec::new(), property_values: Vec::new() };
        let index = self.connectors.len();
        self.connectors.push(pending);
        assert(self.connectors@.drop_last() =~= old(self).connectors@);
        index
    }

    /// Lets plane `plane` feed CRTC `crtc`; an unknown plane is invalid.
    pub fn plane_attach_crtc(&mut self, plane: KmsObjectIndex, crtc: KmsObjectIndex) -> (r: Result<(), DrmError>)
        ensures
            final(self).spec_crtcs() == old(self).spec_crtcs(),
            final(self).spec_encoders() == old(self).spec_encoders(),
            final(self).spec_connectors() == old(self).spec_connectors(),
            final(self).spec_planes().len() == old(self).spec_planes().len(),
            match r {
                Ok(()) => plane < old(self).spec_planes().len() && forall|i: int| 0 <= i < old(self).spec_planes().len() ==> {
                    let p0 = #[trigger] old(self).spec_planes()[i];
                    let p1 = final(self).spec_planes()[i];
                    &&& p1.type_ == p0.type_
                    &&& p1.format_types@ == p0.format_types@
                    &&& p1.property_values@ == p0.property_values@
                    &&& p1.attached_crtcs@ == (if i == plane { add_index(p0.attached_crtcs@, crtc) } else { p0.attached_crtcs@ })
                },
                Err(e) => e == DrmError::Invalid && plane >= old(self).spec_planes().len() && *final(self) == *old(self),
            },
    {
        if plane >= self.planes.len() {
            return Err(DrmError::Invalid);
        }
        let mut pending = self.planes.remove(plane);
        if !index_listed(&pending.attached_crtcs, crtc) {
            pending.attached_crtcs.push(crtc);
        }
        self.planes.insert(plane, pending);
        proof {
            assert forall|i: int| 0 <= i < old(self).spec_planes().len() && i != plane implies #[trigger] self.planes@[i]
                == old(self).planes@[i] by {}
        }
        Ok(())
    }

    /// Lets encoder `encoder` take CRTC `crtc`; an unknown encoder is
    /// invalid.
    pub fn encoder_attach_crtc(&mut self, encoder: KmsObjectIndex, crtc: KmsObjectIndex) -> (r: Result<(), DrmError>)
        ensures
            final(self).spec_planes() == old(self).spec_planes(),
            final(self).spec_crtcs() == old(self).spec_crtcs(),
            final(self).spec_connectors() == old(self).spec_connectors(),
            final(self).spec_encoders().len() == old(self).spec_encoders().len(),
            match r {
                Ok(()) => encoder < old(self).spec_encoders().len() && forall|i: int| 0 <= i < old(self).spec_encoders().len() ==> {
                    let e0 = #[trigger] old(self).spec_encoders()[i];
                    let e1 = final(self).spec_encoders()[i];
                    &&& e1.type_ == e0.type_
                    &&& e1.attached_crtcs@ == (if i == encoder { add_index(e0.attached_crtcs@, crtc) } else { e0.attached_crtcs@ })
                },
                Err(e) => e == DrmError::Invalid && encoder >= old(self).spec_encoders().len() && *final(self) == *old(self),
            },
    {
        if encoder >= self.encoders.len() {
            return Err(DrmError::Invalid);
        }
        let mut pending = self.encoders.remove(encoder);
        if !index_listed(&pending.attached_crtcs, crtc) {
            pending.attached_crtcs.push(crtc);
        }
        self.encoders.insert(encoder, pending);
        proof {
            assert forall|i: int| 0 <= i < old(self).spec_encoders().len() && i != encoder implies #[trigger] self.encoders@[i]
                == old(self).encoders@[i] by {}
        }
        Ok(())
    }

    /// Lets connector `connector` use encoder `encoder`; an unknown
    /// connector is invalid.
    pub fn connector_attach_encoder(&mut self, connector: KmsObjectIndex, encoder: KmsObjectIndex) -> (r: Result<
        (),
        DrmError,
    >)
        ensures
            final(self).spec_planes() == old(self).spec_planes(),
            final(self).spec_crtcs() == old(self).spec_crtcs(),
            final(self).spec_encoders() == old(self).spec_encoders(),
            final(self).spec_connectors().len() == old(self).spec_connectors().len(),
            match r {
                Ok(()) => connector < old(self).spec_connectors().len() && forall|i: int| 0 <= i < old(self).spec_connectors().len() ==> {
                    let c0 = #[trigger] old(self).spec_connectors()[i];
                    let c1 = final(self).spec_connectors()[i];
                    &&& c1.type_ == c0.type_
                    &&& c1.property_values@ == c0.property_values@
                    &&& c1.attached_encoders@ == (if i == connector { add_index(c0.attached_encoders@, encoder) } else { c0.attached_encoders@ })
                },
                Err(e) => e == DrmError::Invalid && connector >= old(self).spec_connectors().len() && *final(self) == *old(self),
            },
    {
        if connector >= self.connectors.len() {
            return Err(DrmError::Invalid);
        }
        let mut pending = self.connectors.remove(connector);
        if !index_listed(&pending.attached_encoders, encoder) {
            pending.attached_encoders.push(encoder);
        }
        self.connectors.insert(connector, pending);
        proof {
            assert forall|i: int| 0 <= i < old(self).spec_connectors().len() && i != connector implies #[trigger] self.connectors@[i]
                == old(self).connectors@[i] by {}
        }
        Ok(())
    }

    /// Attaches a property with its initial value to the plane, CRTC or
    /// connector at `index`, replacing one of the same name; other object
    /// types take no properties here.
    pub fn add_property<P: DrmPropertySpec>(
        &mut self,
        index: KmsObjectIndex,
        property_spec: P,
        initial_value: PendingObjectPropValue,
        type_: DrmKmsObjectType,
    ) -> (r: Result<(), DrmError>)
        ensures
            match type_ {
                DrmKmsObjectType::Plane => if index < old(self).spec_planes().len() {
                    &&& r is Ok
                    &&& final(self).spec_crtcs() == old(self).spec_crtcs()
                    &&& final(self).spec_encoders() == old(self).spec_encoders()
                    &&& final(self).spec_connectors() == old(self).spec_connectors()
                    &&& final(self).spec_planes().len() == old(self).spec_planes().len()
                    &&& forall|i: int| 0 <= i < old(self).spec_planes().len() ==> {
                        let p0 = #[trigger] old(self).spec_planes()[i];
                        let p1 = final(self).spec_planes()[i];
                        &&& p1.type_ == p0.type_
                        &&& p1.format_types@ == p0.format_types@
                        &&& p1.attached_crtcs@ == p0.attached_crtcs@
                        &&& if i == index {
                            prop_added(p0.property_values@, p1.property_values@, property_spec, initial_value)
                        } else {
                            p1.property_values@ == p0.property_values@
                        }
                    }
                } else {
                    r == Err::<(), DrmError>(DrmError::Invalid) && *final(self) == *old(self)
                },
                DrmKmsObjectType::Crtc => if index < old(self).spec_crtcs().len() {
                    &&& r is Ok
                    &&& final(self).spec_planes() == old(self).spec_planes()
                    &&& final(self).spec_encoders() == old(self).spec_encoders()
                    &&& final(self).spec_connectors() == old(self).spec_connectors()
                    &&& final(self).spec_crtcs().len() == old(self).spec_crtcs().len()
                    &&& forall|i: int| 0 <= i < old(self).spec_crtcs().len() ==> {
                        let c0 = #[trigger] old(self).spec_crtcs()[i];
                        let c1 = final(self).spec_crtcs()[i];
                        &&& c1.gamma_size_px == c0.gamma_size_px
                        &&& c1.primary_plane == c0.primary_plane
                        &&& c1.cursor_plane == c0.cursor_plane
                        &&& if i == index {
                            prop_added(c0.property_values@, c1.property_values@, property_spec, initial_value)
                        } else {
                            c1.property_values@ == c0.property_values@
                        }
                    }
                } else {
                    r == Err::<(), DrmError>(DrmError::Invalid) && *final(self) == *old(self)
                },
                DrmKmsObjectType::Connector => if index < old(self).spec_connectors().len() {
                    &&& r is Ok
                    &&& final(self).spec_planes() == old(self).spec_planes()
                    &&& final(self).spec_crtcs() == old(self).spec_crtcs()
                    &&& final(self).spec_encoders() == old(self).spec_encoders()
                    &&& final(self).spec_connectors().len() == old(self).spec_connectors().len()
                    &&& forall|i: int| 0 <= i < old(self).spec_connectors().len() ==> {
                        let c0 = #[trigger] old(self).spec_connectors()[i];
                        let c1 = final(self).spec_connectors()[i];
                        &&& c1.type_ == c0.type_
                        &&& c1.attached_encoders@ == c0.attached_encoders@
                        &&& if i == index {
                            prop_added(c0.property_values@, c1.property_values@, property_spec, initial_value)
                        } else {
                            c1.property_values@ == c0.property_values@
                        }
                    }
                } else {
                    r == Err::<(), DrmError>(DrmError::Invalid) && *final(self) == *old(self)
                },
                _ => r == Err::<(), DrmError>(DrmError::NotSupported) && *final(self) == *old(self),
            },
    {
        let name = property_spec.name();
        let build = P::build;
        let property = build(&property_spec);
        let item = PendingObjectProp { name, property, value: initial_value };
        let ghost item_g = item;
        match type_ {
            DrmKmsObjectType::Plane => {
                if index >= self.planes.len() {
                    return Err(DrmError::Invalid);
                }
                let mut pending = self.planes.remove(index);
                add_or_override_property(&mut pending.property_values, item);
                self.planes.insert(index, pending);
                proof {
                    assert forall|i: int| 0 <= i < old(self).spec_planes().len() && i != index implies #[trigger] self.planes@[i]
                        == old(self).planes@[i] by {}
                    assert(item_g.property.spec_name() == property_spec.spec_name());
                }
            },
            DrmKmsObjectType::Crtc => {
                if index >= self.crtcs.len() {
                    return Err(DrmError::Invalid);
                }
                let mut pending = self.crtcs.remove(index);
                add_or_override_property(&mut pending.property_values, item);
                self.crtcs.insert(index, pending);
                proof {
                    assert forall|i: int| 0 <= i < old(self).spec_crtcs().len() && i != index implies #[trigger] self.crtcs@[i]
                        == old(self).crtcs@[i] by {}
                    assert(item_g.property.spec_name() == property_spec.spec_name());
                }
            },
            DrmKmsObjectType::Connector => {
                if index >= self.connectors.len() {
                    return Err(DrmError::Invalid);
                }
                let mut pending = self.connectors.remove(index);
                add_or_override_property(&mut pending.property_values, item);
                self.connectors.insert(index, pending);
                proof {
                    assert forall|i: int| 0 <= i < old(self).spec_connectors().len() && i != index implies #[trigger] self.connectors@[i]
                        == old(self).connectors@[i] by {}
                    assert(item_g.property.spec_name() == property_spec.spec_name());
                }
            },
            _ => {
                return Err(DrmError::NotSupported);
            },
        }
        Ok(())
    }

    /// Checks that plane `plane` exists and has role `type_`.
    fn validate_plane_type(&self, plane: KmsObjectIndex, type_: DrmPlaneType) -> (r: Result<(), DrmError>)
        ensures
            r is Ok <==> plane_has_type(self.spec_planes(), plane, type_),
            r is Err ==> r == Err::<(), DrmError>(DrmError::Invalid),
    {
        if plane >= self.planes.len() {
            return Err(DrmError::Invalid);
        }
        if self.planes[plane].type_ != type_ {
            return Err(DrmError::Invalid);
        }
        Ok(())
    }

    /// Checks the topology constraints of `topology_valid`.
    fn validate_topology(&self) -> (r: Result<(), DrmError>)
        ensures
            r is Ok <==> topology_valid(self.spec_planes(), self.spec_crtcs()),
            r is Err ==> r == Err::<(), DrmError>(DrmError::Invalid),
    {
        if self.crtcs.len() == 0 {
            return Err(DrmError::Invalid);
        }
        let mut i: usize = 0;
        while i < self.crtcs.len()
            invariant
                i <= self.spec_crtcs().len(),
                forall|k: int| 0 <= k < i ==> #[trigger] crtc_topology_ok(self.spec_planes(), self.spec_crtcs(), k),
            decreases self.spec_crtcs().len() - i,
        {
            let primary = self.crtcs[i].primary_plane;
            let cursor = self.crtcs[i].cursor_plane;
            if self.validate_plane_type(primary, DrmPlaneType::Primary).is_err() {
                assert(!crtc_topology_ok(self.spec_planes(), self.spec_crtcs(), i as int));
                return Err(DrmError::Invalid);
            }
            if !index_listed(&self.planes[primary].attached_crtcs, i) {
                assert(!crtc_topology_ok(self.spec_planes(), self.spec_crtcs(), i as int));
                return Err(DrmError::Invalid);
            }
            if let Some(c) = cursor {
                if self.validate_plane_type(c, DrmPlaneType::Cursor).is_err() {
                    assert(!crtc_topology_ok(self.spec_planes(), self.spec_crtcs(), i as int));
                    return Err(DrmError::Invalid);
                }
                if !index_listed(&self.planes[c].attached_crtcs, i) {
                    assert(!crtc_topology_ok(self.spec_planes(), self.spec_crtcs(), i as int));
                    return Err(DrmError::Invalid);
                }
            }
            i = i + 1;
        }
        Ok(())
    }
}

/// Whether `after` is `before` with the property that `property_spec`
/// builds, under its name and holding `value`, added or replacing the one
/// of that name.
pub open spec fn prop_added<P: DrmPropertySpec>(
    before: Seq<PendingObjectProp>,
    after: Seq<PendingObjectProp>,
    property_spec: P,
    value: PendingObjectPropValue,
) -> bool {
    exists|property: DrmProperty|
        call_ensures(P::build, (&property_spec,), property) && after == override_prop(
            before,
            PendingObjectProp { name: property_spec.spec_name(), property, value },
        )
}

/// Whether plane index `plane` names a declared plane of role `type_`.
pub open spec fn plane_has_type(planes: Seq<PendingPlane>, plane: KmsObjectIndex, type_: DrmPlaneType) -> bool {
    plane < planes.len() && planes[plane as int].type_ == type_
}

/// Whether a CRTC's primary plane is a declared primary plane, and its
/// cursor plane, if any, a declared cursor plane.
pub open spec fn crtc_planes_valid(planes: Seq<PendingPlane>, crtc: PendingCrtc) -> bool {
    &&& plane_has_type(planes, crtc.primary_plane, DrmPlaneType::Primary)
    &&& crtc.cursor_plane matches Some(c) ==> plane_has_type(planes, c, DrmPlaneType::Cursor)
}

/// Whether plane index `plane` names a declared plane attached to the CRTC
/// of index `crtc`.
pub open spec fn plane_attached(planes: Seq<PendingPlane>, plane: KmsObjectIndex, crtc: int) -> bool {
    plane < planes.len() && planes[plane as int].attached_crtcs@.contains(crtc as KmsObjectIndex)
}

/// Whether the CRTC of index `k` has planes of the right roles, each of them
/// attached to it.
pub open spec fn crtc_topology_ok(planes: Seq<PendingPlane>, crtcs: Seq<PendingCrtc>, k: int) -> bool {
    &&& crtc_planes_valid(planes, crtcs[k])
    &&& plane_attached(planes, crtcs[k].primary_plane, k)
    &&& crtcs[k].cursor_plane matches Some(c) ==> plane_attached(planes, c, k)
}

/// The topology constraints checked when building: at least one CRTC, and
/// the planes of every CRTC have the right roles and are attached to it.
pub open spec fn topology_valid(planes: Seq<PendingPlane>, crtcs: Seq<PendingCrtc>) -> bool {
    crtcs.len() > 0 && forall|k: int| 0 <= k < crtcs.len() ==> #[trigger] crtc_topology_ok(planes, crtcs, k)
}

/// Whether `later` keeps every object of `earlier` unchanged, and its
/// listed ids start with those of `earlier`.
pub open spec fn extends(earlier: DrmKmsObjectStore, later: DrmKmsObjectStore) -> bool {
    &&& forall|id: KmsObjectId| #[trigger] earlier.spec_objects().contains_key(id) ==> later.spec_objects().contains_key(id)
        && later.spec_objects()[id] == earlier.spec_objects()[id]
    &&& forall|t: DrmKmsObjectType| #[trigger] earlier.spec_ids(t).is_prefix_of(later.spec_ids(t))
}

/// Whether the value `v` attached for a pending property with value
/// `value` is right in `store`: a plain value is attached as it is; a
/// payload for a blob property became a blob object, whose id is attached.
pub open spec fn value_built(store: DrmKmsObjectStore, v: u64, value: PendingObjectPropValue, property: DrmProperty) -> bool {
    match value {
        PendingObjectPropValue::Value(x) => v == x,
        PendingObjectPropValue::Blob(b) => property.spec_kind() == DrmPropertyKind::Blob && v <= u32::MAX
            && store.spec_get::<DrmPropertyBlob>(v as u32) == Some(b),
    }
}

/// Whether the attachment of `pid` in `table` is a property object of
/// `store` with the definition of `prop`, attached with its value.
pub open spec fn prop_entry(store: DrmKmsObjectStore, table: Map<KmsObjectId, u64>, prop: PendingObjectProp, pid: KmsObjectId) -> bool {
    &&& table.contains_key(pid)
    &&& store.spec_get::<DrmProperty>(pid) == Some(prop.property)
    &&& value_built(store, table[pid], prop.value, prop.property)
}

/// Whether the attachments `table` hold, for each pending property, a
/// property object of `store` with that definition and its value.
pub open spec fn props_built(store: DrmKmsObjectStore, table: Map<KmsObjectId, u64>, props: Seq<PendingObjectProp>) -> bool {
    forall|k: int| 0 <= k < props.len() ==> #[trigger] prop_attached(store, table, props[k])
}

/// Whether some attachment of `table` is the property object for `prop`.
pub open spec fn prop_attached(store: DrmKmsObjectStore, table: Map<KmsObjectId, u64>, prop: PendingObjectProp) -> bool {
    exists|pid: KmsObjectId| #[trigger] prop_entry(store, table, prop, pid)
}

/// Whether each pending property's value fits its definition: a payload
/// only for a blob property.
pub open spec fn props_consistent(props: Seq<PendingObjectProp>) -> bool {
    forall|k: int| 0 <= k < props.len() ==> (#[trigger] props[k].value is Blob ==> props[k].property.spec_kind() == DrmPropertyKind::Blob)
}

proof fn lemma_props_built_extends(s1: DrmKmsObjectStore, s2: DrmKmsObjectStore, table: Map<KmsObjectId, u64>, props: Seq<PendingObjectProp>)
    requires
        props_built(s1, table, props),
        extends(s1, s2),
    ensures
        props_built(s2, table, props),
{
    assert forall|k: int| 0 <= k < props.len() implies #[trigger] prop_attached(s2, table, props[k]) by {
        assert(prop_attached(s1, table, props[k]));
        let pid = choose|pid: KmsObjectId| #[trigger] prop_entry(s1, table, props[k], pid);
        assert(s1.spec_objects().contains_key(pid));
        if let PendingObjectPropValue::Blob(b) = props[k].value {
            assert(s1.spec_objects().contains_key(table[pid] as u32));
        }
        assert(prop_entry(s2, table, props[k], pid));
    }
}

proof fn lemma_props_built_push(
    store: DrmKmsObjectStore,
    table: Map<KmsObjectId, u64>,
    props: Seq<PendingObjectProp>,
    pid: KmsObjectId,
    v: u64,
    item: PendingObjectProp,
)
    requires
        props_built(store, table, props),
        !table.contains_key(pid),
        store.spec_get::<DrmProperty>(pid) == Some(item.property),
        value_built(store, v, item.value, item.property),
    ensures
        props_built(store, table.insert(pid, v), props.push(item)),
{
    let t1 = table.insert(pid, v);
    let p1 = props.push(item);
    assert forall|k: int| 0 <= k < p1.len() implies #[trigger] prop_attached(store, t1, p1[k]) by {
        if k < props.len() {
            assert(p1[k] == props[k]);
            assert(prop_attached(store, table, props[k]));
            let q = choose|q: KmsObjectId| #[trigger] prop_entry(store, table, props[k], q);
            assert(q != pid);
            assert(prop_entry(store, t1, p1[k], q));
        } else {
            assert(p1[k] == item);
            assert(prop_entry(store, t1, p1[k], pid));
        }
    }
}

/// Whether `s2` is `s1` with one unlisted object added.
proof fn lemma_add_unlisted_extends(s1: DrmKmsObjectStore, s2: DrmKmsObjectStore, id: KmsObjectId, obj: DrmKmsObject)
    requires
        s1.wf(),
        s2.spec_objects() == s1.spec_objects().insert(id, obj),
        !s1.spec_objects().contains_key(id),
        forall|t: DrmKmsObjectType| #[trigger] s2.spec_ids(t) == s1.spec_ids(t),
    ensures
        extends(s1, s2),
{
    assert forall|t: DrmKmsObjectType| #[trigger] s1.spec_ids(t).is_prefix_of(s2.spec_ids(t)) by {
        assert(s2.spec_ids(t).subrange(0, s1.spec_ids(t).len() as int) =~= s1.spec_ids(t));
    }
}

/// The number of objects that building `p` adds: the property object, and
/// the blob object of a payload.
pub open spec fn prop_cost(p: PendingObjectProp) -> nat {
    if p.value is Blob {
        2
    } else {
        1
    }
}

/// The sum of `f` over `s`.
pub open spec fn total_cost<A>(s: Seq<A>, f: spec_fn(A) -> nat) -> nat
    decreases s.len(),
{
    if s.len() == 0 {
        0
    } else {
        total_cost(s.drop_last(), f) + f(s.last())
    }
}

/// The number of objects that building the properties `props` adds.
pub open spec fn props_cost(props: Seq<PendingObjectProp>) -> nat {
    total_cost(props, |p: PendingObjectProp| prop_cost(p))
}

proof fn lemma_total_cost_take<A>(s: Seq<A>, f: spec_fn(A) -> nat, i: int)
    requires
        0 <= i < s.len(),
    ensures
        total_cost(s.take(i + 1), f) == total_cost(s.take(i), f) + f(s[i]),
{
    assert(s.take(i + 1).drop_last() =~= s.take(i));
}

proof fn lemma_total_cost_prefix<A>(s: Seq<A>, f: spec_fn(A) -> nat, i: int)
    requires
        0 <= i <= s.len(),
    ensures
        total_cost(s.take(i), f) <= total_cost(s, f),
    decreases s.len() - i,
{
    if i < s.len() {
        lemma_total_cost_take(s, f, i);
        lemma_total_cost_prefix(s, f, i + 1);
    } else {
        assert(s.take(i) =~= s);
    }
}

/// Creates the property objects, and the blob objects of payloads, for the
/// pending properties of an object, and returns its attachments.
fn build_object_properties(store: &mut DrmKmsObjectStore, props: Vec<PendingObjectProp>) -> (r: Result<
    DrmKmsObjectProp,
    DrmError,
>)
    requires
        old(store).wf(),
    ensures
        final(store).wf(),
        extends(*old(store), *final(store)),
        forall|t: DrmKmsObjectType| #[trigger] final(store).spec_ids(t) == old(store).spec_ids(t),
        match r {
            Ok(table) => {
                &&& props_built(*final(store), table@, props@)
                &&& final(store).spec_next_id() == old(store).spec_next_id() + props_cost(props@)
            },
            Err(e) => {
                ||| e == DrmError::Invalid && !props_consistent(props@)
                ||| e == DrmError::NoMemory && old(store).spec_next_id() + props_cost(props@) > u32::MAX
            },
        },
{
    let ghost s0 = *store;
    let ghost all = props@;
    let mut properties = DrmKmsObjectProp::default();
    let total = props.len();
    let mut rest = props;
    let mut done: usize = 0;
    while rest.len() > 0
        invariant
            s0 == *old(store),
            store.wf(),
            extends(s0, *store),
            forall|t: DrmKmsObjectType| #[trigger] store.spec_ids(t) == s0.spec_ids(t),
            done <= all.len(),
            all.len() == total,
            all == props@,
            rest@ == all.subrange(done as int, all.len() as int),
            props_built(*store, properties@, all.take(done as int)),
            forall|pid: KmsObjectId| #[trigger] properties@.contains_key(pid) ==> store.spec_objects().contains_key(pid),
            store.spec_next_id() == s0.spec_next_id() + props_cost(all.take(done as int)),
        decreases rest@.len(),
    {
        proof {
            lemma_total_cost_take(all, |p: PendingObjectProp| prop_cost(p), done as int);
            lemma_total_cost_prefix(all, |p: PendingObjectProp| prop_cost(p), done + 1);
        }
        let pending = rest.remove(0);
        proof {
            assert(pending == all[done as int]);
        }
        let PendingObjectProp { name: _, property, value } = pending;
        assert(property == all[done as int].property);
        assert(value == all[done as int].value);
        let ghost before = *store;
        let prop_value: u64 = match (property.kind(), value) {
            (DrmPropertyKind::Blob, PendingObjectPropValue::Blob(data)) => {
                let ghost b = data;
                match store.add_object(DrmKmsObject::Blob(data)) {
                    Ok(id) => {
                        proof {
                            assert(!before.spec_objects().contains_key(id));
                            lemma_add_unlisted_extends(before, *store, id, DrmKmsObject::Blob(b));
                            lemma_props_built_extends(before, *store, properties@, all.take(done as int));
                        }
                        id as u64
                    },
                    Err(e) => {
                        return Err(e);
                    },
                }
            },
            (_, PendingObjectPropValue::Value(v)) => v,
            _ => {
                proof {
                    assert(all[done as int].value is Blob);
                    assert(!props_consistent(all));
                }
                return Err(DrmError::Invalid);
            },
        };
        let ghost mid = *store;
        let ghost prop_ghost = property;
        let prop_id = match store.add_object(DrmKmsObject::Property(property)) {
            Ok(id) => id,
            Err(e) => {
                return Err(e);
            },
        };
        proof {
            assert(!mid.spec_objects().contains_key(prop_id));
            lemma_add_unlisted_extends(mid, *store, prop_id, DrmKmsObject::Property(prop_ghost));
            lemma_props_built_extends(before, mid, properties@, all.take(done as int));
            lemma_props_built_extends(mid, *store, properties@, all.take(done as int));
        }
        let ghost table_before = properties@;
        properties.add_property(prop_id, prop_value);
        proof {
            assert(!table_before.contains_key(prop_id));
            assert(store.spec_get::<DrmProperty>(prop_id) == Some(prop_ghost));
            assert(all.take(done + 1) =~= all.take(done as int).push(all[done as int]));
            lemma_props_built_push(*store, table_before, all.take(done as int), prop_id, prop_value, all[done as int]);
        }
        done = done + 1;
        proof {
            assert(rest@ =~= all.subrange(done as int, all.len() as int));
        }
    }
    proof {
        assert(all.take(done as int) =~= all);
    }
    Ok(properties)
}

/// The objects that building a plane adds: its properties and itself.
pub open spec fn plane_cost() -> spec_fn(PendingPlane) -> nat {
    |p: PendingPlane| 1nat + props_cost(p.property_values@)
}

/// The objects that building a CRTC adds: its properties and itself.
pub open spec fn crtc_cost() -> spec_fn(PendingCrtc) -> nat {
    |c: PendingCrtc| 1nat + props_cost(c.property_values@)
}

/// The objects that building a connector adds: its properties and itself.
pub open spec fn connector_cost() -> spec_fn(PendingConnector) -> nat {
    |c: PendingConnector| 1nat + props_cost(c.property_values@)
}

/// The number of objects that building a whole topology adds.
pub open spec fn build_cost(
    planes: Seq<PendingPlane>,
    crtcs: Seq<PendingCrtc>,
    encoders: Seq<PendingEncoder>,
    connectors: Seq<PendingConnector>,
) -> nat {
    total_cost(planes, plane_cost()) + total_cost(crtcs, crtc_cost()) + encoders.len() + total_cost(
        connectors,
        connector_cost(),
    )
}

/// Whether every attachment list names indices that fit an index mask.
pub open spec fn attachments_fit(planes: Seq<PendingPlane>, encoders: Seq<PendingEncoder>, connectors: Seq<PendingConnector>) -> bool {
    &&& forall|k: int| 0 <= k < planes.len() ==> indices_fit(#[trigger] planes[k].attached_crtcs@)
    &&& forall|k: int| 0 <= k < encoders.len() ==> indices_fit(#[trigger] encoders[k].attached_crtcs@)
    &&& forall|k: int| 0 <= k < connectors.len() ==> indices_fit(#[trigger] connectors[k].attached_encoders@)
}

/// Whether the pending properties of every plane fit their definitions.
pub open spec fn planes_consistent(planes: Seq<PendingPlane>) -> bool {
    forall|k: int| 0 <= k < planes.len() ==> props_consistent(#[trigger] planes[k].property_values@)
}

/// Whether the pending properties of every CRTC fit their definitions.
pub open spec fn crtcs_consistent(crtcs: Seq<PendingCrtc>) -> bool {
    forall|k: int| 0 <= k < crtcs.len() ==> props_consistent(#[trigger] crtcs[k].property_values@)
}

/// Whether the pending properties of every connector fit their definitions.
pub open spec fn connectors_consistent(connectors: Seq<PendingConnector>) -> bool {
    forall|k: int| 0 <= k < connectors.len() ==> props_consistent(#[trigger] connectors[k].property_values@)
}

/// Whether the pending properties of every object fit their definitions.
pub open spec fn all_consistent(planes: Seq<PendingPlane>, crtcs: Seq<PendingCrtc>, connectors: Seq<PendingConnector>) -> bool {
    planes_consistent(planes) && crtcs_consistent(crtcs) && connectors_consistent(connectors)
}

/// The number of connectors of type `t` in `connectors`.
pub open spec fn conn_type_count(connectors: Seq<PendingConnector>, t: DrmConnType) -> nat
    decreases connectors.len(),
{
    if connectors.len() == 0 {
        0
    } else {
        conn_type_count(connectors.drop_last(), t) + (if connectors.last().type_ == t {
            1nat
        } else {
            0nat
        })
    }
}

/// Whether the object under `id` is the plane built from `p`.
pub open spec fn plane_built(store: DrmKmsObjectStore, id: KmsObjectId, p: PendingPlane) -> bool {
    match store.spec_get::<DrmPlane>(id) {
        Some(plane) => {
            &&& plane.spec_type() == p.type_
            &&& plane.spec_state() == DrmPlaneState::spec_default()
            &&& plane.spec_possible_crtcs() == index_mask(p.attached_crtcs@)
            &&& plane.spec_format_types() == p.format_types@
            &&& props_built(store, plane.spec_properties()@, p.property_values@)
        },
        None => false,
    }
}

/// Whether the object under `id` is the CRTC built from `c`, its planes
/// resolved to the ids of the planes at those indices.
pub open spec fn crtc_built(store: DrmKmsObjectStore, id: KmsObjectId, c: PendingCrtc) -> bool {
    let plane_ids = store.spec_ids(DrmKmsObjectType::Plane);
    match store.spec_get::<DrmCrtc>(id) {
        Some(crtc) => {
            &&& c.primary_plane < plane_ids.len()
            &&& crtc.spec_primary_plane_id() == plane_ids[c.primary_plane as int]
            &&& match c.cursor_plane {
                Some(x) => x < plane_ids.len() && crtc.spec_cursor_plane_id() == Some(plane_ids[x as int]),
                None => crtc.spec_cursor_plane_id() is None,
            }
            &&& crtc.spec_gamma_size() == c.gamma_size_px
            &&& crtc.spec_state() == DrmCrtcState::spec_default()
            &&& crtc.spec_vblank().spec_sequence() == 0
            &&& crtc.spec_vblank().spec_pending().len() == 0
            &&& props_built(store, crtc.spec_properties()@, c.property_values@)
        },
        None => false,
    }
}

/// Whether the object under `id` is the encoder built from `e`.
pub open spec fn encoder_built(store: DrmKmsObjectStore, id: KmsObjectId, e: PendingEncoder) -> bool {
    match store.spec_get::<DrmEncoder>(id) {
        Some(encoder) => {
            &&& encoder.spec_type() == e.type_
            &&& encoder.spec_crtc_id() is None
            &&& encoder.spec_possible_crtcs() == index_mask(e.attached_crtcs@)
        },
        None => false,
    }
}

/// Whether the object under `id` is the connector built from `c`, with
/// index `type_index` among the connectors of its type.
pub open spec fn connector_built(store: DrmKmsObjectStore, id: KmsObjectId, c: PendingConnector, type_index: nat) -> bool {
    match store.spec_get::<DrmConnector>(id) {
        Some(connector) => {
            &&& connector.spec_type() == c.type_
            &&& connector.spec_type_index() == type_index
            &&& connector.spec_status() == DrmConnStatus::Unknownconnection
            &&& connector.spec_display_modes().len() == 0
            &&& connector.spec_encoder_id() is None
            &&& connector.spec_possible_encoders() == index_mask(c.attached_encoders@)
            &&& props_built(store, connector.spec_properties()@, c.property_values@)
        },
        None => false,
    }
}

/// Whether the plane at index `k` of `store` is built from `planes[k]`.
pub open spec fn plane_at(store: DrmKmsObjectStore, planes: Seq<PendingPlane>, k: int) -> bool {
    k < store.spec_ids(DrmKmsObjectType::Plane).len() && plane_built(store, store.spec_ids(DrmKmsObjectType::Plane)[k], planes[k])
}

/// Whether the CRTC at index `k` of `store` is built from `crtcs[k]`.
pub open spec fn crtc_at(store: DrmKmsObjectStore, crtcs: Seq<PendingCrtc>, k: int) -> bool {
    k < store.spec_ids(DrmKmsObjectType::Crtc).len() && crtc_built(store, store.spec_ids(DrmKmsObjectType::Crtc)[k], crtcs[k])
}

/// Whether the encoder at index `k` of `store` is built from `encoders[k]`.
pub open spec fn encoder_at(store: DrmKmsObjectStore, encoders: Seq<PendingEncoder>, k: int) -> bool {
    k < store.spec_ids(DrmKmsObjectType::Encoder).len() && encoder_built(
        store,
        store.spec_ids(DrmKmsObjectType::Encoder)[k],
        encoders[k],
    )
}

/// Whether the connector at index `k` of `store` is built from
/// `connectors[k]`, numbered among the earlier connectors of its type.
pub open spec fn connector_at(store: DrmKmsObjectStore, connectors: Seq<PendingConnector>, k: int) -> bool {
    k < store.spec_ids(DrmKmsObjectType::Connector).len() && connector_built(
        store,
        store.spec_ids(DrmKmsObjectType::Connector)[k],
        connectors[k],
        conn_type_count(connectors.take(k), connectors[k].type_),
    )
}

/// Whether the planes at the first indices of `store` are built from
/// `planes`, in order.
pub open spec fn planes_built(store: DrmKmsObjectStore, planes: Seq<PendingPlane>) -> bool {
    forall|k: int| 0 <= k < planes.len() ==> #[trigger] plane_at(store, planes, k)
}

/// Whether the CRTCs at the first indices of `store` are built from
/// `crtcs`, in order.
pub open spec fn crtcs_built(store: DrmKmsObjectStore, crtcs: Seq<PendingCrtc>) -> bool {
    forall|k: int| 0 <= k < crtcs.len() ==> #[trigger] crtc_at(store, crtcs, k)
}

/// Whether the encoders at the first indices of `store` are built from
/// `encoders`, in order.
pub open spec fn encoders_built(store: DrmKmsObjectStore, encoders: Seq<PendingEncoder>) -> bool {
    forall|k: int| 0 <= k < encoders.len() ==> #[trigger] encoder_at(store, encoders, k)
}

/// Whether the connectors at the first indices of `store` are built from
/// `connectors`, in order.
pub open spec fn connectors_built(store: DrmKmsObjectStore, connectors: Seq<PendingConnector>) -> bool {
    forall|k: int| 0 <= k < connectors.len() ==> #[trigger] connector_at(store, connectors, k)
}

proof fn lemma_extends_index(s1: DrmKmsObjectStore, s2: DrmKmsObjectStore, t: DrmKmsObjectType, k: int)
    requires
        extends(s1, s2),
        0 <= k < s1.spec_ids(t).len(),
    ensures
        k < s2.spec_ids(t).len(),
        s2.spec_ids(t)[k] == s1.spec_ids(t)[k],
{
    assert(s1.spec_ids(t).is_prefix_of(s2.spec_ids(t)));
    assert(s1.spec_ids(t)[k] == s2.spec_ids(t).subrange(0, s1.spec_ids(t).len() as int)[k]);
}

proof fn lemma_built_extend(
    s1: DrmKmsObjectStore,
    s2: DrmKmsObjectStore,
    planes: Seq<PendingPlane>,
    crtcs: Seq<PendingCrtc>,
    encoders: Seq<PendingEncoder>,
    connectors: Seq<PendingConnector>,
)
    requires
        extends(s1, s2),
        planes_built(s1, planes),
        crtcs_built(s1, crtcs),
        encoders_built(s1, encoders),
        connectors_built(s1, connectors),
    ensures
        planes_built(s2, planes),
        crtcs_built(s2, crtcs),
        encoders_built(s2, encoders),
        connectors_built(s2, connectors),
{
    assert forall|k: int| 0 <= k < planes.len() implies #[trigger] plane_at(s2, planes, k) by {
        assert(plane_at(s1, planes, k));
        lemma_extends_index(s1, s2, DrmKmsObjectType::Plane, k);
        let id = s1.spec_ids(DrmKmsObjectType::Plane)[k];
        assert(s1.spec_objects().contains_key(id));
        let plane = s1.spec_get::<DrmPlane>(id).unwrap();
        lemma_props_built_extends(s1, s2, plane.spec_properties()@, planes[k].property_values@);
    }
    assert forall|k: int| 0 <= k < crtcs.len() implies #[trigger] crtc_at(s2, crtcs, k) by {
        assert(crtc_at(s1, crtcs, k));
        lemma_extends_index(s1, s2, DrmKmsObjectType::Crtc, k);
        let id = s1.spec_ids(DrmKmsObjectType::Crtc)[k];
        assert(s1.spec_objects().contains_key(id));
        let crtc = s1.spec_get::<DrmCrtc>(id).unwrap();
        lemma_props_built_extends(s1, s2, crtc.spec_properties()@, crtcs[k].property_values@);
        lemma_extends_index(s1, s2, DrmKmsObjectType::Plane, crtcs[k].primary_plane as int);
        if let Some(x) = crtcs[k].cursor_plane {
            lemma_extends_index(s1, s2, DrmKmsObjectType::Plane, x as int);
        }
    }
    assert forall|k: int| 0 <= k < encoders.len() implies #[trigger] encoder_at(s2, encoders, k) by {
        assert(encoder_at(s1, encoders, k));
        lemma_extends_index(s1, s2, DrmKmsObjectType::Encoder, k);
        let id = s1.spec_ids(DrmKmsObjectType::Encoder)[k];
        assert(s1.spec_objects().contains_key(id));
    }
    assert forall|k: int| 0 <= k < connectors.len() implies #[trigger] connector_at(s2, connectors, k) by {
        assert(connector_at(s1, connectors, k));
        lemma_extends_index(s1, s2, DrmKmsObjectType::Connector, k);
        let id = s1.spec_ids(DrmKmsObjectType::Connector)[k];
        assert(s1.spec_objects().contains_key(id));
        let c = s1.spec_get::<DrmConnector>(id).unwrap();
        lemma_props_built_extends(s1, s2, c.spec_properties()@, connectors[k].property_values@);
    }
}

/// Adding a listed object under a fresh id keeps the rest of the store.
proof fn lemma_add_listed_extends(s1: DrmKmsObjectStore, s2: DrmKmsObjectStore, id: KmsObjectId, obj: DrmKmsObject)
    requires
        s1.wf(),
        s2.spec_objects() == s1.spec_objects().insert(id, obj),
        !s1.spec_objects().contains_key(id),
        forall|t: DrmKmsObjectType| #[trigger] s2.spec_ids(t) == (if is_listed_type(t) && t == obj.kind() {
            s1.spec_ids(t).push(id)
        } else {
            s1.spec_ids(t)
        }),
    ensures
        extends(s1, s2),
{
    assert forall|t: DrmKmsObjectType| #[trigger] s1.spec_ids(t).is_prefix_of(s2.spec_ids(t)) by {
        assert(s2.spec_ids(t).subrange(0, s1.spec_ids(t).len() as int) =~= s1.spec_ids(t));
    }
}

proof fn lemma_conn_type_count_take(connectors: Seq<PendingConnector>, i: int, t: DrmConnType)
    requires
        0 <= i < connectors.len(),
    ensures
        conn_type_count(connectors.take(i + 1), t) == conn_type_count(connectors.take(i), t) + (if connectors[i].type_
            == t {
            1nat
        } else {
            0nat
        }),
{
    assert(connectors.take(i + 1).drop_last() =~= connectors.take(i));
}

proof fn lemma_conn_type_count_bound(connectors: Seq<PendingConnector>, t: DrmConnType)
    ensures
        conn_type_count(connectors, t) <= connectors.len(),
    decreases connectors.len(),
{
    if connectors.len() > 0 {
        lemma_conn_type_count_bound(connectors.drop_last(), t);
    }
}

proof fn lemma_total_cost_len<A>(s: Seq<A>, f: spec_fn(A) -> nat)
    requires
        forall|x: A| #[trigger] f(x) >= 1,
    ensures
        total_cost(s, f) >= s.len(),
    decreases s.len(),
{
    if s.len() > 0 {
        lemma_total_cost_len(s.drop_last(), f);
    }
}

proof fn lemma_conn_type_value_injective(a: DrmConnType, b: DrmConnType)
    ensures
        a.spec_value() == b.spec_value() ==> a == b,
{
}

proof fn lemma_extends_trans(s1: DrmKmsObjectStore, s2: DrmKmsObjectStore, s3: DrmKmsObjectStore)
    requires
        extends(s1, s2),
        extends(s2, s3),
    ensures
        extends(s1, s3),
{
    assert forall|t: DrmKmsObjectType| #[trigger] s1.spec_ids(t).is_prefix_of(s3.spec_ids(t)) by {
        assert(s1.spec_ids(t).is_prefix_of(s2.spec_ids(t)));
        assert(s2.spec_ids(t).is_prefix_of(s3.spec_ids(t)));
        assert forall|k: int| 0 <= k < s1.spec_ids(t).len() implies s3.spec_ids(t)[k] == s1.spec_ids(t)[k] by {
            lemma_extends_index(s1, s2, t, k);
            lemma_extends_index(s2, s3, t, k);
        }
        assert(s3.spec_ids(t).subrange(0, s1.spec_ids(t).len() as int) =~= s1.spec_ids(t));
    }
}

proof fn lemma_extends_refl(s: DrmKmsObjectStore)
    ensures
        extends(s, s),
{
    assert forall|t: DrmKmsObjectType| #[trigger] s.spec_ids(t).is_prefix_of(s.spec_ids(t)) by {
        assert(s.spec_ids(t).subrange(0, s.spec_ids(t).len() as int) =~= s.spec_ids(t));
    }
}

/// Adds the planes, in order, each after its properties.
fn build_planes(store: &mut DrmKmsObjectStore, planes: Vec<PendingPlane>) -> (r: Result<(), DrmError>)
    requires
        old(store).wf(),
        old(store).spec_ids(DrmKmsObjectType::Plane).len() == 0,
        forall|k: int| 0 <= k < planes@.len() ==> indices_fit(#[trigger] planes@[k].attached_crtcs@),
    ensures
        final(store).wf(),
        match r {
            Ok(()) => {
                &&& extends(*old(store), *final(store))
                &&& final(store).spec_next_id() == old(store).spec_next_id() + total_cost(planes@, plane_cost())
                &&& final(store).spec_ids(DrmKmsObjectType::Plane).len() == planes@.len()
                &&& forall|t: DrmKmsObjectType| t != DrmKmsObjectType::Plane ==> #[trigger] final(store).spec_ids(t) == old(store).spec_ids(t)
                &&& planes_built(*final(store), planes@)
            },
            Err(e) => {
                ||| e == DrmError::Invalid && !planes_consistent(planes@)
                ||| e == DrmError::NoMemory && old(store).spec_next_id() + total_cost(planes@, plane_cost()) > u32::MAX
            },
        },
{
    let ghost s0 = *store;
    let ghost all = planes@;
    let n = planes.len();
    let mut rest = planes;
    let mut i: usize = 0;
    proof {
        lemma_extends_refl(s0);
        assert(all.take(0) =~= Seq::<PendingPlane>::empty());
    }
    while rest.len() > 0
        invariant
            s0 == *old(store),
            all == planes@,
            n == all.len(),
            i <= n,
            rest@ == all.subrange(i as int, n as int),
            forall|k: int| 0 <= k < all.len() ==> indices_fit(#[trigger] all[k].attached_crtcs@),
            store.wf(),
            extends(s0, *store),
            store.spec_ids(DrmKmsObjectType::Plane).len() == i,
            forall|t: DrmKmsObjectType| t != DrmKmsObjectType::Plane ==> #[trigger] store.spec_ids(t) == s0.spec_ids(t),
            store.spec_next_id() == s0.spec_next_id() + total_cost(all.take(i as int), plane_cost()),
            planes_built(*store, all.take(i as int)),
        decreases rest@.len(),
    {
        proof {
            lemma_total_cost_take(all, plane_cost(), i as int);
            lemma_total_cost_prefix(all, plane_cost(), i + 1);
        }
        let pending = rest.remove(0);
        assert(pending == all[i as int]);
        let PendingPlane { type_, format_types, attached_crtcs, property_values } = pending;
        assert(indices_fit(all[i as int].attached_crtcs@));
        let ghost s_before = *store;
        let property = match build_object_properties(store, property_values) {
            Ok(t) => t,
            Err(e) => {
                proof {
                    if e == DrmError::Invalid {
                        assert(!props_consistent(all[i as int].property_values@));
                    }
                }
                return Err(e);
            },
        };
        let ghost s_mid = *store;
        let ghost prop_g = property;
        let plane = DrmPlane::new(type_, format_types, attached_crtcs.as_slice(), property);
        let ghost plane_g = plane;
        let id = match store.add_object(DrmKmsObject::Plane(plane)) {
            Ok(id) => id,
            Err(e) => {
                return Err(e);
            },
        };
        proof {
            let done = all.take(i as int);
            let next = all.take(i + 1);
            let none_c = Seq::<PendingCrtc>::empty();
            let none_e = Seq::<PendingEncoder>::empty();
            let none_n = Seq::<PendingConnector>::empty();
            lemma_built_extend(s_before, s_mid, done, none_c, none_e, none_n);
            assert(!s_mid.spec_objects().contains_key(id));
            lemma_add_listed_extends(s_mid, *store, id, DrmKmsObject::Plane(plane_g));
            lemma_built_extend(s_mid, *store, done, none_c, none_e, none_n);
            lemma_props_built_extends(s_mid, *store, prop_g@, all[i as int].property_values@);
            lemma_extends_trans(s0, s_before, s_mid);
            lemma_extends_trans(s0, s_mid, *store);
            assert(store.spec_ids(DrmKmsObjectType::Plane)[i as int] == id);
            assert(plane_at(*store, next, i as int));
            assert forall|k: int| 0 <= k < next.len() implies #[trigger] plane_at(*store, next, k) by {
                if k < i {
                    assert(plane_at(*store, done, k));
                }
            }
        }
        i = i + 1;
        proof {
            assert(rest@ =~= all.subrange(i as int, n as int));
        }
    }
    proof {
        assert(all.take(i as int) =~= all);
    }
    Ok(())
}

/// Whether CRTC `c` names planes among the first `n`.
pub open spec fn crtc_refs_fit(c: PendingCrtc, n: int) -> bool {
    &&& c.primary_plane < n
    &&& c.cursor_plane matches Some(x) ==> x < n
}

/// Adds the CRTCs, in order, each after its properties, with its planes
/// resolved from plane index to plane id.
fn build_crtcs(store: &mut DrmKmsObjectStore, crtcs: Vec<PendingCrtc>) -> (r: Result<(), DrmError>)
    requires
        old(store).wf(),
        old(store).spec_ids(DrmKmsObjectType::Crtc).len() == 0,
        forall|k: int| 0 <= k < crtcs@.len() ==> #[trigger] crtc_refs_fit(crtcs@[k], old(store).spec_ids(DrmKmsObjectType::Plane).len() as int),
    ensures
        final(store).wf(),
        match r {
            Ok(()) => {
                &&& extends(*old(store), *final(store))
                &&& final(store).spec_next_id() == old(store).spec_next_id() + total_cost(crtcs@, crtc_cost())
                &&& final(store).spec_ids(DrmKmsObjectType::Crtc).len() == crtcs@.len()
                &&& forall|t: DrmKmsObjectType| t != DrmKmsObjectType::Crtc ==> #[trigger] final(store).spec_ids(t) == old(store).spec_ids(t)
                &&& crtcs_built(*final(store), crtcs@)
            },
            Err(e) => {
                ||| e == DrmError::Invalid && !crtcs_consistent(crtcs@)
                ||| e == DrmError::NoMemory && old(store).spec_next_id() + total_cost(crtcs@, crtc_cost()) > u32::MAX
            },
        },
{
    let ghost s0 = *store;
    let ghost all = crtcs@;
    let n = crtcs.len();
    let mut rest = crtcs;
    let mut i: usize = 0;
    proof {
        lemma_extends_refl(s0);
    }
    while rest.len() > 0
        invariant
            s0 == *old(store),
            all == crtcs@,
            n == all.len(),
            i <= n,
            rest@ == all.subrange(i as int, n as int),
            forall|k: int| 0 <= k < all.len() ==> #[trigger] crtc_refs_fit(all[k], s0.spec_ids(DrmKmsObjectType::Plane).len() as int),
            store.wf(),
            extends(s0, *store),
            store.spec_ids(DrmKmsObjectType::Crtc).len() == i,
            forall|t: DrmKmsObjectType| t != DrmKmsObjectType::Crtc ==> #[trigger] store.spec_ids(t) == s0.spec_ids(t),
            store.spec_next_id() == s0.spec_next_id() + total_cost(all.take(i as int), crtc_cost()),
            crtcs_built(*store, all.take(i as int)),
        decreases rest@.len(),
    {
        proof {
            lemma_total_cost_take(all, crtc_cost(), i as int);
            lemma_total_cost_prefix(all, crtc_cost(), i + 1);
        }
        let pending = rest.remove(0);
        assert(pending == all[i as int]);
        let PendingCrtc { gamma_size_px, primary_plane, cursor_plane, property_values } = pending;
        assert(crtc_refs_fit(all[i as int], s0.spec_ids(DrmKmsObjectType::Plane).len() as int));
        assert(store.spec_ids(DrmKmsObjectType::Plane) == s0.spec_ids(DrmKmsObjectType::Plane));
        let primary_plane_id = match store.get_object_id_from_index(primary_plane, DrmKmsObjectType::Plane) {
            Some(id) => id,
            None => {
                return Err(DrmError::Invalid);
            },
        };
        let cursor_plane_id = match cursor_plane {
            Some(cursor) => match store.get_object_id_from_index(cursor, DrmKmsObjectType::Plane) {
                Some(id) => Some(id),
                None => {
                    return Err(DrmError::Invalid);
                },
            },
            None => None,
        };
        let ghost s_before = *store;
        let property = match build_object_properties(store, property_values) {
            Ok(t) => t,
            Err(e) => {
                proof {
                    if e == DrmError::Invalid {
                        assert(!props_consistent(all[i as int].property_values@));
                    }
                }
                return Err(e);
            },
        };
        let ghost s_mid = *store;
        let ghost prop_g = property;
        let crtc = DrmCrtc::new(gamma_size_px, primary_plane_id, cursor_plane_id, property);
        let ghost crtc_g = crtc;
        let id = match store.add_object(DrmKmsObject::Crtc(crtc)) {
            Ok(id) => id,
            Err(e) => {
                return Err(e);
            },
        };
        proof {
            let done = all.take(i as int);
            let next = all.take(i + 1);
            let none_p = Seq::<PendingPlane>::empty();
            let none_e = Seq::<PendingEncoder>::empty();
            let none_n = Seq::<PendingConnector>::empty();
            lemma_built_extend(s_before, s_mid, none_p, done, none_e, none_n);
            assert(!s_mid.spec_objects().contains_key(id));
            lemma_add_listed_extends(s_mid, *store, id, DrmKmsObject::Crtc(crtc_g));
            lemma_built_extend(s_mid, *store, none_p, done, none_e, none_n);
            lemma_props_built_extends(s_mid, *store, prop_g@, all[i as int].property_values@);
            lemma_extends_trans(s0, s_before, s_mid);
            lemma_extends_trans(s0, s_mid, *store);
            assert(store.spec_ids(DrmKmsObjectType::Crtc)[i as int] == id);
            assert(store.spec_ids(DrmKmsObjectType::Plane) == s0.spec_ids(DrmKmsObjectType::Plane));
            assert(crtc_at(*store, next, i as int));
            assert forall|k: int| 0 <= k < next.len() implies #[trigger] crtc_at(*store, next, k) by {
                if k < i {
                    assert(crtc_at(*store, done, k));
                }
            }
        }
        i = i + 1;
        proof {
            assert(rest@ =~= all.subrange(i as int, n as int));
        }
    }
    proof {
        assert(all.take(i as int) =~= all);
    }
    Ok(())
}

/// Adds the encoders, in order.
fn build_encoders(store: &mut DrmKmsObjectStore, encoders: Vec<PendingEncoder>) -> (r: Result<(), DrmError>)
    requires
        old(store).wf(),
        old(store).spec_ids(DrmKmsObjectType::Encoder).len() == 0,
        forall|k: int| 0 <= k < encoders@.len() ==> indices_fit(#[trigger] encoders@[k].attached_crtcs@),
    ensures
        final(store).wf(),
        match r {
            Ok(()) => {
                &&& extends(*old(store), *final(store))
                &&& final(store).spec_next_id() == old(store).spec_next_id() + encoders@.len()
                &&& final(store).spec_ids(DrmKmsObjectType::Encoder).len() == encoders@.len()
                &&& forall|t: DrmKmsObjectType| t != DrmKmsObjectType::Encoder ==> #[trigger] final(store).spec_ids(t) == old(store).spec_ids(t)
                &&& encoders_built(*final(store), encoders@)
            },
            Err(e) => e == DrmError::NoMemory && old(store).spec_next_id() + encoders@.len() > u32::MAX,
        },
{
    let ghost s0 = *store;
    let ghost all = encoders@;
    let n = encoders.len();
    let mut rest = encoders;
    let mut i: usize = 0;
    proof {
        lemma_extends_refl(s0);
    }
    while rest.len() > 0
        invariant
            s0 == *old(store),
            all == encoders@,
            n == all.len(),
            i <= n,
            rest@ == all.subrange(i as int, n as int),
            forall|k: int| 0 <= k < all.len() ==> indices_fit(#[trigger] all[k].attached_crtcs@),
            store.wf(),
            extends(s0, *store),
            store.spec_ids(DrmKmsObjectType::Encoder).len() == i,
            forall|t: DrmKmsObjectType| t != DrmKmsObjectType::Encoder ==> #[trigger] store.spec_ids(t) == s0.spec_ids(t),
            store.spec_next_id() == s0.spec_next_id() + i,
            encoders_built(*store, all.take(i as int)),
        decreases rest@.len(),
    {
        let pending = rest.remove(0);
        assert(pending == all[i as int]);
        let PendingEncoder { type_, attached_crtcs } = pending;
        assert(indices_fit(all[i as int].attached_crtcs@));
        let ghost s_before = *store;
        let encoder = DrmEncoder::new(type_, attached_crtcs.as_slice());
        let ghost encoder_g = encoder;
        let id = match store.add_object(DrmKmsObject::Encoder(encoder)) {
            Ok(id) => id,
            Err(e) => {
                return Err(e);
            },
        };
        proof {
            let done = all.take(i as int);
            let next = all.take(i + 1);
            let none_p = Seq::<PendingPlane>::empty();
            let none_c = Seq::<PendingCrtc>::empty();
            let none_n = Seq::<PendingConnector>::empty();
            assert(!s_before.spec_objects().contains_key(id));
            lemma_add_listed_extends(s_before, *store, id, DrmKmsObject::Encoder(encoder_g));
            lemma_built_extend(s_before, *store, none_p, none_c, done, none_n);
            lemma_extends_trans(s0, s_before, *store);
            assert(store.spec_ids(DrmKmsObjectType::Encoder)[i as int] == id);
            assert(encoder_at(*store, next, i as int));
            assert forall|k: int| 0 <= k < next.len() implies #[trigger] encoder_at(*store, next, k) by {
                if k < i {
                    assert(encoder_at(*store, done, k));
                }
            }
        }
        i = i + 1;
        proof {
            assert(rest@ =~= all.subrange(i as int, n as int));
        }
    }
    proof {
        assert(all.take(i as int) =~= all);
    }
    Ok(())
}

/// The next index per connector type, keyed by the type's number, held in
/// a `hashbrown::HashMap`.
#[verifier::external_body]
pub struct DrmTypeIndexTable {
    map: hashbrown::HashMap<u32, u32>,
}

/// The entries of a type index table.
pub uninterp spec fn type_index_entries(t: DrmTypeIndexTable) -> Map<u32, u32>;

pub open spec fn no_type_index_entries() -> Map<u32, u32> {
    Map::empty()
}

/// The count stored under `key`, zero when there is none.
pub open spec fn count_in(m: Map<u32, u32>, key: u32) -> nat {
    if m.contains_key(key) {
        m[key] as nat
    } else {
        0
    }
}

/// Creates an empty table; calls `hashbrown::HashMap::new`.
#[verifier::external_body]
fn type_index_table_new() -> (t: DrmTypeIndexTable)
    ensures
        type_index_entries(t) == no_type_index_entries(),
{
    DrmTypeIndexTable { map: hashbrown::HashMap::new() }
}

/// Looks up the entry of `key`; calls `hashbrown::HashMap::get`.
#[verifier::external_body]
fn type_index_table_get(t: &DrmTypeIndexTable, key: u32) -> (r: Option<u32>)
    ensures
        r == (if type_index_entries(*t).contains_key(key) {
            Some(type_index_entries(*t)[key])
        } else {
            None
        }),
{
    t.map.get(&key).copied()
}

/// Stores `value` under `key`, replacing an earlier entry; calls
/// `hashbrown::HashMap::insert`.
#[verifier::external_body]
fn type_index_table_insert(t: &mut DrmTypeIndexTable, key: u32, value: u32)
    ensures
        type_index_entries(*final(t)) == type_index_entries(*old(t)).insert(key, value),
{
    t.map.insert(key, value);
}

/// Adds the connectors, in order, each after its properties, numbering the
/// connectors of each type from zero in the order they were declared.
fn build_connectors(store: &mut DrmKmsObjectStore, connectors: Vec<PendingConnector>) -> (r: Result<(), DrmError>)
    requires
        old(store).wf(),
        old(store).spec_ids(DrmKmsObjectType::Connector).len() == 0,
        forall|k: int| 0 <= k < connectors@.len() ==> indices_fit(#[trigger] connectors@[k].attached_encoders@),
    ensures
        final(store).wf(),
        match r {
            Ok(()) => {
                &&& extends(*old(store), *final(store))
                &&& final(store).spec_next_id() == old(store).spec_next_id() + total_cost(connectors@, connector_cost())
                &&& final(store).spec_ids(DrmKmsObjectType::Connector).len() == connectors@.len()
                &&& forall|t: DrmKmsObjectType| t != DrmKmsObjectType::Connector ==> #[trigger] final(store).spec_ids(t) == old(store).spec_ids(t)
                &&& connectors_built(*final(store), connectors@)
            },
            Err(e) => {
                ||| e == DrmError::Invalid && !connectors_consistent(connectors@)
                ||| e == DrmError::NoMemory && old(store).spec_next_id() + total_cost(connectors@, connector_cost()) > u32::MAX
            },
        },
{
    let ghost s0 = *store;
    let ghost all = connectors@;
    let n = connectors.len();
    let mut rest = connectors;
    let mut i: usize = 0;
    let mut counts = type_index_table_new();
    proof {
        lemma_extends_refl(s0);
        assert forall|t: DrmConnType| #[trigger] count_in(type_index_entries(counts), t.spec_value()) == conn_type_count(all.take(0), t) by {
            assert(all.take(0).len() == 0);
        }
        assert forall|x: PendingConnector| #[trigger] connector_cost()(x) >= 1 by {}
    }
    while rest.len() > 0
        invariant
            s0 == *old(store),
            all == connectors@,
            n == all.len(),
            i <= n,
            rest@ == all.subrange(i as int, n as int),
            forall|k: int| 0 <= k < all.len() ==> indices_fit(#[trigger] all[k].attached_encoders@),
            forall|x: PendingConnector| #[trigger] connector_cost()(x) >= 1,
            s0.spec_next_id() >= 1,
            store.wf(),
            extends(s0, *store),
            store.spec_ids(DrmKmsObjectType::Connector).len() == i,
            forall|t: DrmKmsObjectType| t != DrmKmsObjectType::Connector ==> #[trigger] store.spec_ids(t) == s0.spec_ids(t),
            store.spec_next_id() == s0.spec_next_id() + total_cost(all.take(i as int), connector_cost()),
            connectors_built(*store, all.take(i as int)),
            forall|t: DrmConnType| #[trigger] count_in(type_index_entries(counts), t.spec_value()) == conn_type_count(all.take(i as int), t),
        decreases rest@.len(),
    {
        proof {
            lemma_total_cost_take(all, connector_cost(), i as int);
            lemma_total_cost_prefix(all, connector_cost(), i + 1);
            lemma_total_cost_len(all.take(i as int), connector_cost());
        }
        let pending = rest.remove(0);
        assert(pending == all[i as int]);
        let PendingConnector { type_, attached_encoders, property_values } = pending;
        assert(indices_fit(all[i as int].attached_encoders@));
        let key = type_.value();
        let type_index: u32 = match type_index_table_get(&counts, key) {
            Some(next) => next,
            None => 0,
        };
        proof {
            assert(count_in(type_index_entries(counts), type_.spec_value()) == conn_type_count(all.take(i as int), type_));
            lemma_conn_type_count_bound(all.take(i as int), type_);
            assert(type_index <= i);
            assert(i < u32::MAX);
        }
        let next_index = match type_index.checked_add(1) {
            Some(next) => next,
            None => {
                return Err(DrmError::Invalid);
            },
        };
        let ghost counts_before = type_index_entries(counts);
        type_index_table_insert(&mut counts, key, next_index);
        proof {
            assert forall|t: DrmConnType| #[trigger] count_in(type_index_entries(counts), t.spec_value()) == conn_type_count(
                all.take(i + 1),
                t,
            ) by {
                lemma_conn_type_count_take(all, i as int, t);
                lemma_conn_type_value_injective(t, type_);
                assert(count_in(counts_before, t.spec_value()) == conn_type_count(all.take(i as int), t));
            }
        }
        let ghost s_before = *store;
        let property = match build_object_properties(store, property_values) {
            Ok(t) => t,
            Err(e) => {
                proof {
                    if e == DrmError::Invalid {
                        assert(!props_consistent(all[i as int].property_values@));
                    }
                }
                return Err(e);
            },
        };
        let ghost s_mid = *store;
        let ghost prop_g = property;
        let connector = DrmConnector::new(type_, type_index, attached_encoders.as_slice(), property);
        let ghost connector_g = connector;
        let id = match store.add_object(DrmKmsObject::Connector(connector)) {
            Ok(id) => id,
            Err(e) => {
                return Err(e);
            },
        };
        proof {
            let done = all.take(i as int);
            let next = all.take(i + 1);
            let none_p = Seq::<PendingPlane>::empty();
            let none_c = Seq::<PendingCrtc>::empty();
            let none_e = Seq::<PendingEncoder>::empty();
            lemma_built_extend(s_before, s_mid, none_p, none_c, none_e, done);
            assert(!s_mid.spec_objects().contains_key(id));
            lemma_add_listed_extends(s_mid, *store, id, DrmKmsObject::Connector(connector_g));
            lemma_built_extend(s_mid, *store, none_p, none_c, none_e, done);
            lemma_props_built_extends(s_mid, *store, prop_g@, all[i as int].property_values@);
            lemma_extends_trans(s0, s_before, s_mid);
            lemma_extends_trans(s0, s_mid, *store);
            assert(store.spec_ids(DrmKmsObjectType::Connector)[i as int] == id);
            assert(next.take(i as int) =~= done);
            assert(connector_at(*store, next, i as int));
            assert forall|k: int| 0 <= k < next.len() implies #[trigger] connector_at(*store, next, k) by {
                if k < i {
                    assert(connector_at(*store, done, k));
                    assert(next.take(k) =~= done.take(k));
                }
            }
        }
        i = i + 1;
        proof {
            assert(rest@ =~= all.subrange(i as int, n as int));
        }
    }
    proof {
        assert(all.take(i as int) =~= all);
    }
    Ok(())
}

impl DrmKmsObjectBuilder {
    /// Whether `store` is what this topology builds: exactly its objects,
    /// each type listed in declaration order, each object with its
    /// properties and links.
    pub open spec fn built_into(&self, store: DrmKmsObjectStore) -> bool {
        &&& store.wf()
        &&& store.spec_next_id() == 1 + build_cost(self.spec_planes(), self.spec_crtcs(), self.spec_encoders(), self.spec_connectors())
        &&& store.spec_ids(DrmKmsObjectType::Plane).len() == self.spec_planes().len()
        &&& store.spec_ids(DrmKmsObjectType::Crtc).len() == self.spec_crtcs().len()
        &&& store.spec_ids(DrmKmsObjectType::Encoder).len() == self.spec_encoders().len()
        &&& store.spec_ids(DrmKmsObjectType::Connector).len() == self.spec_connectors().len()
        &&& planes_built(store, self.spec_planes())
        &&& crtcs_built(store, self.spec_crtcs())
        &&& encoders_built(store, self.spec_encoders())
        &&& connectors_built(store, self.spec_connectors())
    }

    /// Validates the topology and materializes the store: the planes first,
    /// then the CRTCs, the encoders and the connectors, each object after
    /// its properties.
    pub fn build(self) -> (r: Result<DrmKmsObjectStore, DrmError>)
        requires
            topology_valid(self.spec_planes(), self.spec_crtcs()) ==> attachments_fit(
                self.spec_planes(),
                self.spec_encoders(),
                self.spec_connectors(),
            ),
        ensures
            !topology_valid(self.spec_planes(), self.spec_crtcs()) ==> r == Err::<DrmKmsObjectStore, DrmError>(DrmError::Invalid),
            topology_valid(self.spec_planes(), self.spec_crtcs()) && all_consistent(self.spec_planes(), self.spec_crtcs(), self.spec_connectors())
                && 1 + build_cost(self.spec_planes(), self.spec_crtcs(), self.spec_encoders(), self.spec_connectors()) <= u32::MAX
                ==> r is Ok,
            match r {
                Ok(store) => self.built_into(store),
                Err(e) => e == DrmError::Invalid || (e == DrmError::NoMemory && 1 + build_cost(
                    self.spec_planes(),
                    self.spec_crtcs(),
                    self.spec_encoders(),
                    self.spec_connectors(),
                ) > u32::MAX),
            },
    {
        let ghost pl = self.spec_planes();
        let ghost cr = self.spec_crtcs();
        let ghost en = self.spec_encoders();
        let ghost co = self.spec_connectors();
        if self.validate_topology().is_err() {
            return Err(DrmError::Invalid);
        }
        let DrmKmsObjectBuilder { planes, crtcs, encoders, connectors } = self;
        let mut store = DrmKmsObjectStore::new();
        let ghost s0 = store;
        match build_planes(&mut store, planes) {
            Ok(()) => {},
            Err(e) => {
                return Err(e);
            },
        }
        let ghost s1 = store;
        proof {
            assert forall|k: int| 0 <= k < cr.len() implies #[trigger] crtc_refs_fit(
                cr[k],
                s1.spec_ids(DrmKmsObjectType::Plane).len() as int,
            ) by {
                assert(crtc_topology_ok(pl, cr, k));
            }
        }
        match build_crtcs(&mut store, crtcs) {
            Ok(()) => {},
            Err(e) => {
                return Err(e);
            },
        }
        let ghost s2 = store;
        match build_encoders(&mut store, encoders) {
            Ok(()) => {},
            Err(e) => {
                return Err(e);
            },
        }
        let ghost s3 = store;
        match build_connectors(&mut store, connectors) {
            Ok(()) => {},
            Err(e) => {
                return Err(e);
            },
        }
        proof {
            let none_p = Seq::<PendingPlane>::empty();
            let none_c = Seq::<PendingCrtc>::empty();
            let none_e = Seq::<PendingEncoder>::empty();
            let none_n = Seq::<PendingConnector>::empty();
            lemma_built_extend(s1, s2, pl, none_c, none_e, none_n);
            lemma_built_extend(s2, s3, pl, cr, none_e, none_n);
            lemma_built_extend(s3, store, pl, cr, en, none_n);
        }
        Ok(store)
    }
}

} // verus!
