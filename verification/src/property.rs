//! KMS properties: their definitions and the attachment table of an object.
use vstd::prelude::*;
use vstd::string::StringSliceAdditionalSpecFns;

use crate::object_type::{DrmKmsObjectType, KmsObjectId, KmsObjectPropValue};

verus! {

/// Length of a property name field.
pub const DRM_PROP_NAME_LEN: usize = 32;

/// Stores the property attachments of a KMS object as
/// `property_id -> value`.
///
/// Immutable or static properties rely on the stored value directly, while
/// mutable atomic properties derive their current value from the typed KMS
/// object state.
#[verifier::external_body]
#[derive(Debug)]
pub struct DrmKmsObjectProp {
    table: hashbrown::HashMap<KmsObjectId, KmsObjectPropValue>,
}

/// The attachments held by a property table.
pub uninterp spec fn prop_attachments(p: DrmKmsObjectProp) -> Map<u32, u64>;

impl View for DrmKmsObjectProp {
    type V = Map<u32, u64>;

    open spec fn view(&self) -> Map<u32, u64> {
        prop_attachments(*self)
    }
}

/// The attachments of an empty table.
pub open spec fn no_attachments() -> Map<u32, u64> {
    Map::empty()
}

/// Creates an empty table; calls `hashbrown::HashMap::new`.
#[verifier::external_body]
fn empty_prop_table() -> (p: DrmKmsObjectProp)
    ensures
        prop_attachments(p) == no_attachments(),
{
    DrmKmsObjectProp { table: hashbrown::HashMap::new() }
}

impl Default for DrmKmsObjectProp {
    fn default() -> (p: Self)
        ensures
            p@ == Map::<u32, u64>::empty(),
    {
        empty_prop_table()
    }
}

impl DrmKmsObjectProp {
    /// Attaches property `id` with `value`, replacing an earlier value;
    /// calls `hashbrown::HashMap::insert`.
    #[verifier::external_body]
    pub fn add_property(&mut self, id: KmsObjectId, value: KmsObjectPropValue)
        ensures
            prop_attachments(*final(self)) == prop_attachments(*old(self)).insert(id, value),
    {
        self.table.insert(id, value);
    }

    /// Lists the attachments in the table's iteration order; walks
    /// `hashbrown::HashMap::iter`. The order is not stated.
    #[verifier::external_body]
    pub fn entries(&self) -> (r: Vec<(KmsObjectId, KmsObjectPropValue)>)
        ensures
            r@.len() == prop_attachments(*self).dom().len(),
            forall|i: int| #![trigger r@[i]] 0 <= i < r@.len() ==> prop_attachments(*self).contains_key(r@[i].0)
                && prop_attachments(*self)[r@[i].0] == r@[i].1,
            forall|k: u32| #[trigger] prop_attachments(*self).contains_key(k) ==> exists|i: int| 0 <= i < r@.len()
                && #[trigger] r@[i].0 == k,
            forall|i: int| forall|j: int| 0 <= i < j < r@.len() ==> #[trigger] r@[i].0 != #[trigger] r@[j].0,
    {
        self.table.iter().map(|(id, value)| (*id, *value)).collect()
    }

    /// Lists the attached property ids; walks `hashbrown::HashMap::keys`.
    /// The order is not stated.
    #[verifier::external_body]
    pub fn ids(&self) -> (r: Vec<KmsObjectId>)
        ensures
            r@.len() == prop_attachments(*self).dom().len(),
            r@.no_duplicates(),
            forall|i: int| #![trigger r@[i]] 0 <= i < r@.len() ==> prop_attachments(*self).contains_key(r@[i]),
            forall|k: u32| #[trigger] prop_attachments(*self).contains_key(k) ==> r@.contains(k),
    {
        self.table.keys().copied().collect()
    }

    /// Lists the attached values, one per attachment; walks
    /// `hashbrown::HashMap::values`. The order is not stated.
    #[verifier::external_body]
    pub fn values(&self) -> (r: Vec<KmsObjectPropValue>)
        ensures
            r@.len() == prop_attachments(*self).dom().len(),
            exists|keys: Seq<u32>| #![trigger keys.len()] {
                &&& keys.len() == r@.len()
                &&& keys.no_duplicates()
                &&& forall|i: int| #![trigger keys[i]] 0 <= i < keys.len() ==> prop_attachments(*self).contains_key(keys[i])
                        && prop_attachments(*self)[keys[i]] == r@[i]
            },
    {
        self.table.values().copied().collect()
    }

    /// Returns the number of attachments; calls `hashbrown::HashMap::len`.
    #[verifier::external_body]
    pub fn len(&self) -> (n: usize)
        ensures
            n == prop_attachments(*self).dom().len(),
    {
        self.table.len()
    }
}

/// Property flags (`DRM_MODE_PROP_*`).
#[derive(Debug, Clone, Copy, PartialEq, Eq, Structural)]
pub struct DrmPropertyFlags {
    bits: u32,
}

#[allow(non_snake_case)]
impl DrmPropertyFlags {
    pub closed spec fn spec_bits(self) -> u32 {
        self.bits
    }

    pub fn bits(&self) -> (b: u32)
        ensures
            b == self.spec_bits(),
    {
        self.bits
    }

    pub fn empty() -> (f: Self)
        ensures
            f.spec_bits() == 0u32,
    {
        DrmPropertyFlags { bits: 0 }
    }

    /// The flags set in either operand.
    pub fn union(self, other: Self) -> (f: Self)
        ensures
            f.spec_bits() == self.spec_bits() | other.spec_bits(),
    {
        DrmPropertyFlags { bits: self.bits | other.bits }
    }

    /// Whether every flag of `other` is set in `self`.
    pub fn contains(&self, other: Self) -> (r: bool)
        ensures
            r == (self.spec_bits() & other.spec_bits() == other.spec_bits()),
    {
        self.bits & other.bits == other.bits
    }

    pub fn PENDING() -> (f: Self) ensures f.spec_bits() == 1u32 { DrmPropertyFlags { bits: 1 } }
    pub fn RANGE() -> (f: Self) ensures f.spec_bits() == 2u32 { DrmPropertyFlags { bits: 2 } }
    pub fn IMMUTABLE() -> (f: Self) ensures f.spec_bits() == 4u32 { DrmPropertyFlags { bits: 4 } }
    pub fn ENUM() -> (f: Self) ensures f.spec_bits() == 8u32 { DrmPropertyFlags { bits: 8 } }
    pub fn BLOB() -> (f: Self) ensures f.spec_bits() == 0x10u32 { DrmPropertyFlags { bits: 0x10 } }
    pub fn BITMASK() -> (f: Self) ensures f.spec_bits() == 0x20u32 { DrmPropertyFlags { bits: 0x20 } }
    pub fn OBJECT() -> (f: Self) ensures f.spec_bits() == 0x40u32 { DrmPropertyFlags { bits: 0x40 } }
    pub fn SIGNED_RANGE() -> (f: Self) ensures f.spec_bits() == 0x80u32 { DrmPropertyFlags { bits: 0x80 } }
    pub fn ATOMIC() -> (f: Self) ensures f.spec_bits() == 0x8000_0000u32 { DrmPropertyFlags { bits: 0x8000_0000 } }
}

/// The name field for `s`: its first bytes, at most 31 of them, then zero
/// bytes up to the field length.
pub open spec fn name_field_spec(s: &str) -> Seq<u8> {
    let bytes = s.spec_bytes();
    let n: int = if bytes.len() < 31 { bytes.len() as int } else { 31 };
    bytes.subrange(0, n) + Seq::new((32 - n) as nat, |i: int| 0u8)
}

/// Copies a property name into a zero-terminated fixed-size field.
pub fn str_to_u8(s: &str) -> (buf: [u8; 32])
    ensures
        buf@ == name_field_spec(s),
{
    let mut buf = [0u8; 32];
    let bytes = s.as_bytes();
    let len = if bytes.len() < 31 { bytes.len() } else { 31 };
    let mut i: usize = 0;
    while i < len
        invariant
            bytes@ == s.spec_bytes(),
            len <= bytes@.len(),
            len <= 31,
            i <= len,
            forall|j: int| 0 <= j < i ==> buf@[j] == bytes@[j],
            forall|j: int| i <= j < 32 ==> buf@[j] == 0u8,
        decreases len - i,
    {
        buf[i] = bytes[i];
        i = i + 1;
    }
    assert(buf@ =~= name_field_spec(s));
    buf
}

/// Whether two strings are the same text.
pub fn str_eq(a: &str, b: &str) -> (r: bool)
    ensures
        r == (a@ == b@),
{
    let x = a.as_bytes();
    let y = b.as_bytes();
    if x.len() != y.len() {
        return false;
    }
    let mut i: usize = 0;
    while i < x.len()
        invariant
            x@ == a.spec_bytes(),
            y@ == b.spec_bytes(),
            x@.len() == y@.len(),
            i <= x@.len(),
            forall|j: int| 0 <= j < i ==> x@[j] == y@[j],
        decreases x@.len() - i,
    {
        if x[i] != y[i] {
            return false;
        }
        i = i + 1;
    }
    proof {
        assert(x@ =~= y@);
        vstd::utf8::encode_utf8_decode_utf8(a@);
        vstd::utf8::encode_utf8_decode_utf8(b@);
    }
    true
}

/// One named value of an enumeration property.
#[derive(Debug, Clone, Copy)]
pub struct DrmPropertyEnum {
    pub value: u64,
    pub name: [u8; 32],
}

impl DrmPropertyEnum {
    pub fn new(value: u64, name: &'static str) -> (e: Self)
        ensures
            e.value == value,
            e.name@ == name_field_spec(name),
    {
        Self { value, name: str_to_u8(name) }
    }
}

/// The value domain of a property.
#[allow(inconsistent_fields)]
#[derive(Debug, Clone)]
pub enum DrmPropertyKind {
    Plain,
    Range { min: u64, max: u64 },
    SignedRange { min: i64, max: i64 },
    Enum(Vec<DrmPropertyEnum>),
    Bitmask(Vec<DrmPropertyEnum>),
    Blob,
    Object(DrmKmsObjectType),
}

/// Describes a DRM property definition attached to a KMS object.
///
/// A property is the userspace-visible configuration entry point: it names
/// a configurable value and constrains it; state updates address it as
/// `(object_id, property_id, value)`.
#[derive(Debug, Clone)]
pub struct DrmProperty {
    name: &'static str,
    flags: DrmPropertyFlags,
    kind: DrmPropertyKind,
}

impl DrmProperty {
    pub closed spec fn spec_name(&self) -> &'static str {
        self.name
    }

    pub closed spec fn spec_flags(&self) -> DrmPropertyFlags {
        self.flags
    }

    pub closed spec fn spec_kind(&self) -> DrmPropertyKind {
        self.kind
    }

    pub fn name(&self) -> (n: &'static str)
        ensures
            n == self.spec_name(),
    {
        self.name
    }

    /// Returns the name as a zero-terminated fixed-size field.
    pub fn name_to_u8(&self) -> (buf: [u8; 32])
        ensures
            buf@ == name_field_spec(self.spec_name()),
    {
        str_to_u8(self.name)
    }

    pub fn flags(&self) -> (f: &DrmPropertyFlags)
        ensures
            *f == self.spec_flags(),
    {
        &self.flags
    }

    pub fn kind(&self) -> (k: &DrmPropertyKind)
        ensures
            *k == self.spec_kind(),
    {
        &self.kind
    }

    /// Creates a property of no particular value domain.
    pub fn create(name: &'static str, flags: DrmPropertyFlags) -> (p: Self)
        ensures
            p.spec_name() == name,
            p.spec_flags() == flags,
            p.spec_kind() == DrmPropertyKind::Plain,
    {
        Self { name, flags, kind: DrmPropertyKind::Plain }
    }

    /// Creates a property whose values are blob ids.
    pub fn create_blob(name: &'static str, flags: DrmPropertyFlags) -> (p: Self)
        ensures
            p.spec_name() == name,
            p.spec_flags().spec_bits() == flags.spec_bits() | 0x10,
            p.spec_kind() == DrmPropertyKind::Blob,
    {
        Self { name, flags: flags.union(DrmPropertyFlags::BLOB()), kind: DrmPropertyKind::Blob }
    }

    /// Creates a property whose values are ids of objects of `object_type`.
    pub fn create_object(name: &'static str, flags: DrmPropertyFlags, object_type: DrmKmsObjectType) -> (p: Self)
        ensures
            p.spec_name() == name,
            p.spec_flags().spec_bits() == flags.spec_bits() | 0x40,
            p.spec_kind() == DrmPropertyKind::Object(object_type),
    {
        Self {
            name,
            flags: flags.union(DrmPropertyFlags::OBJECT()),
            kind: DrmPropertyKind::Object(object_type),
        }
    }

    /// Creates a boolean property: a range from 0 to 1.
    pub fn create_bool(name: &'static str, flags: DrmPropertyFlags) -> (p: Self)
        ensures
            p.spec_name() == name,
            p.spec_flags().spec_bits() == flags.spec_bits() | 2,
            p.spec_kind() == (DrmPropertyKind::Range { min: 0, max: 1 }),
    {
        Self::create_range(name, flags, 0, 1)
    }

    /// Creates a property whose values lie in `min..=max`.
    pub fn create_range(name: &'static str, flags: DrmPropertyFlags, min: u64, max: u64) -> (p: Self)
        ensures
            p.spec_name() == name,
            p.spec_flags().spec_bits() == flags.spec_bits() | 2,
            p.spec_kind() == (DrmPropertyKind::Range { min, max }),
    {
        Self { name, flags: flags.union(DrmPropertyFlags::RANGE()), kind: DrmPropertyKind::Range { min, max } }
    }

    /// Creates an enumeration property with the named values `enums`.
    pub fn create_enum(name: &'static str, flags: DrmPropertyFlags, enums: Vec<DrmPropertyEnum>) -> (p: Self)
        ensures
            p.spec_name() == name,
            p.spec_flags().spec_bits() == flags.spec_bits() | 8,
            p.spec_kind() == DrmPropertyKind::Enum(enums),
    {
        Self { name, flags: flags.union(DrmPropertyFlags::ENUM()), kind: DrmPropertyKind::Enum(enums) }
    }
}

/// Describes a property definition that can be attached to a KMS object.
///
/// The KMS object builder creates standard or driver-defined properties
/// through this trait, and matches properties by their stable
/// userspace-visible name.
pub trait DrmPropertySpec {
    /// The stable userspace-visible name.
    spec fn spec_name(&self) -> &'static str;

    /// Provides the stable userspace-visible property name.
    fn name(&self) -> (n: &'static str)
        ensures
            n == self.spec_name(),
    ;

    /// Materializes the final property definition, under the same name.
    fn build(&self) -> (p: DrmProperty)
        ensures
            p.spec_name() == self.spec_name(),
    ;
}

} // verus!
