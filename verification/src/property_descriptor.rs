//! The descriptor variants for property (value) types: the closed set of
//! scalar kinds, the recursive composite kind, and the property map that
//! binds property names to usages of these descriptors.

use vstd::prelude::*;
use vstd::utf8::{decode_utf8, encode_utf8};

use crate::holon_descriptor::{HolonReference, ReferenceModel};
use crate::type_header::{BaseType, HeaderModel, TypeHeader};

verus! {

/// Constraint fields of a boolean property type.
#[derive(Clone, Copy, Debug, PartialEq, Eq, Structural)]
pub struct BooleanDescriptor {
    /// When set, instances carry a fuzzy truth value rather than a plain
    /// `true` / `false`.
    pub is_fuzzy: bool,
}

/// Constraint fields of a string property type.
#[derive(Clone, Copy, Debug, PartialEq, Eq, Structural)]
pub struct StringDescriptor {
    pub min_length: u32,
    pub max_length: u32,
}

/// The machine representation an integer property type is declared with.
#[derive(Clone, Copy, Debug, PartialEq, Eq, Structural)]
pub enum IntegerFormat {
    I8,
    I16,
    I32,
    I64,
    U8,
    U16,
    U32,
    U64,
}

/// Constraint fields of an integer property type.
#[derive(Clone, Copy, Debug, PartialEq, Eq, Structural)]
pub struct IntegerDescriptor {
    pub format: IntegerFormat,
    pub min_value: i64,
    pub max_value: i64,
}

/// A named aggregation of property usages; composites may nest to any
/// depth, since a contained usage's descriptor may itself be a composite.
#[derive(Debug, PartialEq, Eq)]
pub struct CompositeDescriptor {
    pub property_map: PropertyDescriptorMap,
}

/// A collection of values of one property type, named by that type's name.
#[derive(Clone, Debug, PartialEq, Eq)]
pub struct ValueCollectionDescriptor {
    pub contains_items_of_type: String,
    pub min_items: u32,
    pub max_items: u32,
    pub unique_items: bool,
    pub is_ordered: bool,
}

/// The closed variant set of property descriptor details.
#[derive(Debug, PartialEq, Eq)]
pub enum PropertyDescriptorDetails {
    Boolean(BooleanDescriptor),
    Composite(CompositeDescriptor),
    Integer(IntegerDescriptor),
    String(StringDescriptor),
    ValueCollection(ValueCollectionDescriptor),
}

/// A property (value) type descriptor: common header plus kind-specific
/// details.
#[derive(Debug, PartialEq, Eq)]
pub struct PropertyDescriptor {
    pub header: TypeHeader,
    pub details: PropertyDescriptorDetails,
}

/// Whether a usage's descriptor is authoritative inline (`Dedicated`) or
/// defined once elsewhere and referenced (`Shared`).
#[derive(Clone, Debug, PartialEq, Eq)]
pub enum DescriptorSharing {
    Dedicated,
    Shared(HolonReference),
}

/// One named slot inside a composite or holon type: usage-level metadata,
/// the descriptor itself, and how that descriptor is shared.
#[derive(Debug, PartialEq, Eq)]
pub struct PropertyDescriptorUsage {
    pub description: String,
    pub descriptor: PropertyDescriptor,
    pub label: String,
    pub sharing: DescriptorSharing,
}

/// One binding of a property name to a usage.
#[derive(Debug, PartialEq, Eq)]
pub struct PropertyEntry {
    pub name: String,
    pub usage: PropertyDescriptorUsage,
}

/// The bindings of property names to usages inside one owning type:
/// an ordered-by-key mapping, kept in strictly ascending name order
/// (see [`PropertyDescriptorMap::wf`]), so names are unique; an insert
/// under an existing name replaces that binding.
#[derive(Debug, PartialEq, Eq)]
pub struct PropertyDescriptorMap {
    pub properties: Vec<PropertyEntry>,
}

/// The mathematical value of [`PropertyDescriptorDetails`].
#[verifier::ext_equal]
pub enum DetailsModel {
    Boolean { is_fuzzy: bool },
    Composite { entries: Seq<EntryModel> },
    Integer { format: IntegerFormat, min_value: i64, max_value: i64 },
    String { min_length: u32, max_length: u32 },
    ValueCollection {
        contains_items_of_type: Seq<char>,
        min_items: u32,
        max_items: u32,
        unique_items: bool,
        is_ordered: bool,
    },
}

/// The mathematical value of a [`PropertyDescriptor`].
#[verifier::ext_equal]
pub struct DescriptorModel {
    pub header: HeaderModel,
    pub details: DetailsModel,
}

/// The mathematical value of [`DescriptorSharing`].
#[verifier::ext_equal]
pub enum SharingModel {
    Dedicated,
    Shared(ReferenceModel),
}

/// The mathematical value of a [`PropertyDescriptorUsage`].
#[verifier::ext_equal]
pub struct UsageModel {
    pub description: Seq<char>,
    pub descriptor: DescriptorModel,
    pub label: Seq<char>,
    pub sharing: SharingModel,
}

/// The mathematical value of one [`PropertyEntry`].
#[verifier::ext_equal]
pub struct EntryModel {
    pub name: Seq<char>,
    pub usage: UsageModel,
}

impl PropertyDescriptor {
    /// The mathematical value of this descriptor.
    pub open spec fn model(self) -> DescriptorModel
        decreases self,
    {
        DescriptorModel { header: self.header.deep_view(), details: self.details.model() }
    }
}

impl PropertyDescriptorDetails {
    /// The mathematical value of these details.
    pub open spec fn model(self) -> DetailsModel
        decreases self,
    {
        match self {
            PropertyDescriptorDetails::Boolean(b) => DetailsModel::Boolean { is_fuzzy: b.is_fuzzy },
            PropertyDescriptorDetails::Composite(c) => DetailsModel::Composite {
                entries: c.property_map.model(),
            },
            PropertyDescriptorDetails::Integer(i) => DetailsModel::Integer {
                format: i.format,
                min_value: i.min_value,
                max_value: i.max_value,
            },
            PropertyDescriptorDetails::String(s) => DetailsModel::String {
                min_length: s.min_length,
                max_length: s.max_length,
            },
            PropertyDescriptorDetails::ValueCollection(v) => DetailsModel::ValueCollection {
                contains_items_of_type: v.contains_items_of_type@,
                min_items: v.min_items,
                max_items: v.max_items,
                unique_items: v.unique_items,
                is_ordered: v.is_ordered,
            },
        }
    }
}

impl DeepView for DescriptorSharing {
    type V = SharingModel;

    open spec fn deep_view(&self) -> SharingModel {
        match self {
            DescriptorSharing::Dedicated => SharingModel::Dedicated,
            DescriptorSharing::Shared(r) => SharingModel::Shared(r.deep_view()),
        }
    }
}

impl PropertyDescriptorUsage {
    /// The mathematical value of this usage.
    pub open spec fn model(self) -> UsageModel
        decreases self,
    {
        UsageModel {
            description: self.description@,
            descriptor: self.descriptor.model(),
            label: self.label@,
            sharing: self.sharing.deep_view(),
        }
    }
}

impl PropertyEntry {
    /// The mathematical value of this binding.
    pub open spec fn model(self) -> EntryModel
        decreases self,
    {
        EntryModel { name: self.name@, usage: self.usage.model() }
    }
}

/// Strict lexicographic order on byte sequences: the order property
/// names are kept in, matching the standard ordering of strings by
/// their UTF-8 bytes.
pub open spec fn lex_lt(a: Seq<u8>, b: Seq<u8>) -> bool
    decreases a.len(),
{
    if b.len() == 0 {
        false
    } else if a.len() == 0 {
        true
    } else if a.first() < b.first() {
        true
    } else if a.first() > b.first() {
        false
    } else {
        lex_lt(a.drop_first(), b.drop_first())
    }
}

/// Strict order on property names: their UTF-8 encodings compared
/// lexicographically.
pub open spec fn name_lt(a: Seq<char>, b: Seq<char>) -> bool {
    lex_lt(encode_utf8(a), encode_utf8(b))
}

/// The order is irreflexive.
pub proof fn lemma_lex_lt_irrefl(a: Seq<u8>)
    ensures
        !lex_lt(a, a),
    decreases a.len(),
{
    if a.len() > 0 {
        lemma_lex_lt_irrefl(a.drop_first());
    }
}

/// Any two byte sequences are equal or ordered one way.
pub proof fn lemma_lex_lt_connected(a: Seq<u8>, b: Seq<u8>)
    ensures
        a =~= b || lex_lt(a, b) || lex_lt(b, a),
    decreases a.len(),
{
    if a.len() > 0 && b.len() > 0 && a.first() == b.first() {
        lemma_lex_lt_connected(a.drop_first(), b.drop_first());
        if a.drop_first() =~= b.drop_first() {
            assert(a.len() == b.len());
            assert forall|i: int| 0 <= i < a.len() implies a[i] == b[i] by {
                if i > 0 {
                    assert(a.drop_first()[i - 1] == b.drop_first()[i - 1]);
                }
            }
            assert(a =~= b);
        }
    }
}

/// The order is transitive.
pub proof fn lemma_lex_lt_trans(a: Seq<u8>, b: Seq<u8>, c: Seq<u8>)
    requires
        lex_lt(a, b),
        lex_lt(b, c),
    ensures
        lex_lt(a, c),
    decreases a.len(),
{
    if a.len() > 0 && b.len() > 0 && c.len() > 0 {
        if a.first() == b.first() && b.first() == c.first() {
            lemma_lex_lt_trans(a.drop_first(), b.drop_first(), c.drop_first());
        }
    }
}

/// Any two names are equal or ordered one way.
pub proof fn lemma_name_lt_connected(a: Seq<char>, b: Seq<char>)
    ensures
        a == b || name_lt(a, b) || name_lt(b, a),
{
    broadcast use vstd::utf8::encode_utf8_decode_utf8;

    lemma_lex_lt_connected(encode_utf8(a), encode_utf8(b));
    if encode_utf8(a) =~= encode_utf8(b) {
        assert(decode_utf8(encode_utf8(a)) == a);
        assert(decode_utf8(encode_utf8(b)) == b);
    }
}

/// Ordered names differ.
pub proof fn lemma_name_lt_neq(a: Seq<char>, b: Seq<char>)
    requires
        name_lt(a, b),
    ensures
        a != b,
{
    if a == b {
        lemma_lex_lt_irrefl(encode_utf8(a));
    }
}

/// The order on names is transitive.
pub proof fn lemma_name_lt_trans(a: Seq<char>, b: Seq<char>, c: Seq<char>)
    requires
        name_lt(a, b),
        name_lt(b, c),
    ensures
        name_lt(a, c),
{
    lemma_lex_lt_trans(encode_utf8(a), encode_utf8(b), encode_utf8(c));
}

/// The mapping a sequence of bindings denotes: later bindings of a name
/// shadow earlier ones.
pub open spec fn map_of_entries(entries: Seq<EntryModel>) -> Map<Seq<char>, UsageModel>
    decreases entries.len(),
{
    if entries.len() == 0 {
        Map::empty()
    } else {
        map_of_entries(entries.drop_last()).insert(entries.last().name, entries.last().usage)
    }
}

impl PropertyDescriptorMap {
    /// The mathematical value of this map: its bindings in order.
    pub open spec fn model(self) -> Seq<EntryModel>
        decreases self,
    {
        Seq::new(
            self.properties@.len(),
            |i: int|
                if 0 <= i < self.properties@.len() {
                    self.properties@[i].model()
                } else {
                    arbitrary()
                },
        )
    }

    /// The name-to-usage mapping this map denotes.
    pub open spec fn as_map(self) -> Map<Seq<char>, UsageModel> {
        map_of_entries(self.model())
    }

    /// Whether some binding carries the name `n`.
    pub open spec fn contains_name(self, n: Seq<char>) -> bool {
        exists|i: int| 0 <= i < self.model().len() && self.model()[i].name == n
    }

    /// A map is well-formed when its bindings are kept in strictly
    /// ascending name order (so names are unique, as in an
    /// ordered-by-key mapping) and every bound usage is well-formed.
    pub open spec fn wf(self) -> bool
        decreases self,
    {
        &&& forall|i: int, j: int|
            #![trigger self.properties@[i], self.properties@[j]]
            0 <= i < j < self.properties@.len() ==> name_lt(
                self.properties@[i].name@,
                self.properties@[j].name@,
            )
        &&& forall|i: int, j: int|
            #![trigger self.properties@[i], self.properties@[j]]
            0 <= i < j < self.properties@.len() ==> self.properties@[i].name@
                != self.properties@[j].name@
        &&& forall|i: int|
            0 <= i < self.properties@.len() ==> (#[trigger] self.properties@[i]).usage.wf()
    }

    /// Builds a map from bindings already known to the caller.
    pub fn new(properties: Vec<PropertyEntry>) -> (r: PropertyDescriptorMap)
        ensures
            r == (PropertyDescriptorMap { properties }),
    {
        PropertyDescriptorMap { properties }
    }

    /// The empty map.
    pub fn empty() -> (r: PropertyDescriptorMap)
        ensures
            r.model() =~= Seq::<EntryModel>::empty(),
            r.as_map() =~= Map::<Seq<char>, UsageModel>::empty(),
            r.wf(),
    {
        PropertyDescriptorMap { properties: Vec::new() }
    }

    /// How many bindings the map holds.
    pub fn len(&self) -> (r: usize)
        ensures
            r == self.model().len(),
    {
        self.properties.len()
    }
}

impl PropertyDescriptorDetails {
    /// The base-type tag that a header embedded beside these details must
    /// carry.
    pub open spec fn base_type(self) -> BaseType {
        match self {
            PropertyDescriptorDetails::Boolean(_) => BaseType::Boolean,
            PropertyDescriptorDetails::Composite(_) => BaseType::Composite,
            PropertyDescriptorDetails::Integer(_) => BaseType::Integer,
            PropertyDescriptorDetails::String(_) => BaseType::String,
            PropertyDescriptorDetails::ValueCollection(_) => BaseType::Collection,
        }
    }

    /// Details are well-formed when every nested map is.
    pub open spec fn wf(self) -> bool
        decreases self,
    {
        match self {
            PropertyDescriptorDetails::Composite(c) => c.property_map.wf(),
            _ => true,
        }
    }
}

impl PropertyDescriptor {
    /// A descriptor is well-formed when its header is, the header's tag
    /// agrees with the details variant, and the details are.
    pub open spec fn wf(self) -> bool
        decreases self,
    {
        &&& self.header.wf()
        &&& self.header.base_type == self.details.base_type()
        &&& self.details.wf()
    }

    /// Builds a descriptor from its parts.
    pub fn new(header: TypeHeader, details: PropertyDescriptorDetails) -> (r: PropertyDescriptor)
        ensures
            r == (PropertyDescriptor { header, details }),
    {
        PropertyDescriptor { header, details }
    }
}

impl PropertyDescriptorUsage {
    /// A usage is well-formed when its descriptor is and, where it refers
    /// to a shared type, the reference carries an identifier or a name.
    pub open spec fn wf(self) -> bool
        decreases self,
    {
        &&& self.descriptor.wf()
        &&& match self.sharing {
            DescriptorSharing::Dedicated => true,
            DescriptorSharing::Shared(r) => r.wf(),
        }
    }

    /// Builds a usage from its parts.
    pub fn new(
        description: String,
        descriptor: PropertyDescriptor,
        label: String,
        sharing: DescriptorSharing,
    ) -> (r: PropertyDescriptorUsage)
        ensures
            r == (PropertyDescriptorUsage { description, descriptor, label, sharing }),
    {
        PropertyDescriptorUsage { description, descriptor, label, sharing }
    }
}

impl BooleanDescriptor {
    /// Wraps the boolean constraint fields.
    pub fn new(is_fuzzy: bool) -> (r: BooleanDescriptor)
        ensures
            r == (BooleanDescriptor { is_fuzzy }),
    {
        BooleanDescriptor { is_fuzzy }
    }
}

impl StringDescriptor {
    /// Wraps the string constraint fields.
    pub fn new(min_length: u32, max_length: u32) -> (r: StringDescriptor)
        ensures
            r == (StringDescriptor { min_length, max_length }),
    {
        StringDescriptor { min_length, max_length }
    }
}

impl IntegerDescriptor {
    /// Wraps the integer constraint fields.
    pub fn new(format: IntegerFormat, min_value: i64, max_value: i64) -> (r: IntegerDescriptor)
        ensures
            r == (IntegerDescriptor { format, min_value, max_value }),
    {
        IntegerDescriptor { format, min_value, max_value }
    }
}

impl CompositeDescriptor {
    /// Wraps a property map as composite details.
    pub fn new(property_map: PropertyDescriptorMap) -> (r: CompositeDescriptor)
        ensures
            r == (CompositeDescriptor { property_map }),
    {
        CompositeDescriptor { property_map }
    }
}

impl ValueCollectionDescriptor {
    /// Wraps the collection constraint fields.
    pub fn new(
        contains_items_of_type: String,
        min_items: u32,
        max_items: u32,
        unique_items: bool,
        is_ordered: bool,
    ) -> (r: ValueCollectionDescriptor)
        ensures
            r == (ValueCollectionDescriptor {
                contains_items_of_type,
                min_items,
                max_items,
                unique_items,
                is_ordered,
            }),
    {
        ValueCollectionDescriptor {
            contains_items_of_type,
            min_items,
            max_items,
            unique_items,
            is_ordered,
        }
    }
}

} // verus!
