//! The top-level named entity kind of the data model: a holon descriptor
//! owns a header tagged `Holon` and a map of property usages.  Also the
//! opaque persisted identifier handed out by the external store, and the
//! by-name / by-identifier reference used for shared descriptors.

use vstd::prelude::*;

use crate::property_descriptor::{EntryModel, PropertyDescriptorMap};
use crate::type_header::{BaseType, HeaderModel, TypeHeader};

verus! {

/// The opaque, content-derived identifier the external store assigns to a
/// persisted descriptor, carried here as its plain bytes.
#[derive(Clone, Debug, PartialEq, Eq)]
pub struct HolonId {
    pub bytes: Vec<u8>,
}

impl DeepView for HolonId {
    type V = Seq<u8>;

    open spec fn deep_view(&self) -> Seq<u8> {
        self.bytes.deep_view()
    }
}

impl HolonId {
    /// Wraps raw identifier bytes.
    pub fn new(bytes: Vec<u8>) -> (r: HolonId)
        ensures
            r.deep_view() == bytes.deep_view(),
    {
        HolonId { bytes }
    }
}

/// A reference to an independently persisted descriptor.  Before the
/// target is persisted, `id` is `None` and `name` carries the target's
/// type name; resolution fills in `id`.  A reference with both fields
/// `None` is malformed.
#[derive(Clone, Debug, PartialEq, Eq)]
pub struct HolonReference {
    pub id: Option<HolonId>,
    pub name: Option<String>,
}

/// The mathematical value of a [`HolonReference`].
#[verifier::ext_equal]
pub struct ReferenceModel {
    pub id: Option<Seq<u8>>,
    pub name: Option<Seq<char>>,
}

impl DeepView for HolonReference {
    type V = ReferenceModel;

    open spec fn deep_view(&self) -> ReferenceModel {
        ReferenceModel { id: self.id.deep_view(), name: self.name.deep_view() }
    }
}

impl HolonReference {
    /// Builds a reference from its parts.
    pub fn new(id: Option<HolonId>, name: Option<String>) -> (r: HolonReference)
        ensures
            r.deep_view() == (ReferenceModel { id: id.deep_view(), name: name.deep_view() }),
    {
        HolonReference { id, name }
    }

    /// A reference must carry at least one of the two ways to find its
    /// target.
    pub open spec fn wf(self) -> bool {
        self.id is Some || self.name is Some
    }
}

/// The top-level named entity type: a header tagged `Holon` plus the
/// holon's property map.
#[derive(Debug, PartialEq, Eq)]
pub struct HolonDescriptor {
    pub header: TypeHeader,
    pub property_map: PropertyDescriptorMap,
}

/// The mathematical value of a [`HolonDescriptor`].
#[verifier::ext_equal]
pub struct HolonModel {
    pub header: HeaderModel,
    pub entries: Seq<EntryModel>,
}

impl DeepView for HolonDescriptor {
    type V = HolonModel;

    open spec fn deep_view(&self) -> HolonModel {
        HolonModel { header: self.header.deep_view(), entries: self.property_map.model() }
    }
}

impl HolonDescriptor {
    /// A holon descriptor is well-formed when its header is, the header is
    /// tagged `Holon`, and its property map is.
    pub open spec fn wf(self) -> bool {
        &&& self.header.wf()
        &&& self.header.base_type == BaseType::Holon
        &&& self.property_map.wf()
    }

    /// Builds a holon descriptor from its parts.
    pub fn new(header: TypeHeader, property_map: PropertyDescriptorMap) -> (r: HolonDescriptor)
        ensures
            r.deep_view() == (HolonModel {
                header: header.deep_view(),
                entries: property_map.model(),
            }),
    {
        HolonDescriptor { header, property_map }
    }
}

/// A collection of holons of one declared holon type.
#[derive(Debug, PartialEq, Eq)]
pub struct HolonCollectionDescriptor {
    pub header: TypeHeader,
    pub contains_items_of_type: HolonDescriptor,
    pub min_items: u32,
    pub max_items: u32,
    pub unique_items: bool,
    pub is_ordered: bool,
}

} // verus!
