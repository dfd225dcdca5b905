//! Accessors into descriptor variants, deep copies, and the structural
//! equality used by the fetch-back verification of the resolution
//! protocol.  An accessor handed the wrong variant reports an error
//! rather than aborting.

use vstd::prelude::*;
use vstd::string::StringExecFns;

use crate::error::DescriptorsError;
use crate::holon_descriptor::{HolonDescriptor, HolonId, HolonReference};
use crate::property_descriptor::{
    CompositeDescriptor, DescriptorSharing, PropertyDescriptor, PropertyDescriptorDetails,
    PropertyDescriptorMap, PropertyDescriptorUsage, PropertyEntry,
};
use crate::type_header::TypeHeader;

verus! {

/// The property map inside composite details; fails on any other
/// variant.
pub fn get_composite_descriptor_map(details: &PropertyDescriptorDetails) -> (r: Result<
    PropertyDescriptorMap,
    DescriptorsError,
>)
    ensures
        match r {
            Ok(m) => details matches PropertyDescriptorDetails::Composite(c) && m.model()
                == c.property_map.model(),
            Err(e) => {
                &&& !(details matches PropertyDescriptorDetails::Composite(_))
                &&& e matches DescriptorsError::UnexpectedVariant(v) && v@ == "CompositeDescriptor"@
            },
        },
{
    match details {
        PropertyDescriptorDetails::Composite(c) => Ok(clone_property_map(&c.property_map)),
        _ => Err(DescriptorsError::UnexpectedVariant(String::from_str("CompositeDescriptor"))),
    }
}

/// The whole composite inside composite details; fails on any other
/// variant.
pub fn get_composite_descriptor_from_details(details: &PropertyDescriptorDetails) -> (r: Result<
    CompositeDescriptor,
    DescriptorsError,
>)
    ensures
        match r {
            Ok(c) => details matches PropertyDescriptorDetails::Composite(d) && c.property_map.model()
                == d.property_map.model(),
            Err(e) => {
                &&& !(details matches PropertyDescriptorDetails::Composite(_))
                &&& e matches DescriptorsError::UnexpectedVariant(v) && v@ == "CompositeDescriptor"@
            },
        },
{
    match details {
        PropertyDescriptorDetails::Composite(c) => Ok(
            CompositeDescriptor { property_map: clone_property_map(&c.property_map) },
        ),
        _ => Err(DescriptorsError::UnexpectedVariant(String::from_str("CompositeDescriptor"))),
    }
}

/// The reference inside shared sharing; fails on dedicated sharing.
pub fn get_holon_reference_from_sharing(sharing: &DescriptorSharing) -> (r: Result<
    HolonReference,
    DescriptorsError,
>)
    ensures
        match r {
            Ok(h) => sharing matches DescriptorSharing::Shared(s) && h.deep_view()
                == s.deep_view(),
            Err(e) => {
                &&& sharing matches DescriptorSharing::Dedicated
                &&& e matches DescriptorsError::UnexpectedVariant(v) && v@ == "HolonReference"@
            },
        },
{
    match sharing {
        DescriptorSharing::Shared(h) => Ok(clone_holon_reference(h)),
        DescriptorSharing::Dedicated => Err(
            DescriptorsError::UnexpectedVariant(String::from_str("HolonReference")),
        ),
    }
}

/// Copies an identifier, byte for byte.
pub fn clone_holon_id(id: &HolonId) -> (r: HolonId)
    ensures
        r.deep_view() == id.deep_view(),
{
    let mut bytes: Vec<u8> = Vec::new();
    let n = id.bytes.len();
    let mut i: usize = 0;
    while i < n
        invariant
            0 <= i <= n,
            n == id.bytes.len(),
            bytes@ =~= id.bytes@.subrange(0, i as int),
        decreases n - i,
    {
        bytes.push(id.bytes[i]);
        i = i + 1;
    }
    proof {
        assert(bytes@ =~= id.bytes@);
        assert(bytes.deep_view() =~= id.bytes.deep_view());
    }
    HolonId { bytes }
}

/// Copies a reference.
pub fn clone_holon_reference(r: &HolonReference) -> (out: HolonReference)
    ensures
        out.deep_view() == r.deep_view(),
{
    let id = match &r.id {
        Some(i) => Some(clone_holon_id(i)),
        None => None,
    };
    let name = match &r.name {
        Some(n) => Some(n.clone()),
        None => None,
    };
    HolonReference { id, name }
}

/// Copies a header.
pub fn clone_type_header(h: &TypeHeader) -> (r: TypeHeader)
    ensures
        r == *h,
{
    TypeHeader {
        name: h.name.clone(),
        base_type: h.base_type,
        description: h.description.clone(),
        label: h.label.clone(),
        version: h.version,
        is_dependent: h.is_dependent,
    }
}

/// Copies sharing, reference included.
pub fn clone_sharing(s: &DescriptorSharing) -> (r: DescriptorSharing)
    ensures
        r.deep_view() == s.deep_view(),
{
    match s {
        DescriptorSharing::Dedicated => DescriptorSharing::Dedicated,
        DescriptorSharing::Shared(h) => DescriptorSharing::Shared(clone_holon_reference(h)),
    }
}

/// Copies a descriptor, nested composites included.
pub fn clone_property_descriptor(d: &PropertyDescriptor) -> (r: PropertyDescriptor)
    ensures
        r.model() == d.model(),
    decreases *d,
{
    let header = clone_type_header(&d.header);
    let details = clone_details(&d.details);
    PropertyDescriptor { header, details }
}

/// Copies descriptor details, nested composites included.
pub fn clone_details(d: &PropertyDescriptorDetails) -> (r: PropertyDescriptorDetails)
    ensures
        r.model() == d.model(),
    decreases *d,
{
    match d {
        PropertyDescriptorDetails::Boolean(b) => PropertyDescriptorDetails::Boolean(*b),
        PropertyDescriptorDetails::Integer(i) => PropertyDescriptorDetails::Integer(*i),
        PropertyDescriptorDetails::String(s) => PropertyDescriptorDetails::String(*s),
        PropertyDescriptorDetails::ValueCollection(v) => PropertyDescriptorDetails::ValueCollection(
            crate::property_descriptor::ValueCollectionDescriptor {
                contains_items_of_type: v.contains_items_of_type.clone(),
                min_items: v.min_items,
                max_items: v.max_items,
                unique_items: v.unique_items,
                is_ordered: v.is_ordered,
            },
        ),
        PropertyDescriptorDetails::Composite(c) => PropertyDescriptorDetails::Composite(
            CompositeDescriptor { property_map: clone_property_map(&c.property_map) },
        ),
    }
}

/// Copies a usage.
pub fn clone_property_usage(u: &PropertyDescriptorUsage) -> (r: PropertyDescriptorUsage)
    ensures
        r.model() == u.model(),
    decreases *u,
{
    PropertyDescriptorUsage {
        description: u.description.clone(),
        descriptor: clone_property_descriptor(&u.descriptor),
        label: u.label.clone(),
        sharing: clone_sharing(&u.sharing),
    }
}

/// Copies a property map, binding by binding.
pub fn clone_property_map(m: &PropertyDescriptorMap) -> (r: PropertyDescriptorMap)
    ensures
        r.model() == m.model(),
    decreases *m,
{
    let mut properties: Vec<PropertyEntry> = Vec::new();
    let n = m.properties.len();
    let mut i: usize = 0;
    while i < n
        invariant
            0 <= i <= n,
            n == m.properties.len(),
            properties@.len() == i,
            forall|j: int| 0 <= j < i ==> (#[trigger] properties@[j]).model() == m.properties@[j].model(),
        decreases n - i,
    {
        let entry = PropertyEntry {
            name: m.properties[i].name.clone(),
            usage: clone_property_usage(&m.properties[i].usage),
        };
        properties.push(entry);
        i = i + 1;
    }
    let r = PropertyDescriptorMap { properties };
    proof {
        assert(r.model() =~= m.model());
    }
    r
}

/// Copies a holon descriptor.
pub fn clone_holon_descriptor(d: &HolonDescriptor) -> (r: HolonDescriptor)
    ensures
        r.deep_view() == d.deep_view(),
{
    HolonDescriptor {
        header: clone_type_header(&d.header),
        property_map: clone_property_map(&d.property_map),
    }
}

impl Clone for PropertyDescriptor {
    fn clone(&self) -> (r: Self)
        ensures
            r.model() == self.model(),
    {
        clone_property_descriptor(self)
    }
}

impl Clone for PropertyDescriptorDetails {
    fn clone(&self) -> (r: Self)
        ensures
            r.model() == self.model(),
    {
        clone_details(self)
    }
}

impl Clone for PropertyDescriptorUsage {
    fn clone(&self) -> (r: Self)
        ensures
            r.model() == self.model(),
    {
        clone_property_usage(self)
    }
}

impl Clone for PropertyEntry {
    fn clone(&self) -> (r: Self)
        ensures
            r.model() == self.model(),
    {
        PropertyEntry { name: self.name.clone(), usage: clone_property_usage(&self.usage) }
    }
}

impl Clone for PropertyDescriptorMap {
    fn clone(&self) -> (r: Self)
        ensures
            r.model() == self.model(),
    {
        clone_property_map(self)
    }
}

impl Clone for CompositeDescriptor {
    fn clone(&self) -> (r: Self)
        ensures
            r.property_map.model() == self.property_map.model(),
    {
        CompositeDescriptor { property_map: clone_property_map(&self.property_map) }
    }
}

impl Clone for HolonDescriptor {
    fn clone(&self) -> (r: Self)
        ensures
            r.deep_view() == self.deep_view(),
    {
        clone_holon_descriptor(self)
    }
}

/// Whether two headers carry the same metadata.
pub fn eq_type_header(a: &TypeHeader, b: &TypeHeader) -> (r: bool)
    ensures
        r == (a.deep_view() == b.deep_view()),
{
    let eq = a.name == b.name && a.base_type == b.base_type && a.description == b.description
        && a.label == b.label && a.version == b.version && a.is_dependent == b.is_dependent;
    proof {
        if eq {
            assert(a.deep_view() =~= b.deep_view());
        }
    }
    eq
}

/// Whether two identifiers hold the same bytes.
pub fn eq_holon_id(a: &HolonId, b: &HolonId) -> (r: bool)
    ensures
        r == (a.deep_view() == b.deep_view()),
{
    let n = a.bytes.len();
    if n != b.bytes.len() {
        proof {
            assert(a.deep_view().len() != b.deep_view().len());
        }
        return false;
    }
    let mut i: usize = 0;
    while i < n
        invariant
            0 <= i <= n,
            n == a.bytes.len() && n == b.bytes.len(),
            forall|j: int| 0 <= j < i ==> a.bytes@[j] == b.bytes@[j],
        decreases n - i,
    {
        if a.bytes[i] != b.bytes[i] {
            proof {
                assert(a.deep_view()[i as int] != b.deep_view()[i as int]);
            }
            return false;
        }
        i = i + 1;
    }
    proof {
        assert(a.deep_view() =~= b.deep_view());
    }
    true
}

/// Whether two references point the same way.
pub fn eq_holon_reference(a: &HolonReference, b: &HolonReference) -> (r: bool)
    ensures
        r == (a.deep_view() == b.deep_view()),
{
    let ids_eq = match (&a.id, &b.id) {
        (Some(x), Some(y)) => {
            let e = eq_holon_id(x, y);
            proof {
                assert(a.id.deep_view() == Some(x.deep_view()));
                assert(b.id.deep_view() == Some(y.deep_view()));
            }
            e
        },
        (None, None) => true,
        _ => false,
    };
    proof {
        assert(ids_eq == (a.id.deep_view() == b.id.deep_view()));
    }
    let names_eq = match (&a.name, &b.name) {
        (Some(x), Some(y)) => {
            let e = *x == *y;
            proof {
                assert(a.name.deep_view() == Some(x@));
                assert(b.name.deep_view() == Some(y@));
            }
            e
        },
        (None, None) => true,
        _ => false,
    };
    proof {
        assert(names_eq == (a.name.deep_view() == b.name.deep_view()));
    }
    let eq = ids_eq && names_eq;
    proof {
        if eq {
            assert(a.deep_view() =~= b.deep_view());
        }
    }
    eq
}

/// Whether two sharing declarations agree.
pub fn eq_sharing(a: &DescriptorSharing, b: &DescriptorSharing) -> (r: bool)
    ensures
        r == (a.deep_view() == b.deep_view()),
{
    match (a, b) {
        (DescriptorSharing::Dedicated, DescriptorSharing::Dedicated) => true,
        (DescriptorSharing::Shared(x), DescriptorSharing::Shared(y)) => eq_holon_reference(x, y),
        _ => false,
    }
}

/// Whether two descriptors are structurally equal, nested composites
/// included.  This is the check the resolution protocol runs against a
/// fetched copy.
pub fn eq_property_descriptor(a: &PropertyDescriptor, b: &PropertyDescriptor) -> (r: bool)
    ensures
        r == (a.model() == b.model()),
    decreases *a,
{
    let headers = eq_type_header(&a.header, &b.header);
    if !headers {
        return false;
    }
    let details = eq_details(&a.details, &b.details);
    proof {
        if details {
            assert(a.model() =~= b.model());
        }
    }
    details
}

/// Whether two details values are structurally equal.
pub fn eq_details(a: &PropertyDescriptorDetails, b: &PropertyDescriptorDetails) -> (r: bool)
    ensures
        r == (a.model() == b.model()),
    decreases *a,
{
    match (a, b) {
        (PropertyDescriptorDetails::Boolean(x), PropertyDescriptorDetails::Boolean(y)) => {
            x.is_fuzzy == y.is_fuzzy
        },
        (PropertyDescriptorDetails::String(x), PropertyDescriptorDetails::String(y)) => {
            x.min_length == y.min_length && x.max_length == y.max_length
        },
        (PropertyDescriptorDetails::Integer(x), PropertyDescriptorDetails::Integer(y)) => {
            x.format == y.format && x.min_value == y.min_value && x.max_value == y.max_value
        },
        (
            PropertyDescriptorDetails::ValueCollection(x),
            PropertyDescriptorDetails::ValueCollection(y),
        ) => {
            let eq = x.contains_items_of_type == y.contains_items_of_type && x.min_items
                == y.min_items && x.max_items == y.max_items && x.unique_items == y.unique_items
                && x.is_ordered == y.is_ordered;
            proof {
                if eq {
                    assert(a.model() =~= b.model());
                }
            }
            eq
        },
        (PropertyDescriptorDetails::Composite(x), PropertyDescriptorDetails::Composite(y)) => {
            let eq = eq_property_map(&x.property_map, &y.property_map);
            proof {
                if eq {
                    assert(a.model() =~= b.model());
                }
            }
            eq
        },
        _ => false,
    }
}

/// Whether two usages are structurally equal.
pub fn eq_property_usage(a: &PropertyDescriptorUsage, b: &PropertyDescriptorUsage) -> (r: bool)
    ensures
        r == (a.model() == b.model()),
    decreases *a,
{
    let eq = a.description == b.description && a.label == b.label && eq_sharing(
        &a.sharing,
        &b.sharing,
    ) && eq_property_descriptor(&a.descriptor, &b.descriptor);
    proof {
        if eq {
            assert(a.model() =~= b.model());
        }
    }
    eq
}

/// Whether two property maps hold the same bindings in the same order.
pub fn eq_property_map(a: &PropertyDescriptorMap, b: &PropertyDescriptorMap) -> (r: bool)
    ensures
        r == (a.model() == b.model()),
    decreases *a,
{
    let n = a.properties.len();
    if n != b.properties.len() {
        proof {
            assert(a.model().len() != b.model().len());
        }
        return false;
    }
    let mut i: usize = 0;
    while i < n
        invariant
            0 <= i <= n,
            n == a.properties.len() && n == b.properties.len(),
            forall|j: int| 0 <= j < i ==> a.model()[j] == b.model()[j],
        decreases n - i,
    {
        let names = a.properties[i].name == b.properties[i].name;
        let usages = eq_property_usage(&a.properties[i].usage, &b.properties[i].usage);
        if !(names && usages) {
            proof {
                assert(a.model()[i as int] != b.model()[i as int]);
            }
            return false;
        }
        proof {
            assert(a.model()[i as int] =~= b.model()[i as int]);
        }
        i = i + 1;
    }
    proof {
        assert(a.model() =~= b.model());
    }
    true
}

/// Whether two holon descriptors are structurally equal.
pub fn eq_holon_descriptor(a: &HolonDescriptor, b: &HolonDescriptor) -> (r: bool)
    ensures
        r == (a.deep_view() == b.deep_view()),
{
    let headers = eq_type_header(&a.header, &b.header);
    let maps = eq_property_map(&a.property_map, &b.property_map);
    let eq = headers && maps;
    proof {
        if eq {
            assert(a.deep_view() =~= b.deep_view());
        }
    }
    eq
}

} // verus!
