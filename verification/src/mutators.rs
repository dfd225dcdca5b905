//! Pure construction and update functions for descriptors.  These stage
//! new descriptor values; nothing here touches storage.  An update never
//! mutates its input: it returns a fresh value with the requested fields
//! overridden and every omitted field preserved.

use vstd::prelude::*;
use vstd::string::StringExecFns;

use crate::error::DescriptorsError;
use crate::holon_descriptor::{HolonDescriptor, HolonModel};
use crate::property_descriptor::{
    BooleanDescriptor, CompositeDescriptor, DescriptorModel, DetailsModel, IntegerDescriptor,
    IntegerFormat, PropertyDescriptor, PropertyDescriptorDetails, PropertyDescriptorMap,
    StringDescriptor,
};
use crate::type_header::{BaseType, HeaderModel, SemanticVersion, TypeHeader};

verus! {

/// The header a `new_*_descriptor` call stages: the given fields, at the
/// starting version.
pub open spec fn staged_header(
    name: Seq<char>,
    base_type: BaseType,
    description: Seq<char>,
    label: Seq<char>,
    is_dependent: bool,
) -> HeaderModel {
    HeaderModel {
        name,
        base_type,
        description,
        label,
        version: SemanticVersion { major: 0, minor: 0, patch: 1 },
        is_dependent,
    }
}

/// Rejects a header whose type name is empty.
fn example_header_check(header: TypeHeader) -> (r: Result<TypeHeader, DescriptorsError>)
    ensures
        match r {
            Ok(h) => h == header && header.wf(),
            Err(e) => {
                &&& !header.wf()
                &&& e matches DescriptorsError::EmptyField(f) && f@ == "type_name"@
            },
        },
{
    if header.name.as_str().unicode_len() == 0 {
        return Err(DescriptorsError::EmptyField(String::from_str("type_name")));
    }
    Ok(header)
}

/// Builds the common header of a new descriptor; fails if and only if
/// `name` is empty.
pub fn new_type_header(
    name: String,
    base_type: BaseType,
    description: String,
    label: String,
    is_dependent: bool,
) -> (r: Result<TypeHeader, DescriptorsError>)
    ensures
        match r {
            Ok(h) => {
                &&& name@.len() > 0
                &&& h.deep_view() == staged_header(
                    name@,
                    base_type,
                    description@,
                    label@,
                    is_dependent,
                )
                &&& h.wf()
            },
            Err(e) => {
                &&& name@.len() == 0
                &&& e matches DescriptorsError::EmptyField(f) && f@ == "type_name"@
            },
        },
{
    let header = TypeHeader::new(
        name,
        base_type,
        description,
        label,
        SemanticVersion::default(),
        is_dependent,
    );
    example_header_check(header)
}

/// Builds a property descriptor around already-built details.
fn new_property_descriptor(
    name: String,
    description: String,
    label: String,
    base_type: BaseType,
    is_dependent: bool,
    details: PropertyDescriptorDetails,
) -> (r: Result<PropertyDescriptor, DescriptorsError>)
    requires
        base_type == details.base_type(),
    ensures
        match r {
            Ok(d) => {
                &&& name@.len() > 0
                &&& d.model() == (DescriptorModel {
                    header: staged_header(name@, base_type, description@, label@, is_dependent),
                    details: details.model(),
                })
                &&& details.wf() ==> d.wf()
            },
            Err(e) => {
                &&& name@.len() == 0
                &&& e matches DescriptorsError::EmptyField(f) && f@ == "type_name"@
            },
        },
{
    let header = match new_type_header(name, base_type, description, label, is_dependent) {
        Ok(h) => h,
        Err(e) => {
            return Err(e);
        },
    };
    Ok(PropertyDescriptor::new(header, details))
}

/// Stages an empty holon descriptor; fails if and only if `name` is
/// empty.
pub fn new_holon_descriptor(
    name: String,
    description: String,
    label: String,
    is_dependent: bool,
) -> (r: Result<HolonDescriptor, DescriptorsError>)
    ensures
        match r {
            Ok(d) => {
                &&& name@.len() > 0
                &&& d.deep_view() == (HolonModel {
                    header: staged_header(
                        name@,
                        BaseType::Holon,
                        description@,
                        label@,
                        is_dependent,
                    ),
                    entries: Seq::<crate::property_descriptor::EntryModel>::empty(),
                })
                &&& d.wf()
            },
            Err(e) => {
                &&& name@.len() == 0
                &&& e matches DescriptorsError::EmptyField(f) && f@ == "type_name"@
            },
        },
{
    let header = match new_type_header(name, BaseType::Holon, description, label, is_dependent) {
        Ok(h) => h,
        Err(e) => {
            return Err(e);
        },
    };
    Ok(HolonDescriptor::new(header, PropertyDescriptorMap::empty()))
}

/// Stages a composite property descriptor around the supplied property
/// map; fails if and only if `name` is empty.
pub fn new_composite_descriptor(
    name: String,
    description: String,
    label: String,
    is_dependent: bool,
    properties: PropertyDescriptorMap,
) -> (r: Result<PropertyDescriptor, DescriptorsError>)
    ensures
        match r {
            Ok(d) => {
                &&& name@.len() > 0
                &&& d.model() == (DescriptorModel {
                    header: staged_header(
                        name@,
                        BaseType::Composite,
                        description@,
                        label@,
                        is_dependent,
                    ),
                    details: DetailsModel::Composite { entries: properties.model() },
                })
                &&& properties.wf() ==> d.wf()
            },
            Err(e) => {
                &&& name@.len() == 0
                &&& e matches DescriptorsError::EmptyField(f) && f@ == "type_name"@
            },
        },
{
    let details = PropertyDescriptorDetails::Composite(CompositeDescriptor::new(properties));
    new_property_descriptor(name, description, label, BaseType::Composite, is_dependent, details)
}

/// Stages a string property descriptor; fails if and only if `name` is
/// empty.
pub fn new_string_descriptor(
    name: String,
    description: String,
    label: String,
    is_dependent: bool,
    min_length: u32,
    max_length: u32,
) -> (r: Result<PropertyDescriptor, DescriptorsError>)
    ensures
        match r {
            Ok(d) => {
                &&& name@.len() > 0
                &&& d.model() == (DescriptorModel {
                    header: staged_header(
                        name@,
                        BaseType::String,
                        description@,
                        label@,
                        is_dependent,
                    ),
                    details: DetailsModel::String { min_length, max_length },
                })
                &&& d.wf()
            },
            Err(e) => {
                &&& name@.len() == 0
                &&& e matches DescriptorsError::EmptyField(f) && f@ == "type_name"@
            },
        },
{
    let details = PropertyDescriptorDetails::String(StringDescriptor::new(min_length, max_length));
    new_property_descriptor(name, description, label, BaseType::String, is_dependent, details)
}

/// Stages an integer property descriptor; fails if and only if `name` is
/// empty.
pub fn new_integer_descriptor(
    name: String,
    description: String,
    label: String,
    is_dependent: bool,
    format: IntegerFormat,
    min_value: i64,
    max_value: i64,
) -> (r: Result<PropertyDescriptor, DescriptorsError>)
    ensures
        match r {
            Ok(d) => {
                &&& name@.len() > 0
                &&& d.model() == (DescriptorModel {
                    header: staged_header(
                        name@,
                        BaseType::Integer,
                        description@,
                        label@,
                        is_dependent,
                    ),
                    details: DetailsModel::Integer { format, min_value, max_value },
                })
                &&& d.wf()
            },
            Err(e) => {
                &&& name@.len() == 0
                &&& e matches DescriptorsError::EmptyField(f) && f@ == "type_name"@
            },
        },
{
    let details = PropertyDescriptorDetails::Integer(
        IntegerDescriptor::new(format, min_value, max_value),
    );
    new_property_descriptor(name, description, label, BaseType::Integer, is_dependent, details)
}

/// Stages a boolean property descriptor; fails if and only if `name` is
/// empty.
pub fn new_boolean_descriptor(
    name: String,
    description: String,
    label: String,
    is_dependent: bool,
    is_fuzzy: bool,
) -> (r: Result<PropertyDescriptor, DescriptorsError>)
    ensures
        match r {
            Ok(d) => {
                &&& name@.len() > 0
                &&& d.model() == (DescriptorModel {
                    header: staged_header(
                        name@,
                        BaseType::Boolean,
                        description@,
                        label@,
                        is_dependent,
                    ),
                    details: DetailsModel::Boolean { is_fuzzy },
                })
                &&& d.wf()
            },
            Err(e) => {
                &&& name@.len() == 0
                &&& e matches DescriptorsError::EmptyField(f) && f@ == "type_name"@
            },
        },
{
    let details = PropertyDescriptorDetails::Boolean(BooleanDescriptor::new(is_fuzzy));
    new_property_descriptor(name, description, label, BaseType::Boolean, is_dependent, details)
}

/// The header an update stages: the original header with description and
/// label overridden where an override is present.
pub open spec fn updated_header(
    original: HeaderModel,
    new_description: Option<Seq<char>>,
    new_label: Option<Seq<char>>,
) -> HeaderModel {
    HeaderModel {
        description: if new_description is Some {
            new_description->0
        } else {
            original.description
        },
        label: if new_label is Some {
            new_label->0
        } else {
            original.label
        },
        ..original
    }
}

/// Rebuilds a header with optional description and label overrides,
/// preserving every other field.
fn update_header(
    original: &TypeHeader,
    new_description: Option<String>,
    new_label: Option<String>,
) -> (r: TypeHeader)
    ensures
        r.deep_view() == updated_header(
            original.deep_view(),
            new_description.deep_view(),
            new_label.deep_view(),
        ),
{
    let description = match new_description {
        Some(d) => d,
        None => original.description.clone(),
    };
    let label = match new_label {
        Some(l) => l,
        None => original.label.clone(),
    };
    TypeHeader {
        name: original.name.clone(),
        base_type: original.base_type,
        description,
        label,
        version: original.version,
        is_dependent: original.is_dependent,
    }
}

/// An update with every override absent changes nothing: what
/// `update_string_descriptor(original, None, None, None, None)` ensures
/// of its result is exactly the original's value.
pub proof fn lemma_update_string_unset_is_identity(original: PropertyDescriptor)
    requires
        original.details matches PropertyDescriptorDetails::String(_),
    ensures
        (DescriptorModel {
            header: updated_header(original.header.deep_view(), None, None),
            details: DetailsModel::String {
                min_length: original.details->String_0.min_length,
                max_length: original.details->String_0.max_length,
            },
        }) == original.model(),
{
    assert((DescriptorModel {
        header: updated_header(original.header.deep_view(), None, None),
        details: DetailsModel::String {
            min_length: original.details->String_0.min_length,
            max_length: original.details->String_0.max_length,
        },
    }) =~= original.model());
}

/// The boolean analogue of the unset-update identity.
pub proof fn lemma_update_boolean_unset_is_identity(original: PropertyDescriptor)
    requires
        original.details matches PropertyDescriptorDetails::Boolean(_),
    ensures
        (DescriptorModel {
            header: updated_header(original.header.deep_view(), None, None),
            details: DetailsModel::Boolean { is_fuzzy: original.details->Boolean_0.is_fuzzy },
        }) == original.model(),
{
    assert((DescriptorModel {
        header: updated_header(original.header.deep_view(), None, None),
        details: DetailsModel::Boolean { is_fuzzy: original.details->Boolean_0.is_fuzzy },
    }) =~= original.model());
}

/// The integer analogue of the unset-update identity.
pub proof fn lemma_update_integer_unset_is_identity(original: PropertyDescriptor)
    requires
        original.details matches PropertyDescriptorDetails::Integer(_),
    ensures
        (DescriptorModel {
            header: updated_header(original.header.deep_view(), None, None),
            details: DetailsModel::Integer {
                format: original.details->Integer_0.format,
                min_value: original.details->Integer_0.min_value,
                max_value: original.details->Integer_0.max_value,
            },
        }) == original.model(),
{
    assert((DescriptorModel {
        header: updated_header(original.header.deep_view(), None, None),
        details: DetailsModel::Integer {
            format: original.details->Integer_0.format,
            min_value: original.details->Integer_0.min_value,
            max_value: original.details->Integer_0.max_value,
        },
    }) =~= original.model());
}

/// Stages an update of a boolean descriptor: omitted overrides preserve
/// the original's values exactly.  Fails if and only if the original's
/// details are not the boolean variant.
pub fn update_boolean_descriptor(
    original_descriptor: &PropertyDescriptor,
    new_description: Option<String>,
    new_label: Option<String>,
    is_fuzzy: Option<bool>,
) -> (r: Result<PropertyDescriptor, DescriptorsError>)
    ensures
        match r {
            Ok(d) => {
                &&& original_descriptor.details matches PropertyDescriptorDetails::Boolean(b) && d.model()
                    == (DescriptorModel {
                    header: updated_header(
                        original_descriptor.header.deep_view(),
                        new_description.deep_view(),
                        new_label.deep_view(),
                    ),
                    details: DetailsModel::Boolean {
                        is_fuzzy: if is_fuzzy is Some {
                            is_fuzzy->0
                        } else {
                            b.is_fuzzy
                        },
                    },
                })
            },
            Err(e) => {
                &&& !(original_descriptor.details matches PropertyDescriptorDetails::Boolean(_))
                &&& e matches DescriptorsError::UnexpectedVariant(v) && v@ == "BooleanDescriptor"@
            },
        },
{
    match &original_descriptor.details {
        PropertyDescriptorDetails::Boolean(b) => {
            let header = update_header(&original_descriptor.header, new_description, new_label);
            let fuzzy = match is_fuzzy {
                Some(f) => f,
                None => b.is_fuzzy,
            };
            Ok(PropertyDescriptor {
                header,
                details: PropertyDescriptorDetails::Boolean(BooleanDescriptor { is_fuzzy: fuzzy }),
            })
        },
        _ => Err(DescriptorsError::UnexpectedVariant(String::from_str("BooleanDescriptor"))),
    }
}

/// Stages an update of a string descriptor: omitted overrides preserve
/// the original's values exactly.  Fails if and only if the original's
/// details are not the string variant.
pub fn update_string_descriptor(
    original_descriptor: &PropertyDescriptor,
    new_description: Option<String>,
    new_label: Option<String>,
    min_length: Option<u32>,
    max_length: Option<u32>,
) -> (r: Result<PropertyDescriptor, DescriptorsError>)
    ensures
        match r {
            Ok(d) => {
                &&& original_descriptor.details matches PropertyDescriptorDetails::String(s) && d.model()
                    == (DescriptorModel {
                    header: updated_header(
                        original_descriptor.header.deep_view(),
                        new_description.deep_view(),
                        new_label.deep_view(),
                    ),
                    details: DetailsModel::String {
                        min_length: if min_length is Some {
                            min_length->0
                        } else {
                            s.min_length
                        },
                        max_length: if max_length is Some {
                            max_length->0
                        } else {
                            s.max_length
                        },
                    },
                })
            },
            Err(e) => {
                &&& !(original_descriptor.details matches PropertyDescriptorDetails::String(_))
                &&& e matches DescriptorsError::UnexpectedVariant(v) && v@ == "StringDescriptor"@
            },
        },
{
    match &original_descriptor.details {
        PropertyDescriptorDetails::String(s) => {
            let header = update_header(&original_descriptor.header, new_description, new_label);
            let min = match min_length {
                Some(m) => m,
                None => s.min_length,
            };
            let max = match max_length {
                Some(m) => m,
                None => s.max_length,
            };
            Ok(PropertyDescriptor {
                header,
                details: PropertyDescriptorDetails::String(
                    StringDescriptor { min_length: min, max_length: max },
                ),
            })
        },
        _ => Err(DescriptorsError::UnexpectedVariant(String::from_str("StringDescriptor"))),
    }
}

/// Stages an update of an integer descriptor: omitted overrides preserve
/// the original's values exactly; the declared format is always kept.
/// Fails if and only if the original's details are not the integer
/// variant.
pub fn update_integer_descriptor(
    original_descriptor: &PropertyDescriptor,
    new_description: Option<String>,
    new_label: Option<String>,
    min_value: Option<i64>,
    max_value: Option<i64>,
) -> (r: Result<PropertyDescriptor, DescriptorsError>)
    ensures
        match r {
            Ok(d) => {
                &&& original_descriptor.details matches PropertyDescriptorDetails::Integer(i) && d.model()
                    == (DescriptorModel {
                    header: updated_header(
                        original_descriptor.header.deep_view(),
                        new_description.deep_view(),
                        new_label.deep_view(),
                    ),
                    details: DetailsModel::Integer {
                        format: i.format,
                        min_value: if min_value is Some {
                            min_value->0
                        } else {
                            i.min_value
                        },
                        max_value: if max_value is Some {
                            max_value->0
                        } else {
                            i.max_value
                        },
                    },
                })
            },
            Err(e) => {
                &&& !(original_descriptor.details matches PropertyDescriptorDetails::Integer(_))
                &&& e matches DescriptorsError::UnexpectedVariant(v) && v@ == "IntegerDescriptor"@
            },
        },
{
    match &original_descriptor.details {
        PropertyDescriptorDetails::Integer(i) => {
            let header = update_header(&original_descriptor.header, new_description, new_label);
            let min = match min_value {
                Some(m) => m,
                None => i.min_value,
            };
            let max = match max_value {
                Some(m) => m,
                None => i.max_value,
            };
            Ok(PropertyDescriptor {
                header,
                details: PropertyDescriptorDetails::Integer(
                    IntegerDescriptor { format: i.format, min_value: min, max_value: max },
                ),
            })
        },
        _ => Err(DescriptorsError::UnexpectedVariant(String::from_str("IntegerDescriptor"))),
    }
}

} // verus!
