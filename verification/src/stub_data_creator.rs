//! A ready-made dataset of holon descriptors, from simple to rich, for
//! exercising create, fetch and delete flows: one holon with no
//! properties, one with a single boolean property, and one with a
//! property of every scalar kind.

use vstd::prelude::*;
use vstd::string::StringExecFns;

use crate::error::DescriptorsError;
use crate::holon_descriptor::HolonDescriptor;
use crate::mutators::{
    new_boolean_descriptor, new_holon_descriptor, new_integer_descriptor, new_string_descriptor,
};
use crate::property_descriptor::{
    DescriptorSharing, DetailsModel, IntegerFormat, PropertyDescriptorUsage, UsageModel,
};
use crate::property_map_builder::{lemma_map_of_entries_dom, upsert_property_descriptor};
use crate::type_header::BaseType;

verus! {

/// The display name of a base type.
pub open spec fn base_type_name_model(b: BaseType) -> Seq<char> {
    match b {
        BaseType::Holon => "Holon"@,
        BaseType::Collection => "Collection"@,
        BaseType::Composite => "Composite"@,
        BaseType::Relationship => "Relationship"@,
        BaseType::Boolean => "Boolean"@,
        BaseType::Integer => "Integer"@,
        BaseType::String => "String"@,
        BaseType::Enum => "Enum"@,
    }
}

/// The display name of a base type, as text.
pub fn base_type_name(b: BaseType) -> (r: String)
    ensures
        r@ == base_type_name_model(b),
{
    match b {
        BaseType::Holon => String::from_str("Holon"),
        BaseType::Collection => String::from_str("Collection"),
        BaseType::Composite => String::from_str("Composite"),
        BaseType::Relationship => String::from_str("Relationship"),
        BaseType::Boolean => String::from_str("Boolean"),
        BaseType::Integer => String::from_str("Integer"),
        BaseType::String => String::from_str("String"),
        BaseType::Enum => String::from_str("Enum"),
    }
}

/// The type name derived from an optional prefix, a base type and an
/// optional suffix, joined with underscores around `<BaseType>_Type`.
pub open spec fn derived_name(prefix: Seq<char>, b: BaseType, suffix: Seq<char>) -> Seq<char> {
    let bts = base_type_name_model(b) + "_Type"@;
    if prefix.len() == 0 {
        if suffix.len() == 0 {
            bts
        } else {
            bts + "_"@ + suffix
        }
    } else {
        if suffix.len() == 0 {
            prefix + "_"@ + bts
        } else {
            prefix + "_"@ + bts + "_"@ + suffix
        }
    }
}

/// Derives a type name such as `simple_Boolean_Type` or
/// `Holon_Type_with_no_properties`.
pub fn derive_type_name(prefix: &str, base_type: BaseType, suffix: &str) -> (r: String)
    ensures
        r@ == derived_name(prefix@, base_type, suffix@),
{
    let base_type_string = base_type_name(base_type).concat("_Type");
    if prefix.is_empty() {
        if suffix.is_empty() {
            base_type_string
        } else {
            base_type_string.concat("_").concat(suffix)
        }
    } else {
        if suffix.is_empty() {
            String::from_str(prefix).concat("_").concat(base_type_string.as_str())
        } else {
            String::from_str(prefix).concat("_").concat(base_type_string.as_str()).concat(
                "_",
            ).concat(suffix)
        }
    }
}

/// Wraps a freshly built descriptor in a dedicated usage.
fn dedicated_usage(
    description: &str,
    descriptor: crate::property_descriptor::PropertyDescriptor,
) -> (r: PropertyDescriptorUsage)
    ensures
        r.model().descriptor == descriptor.model(),
        r.sharing == DescriptorSharing::Dedicated,
        descriptor.wf() ==> r.wf(),
{
    PropertyDescriptorUsage {
        description: String::from_str(description),
        descriptor,
        label: String::new(),
        sharing: DescriptorSharing::Dedicated,
    }
}

/// Whether a mapping binds `key` to a dedicated usage whose descriptor
/// carries exactly `details`.
pub open spec fn binds_details(
    map: Map<Seq<char>, UsageModel>,
    key: Seq<char>,
    details: DetailsModel,
) -> bool {
    map.contains_key(key) && map[key].descriptor.details == details
}

/// The ten property names of the scalar dataset are pairwise
/// distinct.
proof fn lemma_dataset_keys_distinct()
    ensures
        "a_boolean_property"@ != "a_string_property"@,
        "a_boolean_property"@ != "an_I8_property"@,
        "a_boolean_property"@ != "an_I16_property"@,
        "a_boolean_property"@ != "an_I32_property"@,
        "a_boolean_property"@ != "an_I64_property"@,
        "a_boolean_property"@ != "a_U8_property"@,
        "a_boolean_property"@ != "a_U16_property"@,
        "a_boolean_property"@ != "a_U32_property"@,
        "a_boolean_property"@ != "a_U64_property"@,
        "a_string_property"@ != "an_I8_property"@,
        "a_string_property"@ != "an_I16_property"@,
        "a_string_property"@ != "an_I32_property"@,
        "a_string_property"@ != "an_I64_property"@,
        "a_string_property"@ != "a_U8_property"@,
        "a_string_property"@ != "a_U16_property"@,
        "a_string_property"@ != "a_U32_property"@,
        "a_string_property"@ != "a_U64_property"@,
        "an_I8_property"@ != "an_I16_property"@,
        "an_I8_property"@ != "an_I32_property"@,
        "an_I8_property"@ != "an_I64_property"@,
        "an_I8_property"@ != "a_U8_property"@,
        "an_I8_property"@ != "a_U16_property"@,
        "an_I8_property"@ != "a_U32_property"@,
        "an_I8_property"@ != "a_U64_property"@,
        "an_I16_property"@ != "an_I32_property"@,
        "an_I16_property"@ != "an_I64_property"@,
        "an_I16_property"@ != "a_U8_property"@,
        "an_I16_property"@ != "a_U16_property"@,
        "an_I16_property"@ != "a_U32_property"@,
        "an_I16_property"@ != "a_U64_property"@,
        "an_I32_property"@ != "an_I64_property"@,
        "an_I32_property"@ != "a_U8_property"@,
        "an_I32_property"@ != "a_U16_property"@,
        "an_I32_property"@ != "a_U32_property"@,
        "an_I32_property"@ != "a_U64_property"@,
        "an_I64_property"@ != "a_U8_property"@,
        "an_I64_property"@ != "a_U16_property"@,
        "an_I64_property"@ != "a_U32_property"@,
        "an_I64_property"@ != "a_U64_property"@,
        "a_U8_property"@ != "a_U16_property"@,
        "a_U8_property"@ != "a_U32_property"@,
        "a_U8_property"@ != "a_U64_property"@,
        "a_U16_property"@ != "a_U32_property"@,
        "a_U16_property"@ != "a_U64_property"@,
        "a_U32_property"@ != "a_U64_property"@,
{
    reveal_strlit("a_boolean_property");
    reveal_strlit("a_string_property");
    reveal_strlit("an_I8_property");
    reveal_strlit("an_I16_property");
    reveal_strlit("an_I32_property");
    reveal_strlit("an_I64_property");
    reveal_strlit("a_U8_property");
    reveal_strlit("a_U16_property");
    reveal_strlit("a_U32_property");
    reveal_strlit("a_U64_property");
    assert("a_boolean_property"@.len() == 18);
    assert("a_string_property"@.len() == 17);
    assert("an_I8_property"@.len() == 14);
    assert("an_I16_property"@.len() == 15);
    assert("an_I32_property"@.len() == 15);
    assert("an_I64_property"@.len() == 15);
    assert("a_U8_property"@.len() == 13);
    assert("a_U16_property"@.len() == 14);
    assert("a_U32_property"@.len() == 14);
    assert("a_U64_property"@.len() == 14);
    assert("an_I8_property"@[1] == 'n' && "a_U16_property"@[1] == '_');
    assert("an_I8_property"@[1] == 'n' && "a_U32_property"@[1] == '_');
    assert("an_I8_property"@[1] == 'n' && "a_U64_property"@[1] == '_');
    assert("a_U16_property"@[3] == '1' && "a_U32_property"@[3] == '3');
    assert("a_U16_property"@[3] == '1' && "a_U64_property"@[3] == '6');
    assert("a_U32_property"@[3] == '3' && "a_U64_property"@[3] == '6');
    assert("an_I16_property"@[4] == '1' && "an_I32_property"@[4] == '3');
    assert("an_I16_property"@[4] == '1' && "an_I64_property"@[4] == '6');
    assert("an_I32_property"@[4] == '3' && "an_I64_property"@[4] == '6');
}

/// Builds the holon that carries one property of every scalar kind,
/// with the constraint values of the dataset.
#[verifier::rlimit(100)]
#[verifier::spinoff_prover]
fn scalar_properties_holon() -> (r: Result<HolonDescriptor, DescriptorsError>)
    ensures
        r is Ok,
        r matches Ok(d) ==> {
            &&& d.wf()
            &&& d.deep_view().header.name == derived_name(
                ""@,
                BaseType::Holon,
                "with_scalar_properties"@,
            )
            &&& d.property_map.model().len() == 10
            &&& binds_details(
                d.property_map.as_map(),
                "a_boolean_property"@,
                DetailsModel::Boolean { is_fuzzy: false },
            )
            &&& binds_details(
                d.property_map.as_map(),
                "a_string_property"@,
                DetailsModel::String { min_length: 0, max_length: 2048 },
            )
            &&& binds_details(
                d.property_map.as_map(),
                "an_I8_property"@,
                DetailsModel::Integer {
                    format: IntegerFormat::I8,
                    min_value: -127i64,
                    max_value: 127i64,
                },
            )
            &&& binds_details(
                d.property_map.as_map(),
                "an_I16_property"@,
                DetailsModel::Integer {
                    format: IntegerFormat::I16,
                    min_value: -32767i64,
                    max_value: 32767i64,
                },
            )
            &&& binds_details(
                d.property_map.as_map(),
                "an_I32_property"@,
                DetailsModel::Integer {
                    format: IntegerFormat::I32,
                    min_value: -2147483648i64,
                    max_value: 2147483648i64,
                },
            )
            &&& binds_details(
                d.property_map.as_map(),
                "an_I64_property"@,
                DetailsModel::Integer {
                    format: IntegerFormat::I64,
                    min_value: i64::MIN,
                    max_value: i64::MAX,
                },
            )
            &&& binds_details(
                d.property_map.as_map(),
                "a_U8_property"@,
                DetailsModel::Integer {
                    format: IntegerFormat::U8,
                    min_value: -127i64,
                    max_value: 127i64,
                },
            )
            &&& binds_details(
                d.property_map.as_map(),
                "a_U16_property"@,
                DetailsModel::Integer {
                    format: IntegerFormat::U16,
                    min_value: -32767i64,
                    max_value: 32767i64,
                },
            )
            &&& binds_details(
                d.property_map.as_map(),
                "a_U32_property"@,
                DetailsModel::Integer {
                    format: IntegerFormat::U32,
                    min_value: -2147483648i64,
                    max_value: 2147483648i64,
                },
            )
            &&& binds_details(
                d.property_map.as_map(),
                "a_U64_property"@,
                DetailsModel::Integer {
                    format: IntegerFormat::U64,
                    min_value: i64::MIN,
                    max_value: i64::MAX,
                },
            )
        },
{
    proof {
        reveal_strlit("Holon");
        reveal_strlit("_Type");
        lemma_dataset_keys_distinct();
    }
    let mut descriptor = match new_holon_descriptor(
        derive_type_name("", BaseType::Holon, "with_scalar_properties"),
        String::from_str(
            "A holon type that has a single property of each scalar property type.",
        ),
        String::new(),
        false,
    ) {
        Ok(d) => d,
        Err(e) => {
            return Err(e);
        },
    };
    let scalar = match new_boolean_descriptor(
        derive_type_name("simple", BaseType::Boolean, ""),
        String::from_str("Simple Boolean Property Type description"),
        String::new(),
        true,
        false,
    ) {
        Ok(d) => d,
        Err(e) => {
            return Err(e);
        },
    };
    add_scalar_property(&mut descriptor, "a_boolean_property", scalar);
    proof {
        assert(binds_details(descriptor.property_map.as_map(), "a_boolean_property"@, DetailsModel::Boolean { is_fuzzy: false }));
    }
    let scalar = match new_string_descriptor(
        derive_type_name("simple", BaseType::String, ""),
        String::from_str("Simple String Property Type description"),
        String::new(),
        true,
        0,
        2048,
    ) {
        Ok(d) => d,
        Err(e) => {
            return Err(e);
        },
    };
    add_scalar_property(&mut descriptor, "a_string_property", scalar);
    proof {
        assert(binds_details(descriptor.property_map.as_map(), "a_boolean_property"@, DetailsModel::Boolean { is_fuzzy: false }));
        assert(binds_details(descriptor.property_map.as_map(), "a_string_property"@, DetailsModel::String { min_length: 0, max_length: 2048 }));
    }
    let scalar = match new_integer_descriptor(
        derive_type_name("simple_I8", BaseType::Integer, ""),
        String::from_str("Simple Integer (I8) Property Type description"),
        String::new(),
        true,
        IntegerFormat::I8,
        -127,
        127,
    ) {
        Ok(d) => d,
        Err(e) => {
            return Err(e);
        },
    };
    add_scalar_property(&mut descriptor, "an_I8_property", scalar);
    proof {
        assert(binds_details(descriptor.property_map.as_map(), "a_boolean_property"@, DetailsModel::Boolean { is_fuzzy: false }));
        assert(binds_details(descriptor.property_map.as_map(), "a_string_property"@, DetailsModel::String { min_length: 0, max_length: 2048 }));
        assert(binds_details(descriptor.property_map.as_map(), "an_I8_property"@, DetailsModel::Integer { format: IntegerFormat::I8, min_value: -127i64, max_value: 127i64 }));
    }
    let scalar = match new_integer_descriptor(
        derive_type_name("simple_I16", BaseType::Integer, ""),
        String::from_str("Simple Integer (I16) Property Type description"),
        String::new(),
        true,
        IntegerFormat::I16,
        -32767,
        32767,
    ) {
        Ok(d) => d,
        Err(e) => {
            return Err(e);
        },
    };
    add_scalar_property(&mut descriptor, "an_I16_property", scalar);
    proof {
        assert(binds_details(descriptor.property_map.as_map(), "a_boolean_property"@, DetailsModel::Boolean { is_fuzzy: false }));
        assert(binds_details(descriptor.property_map.as_map(), "a_string_property"@, DetailsModel::String { min_length: 0, max_length: 2048 }));
        assert(binds_details(descriptor.property_map.as_map(), "an_I8_property"@, DetailsModel::Integer { format: IntegerFormat::I8, min_value: -127i64, max_value: 127i64 }));
        assert(binds_details(descriptor.property_map.as_map(), "an_I16_property"@, DetailsModel::Integer { format: IntegerFormat::I16, min_value: -32767i64, max_value: 32767i64 }));
    }
    let scalar = match new_integer_descriptor(
        derive_type_name("simple_I32", BaseType::Integer, ""),
        String::from_str("Simple Integer (I32) Property Type description"),
        String::new(),
        true,
        IntegerFormat::I32,
        -2147483648,
        2147483648,
    ) {
        Ok(d) => d,
        Err(e) => {
            return Err(e);
        },
    };
    add_scalar_property(&mut descriptor, "an_I32_property", scalar);
    proof {
        assert(binds_details(descriptor.property_map.as_map(), "a_boolean_property"@, DetailsModel::Boolean { is_fuzzy: false }));
        assert(binds_details(descriptor.property_map.as_map(), "a_string_property"@, DetailsModel::String { min_length: 0, max_length: 2048 }));
        assert(binds_details(descriptor.property_map.as_map(), "an_I8_property"@, DetailsModel::Integer { format: IntegerFormat::I8, min_value: -127i64, max_value: 127i64 }));
        assert(binds_details(descriptor.property_map.as_map(), "an_I16_property"@, DetailsModel::Integer { format: IntegerFormat::I16, min_value: -32767i64, max_value: 32767i64 }));
        assert(binds_details(descriptor.property_map.as_map(), "an_I32_property"@, DetailsModel::Integer { format: IntegerFormat::I32, min_value: -2147483648i64, max_value: 2147483648i64 }));
    }
    let scalar = match new_integer_descriptor(
        derive_type_name("simple_I64", BaseType::Integer, ""),
        String::from_str("Simple Integer (I64) Property Type description"),
        String::new(),
        true,
        IntegerFormat::I64,
        -9223372036854775808,
        9223372036854775807,
    ) {
        Ok(d) => d,
        Err(e) => {
            return Err(e);
        },
    };
    add_scalar_property(&mut descriptor, "an_I64_property", scalar);
    proof {
        assert(binds_details(descriptor.property_map.as_map(), "a_boolean_property"@, DetailsModel::Boolean { is_fuzzy: false }));
        assert(binds_details(descriptor.property_map.as_map(), "a_string_property"@, DetailsModel::String { min_length: 0, max_length: 2048 }));
        assert(binds_details(descriptor.property_map.as_map(), "an_I8_property"@, DetailsModel::Integer { format: IntegerFormat::I8, min_value: -127i64, max_value: 127i64 }));
        assert(binds_details(descriptor.property_map.as_map(), "an_I16_property"@, DetailsModel::Integer { format: IntegerFormat::I16, min_value: -32767i64, max_value: 32767i64 }));
        assert(binds_details(descriptor.property_map.as_map(), "an_I32_property"@, DetailsModel::Integer { format: IntegerFormat::I32, min_value: -2147483648i64, max_value: 2147483648i64 }));
        assert(binds_details(descriptor.property_map.as_map(), "an_I64_property"@, DetailsModel::Integer { format: IntegerFormat::I64, min_value: i64::MIN, max_value: i64::MAX }));
    }
    let scalar = match new_integer_descriptor(
        derive_type_name("simple_U8", BaseType::Integer, ""),
        String::from_str("Simple Integer (U8) Property Type description"),
        String::new(),
        true,
        IntegerFormat::U8,
        -127,
        127,
    ) {
        Ok(d) => d,
        Err(e) => {
            return Err(e);
        },
    };
    add_scalar_property(&mut descriptor, "a_U8_property", scalar);
    proof {
        assert(binds_details(descriptor.property_map.as_map(), "a_boolean_property"@, DetailsModel::Boolean { is_fuzzy: false }));
        assert(binds_details(descriptor.property_map.as_map(), "a_string_property"@, DetailsModel::String { min_length: 0, max_length: 2048 }));
        assert(binds_details(descriptor.property_map.as_map(), "an_I8_property"@, DetailsModel::Integer { format: IntegerFormat::I8, min_value: -127i64, max_value: 127i64 }));
        assert(binds_details(descriptor.property_map.as_map(), "an_I16_property"@, DetailsModel::Integer { format: IntegerFormat::I16, min_value: -32767i64, max_value: 32767i64 }));
        assert(binds_details(descriptor.property_map.as_map(), "an_I32_property"@, DetailsModel::Integer { format: IntegerFormat::I32, min_value: -2147483648i64, max_value: 2147483648i64 }));
        assert(binds_details(descriptor.property_map.as_map(), "an_I64_property"@, DetailsModel::Integer { format: IntegerFormat::I64, min_value: i64::MIN, max_value: i64::MAX }));
        assert(binds_details(descriptor.property_map.as_map(), "a_U8_property"@, DetailsModel::Integer { format: IntegerFormat::U8, min_value: -127i64, max_value: 127i64 }));
    }
    let scalar = match new_integer_descriptor(
        derive_type_name("simple_U16", BaseType::Integer, ""),
        String::from_str("Simple Integer (U16) Property Type description"),
        String::new(),
        true,
        IntegerFormat::U16,
        -32767,
        32767,
    ) {
        Ok(d) => d,
        Err(e) => {
            return Err(e);
        },
    };
    add_scalar_property(&mut descriptor, "a_U16_property", scalar);
    proof {
        assert(binds_details(descriptor.property_map.as_map(), "a_boolean_property"@, DetailsModel::Boolean { is_fuzzy: false }));
        assert(binds_details(descriptor.property_map.as_map(), "a_string_property"@, DetailsModel::String { min_length: 0, max_length: 2048 }));
        assert(binds_details(descriptor.property_map.as_map(), "an_I8_property"@, DetailsModel::Integer { format: IntegerFormat::I8, min_value: -127i64, max_value: 127i64 }));
        assert(binds_details(descriptor.property_map.as_map(), "an_I16_property"@, DetailsModel::Integer { format: IntegerFormat::I16, min_value: -32767i64, max_value: 32767i64 }));
        assert(binds_details(descriptor.property_map.as_map(), "an_I32_property"@, DetailsModel::Integer { format: IntegerFormat::I32, min_value: -2147483648i64, max_value: 2147483648i64 }));
        assert(binds_details(descriptor.property_map.as_map(), "an_I64_property"@, DetailsModel::Integer { format: IntegerFormat::I64, min_value: i64::MIN, max_value: i64::MAX }));
        assert(binds_details(descriptor.property_map.as_map(), "a_U8_property"@, DetailsModel::Integer { format: IntegerFormat::U8, min_value: -127i64, max_value: 127i64 }));
        assert(binds_details(descriptor.property_map.as_map(), "a_U16_property"@, DetailsModel::Integer { format: IntegerFormat::U16, min_value: -32767i64, max_value: 32767i64 }));
    }
    let scalar = match new_integer_descriptor(
        derive_type_name("simple_U32", BaseType::Integer, ""),
        String::from_str("Simple Integer (U32) Property Type description"),
        String::new(),
        true,
        IntegerFormat::U32,
        -2147483648,
        2147483648,
    ) {
        Ok(d) => d,
        Err(e) => {
            return Err(e);
        },
    };
    add_scalar_property(&mut descriptor, "a_U32_property", scalar);
    proof {
        assert(binds_details(descriptor.property_map.as_map(), "a_boolean_property"@, DetailsModel::Boolean { is_fuzzy: false }));
        assert(binds_details(descriptor.property_map.as_map(), "a_string_property"@, DetailsModel::String { min_length: 0, max_length: 2048 }));
        assert(binds_details(descriptor.property_map.as_map(), "an_I8_property"@, DetailsModel::Integer { format: IntegerFormat::I8, min_value: -127i64, max_value: 127i64 }));
        assert(binds_details(descriptor.property_map.as_map(), "an_I16_property"@, DetailsModel::Integer { format: IntegerFormat::I16, min_value: -32767i64, max_value: 32767i64 }));
        assert(binds_details(descriptor.property_map.as_map(), "an_I32_property"@, DetailsModel::Integer { format: IntegerFormat::I32, min_value: -2147483648i64, max_value: 2147483648i64 }));
        assert(binds_details(descriptor.property_map.as_map(), "an_I64_property"@, DetailsModel::Integer { format: IntegerFormat::I64, min_value: i64::MIN, max_value: i64::MAX }));
        assert(binds_details(descriptor.property_map.as_map(), "a_U8_property"@, DetailsModel::Integer { format: IntegerFormat::U8, min_value: -127i64, max_value: 127i64 }));
        assert(binds_details(descriptor.property_map.as_map(), "a_U16_property"@, DetailsModel::Integer { format: IntegerFormat::U16, min_value: -32767i64, max_value: 32767i64 }));
        assert(binds_details(descriptor.property_map.as_map(), "a_U32_property"@, DetailsModel::Integer { format: IntegerFormat::U32, min_value: -2147483648i64, max_value: 2147483648i64 }));
    }
    let scalar = match new_integer_descriptor(
        derive_type_name("simple_U64", BaseType::Integer, ""),
        String::from_str("Simple Integer (U64) Property Type description"),
        String::new(),
        true,
        IntegerFormat::U64,
        -9223372036854775808,
        9223372036854775807,
    ) {
        Ok(d) => d,
        Err(e) => {
            return Err(e);
        },
    };
    add_scalar_property(&mut descriptor, "a_U64_property", scalar);
    proof {
        assert(binds_details(descriptor.property_map.as_map(), "a_boolean_property"@, DetailsModel::Boolean { is_fuzzy: false }));
        assert(binds_details(descriptor.property_map.as_map(), "a_string_property"@, DetailsModel::String { min_length: 0, max_length: 2048 }));
        assert(binds_details(descriptor.property_map.as_map(), "an_I8_property"@, DetailsModel::Integer { format: IntegerFormat::I8, min_value: -127i64, max_value: 127i64 }));
        assert(binds_details(descriptor.property_map.as_map(), "an_I16_property"@, DetailsModel::Integer { format: IntegerFormat::I16, min_value: -32767i64, max_value: 32767i64 }));
        assert(binds_details(descriptor.property_map.as_map(), "an_I32_property"@, DetailsModel::Integer { format: IntegerFormat::I32, min_value: -2147483648i64, max_value: 2147483648i64 }));
        assert(binds_details(descriptor.property_map.as_map(), "an_I64_property"@, DetailsModel::Integer { format: IntegerFormat::I64, min_value: i64::MIN, max_value: i64::MAX }));
        assert(binds_details(descriptor.property_map.as_map(), "a_U8_property"@, DetailsModel::Integer { format: IntegerFormat::U8, min_value: -127i64, max_value: 127i64 }));
        assert(binds_details(descriptor.property_map.as_map(), "a_U16_property"@, DetailsModel::Integer { format: IntegerFormat::U16, min_value: -32767i64, max_value: 32767i64 }));
        assert(binds_details(descriptor.property_map.as_map(), "a_U32_property"@, DetailsModel::Integer { format: IntegerFormat::U32, min_value: -2147483648i64, max_value: 2147483648i64 }));
        assert(binds_details(descriptor.property_map.as_map(), "a_U64_property"@, DetailsModel::Integer { format: IntegerFormat::U64, min_value: i64::MIN, max_value: i64::MAX }));
    }
    Ok(descriptor)
}

/// Binds one freshly built scalar descriptor into a holon's map under a
/// name not yet bound there.
fn add_scalar_property(
    holon: &mut HolonDescriptor,
    key: &str,
    scalar: crate::property_descriptor::PropertyDescriptor,
)
    requires
        old(holon).property_map.wf(),
        scalar.wf(),
        !old(holon).property_map.as_map().contains_key(key@),
    ensures
        final(holon).header == old(holon).header,
        final(holon).property_map.wf(),
        final(holon).property_map.as_map().dom() =~= old(holon).property_map.as_map().dom().insert(
            key@,
        ),
        forall|k2: Seq<char>|
            #[trigger] old(holon).property_map.as_map().contains_key(k2) && k2 != key@
                ==> final(holon).property_map.as_map()[k2] == old(holon).property_map.as_map()[k2],
        final(holon).property_map.model().len() == old(holon).property_map.model().len() + 1,
        binds_details(final(holon).property_map.as_map(), key@, scalar.model().details),
{
    let ghost entries = holon.property_map.model();
    proof {
        lemma_map_of_entries_dom(entries);
    }
    let usage = dedicated_usage("scalar property of the dataset", scalar);
    upsert_property_descriptor(&mut holon.property_map, String::from_str(key), usage);
}

/// Builds the test dataset: a holon with no properties, one with a
/// single boolean property, and one with a property of every scalar
/// kind.
#[verifier::rlimit(100)]
#[verifier::spinoff_prover]
pub fn create_dummy_data() -> (r: Result<Vec<HolonDescriptor>, DescriptorsError>)
    ensures
        r is Ok,
        r matches Ok(v) ==> {
            &&& v@.len() == 3
            &&& forall|i: int| 0 <= i < v@.len() ==> (#[trigger] v@[i]).wf()
            &&& v@[0].deep_view().header.name == derived_name(
                ""@,
                BaseType::Holon,
                "with_no_properties"@,
            )
            &&& v@[0].deep_view().entries.len() == 0
            &&& v@[1].deep_view().header.name == derived_name(
                ""@,
                BaseType::Holon,
                "with_single_boolean_property"@,
            )
            &&& v@[1].deep_view().entries.len() == 1
            &&& binds_details(
                v@[1].property_map.as_map(),
                "a_boolean_property"@,
                DetailsModel::Boolean { is_fuzzy: false },
            )
            &&& v@[2].deep_view().header.name == derived_name(
                ""@,
                BaseType::Holon,
                "with_scalar_properties"@,
            )
            &&& v@[2].deep_view().entries.len() == 10
            &&& binds_details(
                v@[2].property_map.as_map(),
                "a_boolean_property"@,
                DetailsModel::Boolean { is_fuzzy: false },
            )
            &&& binds_details(
                v@[2].property_map.as_map(),
                "a_string_property"@,
                DetailsModel::String { min_length: 0, max_length: 2048 },
            )
            &&& binds_details(
                v@[2].property_map.as_map(),
                "an_I8_property"@,
                DetailsModel::Integer {
                    format: IntegerFormat::I8,
                    min_value: -127i64,
                    max_value: 127i64,
                },
            )
            &&& binds_details(
                v@[2].property_map.as_map(),
                "an_I16_property"@,
                DetailsModel::Integer {
                    format: IntegerFormat::I16,
                    min_value: -32767i64,
                    max_value: 32767i64,
                },
            )
            &&& binds_details(
                v@[2].property_map.as_map(),
                "an_I32_property"@,
                DetailsModel::Integer {
                    format: IntegerFormat::I32,
                    min_value: -2147483648i64,
                    max_value: 2147483648i64,
                },
            )
            &&& binds_details(
                v@[2].property_map.as_map(),
                "an_I64_property"@,
                DetailsModel::Integer {
                    format: IntegerFormat::I64,
                    min_value: i64::MIN,
                    max_value: i64::MAX,
                },
            )
            &&& binds_details(
                v@[2].property_map.as_map(),
                "a_U8_property"@,
                DetailsModel::Integer {
                    format: IntegerFormat::U8,
                    min_value: -127i64,
                    max_value: 127i64,
                },
            )
            &&& binds_details(
                v@[2].property_map.as_map(),
                "a_U16_property"@,
                DetailsModel::Integer {
                    format: IntegerFormat::U16,
                    min_value: -32767i64,
                    max_value: 32767i64,
                },
            )
            &&& binds_details(
                v@[2].property_map.as_map(),
                "a_U32_property"@,
                DetailsModel::Integer {
                    format: IntegerFormat::U32,
                    min_value: -2147483648i64,
                    max_value: 2147483648i64,
                },
            )
            &&& binds_details(
                v@[2].property_map.as_map(),
                "a_U64_property"@,
                DetailsModel::Integer {
                    format: IntegerFormat::U64,
                    min_value: i64::MIN,
                    max_value: i64::MAX,
                },
            )
        },
{
    let mut test_data_set: Vec<HolonDescriptor> = Vec::new();

    proof {
        reveal_strlit("Holon");
        reveal_strlit("Boolean");
        reveal_strlit("_Type");
        reveal_strlit("a_boolean_property");
    }
    let descriptor = match new_holon_descriptor(
        derive_type_name("", BaseType::Holon, "with_no_properties"),
        String::from_str("A simple holon type that has no properties."),
        String::new(),
        false,
    ) {
        Ok(d) => d,
        Err(e) => {
            return Err(e);
        },
    };
    test_data_set.push(descriptor);

    let mut descriptor = match new_holon_descriptor(
        derive_type_name("", BaseType::Holon, "with_single_boolean_property"),
        String::from_str("A simple holon type that has a single boolean property"),
        String::new(),
        false,
    ) {
        Ok(d) => d,
        Err(e) => {
            return Err(e);
        },
    };
    let bool_descriptor = match new_boolean_descriptor(
        derive_type_name("simple", BaseType::Boolean, ""),
        String::from_str("Simple Boolean Property Type description"),
        String::new(),
        true,
        false,
    ) {
        Ok(d) => d,
        Err(e) => {
            return Err(e);
        },
    };
    add_scalar_property(&mut descriptor, "a_boolean_property", bool_descriptor);
    test_data_set.push(descriptor);

    let descriptor = match scalar_properties_holon() {
        Ok(d) => d,
        Err(e) => {
            return Err(e);
        },
    };
    test_data_set.push(descriptor);

    Ok(test_data_set)
}

} // verus!
