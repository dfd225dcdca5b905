//! End-to-end scenarios against a small in-memory stand-in for the
//! content-addressed store, the latest-revision selection, the
//! validation rules, and the stub dataset.

use std::collections::BTreeMap;

use descriptors::helpers::eq_holon_descriptor;
use descriptors::holon_descriptor::{HolonDescriptor, HolonId};
use descriptors::mutators::{
    new_boolean_descriptor, new_composite_descriptor, new_holon_descriptor,
    new_integer_descriptor, new_string_descriptor,
};
use descriptors::property_descriptor::{
    DescriptorSharing, IntegerFormat, PropertyDescriptorDetails, PropertyDescriptorMap,
    PropertyDescriptorUsage,
};
use descriptors::property_map_builder::upsert_property_descriptor;
use descriptors::queries::{latest_revision_target, RevisionLink, UpdateHolonDescriptorInput};
use descriptors::stub_data_creator::{create_dummy_data, derive_type_name};
use descriptors::type_header::BaseType;
use descriptors::mutators::new_type_header;
use descriptors::validation::{
    validate, validate_delete_link, DescriptorOp, EntryTypes, LinkTypes, OriginalRecord,
    ValidationOutcome,
};

/// A tiny in-memory stand-in for the external store.
struct HolonStore {
    records: BTreeMap<Vec<u8>, HolonDescriptor>,
    next: u8,
}

impl HolonStore {
    fn new() -> Self {
        HolonStore { records: BTreeMap::new(), next: 1 }
    }

    fn create(&mut self, d: HolonDescriptor) -> HolonId {
        let id = vec![self.next];
        self.next += 1;
        self.records.insert(id.clone(), d);
        HolonId { bytes: id }
    }

    fn get(&self, id: &HolonId) -> Option<&HolonDescriptor> {
        self.records.get(&id.bytes)
    }

    fn delete(&mut self, id: &HolonId) {
        self.records.remove(&id.bytes);
    }
}

#[test]
fn create_fetch_and_delete_a_holon_descriptor() {
    let mut store = HolonStore::new();
    let descriptor = new_holon_descriptor(
        "Holon_Type_with_no_properties".to_string(),
        "A simple holon type that has no properties.".to_string(),
        "no properties".to_string(),
        false,
    )
    .unwrap();
    let id = store.create(descriptor.clone());

    let fetched = store.get(&id).expect("just created");
    assert_eq!(fetched.header.name, "Holon_Type_with_no_properties".to_string());
    assert!(fetched.property_map.properties.is_empty());
    assert!(eq_holon_descriptor(fetched, &descriptor));

    store.delete(&id);
    assert!(store.get(&id).is_none());
}

#[test]
fn composite_nesting_scenario() {
    let boolean =
        new_boolean_descriptor("simple_Boolean_Type".into(), "b".into(), "lb".into(), true, false)
            .unwrap();
    let string =
        new_string_descriptor("simple_String_Type".into(), "s".into(), "ls".into(), true, 0, 2048)
            .unwrap();
    let integer = new_integer_descriptor(
        "simple_I64_Integer_Type".into(),
        "i".into(),
        "li".into(),
        true,
        IntegerFormat::I64,
        i64::MIN,
        i64::MAX,
    )
    .unwrap();

    let mut inner = PropertyDescriptorMap { properties: Vec::new() };
    for (name, d) in [
        ("a_boolean_property", &boolean),
        ("a_string_property", &string),
        ("an_I64_property", &integer),
    ] {
        upsert_property_descriptor(
            &mut inner,
            name.to_string(),
            PropertyDescriptorUsage {
                description: "scalar member".to_string(),
                descriptor: d.clone(),
                label: "m".to_string(),
                sharing: DescriptorSharing::Dedicated,
            },
        );
    }
    let composite = new_composite_descriptor(
        "Simple_Composite_Type_with_scalar_properties".to_string(),
        "c".to_string(),
        "lc".to_string(),
        true,
        inner,
    )
    .unwrap();

    let mut holon = new_holon_descriptor(
        "Holon_Type_with_composite_properties".to_string(),
        "h".to_string(),
        "lh".to_string(),
        false,
    )
    .unwrap();
    upsert_property_descriptor(
        &mut holon.property_map,
        "a_composite_property".to_string(),
        PropertyDescriptorUsage {
            description: "the composite".to_string(),
            descriptor: composite,
            label: "cp".to_string(),
            sharing: DescriptorSharing::Dedicated,
        },
    );

    let mut store = HolonStore::new();
    let id = store.create(holon.clone());
    let fetched = store.get(&id).unwrap();
    assert!(eq_holon_descriptor(fetched, &holon));

    let usage = &fetched.property_map.properties[0].usage;
    let map = match &usage.descriptor.details {
        PropertyDescriptorDetails::Composite(c) => &c.property_map,
        _ => panic!("expected composite details"),
    };
    assert_eq!(map.properties.len(), 3);
    let names: Vec<&str> = map.properties.iter().map(|e| e.name.as_str()).collect();
    assert!(names.contains(&"a_boolean_property"));
    assert!(names.contains(&"a_string_property"));
    assert!(names.contains(&"an_I64_property"));
    for entry in &map.properties {
        match (&entry.name[..], &entry.usage.descriptor.details) {
            ("a_boolean_property", PropertyDescriptorDetails::Boolean(b)) => {
                assert!(!b.is_fuzzy)
            },
            ("a_string_property", PropertyDescriptorDetails::String(s)) => {
                assert_eq!(s.min_length, 0);
                assert_eq!(s.max_length, 2048);
            },
            ("an_I64_property", PropertyDescriptorDetails::Integer(i)) => {
                assert_eq!(i.format, IntegerFormat::I64);
                assert_eq!(i.min_value, i64::MIN);
                assert_eq!(i.max_value, i64::MAX);
            },
            _ => panic!("unexpected member"),
        }
    }
}

#[test]
fn latest_revision_follows_the_newest_link() {
    let original = HolonId { bytes: vec![1] };
    assert_eq!(latest_revision_target(original, &Vec::new()), HolonId { bytes: vec![1] });

    let original = HolonId { bytes: vec![1] };
    let links = vec![
        RevisionLink { target: HolonId { bytes: vec![2] }, timestamp: 10 },
        RevisionLink { target: HolonId { bytes: vec![3] }, timestamp: 30 },
        RevisionLink { target: HolonId { bytes: vec![4] }, timestamp: 20 },
    ];
    assert_eq!(latest_revision_target(original, &links), HolonId { bytes: vec![3] });

    // On a timestamp tie the link reported last wins.
    let original = HolonId { bytes: vec![1] };
    let links = vec![
        RevisionLink { target: HolonId { bytes: vec![2] }, timestamp: 30 },
        RevisionLink { target: HolonId { bytes: vec![3] }, timestamp: 30 },
    ];
    assert_eq!(latest_revision_target(original, &links), HolonId { bytes: vec![3] });
}

#[test]
fn chained_updates_keep_the_original_anchor() {
    let holon = new_holon_descriptor("H".into(), "d".into(), "l".into(), false).unwrap();
    let input = UpdateHolonDescriptorInput {
        original_holon_descriptor_hash: HolonId { bytes: vec![1] },
        previous_holon_descriptor_hash: HolonId { bytes: vec![1] },
        updated_holon_descriptor: holon.clone(),
    };
    let next = input.next(HolonId { bytes: vec![7] }, holon);
    assert_eq!(next.original_holon_descriptor_hash, HolonId { bytes: vec![1] });
    assert_eq!(next.previous_holon_descriptor_hash, HolonId { bytes: vec![7] });
}

#[test]
fn validation_accepts_stores_and_refuses_link_deletes() {
    let holon = new_holon_descriptor("H".into(), "d".into(), "l".into(), false).unwrap();
    let verdict = validate(DescriptorOp::StoreEntry {
        entry: EntryTypes::HolonDescriptor(holon),
    })
    .unwrap();
    assert_eq!(verdict, ValidationOutcome::Valid);

    let verdict = validate(DescriptorOp::RegisterDeleteLink {
        link_type: LinkTypes::AllHolonTypes,
    })
    .unwrap();
    assert_eq!(
        verdict,
        ValidationOutcome::Invalid("AllHolonTypes links cannot be deleted".to_string())
    );
    assert_eq!(
        validate_delete_link(LinkTypes::HolonDescriptorUpdates),
        ValidationOutcome::Invalid("HolonDescriptorUpdates links cannot be deleted".to_string())
    );
}

#[test]
fn validation_requires_matching_update_kinds() {
    let holon = new_holon_descriptor("H".into(), "d".into(), "l".into(), false).unwrap();
    let property =
        new_boolean_descriptor("B".into(), "d".into(), "l".into(), false, false).unwrap();
    let verdict = validate(DescriptorOp::RegisterUpdate {
        new_entry: EntryTypes::HolonDescriptor(holon),
        original: OriginalRecord::Entry(EntryTypes::PropertyDescriptor(property)),
    })
    .unwrap();
    assert_eq!(
        verdict,
        ValidationOutcome::Invalid("Original and updated entry types must be the same".to_string())
    );

    let holon = new_holon_descriptor("H".into(), "d".into(), "l".into(), false).unwrap();
    let verdict = validate(DescriptorOp::RegisterUpdate {
        new_entry: EntryTypes::HolonDescriptor(holon),
        original: OriginalRecord::MissingPublicEntry,
    })
    .unwrap();
    assert_eq!(
        verdict,
        ValidationOutcome::Invalid(
            "The updated entry type must be the same as the original entry type".to_string()
        )
    );

    let holon = new_holon_descriptor("H".into(), "d".into(), "l".into(), false).unwrap();
    let verdict = validate(DescriptorOp::RegisterUpdate {
        new_entry: EntryTypes::HolonDescriptor(holon),
        original: OriginalRecord::NotEntryCreation,
    })
    .unwrap();
    assert_eq!(
        verdict,
        ValidationOutcome::Invalid(
            "Original action for an update must be a Create or Update action".to_string()
        )
    );
}

#[test]
fn validation_refuses_header_revisions_and_bad_delete_origins() {
    let header = new_type_header(
        "H".to_string(),
        BaseType::Holon,
        "d".to_string(),
        "l".to_string(),
        false,
    )
    .unwrap();
    let other = new_type_header(
        "H".to_string(),
        BaseType::Holon,
        "d".to_string(),
        "l".to_string(),
        false,
    )
    .unwrap();
    let verdict = validate(DescriptorOp::RegisterUpdate {
        new_entry: EntryTypes::TypeHeader(header),
        original: OriginalRecord::Entry(EntryTypes::TypeHeader(other)),
    })
    .unwrap();
    assert_eq!(verdict, ValidationOutcome::Invalid("Type Headers cannot be updated".to_string()));

    let header = new_type_header(
        "H".to_string(),
        BaseType::Holon,
        "d".to_string(),
        "l".to_string(),
        false,
    )
    .unwrap();
    let verdict = validate(DescriptorOp::RegisterDelete {
        original: OriginalRecord::Entry(EntryTypes::TypeHeader(header)),
    })
    .unwrap();
    assert_eq!(verdict, ValidationOutcome::Invalid("Type Headers cannot be deleted".to_string()));

    let verdict = validate(DescriptorOp::RegisterDelete {
        original: OriginalRecord::NotEntryCreation,
    })
    .unwrap();
    assert_eq!(
        verdict,
        ValidationOutcome::Invalid(
            "Original action for a delete must be a Create or Update action".to_string()
        )
    );
    let verdict = validate(DescriptorOp::RegisterDelete {
        original: OriginalRecord::MissingPublicEntry,
    })
    .unwrap();
    assert_eq!(
        verdict,
        ValidationOutcome::Invalid(
            "Original record for a delete of a public entry must contain an entry".to_string()
        )
    );
    let holon = new_holon_descriptor("H".into(), "d".into(), "l".into(), false).unwrap();
    let verdict = validate(DescriptorOp::RegisterDelete {
        original: OriginalRecord::Entry(EntryTypes::HolonDescriptor(holon)),
    })
    .unwrap();
    assert_eq!(verdict, ValidationOutcome::Valid);
}

#[test]
fn validation_checks_link_endpoints() {
    let base = new_holon_descriptor("B".into(), "d".into(), "l".into(), false).unwrap();
    let target = new_holon_descriptor("T".into(), "d".into(), "l".into(), false).unwrap();
    let verdict = validate(DescriptorOp::RegisterCreateLink {
        link_type: LinkTypes::HolonDescriptorUpdates,
        base_entry: Some(EntryTypes::HolonDescriptor(base)),
        target_entry: Some(EntryTypes::HolonDescriptor(target)),
    })
    .unwrap();
    assert_eq!(verdict, ValidationOutcome::Valid);

    let target = new_holon_descriptor("T".into(), "d".into(), "l".into(), false).unwrap();
    let err = validate(DescriptorOp::RegisterCreateLink {
        link_type: LinkTypes::HolonDescriptorUpdates,
        base_entry: None,
        target_entry: Some(EntryTypes::HolonDescriptor(target)),
    })
    .unwrap_err();
    assert_eq!(err.message(), "expected linked descriptor entry".to_string());

    // An index link checks only its target.
    let target = new_boolean_descriptor("T".into(), "d".into(), "l".into(), false, false).unwrap();
    let verdict = validate(DescriptorOp::RegisterCreateLink {
        link_type: LinkTypes::AllPropertyDescriptors,
        base_entry: None,
        target_entry: Some(EntryTypes::PropertyDescriptor(target)),
    })
    .unwrap();
    assert_eq!(verdict, ValidationOutcome::Valid);

    // A holon where a property descriptor is needed is refused.
    let target = new_holon_descriptor("T".into(), "d".into(), "l".into(), false).unwrap();
    assert!(validate(DescriptorOp::RegisterCreateLink {
        link_type: LinkTypes::AllValueTypes,
        base_entry: None,
        target_entry: Some(EntryTypes::HolonDescriptor(target)),
    })
    .is_err());
}

#[test]
fn stub_dataset_has_the_expected_shape() {
    let data = create_dummy_data().unwrap();
    assert_eq!(data.len(), 3);
    assert_eq!(data[0].header.name, "Holon_Type_with_no_properties".to_string());
    assert!(data[0].property_map.properties.is_empty());
    assert_eq!(data[1].header.name, "Holon_Type_with_single_boolean_property".to_string());
    assert_eq!(data[1].property_map.properties.len(), 1);
    assert_eq!(data[1].property_map.properties[0].name, "a_boolean_property".to_string());
    assert_eq!(data[2].header.name, "Holon_Type_with_scalar_properties".to_string());
    assert_eq!(data[2].property_map.properties.len(), 10);
    for entry in &data[2].property_map.properties {
        match (&entry.name[..], &entry.usage.descriptor.details) {
            ("a_boolean_property", PropertyDescriptorDetails::Boolean(b)) => assert!(!b.is_fuzzy),
            ("a_string_property", PropertyDescriptorDetails::String(s)) => {
                assert_eq!((s.min_length, s.max_length), (0, 2048));
            },
            ("an_I8_property", PropertyDescriptorDetails::Integer(i)) => {
                assert_eq!((i.format, i.min_value, i.max_value), (IntegerFormat::I8, -127, 127));
            },
            ("an_I16_property", PropertyDescriptorDetails::Integer(i)) => {
                assert_eq!((i.format, i.min_value, i.max_value), (IntegerFormat::I16, -32767, 32767));
            },
            ("an_I32_property", PropertyDescriptorDetails::Integer(i)) => {
                assert_eq!(
                    (i.format, i.min_value, i.max_value),
                    (IntegerFormat::I32, -2147483648, 2147483648)
                );
            },
            ("an_I64_property", PropertyDescriptorDetails::Integer(i)) => {
                assert_eq!(
                    (i.format, i.min_value, i.max_value),
                    (IntegerFormat::I64, i64::MIN, i64::MAX)
                );
            },
            ("a_U8_property", PropertyDescriptorDetails::Integer(i)) => {
                assert_eq!((i.format, i.min_value, i.max_value), (IntegerFormat::U8, -127, 127));
            },
            ("a_U16_property", PropertyDescriptorDetails::Integer(i)) => {
                assert_eq!((i.format, i.min_value, i.max_value), (IntegerFormat::U16, -32767, 32767));
            },
            ("a_U32_property", PropertyDescriptorDetails::Integer(i)) => {
                assert_eq!(
                    (i.format, i.min_value, i.max_value),
                    (IntegerFormat::U32, -2147483648, 2147483648)
                );
            },
            ("a_U64_property", PropertyDescriptorDetails::Integer(i)) => {
                assert_eq!(
                    (i.format, i.min_value, i.max_value),
                    (IntegerFormat::U64, i64::MIN, i64::MAX)
                );
            },
            other => panic!("unexpected dataset member: {:?}", other.0),
        }
    }
}

#[test]
fn derive_type_name_joins_its_parts() {
    assert_eq!(derive_type_name("", BaseType::Holon, ""), "Holon_Type".to_string());
    assert_eq!(
        derive_type_name("", BaseType::Holon, "with_no_properties"),
        "Holon_Type_with_no_properties".to_string()
    );
    assert_eq!(derive_type_name("simple", BaseType::Boolean, ""), "simple_Boolean_Type".to_string());
    assert_eq!(
        derive_type_name("simple", BaseType::Integer, "bounded"),
        "simple_Integer_Type_bounded".to_string()
    );
}
