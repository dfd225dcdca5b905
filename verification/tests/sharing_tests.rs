//! The two-phase shared-type resolution protocol, run against a small
//! in-memory stand-in for the content-addressed store.

use std::collections::BTreeMap;

use descriptors::error::DescriptorsError;
use descriptors::helpers::{eq_property_descriptor, get_holon_reference_from_sharing};
use descriptors::holon_descriptor::{HolonId, HolonReference};
use descriptors::mutators::{new_boolean_descriptor, new_composite_descriptor, new_string_descriptor};
use descriptors::property_descriptor::{
    DescriptorSharing, PropertyDescriptor, PropertyDescriptorDetails, PropertyDescriptorMap,
    PropertyDescriptorUsage,
};
use descriptors::property_map_builder::upsert_property_descriptor;
use descriptors::sharing::{resolve_shared_references, TypeNameMap};

fn shared_usage(local_copy: PropertyDescriptor, target_name: &str) -> PropertyDescriptorUsage {
    PropertyDescriptorUsage {
        description: "references a shared type".to_string(),
        descriptor: local_copy,
        label: "shared".to_string(),
        sharing: DescriptorSharing::Shared(HolonReference {
            id: None,
            name: Some(target_name.to_string()),
        }),
    }
}

fn referencing_composite(
    shared_types: &[(&str, &PropertyDescriptor)],
) -> PropertyDescriptor {
    let mut map = PropertyDescriptorMap { properties: Vec::new() };
    for (i, (name, descriptor)) in shared_types.iter().enumerate() {
        upsert_property_descriptor(
            &mut map,
            format!("property_{i}"),
            shared_usage((*descriptor).clone(), name),
        );
    }
    new_composite_descriptor(
        "referencing_composite".to_string(),
        "a composite whose properties reference shared types".to_string(),
        "rc".to_string(),
        false,
        map,
    )
    .unwrap()
}

#[test]
fn shared_references_resolve_to_the_persisted_definitions() {
    let s1 = new_string_descriptor("shared_string".into(), "d1".into(), "l1".into(), true, 0, 64)
        .unwrap();
    let s2 =
        new_boolean_descriptor("shared_bool".into(), "d2".into(), "l2".into(), true, false)
            .unwrap();

    // Phase one: persist each shared type, record name -> identifier.
    let mut store: BTreeMap<Vec<u8>, PropertyDescriptor> = BTreeMap::new();
    let mut table = TypeNameMap::new();
    for (key, descriptor) in [(vec![1u8], &s1), (vec![2u8], &s2)] {
        store.insert(key.clone(), descriptor.clone());
        let fetched = store.get(&key).unwrap();
        assert!(eq_property_descriptor(fetched, descriptor));
        table.register(fetched.header.name.clone(), HolonId { bytes: key });
    }

    // Phase two: resolve the referencing composite.
    let composite = referencing_composite(&[("shared_string", &s1), ("shared_bool", &s2)]);
    let resolved = resolve_shared_references(composite, &table).unwrap();

    // Phase three: every resolved reference fetches the original shared
    // definition.
    let map = match &resolved.details {
        PropertyDescriptorDetails::Composite(c) => &c.property_map,
        _ => panic!("expected a composite"),
    };
    assert_eq!(map.properties.len(), 2);
    for entry in &map.properties {
        let reference = get_holon_reference_from_sharing(&entry.usage.sharing).unwrap();
        let id = reference.id.expect("resolution must fill in the identifier");
        let name = reference.name.expect("resolution keeps the name for audit");
        let fetched = store.get(&id.bytes).expect("identifier must be in the store");
        assert_eq!(fetched.header.name, name);
        assert!(eq_property_descriptor(fetched, &entry.usage.descriptor));
    }
}

#[test]
fn an_unresolved_reference_aborts_the_resolution() {
    let s1 = new_string_descriptor("shared_string".into(), "d1".into(), "l1".into(), true, 0, 64)
        .unwrap();
    let mut table = TypeNameMap::new();
    table.register("shared_string".to_string(), HolonId { bytes: vec![1] });

    let composite =
        referencing_composite(&[("shared_string", &s1), ("never_declared", &s1)]);
    let err = resolve_shared_references(composite, &table).unwrap_err();
    assert_eq!(err, DescriptorsError::UnresolvedReference("never_declared".to_string()));
    assert_eq!(
        err.message(),
        "couldn't find referenced type in the list of shared types provided: never_declared"
            .to_string()
    );
}

#[test]
fn resolving_a_non_composite_is_a_variant_error() {
    let s1 = new_string_descriptor("s".into(), "d".into(), "l".into(), true, 0, 64).unwrap();
    let table = TypeNameMap::new();
    let err = resolve_shared_references(s1, &table).unwrap_err();
    assert_eq!(err, DescriptorsError::UnexpectedVariant("CompositeDescriptor".to_string()));
}

#[test]
fn dedicated_and_nameless_usages_pass_through_unchanged() {
    let s1 = new_string_descriptor("s".into(), "d".into(), "l".into(), true, 0, 64).unwrap();
    let mut map = PropertyDescriptorMap { properties: Vec::new() };
    upsert_property_descriptor(
        &mut map,
        "dedicated".to_string(),
        PropertyDescriptorUsage {
            description: "inline".to_string(),
            descriptor: s1.clone(),
            label: "i".to_string(),
            sharing: DescriptorSharing::Dedicated,
        },
    );
    upsert_property_descriptor(
        &mut map,
        "by_id".to_string(),
        PropertyDescriptorUsage {
            description: "already resolved".to_string(),
            descriptor: s1.clone(),
            label: "r".to_string(),
            sharing: DescriptorSharing::Shared(HolonReference {
                id: Some(HolonId { bytes: vec![9] }),
                name: None,
            }),
        },
    );
    let composite =
        new_composite_descriptor("c".into(), "d".into(), "l".into(), false, map).unwrap();
    let table = TypeNameMap::new();
    let resolved = resolve_shared_references(composite, &table).unwrap();
    let out = match &resolved.details {
        PropertyDescriptorDetails::Composite(c) => &c.property_map,
        _ => panic!("expected a composite"),
    };
    let by_name = |name: &str| {
        out.properties
            .iter()
            .find(|e| e.name == name)
            .expect("binding must be present")
    };
    assert_eq!(by_name("dedicated").usage.sharing, DescriptorSharing::Dedicated);
    assert_eq!(
        by_name("by_id").usage.sharing,
        DescriptorSharing::Shared(HolonReference { id: Some(HolonId { bytes: vec![9] }), name: None })
    );
}
