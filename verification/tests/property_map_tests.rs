//! The property-map builder's upsert and remove laws, and the name
//! table the resolution protocol builds.

use descriptors::holon_descriptor::HolonId;
use descriptors::mutators::{new_boolean_descriptor, new_string_descriptor};
use descriptors::property_descriptor::{
    DescriptorSharing, PropertyDescriptorMap, PropertyDescriptorUsage,
};
use descriptors::property_map_builder::{remove_property_descriptor, upsert_property_descriptor};
use descriptors::sharing::TypeNameMap;

fn usage_of(name: &str, fuzzy: bool) -> PropertyDescriptorUsage {
    let d = new_boolean_descriptor(name.to_string(), "d".into(), "l".into(), false, fuzzy)
        .unwrap();
    PropertyDescriptorUsage {
        description: "u".to_string(),
        descriptor: d,
        label: "ul".to_string(),
        sharing: DescriptorSharing::Dedicated,
    }
}

#[test]
fn upsert_inserts_and_remove_removes() {
    let mut map = PropertyDescriptorMap { properties: Vec::new() };
    upsert_property_descriptor(&mut map, "k".to_string(), usage_of("t", false));
    assert_eq!(map.properties.len(), 1);
    assert_eq!(map.properties[0].name, "k".to_string());
    remove_property_descriptor(&mut map, "k".to_string());
    assert_eq!(map.properties.len(), 0);
}

#[test]
fn upsert_last_write_wins() {
    let mut map = PropertyDescriptorMap { properties: Vec::new() };
    upsert_property_descriptor(&mut map, "k".to_string(), usage_of("t1", false));
    upsert_property_descriptor(&mut map, "k".to_string(), usage_of("t2", true));
    assert_eq!(map.properties.len(), 1);
    assert_eq!(map.properties[0].usage, usage_of("t2", true));
}

#[test]
fn removing_an_absent_name_is_a_no_op() {
    let mut map = PropertyDescriptorMap { properties: Vec::new() };
    upsert_property_descriptor(&mut map, "k".to_string(), usage_of("t", false));
    remove_property_descriptor(&mut map, "not_there".to_string());
    assert_eq!(map.properties.len(), 1);
    assert_eq!(map.properties[0].name, "k".to_string());
}

#[test]
fn upsert_keeps_other_bindings() {
    let mut map = PropertyDescriptorMap { properties: Vec::new() };
    upsert_property_descriptor(&mut map, "a".to_string(), usage_of("ta", false));
    upsert_property_descriptor(&mut map, "b".to_string(), usage_of("tb", true));
    upsert_property_descriptor(&mut map, "a".to_string(), usage_of("ta2", true));
    assert_eq!(map.properties.len(), 2);
    assert_eq!(map.properties[0].name, "a".to_string());
    assert_eq!(map.properties[0].usage, usage_of("ta2", true));
    assert_eq!(map.properties[1].name, "b".to_string());
}

#[test]
fn name_table_registers_and_looks_up() {
    let mut table = TypeNameMap::new();
    table.register("S1".to_string(), HolonId { bytes: vec![1, 2, 3] });
    table.register("S2".to_string(), HolonId { bytes: vec![4] });
    assert_eq!(table.lookup(&"S1".to_string()), Some(HolonId { bytes: vec![1, 2, 3] }));
    assert_eq!(table.lookup(&"S2".to_string()), Some(HolonId { bytes: vec![4] }));
    assert_eq!(table.lookup(&"S3".to_string()), None);
}

#[test]
fn name_table_replaces_on_repeated_name() {
    let mut table = TypeNameMap::new();
    table.register("S1".to_string(), HolonId { bytes: vec![1] });
    table.register("S1".to_string(), HolonId { bytes: vec![2] });
    assert_eq!(table.lookup(&"S1".to_string()), Some(HolonId { bytes: vec![2] }));
    assert_eq!(table.bindings.len(), 1);
}

#[test]
fn string_constraints_live_in_the_usage() {
    let d = new_string_descriptor("s".into(), "d".into(), "l".into(), false, 0, 2048).unwrap();
    let mut map = PropertyDescriptorMap { properties: Vec::new() };
    upsert_property_descriptor(
        &mut map,
        "a_string_property".to_string(),
        PropertyDescriptorUsage {
            description: "string usage".to_string(),
            descriptor: d.clone(),
            label: "sl".to_string(),
            sharing: DescriptorSharing::Dedicated,
        },
    );
    assert_eq!(map.properties[0].usage.descriptor, d);
}

#[test]
fn bindings_are_kept_in_name_order() {
    let mut map = PropertyDescriptorMap { properties: Vec::new() };
    upsert_property_descriptor(&mut map, "b".to_string(), usage_of("tb", false));
    upsert_property_descriptor(&mut map, "a".to_string(), usage_of("ta", false));
    upsert_property_descriptor(&mut map, "c".to_string(), usage_of("tc", false));
    let names: Vec<&str> = map.properties.iter().map(|e| e.name.as_str()).collect();
    assert_eq!(names, vec!["a", "b", "c"]);
}
