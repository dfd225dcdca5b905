//! Wire-format round trips: serializing a descriptor and deserializing
//! the bytes must yield the descriptor that was serialized.

use descriptors::codec::{deserialize_property_descriptor, serialize_property_descriptor};
use descriptors::error::DescriptorsError;
use descriptors::helpers::eq_property_descriptor;
use descriptors::mutators::{
    new_boolean_descriptor, new_composite_descriptor, new_integer_descriptor,
    new_string_descriptor,
};
use descriptors::property_descriptor::{
    DescriptorSharing, IntegerFormat, PropertyDescriptorMap, PropertyDescriptorUsage,
};
use descriptors::property_map_builder::upsert_property_descriptor;

#[test]
fn boolean_descriptor_round_trips() {
    let d = new_boolean_descriptor("b".into(), "db".into(), "lb".into(), false, true).unwrap();
    let bytes = serialize_property_descriptor(&d);
    let back = deserialize_property_descriptor(&bytes).unwrap();
    assert_eq!(back, d);
}

#[test]
fn string_descriptor_round_trips() {
    let d = new_string_descriptor("s".into(), "ds".into(), "ls".into(), true, 0, 2048).unwrap();
    let bytes = serialize_property_descriptor(&d);
    let back = deserialize_property_descriptor(&bytes).unwrap();
    assert_eq!(back, d);
}

#[test]
fn integer_descriptor_round_trips() {
    let d = new_integer_descriptor(
        "i".into(),
        "di".into(),
        "li".into(),
        false,
        IntegerFormat::I64,
        i64::MIN,
        i64::MAX,
    )
    .unwrap();
    let bytes = serialize_property_descriptor(&d);
    let back = deserialize_property_descriptor(&bytes).unwrap();
    assert_eq!(back, d);
}

#[test]
fn unicode_names_survive_the_round_trip() {
    let d = new_string_descriptor(
        "vérité_Δοκιμή_型".to_string(),
        "déscription ünïcode".to_string(),
        "ラベル".to_string(),
        false,
        1,
        2,
    )
    .unwrap();
    let bytes = serialize_property_descriptor(&d);
    let back = deserialize_property_descriptor(&bytes).unwrap();
    assert_eq!(back.header.name, "vérité_Δοκιμή_型".to_string());
    assert_eq!(back, d);
}

#[test]
fn composite_descriptor_round_trips() {
    let inner_bool =
        new_boolean_descriptor("ib".into(), "d".into(), "l".into(), false, false).unwrap();
    let inner_str = new_string_descriptor("is".into(), "d".into(), "l".into(), false, 2, 9)
        .unwrap();
    let mut map = PropertyDescriptorMap { properties: Vec::new() };
    upsert_property_descriptor(
        &mut map,
        "flag".to_string(),
        PropertyDescriptorUsage {
            description: "du".to_string(),
            descriptor: inner_bool,
            label: "lu".to_string(),
            sharing: DescriptorSharing::Dedicated,
        },
    );
    upsert_property_descriptor(
        &mut map,
        "text".to_string(),
        PropertyDescriptorUsage {
            description: "du2".to_string(),
            descriptor: inner_str,
            label: "lu2".to_string(),
            sharing: DescriptorSharing::Dedicated,
        },
    );
    let d = new_composite_descriptor("c".into(), "dc".into(), "lc".into(), false, map).unwrap();
    let bytes = serialize_property_descriptor(&d);
    let back = deserialize_property_descriptor(&bytes).unwrap();
    assert!(eq_property_descriptor(&back, &d));
    assert_eq!(back, d);
}

#[test]
fn truncated_bytes_are_rejected() {
    let d = new_boolean_descriptor("b".into(), "db".into(), "lb".into(), false, true).unwrap();
    let mut bytes = serialize_property_descriptor(&d);
    bytes.pop();
    assert!(deserialize_property_descriptor(&bytes).is_err());
}

#[test]
fn trailing_bytes_are_rejected() {
    let d = new_boolean_descriptor("b".into(), "db".into(), "lb".into(), false, true).unwrap();
    let mut bytes = serialize_property_descriptor(&d);
    bytes.push(0);
    let err = deserialize_property_descriptor(&bytes).unwrap_err();
    assert_eq!(err, DescriptorsError::InvalidEncoding("trailing bytes".to_string()));
    assert_eq!(err.message(), "invalid encoding: trailing bytes".to_string());
}

#[test]
fn garbage_bytes_are_rejected() {
    let bytes = vec![255u8; 16];
    assert!(deserialize_property_descriptor(&bytes).is_err());
}
