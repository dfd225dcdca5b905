//! Construction and update behaviour of the descriptor mutators.

use descriptors::error::DescriptorsError;
use descriptors::mutators::{
    new_boolean_descriptor, new_composite_descriptor, new_holon_descriptor,
    new_integer_descriptor, new_string_descriptor, new_type_header, update_boolean_descriptor,
    update_integer_descriptor, update_string_descriptor,
};
use descriptors::property_descriptor::{
    IntegerFormat, PropertyDescriptorDetails, PropertyDescriptorMap,
};
use descriptors::type_header::BaseType;

#[test]
fn empty_name_is_rejected() {
    let err = new_type_header(
        "".to_string(),
        BaseType::String,
        "example_description".to_string(),
        "example label".to_string(),
        true,
    )
    .expect_err("empty field, should throw error");
    assert_eq!(err, DescriptorsError::EmptyField("type_name".to_string()));
    assert_eq!(err.message(), "type_name field is missing".to_string());
}

#[test]
fn header_round_trips_its_fields() {
    let header = new_type_header(
        "example_name".to_string(),
        BaseType::String,
        "example_description".to_string(),
        "example label".to_string(),
        true,
    )
    .unwrap();
    assert_eq!(header.name, "example_name".to_string());
    assert_eq!(header.base_type, BaseType::String);
    assert!(header.is_dependent);
    assert_eq!(header.description, "example_description".to_string());
    assert_eq!(header.version.major, 0);
    assert_eq!(header.version.minor, 0);
    assert_eq!(header.version.patch, 1);
}

#[test]
fn every_mutator_rejects_an_empty_name() {
    assert!(new_holon_descriptor("".into(), "d".into(), "l".into(), false).is_err());
    assert!(new_boolean_descriptor("".into(), "d".into(), "l".into(), false, true).is_err());
    assert!(new_string_descriptor("".into(), "d".into(), "l".into(), false, 0, 10).is_err());
    assert!(
        new_integer_descriptor("".into(), "d".into(), "l".into(), false, IntegerFormat::I64, 0, 1)
            .is_err()
    );
    let map = PropertyDescriptorMap { properties: Vec::new() };
    assert!(new_composite_descriptor("".into(), "d".into(), "l".into(), false, map).is_err());
}

#[test]
fn scalar_mutators_store_their_fields() {
    let b = new_boolean_descriptor("b".into(), "db".into(), "lb".into(), false, true).unwrap();
    match &b.details {
        PropertyDescriptorDetails::Boolean(inner) => assert!(inner.is_fuzzy),
        _ => panic!("expected boolean details"),
    }
    assert_eq!(b.header.base_type, BaseType::Boolean);

    let s = new_string_descriptor("s".into(), "ds".into(), "ls".into(), false, 3, 17).unwrap();
    match &s.details {
        PropertyDescriptorDetails::String(inner) => {
            assert_eq!(inner.min_length, 3);
            assert_eq!(inner.max_length, 17);
        },
        _ => panic!("expected string details"),
    }
    assert_eq!(s.header.base_type, BaseType::String);

    let i = new_integer_descriptor(
        "i".into(),
        "di".into(),
        "li".into(),
        true,
        IntegerFormat::I32,
        -5,
        5,
    )
    .unwrap();
    match &i.details {
        PropertyDescriptorDetails::Integer(inner) => {
            assert_eq!(inner.format, IntegerFormat::I32);
            assert_eq!(inner.min_value, -5);
            assert_eq!(inner.max_value, 5);
        },
        _ => panic!("expected integer details"),
    }
    assert_eq!(i.header.base_type, BaseType::Integer);
}

#[test]
fn update_with_no_overrides_preserves_the_original() {
    let original =
        new_string_descriptor("s".into(), "ds".into(), "ls".into(), false, 3, 17).unwrap();
    let updated = update_string_descriptor(&original, None, None, None, None).unwrap();
    assert_eq!(updated, original);

    let original =
        new_boolean_descriptor("b".into(), "db".into(), "lb".into(), false, true).unwrap();
    let updated = update_boolean_descriptor(&original, None, None, None).unwrap();
    assert_eq!(updated, original);

    let original = new_integer_descriptor(
        "i".into(),
        "di".into(),
        "li".into(),
        true,
        IntegerFormat::U16,
        0,
        9,
    )
    .unwrap();
    let updated = update_integer_descriptor(&original, None, None, None, None).unwrap();
    assert_eq!(updated, original);
}

#[test]
fn update_overrides_replace_only_what_was_given() {
    let original =
        new_string_descriptor("s".into(), "ds".into(), "ls".into(), false, 3, 17).unwrap();
    let updated = update_string_descriptor(
        &original,
        Some("new description".to_string()),
        None,
        None,
        Some(99),
    )
    .unwrap();
    assert_eq!(updated.header.name, "s".to_string());
    assert_eq!(updated.header.description, "new description".to_string());
    assert_eq!(updated.header.label, "ls".to_string());
    match &updated.details {
        PropertyDescriptorDetails::String(inner) => {
            assert_eq!(inner.min_length, 3);
            assert_eq!(inner.max_length, 99);
        },
        _ => panic!("expected string details"),
    }
}

#[test]
fn update_rejects_a_mismatched_variant() {
    let original =
        new_string_descriptor("s".into(), "ds".into(), "ls".into(), false, 3, 17).unwrap();
    let err = update_boolean_descriptor(&original, None, None, Some(true))
        .expect_err("variant mismatch must fail");
    assert_eq!(err, DescriptorsError::UnexpectedVariant("BooleanDescriptor".to_string()));
    assert_eq!(err.message(), "expected BooleanDescriptor".to_string());

    let boolean =
        new_boolean_descriptor("b".into(), "db".into(), "lb".into(), false, true).unwrap();
    assert!(update_string_descriptor(&boolean, None, None, None, None).is_err());
    assert!(update_integer_descriptor(&boolean, None, None, None, None).is_err());
}
