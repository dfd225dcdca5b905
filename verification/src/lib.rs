//! A descriptor / type-metadata library for a distributed "holon" data model.
//!
//! Applications define structural type descriptions (Holon types and
//! Boolean / String / Integer / Composite property types) as first-class
//! values.  This crate holds the descriptor type model, the pure
//! construction and update functions, the property-map builder, the
//! shared-type reference resolution protocol, the validation rules, the
//! latest-revision selection used by the update chain, and a fully
//! specified byte codec that stands in for the host's serialization so
//! the round-trip obligation on stored descriptors can be proved.  Persistence itself (a content-addressed
//! store) is an external collaborator: callers hand descriptor values to it
//! and feed what it returns back into the functions here.

pub mod codec;
pub mod error;
pub mod helpers;
pub mod holon_descriptor;
pub mod property_descriptor;
pub mod mutators;
pub mod property_map_builder;
pub mod queries;
pub mod sharing;
pub mod stub_data_creator;
pub mod validation;
pub mod type_header;
