//! The common metadata attached to every descriptor: its type name, the
//! tag of the base type it describes, a description, a display label, a
//! semantic version and a dependency flag.

use vstd::prelude::*;

verus! {

/// The closed set of base kinds a descriptor can describe.
#[derive(Clone, Copy, Debug, PartialEq, Eq, Structural)]
pub enum BaseType {
    Holon,
    Collection,
    Composite,
    Relationship,
    Boolean,
    Integer,
    String,
    Enum,
}

/// A major / minor / patch version triple.
#[derive(Clone, Copy, Debug, PartialEq, Eq, Structural)]
pub struct SemanticVersion {
    pub major: u8,
    pub minor: u8,
    pub patch: u8,
}

impl Default for SemanticVersion {
    /// The version every freshly built descriptor starts at.
    fn default() -> (r: Self)
        ensures
            r.major == 0 && r.minor == 0 && r.patch == 1,
    {
        SemanticVersion { major: 0, minor: 0, patch: 1 }
    }
}

/// Common metadata shared by every descriptor kind.
///
/// Invariant (see [`TypeHeader::wf`]): `name` is non-empty, and the
/// `base_type` tag agrees with the descriptor variant that embeds this
/// header.
#[derive(Clone, Debug, PartialEq, Eq)]
pub struct TypeHeader {
    pub name: String,
    pub base_type: BaseType,
    pub description: String,
    pub label: String,
    pub version: SemanticVersion,
    pub is_dependent: bool,
}

/// The mathematical value of a [`TypeHeader`]: the same fields with every
/// string replaced by its character sequence.
#[verifier::ext_equal]
pub struct HeaderModel {
    pub name: Seq<char>,
    pub base_type: BaseType,
    pub description: Seq<char>,
    pub label: Seq<char>,
    pub version: SemanticVersion,
    pub is_dependent: bool,
}

impl DeepView for TypeHeader {
    type V = HeaderModel;

    open spec fn deep_view(&self) -> HeaderModel {
        HeaderModel {
            name: self.name@,
            base_type: self.base_type,
            description: self.description@,
            label: self.label@,
            version: self.version,
            is_dependent: self.is_dependent,
        }
    }
}

impl TypeHeader {
    /// A header is well-formed when its type name is non-empty.
    pub open spec fn wf(self) -> bool {
        self.name@.len() > 0
    }

    /// Builds a header from its parts.
    pub fn new(
        name: String,
        base_type: BaseType,
        description: String,
        label: String,
        version: SemanticVersion,
        is_dependent: bool,
    ) -> (r: TypeHeader)
        ensures
            r.deep_view() == (HeaderModel {
                name: name@,
                base_type,
                description: description@,
                label: label@,
                version,
                is_dependent,
            }),
    {
        TypeHeader { name, base_type, description, label, version, is_dependent }
    }
}

} // verus!
