//! The error values that descriptor construction, update and reference
//! resolution can return.  Storage-layer failures are not represented
//! here: they belong to the external store and are propagated by the
//! caller unchanged.

use vstd::prelude::*;
use vstd::string::StringExecFns;

verus! {

/// Why a descriptor operation failed.
#[derive(Clone, Debug, PartialEq, Eq)]
pub enum DescriptorsError {
    /// A required string field (named by the payload) was empty.
    EmptyField(String),
    /// An update or accessor was handed a descriptor whose details variant
    /// (named by the payload) is not the one it works on.
    UnexpectedVariant(String),
    /// A shared-type reference names a type (the payload) that is absent
    /// from the table of persisted shared types.
    UnresolvedReference(String),
    /// Bytes handed to deserialization do not hold a descriptor in the
    /// wire format; the payload names the element that failed.
    InvalidEncoding(String),
}

impl DescriptorsError {
    /// What this error says, as text.
    pub open spec fn message_model(self) -> Seq<char> {
        match self {
            DescriptorsError::EmptyField(f) => f@ + " field is missing"@,
            DescriptorsError::UnexpectedVariant(v) => "expected "@ + v@,
            DescriptorsError::UnresolvedReference(n) => {
                "couldn't find referenced type in the list of shared types provided: "@ + n@
            },
            DescriptorsError::InvalidEncoding(w) => "invalid encoding: "@ + w@,
        }
    }

    /// Renders the error as one line of text.
    pub fn message(&self) -> (r: String)
        ensures
            r@ == self.message_model(),
    {
        match self {
            DescriptorsError::EmptyField(f) => f.clone().concat(" field is missing"),
            DescriptorsError::UnexpectedVariant(v) => {
                String::from_str("expected ").concat(v.as_str())
            },
            DescriptorsError::UnresolvedReference(n) => {
                String::from_str("couldn't find referenced type in the list of shared types provided: ")
                    .concat(n.as_str())
            },
            DescriptorsError::InvalidEncoding(w) => {
                String::from_str("invalid encoding: ").concat(w.as_str())
            },
        }
    }
}

} // verus!
