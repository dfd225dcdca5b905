//! The integrity rules for descriptor records and their index links.
//! The host runtime hands every operation to a validation callback; the
//! decisions live here, on plain descriptor values — the surrounding
//! callback fetches whatever records a decision needs and builds a
//! [`DescriptorOp`] from them.
//!
//! The rules: storing descriptor entries is always acceptable; an update
//! or delete must trace back to a created or updated entry of the same
//! kind, and type headers can be neither updated nor deleted; an
//! update-chain or index link may be created only between descriptor
//! entries of its kind, and no link may ever be deleted.

use vstd::prelude::*;
use vstd::string::StringExecFns;

use crate::error::DescriptorsError;
use crate::holon_descriptor::HolonDescriptor;
use crate::property_descriptor::PropertyDescriptor;
use crate::type_header::TypeHeader;

verus! {

/// The descriptor entry kinds the store holds.
#[derive(Debug, PartialEq, Eq)]
pub enum EntryTypes {
    TypeHeader(TypeHeader),
    HolonDescriptor(HolonDescriptor),
    PropertyDescriptor(PropertyDescriptor),
}

impl EntryTypes {
    /// Whether two entries are of the same kind.
    pub open spec fn same_kind(self, other: EntryTypes) -> bool {
        match (self, other) {
            (EntryTypes::TypeHeader(_), EntryTypes::TypeHeader(_)) => true,
            (EntryTypes::HolonDescriptor(_), EntryTypes::HolonDescriptor(_)) => true,
            (EntryTypes::PropertyDescriptor(_), EntryTypes::PropertyDescriptor(_)) => true,
            _ => false,
        }
    }
}

/// The link kinds the store holds: one update-chain link and one
/// all-of-a-kind index link per descriptor kind.
#[derive(Clone, Copy, Debug, PartialEq, Eq, Structural)]
pub enum LinkTypes {
    HolonDescriptorUpdates,
    AllHolonTypes,
    PropertyDescriptorUpdates,
    AllPropertyDescriptors,
    ValueDescriptorUpdates,
    AllValueTypes,
}

/// What a validation decides.
#[derive(Debug, PartialEq, Eq)]
pub enum ValidationOutcome {
    Valid,
    Invalid(String),
}

/// The mathematical value of a [`ValidationOutcome`].
#[verifier::ext_equal]
pub enum OutcomeModel {
    Valid,
    Invalid(Seq<char>),
}

impl DeepView for ValidationOutcome {
    type V = OutcomeModel;

    open spec fn deep_view(&self) -> OutcomeModel {
        match self {
            ValidationOutcome::Valid => OutcomeModel::Valid,
            ValidationOutcome::Invalid(m) => OutcomeModel::Invalid(m@),
        }
    }
}

/// What the store could produce for the original an update or delete
/// points back at, fetched by the caller before asking for a decision.
pub enum OriginalRecord {
    /// The original action created or updated a decodable app entry.
    Entry(EntryTypes),
    /// The original action holds an app entry of no kind this zome
    /// defines.
    UndecodableEntry,
    /// The original action's public entry is not in the record.
    MissingPublicEntry,
    /// The original action's entry is private and not carried.
    MissingPrivateEntry,
    /// The original action carries no app entry at all.
    NotAppEntry,
    /// The original action is neither a create nor an update.
    NotEntryCreation,
}

/// One operation handed to validation, with everything the decision
/// reads already fetched.
pub enum DescriptorOp {
    StoreEntry { entry: EntryTypes },
    RegisterUpdate { new_entry: EntryTypes, original: OriginalRecord },
    RegisterDelete { original: OriginalRecord },
    RegisterCreateLink {
        link_type: LinkTypes,
        base_entry: Option<EntryTypes>,
        target_entry: Option<EntryTypes>,
    },
    RegisterDeleteLink { link_type: LinkTypes },
}

/// The message refusing deletion of a link of the given kind.
pub open spec fn link_delete_message(link_type: LinkTypes) -> Seq<char> {
    match link_type {
        LinkTypes::HolonDescriptorUpdates => "HolonDescriptorUpdates links cannot be deleted"@,
        LinkTypes::AllHolonTypes => "AllHolonTypes links cannot be deleted"@,
        LinkTypes::PropertyDescriptorUpdates => "PropertyDescriptorUpdates links cannot be deleted"@,
        LinkTypes::AllPropertyDescriptors => "AllPropertyDescriptors links cannot be deleted"@,
        LinkTypes::ValueDescriptorUpdates => "ValueDescriptorUpdates links cannot be deleted"@,
        LinkTypes::AllValueTypes => "AllValueTypes links cannot be deleted"@,
    }
}

/// Whether a link kind chains revisions (checking its base) rather than
/// indexing all entries of a kind (leaving its base, a path hash,
/// unchecked).
pub open spec fn link_checks_base(link_type: LinkTypes) -> bool {
    match link_type {
        LinkTypes::HolonDescriptorUpdates => true,
        LinkTypes::PropertyDescriptorUpdates => true,
        LinkTypes::ValueDescriptorUpdates => true,
        _ => false,
    }
}

/// Whether a link kind links holon descriptors (else property
/// descriptors).
pub open spec fn link_wants_holon(link_type: LinkTypes) -> bool {
    match link_type {
        LinkTypes::HolonDescriptorUpdates => true,
        LinkTypes::AllHolonTypes => true,
        _ => false,
    }
}

/// Whether a fetched endpoint holds the descriptor kind a link needs.
pub open spec fn endpoint_holds(entry: Option<EntryTypes>, wants_holon: bool) -> bool {
    match entry {
        Some(EntryTypes::HolonDescriptor(_)) => wants_holon,
        Some(EntryTypes::PropertyDescriptor(_)) => !wants_holon,
        _ => false,
    }
}

/// Whether a new link's checked endpoints all hold entries of its kind.
pub open spec fn create_link_ok(
    link_type: LinkTypes,
    base_entry: Option<EntryTypes>,
    target_entry: Option<EntryTypes>,
) -> bool {
    &&& link_checks_base(link_type) ==> endpoint_holds(base_entry, link_wants_holon(link_type))
    &&& endpoint_holds(target_entry, link_wants_holon(link_type))
}

/// The verdict on an update, given the fetched original.
pub open spec fn update_verdict(new_entry: EntryTypes, original: OriginalRecord) -> OutcomeModel {
    match original {
        OriginalRecord::Entry(orig) => if new_entry.same_kind(orig) {
            match new_entry {
                EntryTypes::TypeHeader(_) => OutcomeModel::Invalid(
                    "Type Headers cannot be updated"@,
                ),
                _ => OutcomeModel::Valid,
            }
        } else {
            OutcomeModel::Invalid("Original and updated entry types must be the same"@)
        },
        OriginalRecord::NotEntryCreation => OutcomeModel::Invalid(
            "Original action for an update must be a Create or Update action"@,
        ),
        _ => OutcomeModel::Invalid(
            "The updated entry type must be the same as the original entry type"@,
        ),
    }
}

/// The verdict on a delete, given the fetched original.
pub open spec fn delete_verdict(original: OriginalRecord) -> OutcomeModel {
    match original {
        OriginalRecord::Entry(orig) => match orig {
            EntryTypes::TypeHeader(_) => OutcomeModel::Invalid("Type Headers cannot be deleted"@),
            _ => OutcomeModel::Valid,
        },
        OriginalRecord::NotEntryCreation => OutcomeModel::Invalid(
            "Original action for a delete must be a Create or Update action"@,
        ),
        OriginalRecord::MissingPublicEntry => OutcomeModel::Invalid(
            "Original record for a delete of a public entry must contain an entry"@,
        ),
        OriginalRecord::UndecodableEntry => OutcomeModel::Invalid(
            "Original app entry must be one of the defined entry types for this zome"@,
        ),
        _ => OutcomeModel::Valid,
    }
}

/// The verdict the integrity rules assign to an operation, or nothing
/// where validation cannot proceed (a new link whose checked endpoint
/// does not hold a descriptor entry of its kind — the callback reports
/// that as its record error, as the host zome does).
pub open spec fn validate_model(op: DescriptorOp) -> Option<OutcomeModel> {
    match op {
        DescriptorOp::StoreEntry { .. } => Some(OutcomeModel::Valid),
        DescriptorOp::RegisterUpdate { new_entry, original } => Some(
            update_verdict(new_entry, original),
        ),
        DescriptorOp::RegisterDelete { original } => Some(delete_verdict(original)),
        DescriptorOp::RegisterCreateLink { link_type, base_entry, target_entry } => if create_link_ok(
            link_type,
            base_entry,
            target_entry,
        ) {
            Some(OutcomeModel::Valid)
        } else {
            None
        },
        DescriptorOp::RegisterDeleteLink { link_type } => Some(
            OutcomeModel::Invalid(link_delete_message(link_type)),
        ),
    }
}

/// Storing a new type header entry is always acceptable.
pub fn validate_create_type_header(_type_header: &TypeHeader) -> (r: ValidationOutcome)
    ensures
        r.deep_view() == OutcomeModel::Valid,
{
    ValidationOutcome::Valid
}

/// Type headers are immutable: no revision of one is acceptable.
pub fn validate_update_type_header(
    _type_header: &TypeHeader,
    _original_type_header: &TypeHeader,
) -> (r: ValidationOutcome)
    ensures
        r.deep_view() == OutcomeModel::Invalid("Type Headers cannot be updated"@),
{
    ValidationOutcome::Invalid(String::from_str("Type Headers cannot be updated"))
}

/// Type headers are permanent: deleting one is never acceptable.
pub fn validate_delete_type_header(_original_type_header: &TypeHeader) -> (r: ValidationOutcome)
    ensures
        r.deep_view() == OutcomeModel::Invalid("Type Headers cannot be deleted"@),
{
    ValidationOutcome::Invalid(String::from_str("Type Headers cannot be deleted"))
}

/// Storing a new holon descriptor entry is always acceptable.
pub fn validate_create_holon_descriptor(_holon_descriptor: &HolonDescriptor) -> (r:
    ValidationOutcome)
    ensures
        r.deep_view() == OutcomeModel::Valid,
{
    ValidationOutcome::Valid
}

/// A holon descriptor revision is acceptable in itself; the kind check
/// against the original happens in [`validate`].
pub fn validate_update_holon_descriptor(
    _holon_descriptor: &HolonDescriptor,
    _original_holon_descriptor: &HolonDescriptor,
) -> (r: ValidationOutcome)
    ensures
        r.deep_view() == OutcomeModel::Valid,
{
    ValidationOutcome::Valid
}

/// Deleting a holon descriptor is always acceptable.
pub fn validate_delete_holon_descriptor(_original_holon_descriptor: &HolonDescriptor) -> (r:
    ValidationOutcome)
    ensures
        r.deep_view() == OutcomeModel::Valid,
{
    ValidationOutcome::Valid
}

/// Storing a new property descriptor entry is always acceptable.
pub fn validate_create_property_descriptor(_property_descriptor: &PropertyDescriptor) -> (r:
    ValidationOutcome)
    ensures
        r.deep_view() == OutcomeModel::Valid,
{
    ValidationOutcome::Valid
}

/// A property descriptor revision is acceptable in itself.
pub fn validate_update_property_descriptor(
    _property_descriptor: &PropertyDescriptor,
    _original_property_descriptor: &PropertyDescriptor,
) -> (r: ValidationOutcome)
    ensures
        r.deep_view() == OutcomeModel::Valid,
{
    ValidationOutcome::Valid
}

/// Deleting a property descriptor is always acceptable.
pub fn validate_delete_property_descriptor(_original_property_descriptor: &PropertyDescriptor) -> (r:
    ValidationOutcome)
    ensures
        r.deep_view() == OutcomeModel::Valid,
{
    ValidationOutcome::Valid
}

/// Storing a new value descriptor entry is always acceptable (value
/// descriptor is the historical name of the property descriptor kind).
pub fn validate_create_value_descriptor(value_descriptor: &PropertyDescriptor) -> (r:
    ValidationOutcome)
    ensures
        r.deep_view() == OutcomeModel::Valid,
{
    validate_create_property_descriptor(value_descriptor)
}

/// A value descriptor revision is acceptable in itself.
pub fn validate_update_value_descriptor(
    value_descriptor: &PropertyDescriptor,
    original_value_descriptor: &PropertyDescriptor,
) -> (r: ValidationOutcome)
    ensures
        r.deep_view() == OutcomeModel::Valid,
{
    validate_update_property_descriptor(value_descriptor, original_value_descriptor)
}

/// Deleting a value descriptor is always acceptable.
pub fn validate_delete_value_descriptor(original_value_descriptor: &PropertyDescriptor) -> (r:
    ValidationOutcome)
    ensures
        r.deep_view() == OutcomeModel::Valid,
{
    validate_delete_property_descriptor(original_value_descriptor)
}

/// Decides a new link from its kind and its fetched endpoints: every
/// checked endpoint must hold a descriptor entry of the link's kind;
/// otherwise the decision cannot proceed and the caller reports its
/// record error, as the host zome does.
pub fn validate_create_link(
    link_type: LinkTypes,
    base_entry: &Option<EntryTypes>,
    target_entry: &Option<EntryTypes>,
) -> (r: Result<ValidationOutcome, DescriptorsError>)
    ensures
        match r {
            Ok(v) => create_link_ok(link_type, *base_entry, *target_entry) && v.deep_view()
                == OutcomeModel::Valid,
            Err(e) => {
                &&& !create_link_ok(link_type, *base_entry, *target_entry)
                &&& e matches DescriptorsError::UnexpectedVariant(m) && m@
                    == "linked descriptor entry"@
            },
        },
{
    let wants_holon = match link_type {
        LinkTypes::HolonDescriptorUpdates => true,
        LinkTypes::AllHolonTypes => true,
        _ => false,
    };
    let checks_base = match link_type {
        LinkTypes::HolonDescriptorUpdates => true,
        LinkTypes::PropertyDescriptorUpdates => true,
        LinkTypes::ValueDescriptorUpdates => true,
        _ => false,
    };
    let base_ok = match base_entry {
        Some(EntryTypes::HolonDescriptor(_)) => wants_holon,
        Some(EntryTypes::PropertyDescriptor(_)) => !wants_holon,
        _ => false,
    };
    let target_ok = match target_entry {
        Some(EntryTypes::HolonDescriptor(_)) => wants_holon,
        Some(EntryTypes::PropertyDescriptor(_)) => !wants_holon,
        _ => false,
    };
    if (!checks_base || base_ok) && target_ok {
        Ok(ValidationOutcome::Valid)
    } else {
        Err(DescriptorsError::UnexpectedVariant(String::from_str("linked descriptor entry")))
    }
}

/// No update-chain or index link may ever be deleted.
pub fn validate_delete_link(link_type: LinkTypes) -> (r: ValidationOutcome)
    ensures
        r.deep_view() == OutcomeModel::Invalid(link_delete_message(link_type)),
{
    match link_type {
        LinkTypes::HolonDescriptorUpdates => ValidationOutcome::Invalid(
            String::from_str("HolonDescriptorUpdates links cannot be deleted"),
        ),
        LinkTypes::AllHolonTypes => ValidationOutcome::Invalid(
            String::from_str("AllHolonTypes links cannot be deleted"),
        ),
        LinkTypes::PropertyDescriptorUpdates => ValidationOutcome::Invalid(
            String::from_str("PropertyDescriptorUpdates links cannot be deleted"),
        ),
        LinkTypes::AllPropertyDescriptors => ValidationOutcome::Invalid(
            String::from_str("AllPropertyDescriptors links cannot be deleted"),
        ),
        LinkTypes::ValueDescriptorUpdates => ValidationOutcome::Invalid(
            String::from_str("ValueDescriptorUpdates links cannot be deleted"),
        ),
        LinkTypes::AllValueTypes => ValidationOutcome::Invalid(
            String::from_str("AllValueTypes links cannot be deleted"),
        ),
    }
}

/// The validation callback's decision core: assigns every operation the
/// verdict of [`validate_model`], or the link-endpoint error where that
/// model has no verdict.
pub fn validate(op: DescriptorOp) -> (r: Result<ValidationOutcome, DescriptorsError>)
    ensures
        match r {
            Ok(v) => validate_model(op) == Some(v.deep_view()),
            Err(e) => {
                &&& validate_model(op) is None
                &&& e matches DescriptorsError::UnexpectedVariant(m) && m@
                    == "linked descriptor entry"@
            },
        },
{
    match op {
        DescriptorOp::StoreEntry { entry } => Ok(
            match entry {
                EntryTypes::TypeHeader(h) => validate_create_type_header(&h),
                EntryTypes::HolonDescriptor(d) => validate_create_holon_descriptor(&d),
                EntryTypes::PropertyDescriptor(d) => validate_create_property_descriptor(&d),
            },
        ),
        DescriptorOp::RegisterUpdate { new_entry, original } => Ok(
            match original {
                OriginalRecord::Entry(orig) => match (new_entry, orig) {
                    (EntryTypes::TypeHeader(h), EntryTypes::TypeHeader(o)) => {
                        validate_update_type_header(&h, &o)
                    },
                    (EntryTypes::HolonDescriptor(d), EntryTypes::HolonDescriptor(o)) => {
                        validate_update_holon_descriptor(&d, &o)
                    },
                    (EntryTypes::PropertyDescriptor(d), EntryTypes::PropertyDescriptor(o)) => {
                        validate_update_property_descriptor(&d, &o)
                    },
                    _ => ValidationOutcome::Invalid(
                        String::from_str("Original and updated entry types must be the same"),
                    ),
                },
                OriginalRecord::NotEntryCreation => ValidationOutcome::Invalid(
                    String::from_str(
                        "Original action for an update must be a Create or Update action",
                    ),
                ),
                _ => ValidationOutcome::Invalid(
                    String::from_str(
                        "The updated entry type must be the same as the original entry type",
                    ),
                ),
            },
        ),
        DescriptorOp::RegisterDelete { original } => Ok(
            match original {
                OriginalRecord::Entry(orig) => match orig {
                    EntryTypes::TypeHeader(h) => validate_delete_type_header(&h),
                    EntryTypes::HolonDescriptor(d) => validate_delete_holon_descriptor(&d),
                    EntryTypes::PropertyDescriptor(d) => validate_delete_property_descriptor(&d),
                },
                OriginalRecord::NotEntryCreation => ValidationOutcome::Invalid(
                    String::from_str(
                        "Original action for a delete must be a Create or Update action",
                    ),
                ),
                OriginalRecord::MissingPublicEntry => ValidationOutcome::Invalid(
                    String::from_str(
                        "Original record for a delete of a public entry must contain an entry",
                    ),
                ),
                OriginalRecord::UndecodableEntry => ValidationOutcome::Invalid(
                    String::from_str(
                        "Original app entry must be one of the defined entry types for this zome",
                    ),
                ),
                _ => ValidationOutcome::Valid,
            },
        ),
        DescriptorOp::RegisterCreateLink { link_type, base_entry, target_entry } => {
            validate_create_link(link_type, &base_entry, &target_entry)
        },
        DescriptorOp::RegisterDeleteLink { link_type } => Ok(validate_delete_link(link_type)),
    }
}

} // verus!
