//! Reading back through the update chain.  A fetch of a descriptor
//! starts from its original identifier, collects the update-chain links
//! the store indexed under it, and follows the most recent one; an entry
//! that was never updated is fetched at its original identifier.  Also
//! the inputs an update presents to the store: the stable original
//! identifier, the latest revision's identifier, and the new value.

use vstd::prelude::*;

use crate::helpers::clone_holon_id;
use crate::holon_descriptor::{HolonDescriptor, HolonId};
use crate::property_descriptor::PropertyDescriptor;

verus! {

/// One update-chain link as the store reports it: where it points and
/// when it was written (microseconds since the epoch).
#[derive(Debug, PartialEq, Eq)]
pub struct RevisionLink {
    pub target: HolonId,
    pub timestamp: i64,
}

/// The mathematical value of a [`RevisionLink`].
#[verifier::ext_equal]
pub struct LinkModel {
    pub target: Seq<u8>,
    pub timestamp: i64,
}

impl DeepView for RevisionLink {
    type V = LinkModel;

    open spec fn deep_view(&self) -> LinkModel {
        LinkModel { target: self.target.deep_view(), timestamp: self.timestamp }
    }
}

/// Where "get latest" must look: the target of the newest update-chain
/// link, breaking timestamp ties towards the link reported last, or the
/// original identifier when no update was ever linked.
pub fn latest_revision_target(original: HolonId, links: &Vec<RevisionLink>) -> (r: HolonId)
    ensures
        links@.len() == 0 ==> r.deep_view() == original.deep_view(),
        links@.len() > 0 ==> exists|i: int|
            {
                &&& 0 <= i < links@.len()
                &&& r.deep_view() == (#[trigger] links@[i]).target.deep_view()
                &&& forall|j: int| 0 <= j < links@.len() ==> links@[j].timestamp <= links@[
                    i
                ].timestamp
                &&& forall|j: int| i < j < links@.len() ==> links@[j].timestamp < links@[
                    i
                ].timestamp
            },
{
    let n = links.len();
    if n == 0 {
        return original;
    }
    let mut best: usize = 0;
    let mut k: usize = 1;
    while k < n
        invariant
            n == links@.len(),
            0 <= best < k <= n,
            forall|j: int| 0 <= j < k ==> links@[j].timestamp <= links@[best as int].timestamp,
            forall|j: int| best < j < k ==> links@[j].timestamp < links@[best as int].timestamp,
        decreases n - k,
    {
        if links[k].timestamp >= links[best].timestamp {
            best = k;
        }
        k = k + 1;
    }
    clone_holon_id(&links[best].target)
}

/// What an update of a holon descriptor presents to the store: the
/// anchor of the whole update chain, the revision the update builds on,
/// and the new value.
#[derive(Debug, PartialEq, Eq)]
pub struct UpdateHolonDescriptorInput {
    pub original_holon_descriptor_hash: HolonId,
    pub previous_holon_descriptor_hash: HolonId,
    pub updated_holon_descriptor: HolonDescriptor,
}

impl UpdateHolonDescriptorInput {
    /// The input for the next update in a chain: the anchor stays, the
    /// revision just written becomes the base.
    pub fn next(self, new_previous: HolonId, updated: HolonDescriptor) -> (r:
        UpdateHolonDescriptorInput)
        ensures
            r.original_holon_descriptor_hash.deep_view()
                == self.original_holon_descriptor_hash.deep_view(),
            r.previous_holon_descriptor_hash.deep_view() == new_previous.deep_view(),
            r.updated_holon_descriptor.deep_view() == updated.deep_view(),
    {
        UpdateHolonDescriptorInput {
            original_holon_descriptor_hash: self.original_holon_descriptor_hash,
            previous_holon_descriptor_hash: new_previous,
            updated_holon_descriptor: updated,
        }
    }
}

/// What an update of a property descriptor presents to the store.
#[derive(Debug, PartialEq, Eq)]
pub struct UpdatePropertyDescriptorInput {
    pub original_property_descriptor_hash: HolonId,
    pub previous_property_descriptor_hash: HolonId,
    pub updated_property_descriptor: PropertyDescriptor,
}

impl UpdatePropertyDescriptorInput {
    /// The input for the next update in a chain: the anchor stays, the
    /// revision just written becomes the base.
    pub fn next(self, new_previous: HolonId, updated: PropertyDescriptor) -> (r:
        UpdatePropertyDescriptorInput)
        ensures
            r.original_property_descriptor_hash.deep_view()
                == self.original_property_descriptor_hash.deep_view(),
            r.previous_property_descriptor_hash.deep_view() == new_previous.deep_view(),
            r.updated_property_descriptor.model() == updated.model(),
    {
        UpdatePropertyDescriptorInput {
            original_property_descriptor_hash: self.original_property_descriptor_hash,
            previous_property_descriptor_hash: new_previous,
            updated_property_descriptor: updated,
        }
    }
}

/// What an update of a value descriptor presents to the store (value
/// descriptor is the historical name of the property descriptor kind).
#[derive(Debug, PartialEq, Eq)]
pub struct UpdateValueDescriptorInput {
    pub original_value_descriptor_hash: HolonId,
    pub previous_value_descriptor_hash: HolonId,
    pub updated_value_descriptor: PropertyDescriptor,
}

} // verus!
