//! The shared-type reference resolution protocol.
//!
//! Phase one persists each shared descriptor and records its name and the
//! identifier the store assigned, in a [`TypeNameMap`].  Phase two walks a
//! referencing composite and rewrites every usage that refers to a shared
//! type by name into one that also carries the recorded identifier; a
//! name absent from the table aborts the resolution before anything is
//! handed to the store.  Phase three fetches everything back and checks
//! structural equality (see `helpers::eq_property_descriptor`).

use vstd::prelude::*;

use crate::error::DescriptorsError;
use crate::helpers::clone_holon_id;
use crate::holon_descriptor::{HolonId, HolonReference, ReferenceModel};
use crate::property_descriptor::{
    CompositeDescriptor, DescriptorModel, DescriptorSharing, DetailsModel, EntryModel,
    PropertyDescriptor, PropertyDescriptorDetails, PropertyDescriptorMap, PropertyDescriptorUsage,
    PropertyEntry, SharingModel, UsageModel,
};

verus! {

/// One recorded persistence: a shared type's name bound to the
/// identifier the store assigned it.
#[derive(Debug, PartialEq, Eq)]
pub struct NameBinding {
    pub name: String,
    pub id: HolonId,
}

/// The mathematical value of a [`NameBinding`].
#[verifier::ext_equal]
pub struct BindingModel {
    pub name: Seq<char>,
    pub id: Seq<u8>,
}

impl DeepView for NameBinding {
    type V = BindingModel;

    open spec fn deep_view(&self) -> BindingModel {
        BindingModel { name: self.name@, id: self.id.deep_view() }
    }
}

/// The mapping a binding sequence denotes: later bindings of a name
/// shadow earlier ones.
pub open spec fn map_of_bindings(bindings: Seq<BindingModel>) -> Map<Seq<char>, Seq<u8>>
    decreases bindings.len(),
{
    if bindings.len() == 0 {
        Map::empty()
    } else {
        map_of_bindings(bindings.drop_last()).insert(
            bindings.last().name,
            bindings.last().id,
        )
    }
}

/// The denoted mapping contains exactly the bound names.
proof fn lemma_map_of_bindings_dom(bindings: Seq<BindingModel>)
    ensures
        forall|n: Seq<char>|
            #[trigger] map_of_bindings(bindings).contains_key(n) <==> exists|i: int|
                0 <= i < bindings.len() && bindings[i].name == n,
    decreases bindings.len(),
{
    if bindings.len() > 0 {
        let prefix = bindings.drop_last();
        lemma_map_of_bindings_dom(prefix);
        assert forall|n: Seq<char>| #[trigger]
            map_of_bindings(bindings).contains_key(n) implies exists|i: int|
            0 <= i < bindings.len() && bindings[i].name == n by {
            if n == bindings.last().name {
                assert(bindings[bindings.len() - 1].name == n);
            } else {
                assert(map_of_bindings(prefix).contains_key(n));
                let i = choose|i: int| 0 <= i < prefix.len() && prefix[i].name == n;
                assert(prefix[i] == bindings[i]);
            }
        }
        assert forall|n: Seq<char>|
            (exists|i: int| 0 <= i < bindings.len() && bindings[i].name == n) implies #[trigger]
            map_of_bindings(bindings).contains_key(n) by {
            let i = choose|i: int| 0 <= i < bindings.len() && bindings[i].name == n;
            if i < bindings.len() - 1 {
                assert(prefix[i] == bindings[i]);
                assert(map_of_bindings(prefix).contains_key(n));
            }
        }
    }
}

/// Replacing the binding that carries a name re-points the denoted
/// mapping at the new identifier.
proof fn lemma_map_of_bindings_update(bindings: Seq<BindingModel>, k: int, x: BindingModel)
    requires
        forall|p: int, q: int|
            0 <= p < q < bindings.len() ==> #[trigger] bindings[p].name != #[trigger] bindings[q].name,
        0 <= k < bindings.len(),
        x.name == bindings[k].name,
    ensures
        map_of_bindings(bindings.update(k, x)) =~= map_of_bindings(bindings).insert(x.name, x.id),
    decreases bindings.len(),
{
    let updated = bindings.update(k, x);
    if k == bindings.len() - 1 {
        assert(updated.drop_last() =~= bindings.drop_last());
        assert(updated.last() == x);
    } else {
        assert(updated.drop_last() =~= bindings.drop_last().update(k, x));
        assert(updated.last() == bindings.last());
        lemma_map_of_bindings_update(bindings.drop_last(), k, x);
        assert(x.name != bindings.last().name);
    }
}

/// Appending a binding inserts its name into the denoted mapping.
proof fn lemma_map_of_bindings_push(bindings: Seq<BindingModel>, x: BindingModel)
    ensures
        map_of_bindings(bindings.push(x)) =~= map_of_bindings(bindings).insert(x.name, x.id),
{
    assert(bindings.push(x).drop_last() =~= bindings);
    assert(bindings.push(x).last() == x);
}

/// With unique names, the denoted mapping sends each bound name to its
/// identifier.
proof fn lemma_map_of_bindings_index(bindings: Seq<BindingModel>, i: int)
    requires
        forall|p: int, q: int|
            0 <= p < q < bindings.len() ==> #[trigger] bindings[p].name != #[trigger] bindings[q].name,
        0 <= i < bindings.len(),
    ensures
        map_of_bindings(bindings).contains_key(bindings[i].name),
        map_of_bindings(bindings)[bindings[i].name] == bindings[i].id,
    decreases bindings.len(),
{
    if i == bindings.len() - 1 {
    } else {
        lemma_map_of_bindings_index(bindings.drop_last(), i);
        assert(bindings.drop_last()[i] == bindings[i]);
        assert(bindings[i].name != bindings[bindings.len() - 1].name);
    }
}

/// The lookup table built while shared types are persisted: each entry
/// binds a type name to the identifier the store assigned.  Local to one
/// resolution run; written during phase one, read during phase two.
#[derive(Debug, PartialEq, Eq)]
pub struct TypeNameMap {
    pub bindings: Vec<NameBinding>,
}

impl TypeNameMap {
    /// The bindings, in the order they were recorded.
    pub open spec fn model(self) -> Seq<BindingModel> {
        self.bindings.deep_view()
    }

    /// The name-to-identifier mapping the table denotes.
    pub open spec fn as_map(self) -> Map<Seq<char>, Seq<u8>> {
        map_of_bindings(self.model())
    }

    /// Whether a name was recorded.
    pub open spec fn contains_name(self, n: Seq<char>) -> bool {
        exists|i: int| 0 <= i < self.model().len() && self.model()[i].name == n
    }

    /// Names are unique: registering under an existing name replaces the
    /// binding.
    pub open spec fn wf(self) -> bool {
        forall|i: int, j: int|
            0 <= i < j < self.model().len() ==> #[trigger] self.model()[i].name
                != #[trigger] self.model()[j].name
    }

    /// An empty table.
    pub fn new() -> (r: TypeNameMap)
        ensures
            r.model() =~= Seq::<BindingModel>::empty(),
            r.as_map() =~= Map::<Seq<char>, Seq<u8>>::empty(),
            r.wf(),
    {
        TypeNameMap { bindings: Vec::new() }
    }

    /// Records that the shared type called `name` was persisted under
    /// `id`; a repeated name replaces the earlier record.
    pub fn register(&mut self, name: String, id: HolonId)
        requires
            old(self).wf(),
        ensures
            final(self).as_map() =~= old(self).as_map().insert(name@, id.deep_view()),
            final(self).wf(),
    {
        let binding = NameBinding { name, id };
        let n = self.bindings.len();
        let mut i: usize = 0;
        while i < n
            invariant
                0 <= i <= n,
                n == self.model().len(),
                *self == *old(self),
                old(self).wf(),
                binding.deep_view() == (BindingModel { name: name@, id: id.deep_view() }),
                forall|j: int| 0 <= j < i ==> self.model()[j].name != binding.name@,
            decreases n - i,
        {
            if self.bindings[i].name == binding.name {
                proof {
                    lemma_map_of_bindings_update(
                        self.model(),
                        i as int,
                        binding.deep_view(),
                    );
                }
                let ghost bm = binding.deep_view();
                self.bindings[i] = binding;
                proof {
                    let om = old(self).model();
                    assert(self.model() =~= om.update(i as int, bm));
                    assert(map_of_bindings(om.update(i as int, bm)) =~= map_of_bindings(om).insert(
                        bm.name,
                        bm.id,
                    ));
                    assert(bm.name == name@ && bm.id == id.deep_view());
                    assert(self.as_map() =~= old(self).as_map().insert(name@, id.deep_view()));
                    assert forall|p: int, q: int|
                        0 <= p < q < self.model().len() implies #[trigger] self.model()[p].name
                        != #[trigger] self.model()[q].name by {
                        assert(old(self).model()[p].name != old(self).model()[q].name);
                        assert(self.model()[p].name == if p == i {
                            bm.name
                        } else {
                            old(self).model()[p].name
                        });
                        assert(self.model()[q].name == if q == i {
                            bm.name
                        } else {
                            old(self).model()[q].name
                        });
                        assert(bm.name == old(self).model()[i as int].name);
                    }
                }
                return ;
            }
            i = i + 1;
        }
        let ghost bm = binding.deep_view();
        proof {
            lemma_map_of_bindings_push(self.model(), bm);
        }
        self.bindings.push(binding);
        proof {
            assert(self.model() =~= old(self).model().push(bm));
            assert forall|p: int, q: int|
                0 <= p < q < self.model().len() implies #[trigger] self.model()[p].name
                != #[trigger] self.model()[q].name by {
                if q < old(self).model().len() {
                    assert(old(self).model()[p].name != old(self).model()[q].name);
                } else {
                    assert(self.model()[q].name == bm.name);
                    assert(old(self).model()[p].name != bm.name);
                }
            }
        }
    }

    /// Looks a name up, handing back a copy of the recorded identifier.
    pub fn lookup(&self, name: &String) -> (r: Option<HolonId>)
        requires
            self.wf(),
        ensures
            match r {
                Some(id) => self.as_map().contains_key(name@) && id.deep_view() == self.as_map()[
                    name@
                ],
                None => !self.as_map().contains_key(name@),
            },
    {
        let n = self.bindings.len();
        let mut i: usize = 0;
        while i < n
            invariant
                0 <= i <= n,
                n == self.model().len(),
                self.wf(),
                forall|j: int| 0 <= j < i ==> self.model()[j].name != name@,
            decreases n - i,
        {
            if self.bindings[i].name == *name {
                proof {
                    lemma_map_of_bindings_index(self.model(), i as int);
                }
                return Some(clone_holon_id(&self.bindings[i].id));
            }
            i = i + 1;
        }
        proof {
            lemma_map_of_bindings_dom(self.model());
        }
        None
    }
}

/// Whether a usage stands in the way of resolution: a usage that refers
/// to a shared type by name resolves only if the table recorded that
/// name.
pub open spec fn usage_resolvable(u: UsageModel, table: Map<Seq<char>, Seq<u8>>) -> bool {
    match u.sharing {
        SharingModel::Shared(r) => r.name is Some ==> table.contains_key(r.name->0),
        SharingModel::Dedicated => true,
    }
}

/// What resolution makes of one usage: a by-name shared reference gains
/// the recorded identifier and keeps its name for auditability; every
/// other usage is left untouched.
pub open spec fn resolved_usage(u: UsageModel, table: Map<Seq<char>, Seq<u8>>) -> UsageModel {
    match u.sharing {
        SharingModel::Shared(r) => if r.name is Some && table.contains_key(r.name->0) {
            UsageModel {
                sharing: SharingModel::Shared(
                    ReferenceModel { id: Some(table[r.name->0]), name: r.name },
                ),
                ..u
            }
        } else {
            u
        },
        SharingModel::Dedicated => u,
    }
}

/// Whether every usage in a binding sequence resolves against the table.
pub open spec fn all_usages_resolvable(
    entries: Seq<EntryModel>,
    table: Map<Seq<char>, Seq<u8>>,
) -> bool {
    forall|i: int| 0 <= i < entries.len() ==> usage_resolvable(#[trigger] entries[i].usage, table)
}

/// What resolution makes of a binding sequence: names and order are
/// kept, each usage is resolved.
pub open spec fn resolved_entries(
    entries: Seq<EntryModel>,
    table: Map<Seq<char>, Seq<u8>>,
) -> Seq<EntryModel> {
    Seq::new(
        entries.len(),
        |i: int| EntryModel { name: entries[i].name, usage: resolved_usage(entries[i].usage, table) },
    )
}

/// Phase three's guarantee: once every shared reference resolves, each
/// resolved usage carries exactly the identifier the table recorded for
/// its name, so fetching at that identifier yields whatever the store
/// holds under the recorded identifier — when phase one stored each
/// shared descriptor's own definition there, the fetched target is that
/// definition.
pub proof fn lemma_resolved_targets(
    entries: Seq<EntryModel>,
    table: Map<Seq<char>, Seq<u8>>,
    store: Map<Seq<u8>, DescriptorModel>,
)
    requires
        all_usages_resolvable(entries, table),
        forall|n: Seq<char>| #[trigger] table.contains_key(n) ==> store.contains_key(table[n]),
    ensures
        forall|i: int|
            0 <= i < entries.len() && ((#[trigger] entries[i].usage).sharing matches
                SharingModel::Shared(r) && r.name is Some) ==> {
                let rr = resolved_entries(entries, table)[i].usage.sharing;
                &&& rr matches SharingModel::Shared(r2) && r2.id == Some(
                    table[entries[i].usage.sharing->Shared_0.name->0],
                )
                &&& store.contains_key(table[entries[i].usage.sharing->Shared_0.name->0])
            },
{
    assert forall|i: int|
        0 <= i < entries.len() && ((#[trigger] entries[i].usage).sharing matches
            SharingModel::Shared(r) && r.name is Some) implies {
        let rr = resolved_entries(entries, table)[i].usage.sharing;
        &&& rr matches SharingModel::Shared(r2) && r2.id == Some(
            table[entries[i].usage.sharing->Shared_0.name->0],
        )
        &&& store.contains_key(table[entries[i].usage.sharing->Shared_0.name->0])
    } by {
        let n = entries[i].usage.sharing->Shared_0.name->0;
        assert(usage_resolvable(entries[i].usage, table));
        assert(table.contains_key(n));
        assert(resolved_entries(entries, table)[i].usage == resolved_usage(
            entries[i].usage,
            table,
        ));
    }
}

/// Phase two: rewrites every by-name shared reference in a referencing
/// composite to carry the identifier recorded for that name, and fails
/// without producing anything if any referenced name is absent — a
/// partially resolved composite is never handed back for persisting.
/// Succeeds if and only if the descriptor is a composite whose shared
/// references all resolve.
pub fn resolve_shared_references(
    descriptor: PropertyDescriptor,
    table: &TypeNameMap,
) -> (r: Result<PropertyDescriptor, DescriptorsError>)
    requires
        table.wf(),
    ensures
        r is Ok <==> (descriptor.details matches PropertyDescriptorDetails::Composite(c)
            && all_usages_resolvable(c.property_map.model(), table.as_map())),
        match r {
            Ok(out) => {
                &&& descriptor.details matches PropertyDescriptorDetails::Composite(c) && out.model()
                    == (DescriptorModel {
                    header: descriptor.header.deep_view(),
                    details: DetailsModel::Composite {
                        entries: resolved_entries(c.property_map.model(), table.as_map()),
                    },
                })
                &&& descriptor.wf() ==> out.wf()
            },
            Err(e) => match e {
                DescriptorsError::UnexpectedVariant(v) => {
                    &&& !(descriptor.details matches PropertyDescriptorDetails::Composite(_))
                    &&& v@ == "CompositeDescriptor"@
                },
                DescriptorsError::UnresolvedReference(n) => {
                    &&& descriptor.details matches PropertyDescriptorDetails::Composite(c)
                        && exists|i: int|
                        0 <= i < c.property_map.model().len()
                            && ((#[trigger] c.property_map.model()[i].usage).sharing matches
                                SharingModel::Shared(s) && s.name == Some(n@))
                            && !table.as_map().contains_key(n@)
                },
                _ => false,
            },
        },
{
    let PropertyDescriptor { header, details } = descriptor;
    let composite = match details {
        PropertyDescriptorDetails::Composite(c) => c,
        _ => {
            return Err(
                DescriptorsError::UnexpectedVariant(String::from_str("CompositeDescriptor")),
            );
        },
    };
    let CompositeDescriptor { property_map } = composite;
    let PropertyDescriptorMap { properties } = property_map;
    let ghost op = properties@;
    let mut remaining = properties;
    let mut resolved: Vec<PropertyEntry> = Vec::new();
    while remaining.len() > 0
        invariant
            table.wf(),
            descriptor.details matches PropertyDescriptorDetails::Composite(c)
                && c.property_map.properties@ == op,
            resolved@.len() + remaining@.len() == op.len(),
            remaining@ =~= op.subrange(resolved@.len() as int, op.len() as int),
            forall|j: int|
                0 <= j < resolved@.len() ==> (#[trigger] resolved@[j]).model() == (EntryModel {
                    name: op[j].model().name,
                    usage: resolved_usage(op[j].model().usage, table.as_map()),
                }),
            forall|j: int|
                0 <= j < resolved@.len() ==> usage_resolvable(
                    (#[trigger] op[j]).model().usage,
                    table.as_map(),
                ),
            forall|j: int|
                0 <= j < resolved@.len() ==> ((#[trigger] op[j]).usage.wf()
                    ==> resolved@[j].usage.wf()),
            forall|j: int|
                0 <= j < resolved@.len() ==> (#[trigger] resolved@[j]).name@ == op[j].name@,
        decreases remaining@.len(),
    {
        let ghost idx = resolved@.len() as int;
        let entry = remaining.remove(0);
        proof {
            assert(entry == op[idx]);
        }
        let PropertyEntry { name, usage } = entry;
        let PropertyDescriptorUsage { description, descriptor: inner, label, sharing } = usage;
        let new_sharing = match sharing {
            DescriptorSharing::Dedicated => DescriptorSharing::Dedicated,
            DescriptorSharing::Shared(reference) => {
                let HolonReference { id, name: ref_name } = reference;
                match ref_name {
                    None => DescriptorSharing::Shared(HolonReference { id, name: None }),
                    Some(target) => match table.lookup(&target) {
                        Some(found) => DescriptorSharing::Shared(
                            HolonReference { id: Some(found), name: Some(target) },
                        ),
                        None => {
                            proof {
                                let cm = descriptor.details->Composite_0.property_map.model();
                                assert(cm[idx] == op[idx].model());
                                assert(op[idx].model().usage.sharing == SharingModel::Shared(
                                    ReferenceModel { id: id.deep_view(), name: Some(target@) },
                                ));
                                assert((cm[idx].usage.sharing matches SharingModel::Shared(s)
                                    && s.name == Some(target@)));
                                assert(!usage_resolvable(cm[idx].usage, table.as_map()));
                            }
                            return Err(DescriptorsError::UnresolvedReference(target));
                        },
                    },
                }
            },
        };
        let new_entry = PropertyEntry {
            name,
            usage: PropertyDescriptorUsage {
                description,
                descriptor: inner,
                label,
                sharing: new_sharing,
            },
        };
        resolved.push(new_entry);
    }
    let out_map = PropertyDescriptorMap { properties: resolved };
    let out = PropertyDescriptor {
        header,
        details: PropertyDescriptorDetails::Composite(
            CompositeDescriptor { property_map: out_map },
        ),
    };
    proof {
        let original = descriptor.details->Composite_0.property_map;
        let cm = original.model();
        let tm = table.as_map();
        assert(original.properties@ == op);
        assert(out_map.model() =~= resolved_entries(cm, tm));
        assert forall|i: int| 0 <= i < cm.len() implies usage_resolvable(
            #[trigger] cm[i].usage,
            tm,
        ) by {
            assert(cm[i] == op[i].model());
            assert(usage_resolvable(op[i].model().usage, tm));
        }
        if descriptor.wf() {
            assert forall|p: int, q: int|
                #![trigger out_map.properties@[p], out_map.properties@[q]]
                0 <= p < q < out_map.properties@.len() implies out_map.properties@[p].name@
                != out_map.properties@[q].name@ by {
                assert(op[p].name@ != op[q].name@);
                assert(resolved@[p].name@ == op[p].name@);
                assert(resolved@[q].name@ == op[q].name@);
            }
            assert forall|p: int|
                0 <= p < out_map.properties@.len() implies (#[trigger] out_map.properties@[p]).usage.wf() by {
                assert(op[p].usage.wf());
            }
            assert(out_map.wf());
            assert(out.wf());
        }
    }
    Ok(out)
}

} // verus!
