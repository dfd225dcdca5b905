//! Building property maps: inserting or replacing a binding under a
//! property name, and removing one.  Both holon and composite types fill
//! their maps through these functions.

use vstd::prelude::*;
use vstd::string::StringSliceAdditionalSpecFns;
use vstd::utf8::encode_utf8;

use crate::property_descriptor::{
    lemma_name_lt_connected, lemma_name_lt_neq, lemma_name_lt_trans, lex_lt, map_of_entries,
    name_lt, EntryModel, PropertyDescriptorMap, PropertyDescriptorUsage, PropertyEntry,
    UsageModel,
};

verus! {

/// The mapping a binding sequence denotes contains exactly the bound
/// names.
pub proof fn lemma_map_of_entries_dom(entries: Seq<EntryModel>)
    ensures
        forall|n: Seq<char>|
            #[trigger] map_of_entries(entries).contains_key(n) <==> exists|i: int|
                0 <= i < entries.len() && entries[i].name == n,
    decreases entries.len(),
{
    if entries.len() > 0 {
        let prefix = entries.drop_last();
        lemma_map_of_entries_dom(prefix);
        assert(map_of_entries(entries) == map_of_entries(prefix).insert(
            entries.last().name,
            entries.last().usage,
        ));
        assert forall|n: Seq<char>| #[trigger]
            map_of_entries(entries).contains_key(n) implies exists|i: int|
            0 <= i < entries.len() && entries[i].name == n by {
            if n == entries.last().name {
                assert(entries[entries.len() - 1].name == n);
            } else {
                assert(map_of_entries(prefix).contains_key(n));
                let i = choose|i: int| 0 <= i < prefix.len() && prefix[i].name == n;
                assert(prefix[i] == entries[i]);
                assert(entries[i].name == n);
            }
        }
        assert forall|n: Seq<char>|
            (exists|i: int| 0 <= i < entries.len() && entries[i].name == n) implies #[trigger]
            map_of_entries(entries).contains_key(n) by {
            let i = choose|i: int| 0 <= i < entries.len() && entries[i].name == n;
            if i < entries.len() - 1 {
                assert(prefix[i] == entries[i]);
                assert(prefix[i].name == n);
                assert(map_of_entries(prefix).contains_key(n));
            }
        }
    }
}

/// Replacing the binding that carries a name re-points the denoted
/// mapping at the new usage.
pub proof fn lemma_map_of_entries_update(entries: Seq<EntryModel>, k: int, x: EntryModel)
    requires
        forall|p: int, q: int|
            0 <= p < q < entries.len() ==> #[trigger] entries[p].name != #[trigger] entries[q].name,
        0 <= k < entries.len(),
        x.name == entries[k].name,
    ensures
        map_of_entries(entries.update(k, x)) =~= map_of_entries(entries).insert(x.name, x.usage),
    decreases entries.len(),
{
    let updated = entries.update(k, x);
    if k == entries.len() - 1 {
        assert(updated.drop_last() =~= entries.drop_last());
        assert(updated.last() == x);
    } else {
        assert(updated.drop_last() =~= entries.drop_last().update(k, x));
        assert(updated.last() == entries.last());
        lemma_map_of_entries_update(entries.drop_last(), k, x);
        assert(x.name != entries.last().name);
    }
}

/// Appending a binding inserts its name into the denoted mapping.
pub proof fn lemma_map_of_entries_push(entries: Seq<EntryModel>, x: EntryModel)
    ensures
        map_of_entries(entries.push(x)) =~= map_of_entries(entries).insert(x.name, x.usage),
{
    assert(entries.push(x).drop_last() =~= entries);
    assert(entries.push(x).last() == x);
}

/// Placing a binding of an absent name anywhere inserts that name into
/// the denoted mapping.
pub proof fn lemma_map_of_entries_insert(entries: Seq<EntryModel>, pos: int, x: EntryModel)
    requires
        0 <= pos <= entries.len(),
        forall|i: int| 0 <= i < entries.len() ==> #[trigger] entries[i].name != x.name,
    ensures
        map_of_entries(entries.insert(pos, x)) =~= map_of_entries(entries).insert(x.name, x.usage),
    decreases entries.len(),
{
    let ins = entries.insert(pos, x);
    if pos == entries.len() {
        assert(ins =~= entries.push(x));
        lemma_map_of_entries_push(entries, x);
    } else {
        assert(ins.drop_last() =~= entries.drop_last().insert(pos, x));
        assert(ins.last() == entries.last());
        assert forall|i: int| 0 <= i < entries.drop_last().len() implies #[trigger] entries.drop_last()[i].name != x.name by {
            assert(entries.drop_last()[i] == entries[i]);
        }
        lemma_map_of_entries_insert(entries.drop_last(), pos, x);
        assert(entries[entries.len() - 1].name != x.name);
    }
}

/// With unique names, dropping the binding that carries a name removes
/// that name from the denoted mapping.
pub proof fn lemma_map_of_entries_remove(entries: Seq<EntryModel>, k: int)
    requires
        forall|p: int, q: int|
            0 <= p < q < entries.len() ==> #[trigger] entries[p].name != #[trigger] entries[q].name,
        0 <= k < entries.len(),
    ensures
        map_of_entries(entries.remove(k)) =~= map_of_entries(entries).remove(entries[k].name),
    decreases entries.len(),
{
    let removed = entries.remove(k);
    if k == entries.len() - 1 {
        assert(removed =~= entries.drop_last());
        lemma_map_of_entries_dom(entries.drop_last());
        assert(!map_of_entries(entries.drop_last()).contains_key(entries[k].name));
    } else {
        assert(removed.drop_last() =~= entries.drop_last().remove(k));
        assert(removed.last() == entries.last());
        lemma_map_of_entries_remove(entries.drop_last(), k);
        assert(entries[k].name != entries.last().name);
    }
}

/// A name bound by no binding is absent from the denoted mapping.
pub proof fn lemma_map_of_entries_absent(entries: Seq<EntryModel>, n: Seq<char>)
    requires
        forall|i: int| 0 <= i < entries.len() ==> #[trigger] entries[i].name != n,
    ensures
        !map_of_entries(entries).contains_key(n),
{
    lemma_map_of_entries_dom(entries);
}

/// Removing a name just upserted under it leaves a mapping without that
/// name: `remove_property_descriptor(upsert_property_descriptor(m, k, u), k)`
/// denotes `m` with `k` taken out.
pub proof fn lemma_upsert_then_remove(
    m: Map<Seq<char>, UsageModel>,
    k: Seq<char>,
    u: UsageModel,
)
    ensures
        !m.insert(k, u).remove(k).contains_key(k),
        m.insert(k, u).remove(k) =~= m.remove(k),
{
}

/// The later of two upserts under one name wins:
/// `upsert_property_descriptor(upsert_property_descriptor(m, k, u1), k, u2)`
/// denotes `m` with `k` bound to `u2`.
pub proof fn lemma_upsert_last_write_wins(
    m: Map<Seq<char>, UsageModel>,
    k: Seq<char>,
    u1: UsageModel,
    u2: UsageModel,
)
    ensures
        m.insert(k, u1).insert(k, u2) =~= m.insert(k, u2),
        m.insert(k, u1).insert(k, u2)[k] == u2,
{
}

/// When two byte sequences agree on a prefix, their order is decided by
/// the rest.
proof fn lemma_lex_lt_common_prefix(a: Seq<u8>, b: Seq<u8>, i: int)
    requires
        0 <= i <= a.len(),
        i <= b.len(),
        forall|j: int| 0 <= j < i ==> a[j] == b[j],
    ensures
        lex_lt(a, b) == lex_lt(a.skip(i), b.skip(i)),
    decreases i,
{
    if i == 0 {
        assert(a.skip(0) =~= a);
        assert(b.skip(0) =~= b);
    } else {
        assert(a.first() == b.first());
        assert(a.drop_first() =~= a.skip(1));
        assert(b.drop_first() =~= b.skip(1));
        assert forall|j: int| 0 <= j < i - 1 implies a.skip(1)[j] == b.skip(1)[j] by {
            assert(a[j + 1] == b[j + 1]);
        }
        lemma_lex_lt_common_prefix(a.skip(1), b.skip(1), i - 1);
        assert(a.skip(1).skip(i - 1) =~= a.skip(i));
        assert(b.skip(1).skip(i - 1) =~= b.skip(i));
    }
}

/// Compares two byte slices in lexicographic order.
fn bytes_lt(a: &[u8], b: &[u8]) -> (r: bool)
    ensures
        r == lex_lt(a@, b@),
{
    let an = a.len();
    let bn = b.len();
    let n = if an < bn {
        an
    } else {
        bn
    };
    let mut i: usize = 0;
    while i < n
        invariant
            0 <= i <= n,
            n == if an < bn {
                an
            } else {
                bn
            },
            an == a@.len() && bn == b@.len(),
            forall|j: int| 0 <= j < i ==> a@[j] == b@[j],
        decreases n - i,
    {
        if a[i] != b[i] {
            proof {
                lemma_lex_lt_common_prefix(a@, b@, i as int);
                assert(a@.skip(i as int).first() == a@[i as int]);
                assert(b@.skip(i as int).first() == b@[i as int]);
            }
            return a[i] < b[i];
        }
        i = i + 1;
    }
    proof {
        lemma_lex_lt_common_prefix(a@, b@, n as int);
        if an < bn {
            assert(a@.skip(n as int).len() == 0);
            assert(b@.skip(n as int).len() > 0);
        } else {
            assert(b@.skip(n as int).len() == 0);
        }
    }
    an < bn
}

/// Whether one property name sorts strictly before another.
fn property_name_lt(a: &String, b: &String) -> (r: bool)
    ensures
        r == name_lt(a@, b@),
{
    let a_bytes = a.as_str().as_bytes();
    let b_bytes = b.as_str().as_bytes();
    proof {
        assert(a_bytes@ == encode_utf8(a@));
        assert(b_bytes@ == encode_utf8(b@));
    }
    bytes_lt(a_bytes, b_bytes)
}

/// Finds the first binding that carries `name`, if any.
fn index_of_name(property_map: &PropertyDescriptorMap, name: &String) -> (r: Option<usize>)
    ensures
        match r {
            Some(i) => {
                &&& 0 <= i < property_map.model().len()
                &&& property_map.model()[i as int].name == name@
                &&& forall|j: int| 0 <= j < i ==> property_map.model()[j].name != name@
            },
            None => !property_map.contains_name(name@),
        },
{
    let n = property_map.properties.len();
    let mut i: usize = 0;
    while i < n
        invariant
            0 <= i <= n,
            n == property_map.model().len(),
            forall|j: int| 0 <= j < i ==> property_map.model()[j].name != name@,
        decreases n - i,
    {
        if property_map.properties[i].name == *name {
            return Some(i);
        }
        i = i + 1;
    }
    None
}

/// Inserts or replaces the usage bound under `property_name`: on a name
/// collision the new binding wins, and a new name is placed at its
/// sorted position, keeping the map ordered by key.
pub fn upsert_property_descriptor(
    property_map: &mut PropertyDescriptorMap,
    property_name: String,
    property_usage: PropertyDescriptorUsage,
)
    requires
        old(property_map).wf(),
    ensures
        final(property_map).as_map() =~= old(property_map).as_map().insert(
            property_name@,
            property_usage.model(),
        ),
        final(property_map).model().len() == old(property_map).model().len() + (if old(
            property_map,
        ).contains_name(property_name@) {
            0int
        } else {
            1int
        }),
        old(property_map).contains_name(property_name@) ==> final(property_map).model()
            =~= old(property_map).model().update(
            choose|i: int|
                0 <= i < old(property_map).model().len() && old(property_map).model()[i].name
                    == property_name@,
            EntryModel { name: property_name@, usage: property_usage.model() },
        ),
        !old(property_map).contains_name(property_name@) ==> exists|pos: int|
            0 <= pos <= old(property_map).model().len() && final(property_map).model() =~= old(
                property_map,
            ).model().insert(
                pos,
                EntryModel { name: property_name@, usage: property_usage.model() },
            ),
        property_usage.wf() ==> final(property_map).wf(),
{
    let entry = PropertyEntry { name: property_name, usage: property_usage };
    let n = property_map.properties.len();
    let mut i: usize = 0;
    while i < n && property_name_lt(&property_map.properties[i].name, &entry.name)
        invariant
            0 <= i <= n,
            n == property_map.properties@.len(),
            *property_map == *old(property_map),
            old(property_map).wf(),
            forall|j: int|
                0 <= j < i ==> name_lt(
                    (#[trigger] property_map.properties@[j]).name@,
                    entry.name@,
                ),
        decreases n - i,
    {
        i = i + 1;
    }
    let ghost om = old(property_map).model();
    let ghost op = old(property_map).properties@;
    let ghost k = entry.name@;
    if i < n && property_map.properties[i].name == entry.name {
        proof {
            lemma_map_of_entries_update(property_map.model(), i as int, entry.model());
            assert(om[i as int].name == k);
            assert(old(property_map).contains_name(k));
        }
        property_map.properties[i] = entry;
        proof {
            let c = choose|c: int| 0 <= c < om.len() && om[c].name == k;
            assert(om[c].name == op[c].name@);
            assert(c == i);
            assert(property_map.model() =~= om.update(i as int, entry.model()));
            if entry.usage.wf() {
                let np = property_map.properties@;
                assert forall|p: int, q: int|
                    0 <= p < q < np.len() implies name_lt(
                    (#[trigger] np[p]).name@,
                    (#[trigger] np[q]).name@,
                ) by {
                    assert(name_lt(op[p].name@, op[q].name@));
                    assert(np[p].name@ == op[p].name@);
                    assert(np[q].name@ == op[q].name@);
                }
                assert forall|p: int, q: int|
                    0 <= p < q < np.len() implies (#[trigger] np[p]).name@ != (#[trigger] np[q]).name@ by {
                    assert(op[p].name@ != op[q].name@);
                }
                assert forall|p: int| 0 <= p < np.len() implies (#[trigger] np[p]).usage.wf() by {
                    if p != i {
                        assert(op[p].usage.wf());
                    }
                }
                assert(property_map.wf());
            }
        }
    } else {
        proof {
            if i < n {
                assert(op[i as int].name@ != k);
                lemma_name_lt_connected(k, op[i as int].name@);
                assert(name_lt(k, op[i as int].name@));
            }
            assert forall|j: int| 0 <= j < om.len() implies #[trigger] om[j].name != k by {
                assert(om[j].name == op[j].name@);
                if j < i {
                    lemma_name_lt_neq(op[j].name@, k);
                } else if j == i {
                    lemma_name_lt_neq(k, op[j].name@);
                } else {
                    assert(name_lt(op[i as int].name@, op[j].name@));
                    lemma_name_lt_trans(k, op[i as int].name@, op[j].name@);
                    lemma_name_lt_neq(k, op[j].name@);
                }
            }
            assert(!old(property_map).contains_name(k));
            lemma_map_of_entries_insert(property_map.model(), i as int, entry.model());
        }
        property_map.properties.insert(i, entry);
        proof {
            assert(property_map.model() =~= om.insert(i as int, entry.model()));
            assert(0 <= i as int <= om.len());
            if entry.usage.wf() {
                let np = property_map.properties@;
                assert forall|p: int, q: int|
                    0 <= p < q < np.len() implies name_lt(
                    (#[trigger] np[p]).name@,
                    (#[trigger] np[q]).name@,
                ) by {
                    if q < i {
                        assert(np[p] == op[p] && np[q] == op[q]);
                    } else if q == i {
                        assert(np[p] == op[p] && np[q] == entry);
                    } else if p < i {
                        assert(np[p] == op[p] && np[q] == op[q - 1]);
                        if q - 1 == p {
                            assert(false);
                        }
                    } else if p == i {
                        assert(np[p] == entry && np[q] == op[q - 1]);
                        if q - 1 > i {
                            assert(name_lt(op[i as int].name@, op[q - 1].name@));
                            lemma_name_lt_trans(k, op[i as int].name@, op[q - 1].name@);
                        }
                    } else {
                        assert(np[p] == op[p - 1] && np[q] == op[q - 1]);
                    }
                }
                assert forall|p: int, q: int|
                    0 <= p < q < np.len() implies (#[trigger] np[p]).name@ != (#[trigger] np[q]).name@ by {
                    lemma_name_lt_neq(np[p].name@, np[q].name@);
                }
                assert forall|p: int| 0 <= p < np.len() implies (#[trigger] np[p]).usage.wf() by {
                    if p < i {
                        assert(np[p] == op[p]);
                        assert(op[p].usage.wf());
                    } else if p > i {
                        assert(np[p] == op[p - 1]);
                        assert(op[p - 1].usage.wf());
                    }
                }
                assert(property_map.wf());
            }
        }
    }
}

/// Removes the binding under `property_name`; removing an absent name is
/// a no-op, not an error.
pub fn remove_property_descriptor(property_map: &mut PropertyDescriptorMap, property_name: String)
    requires
        old(property_map).wf(),
    ensures
        final(property_map).as_map() =~= old(property_map).as_map().remove(property_name@),
        !final(property_map).contains_name(property_name@),
        old(property_map).contains_name(property_name@) ==> final(property_map).model()
            =~= old(property_map).model().remove(
            choose|i: int|
                0 <= i < old(property_map).model().len() && old(property_map).model()[i].name
                    == property_name@,
        ),
        !old(property_map).contains_name(property_name@) ==> *final(property_map) == *old(
            property_map,
        ),
        final(property_map).wf(),
{
    let found = index_of_name(property_map, &property_name);
    match found {
        Some(i) => {
            proof {
                lemma_map_of_entries_remove(property_map.model(), i as int);
                let om = old(property_map).model();
                let k = choose|k: int| 0 <= k < om.len() && om[k].name == property_name@;
                assert(k == i);
            }
            property_map.properties.remove(i);
            proof {
                assert(property_map.model() =~= old(property_map).model().remove(i as int));
                lemma_map_of_entries_dom(property_map.model());
            }
        },
        None => {
            proof {
                lemma_map_of_entries_absent(property_map.model(), property_name@);
                assert(property_map.as_map() =~= property_map.as_map().remove(property_name@));
            }
        },
    }
}

} // verus!
