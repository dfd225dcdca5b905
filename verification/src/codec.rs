//! A byte codec for descriptor values: the library's own, fully
//! specified encoding, standing in for the host's serialization so that
//! the round-trip obligation on stored descriptors can be stated and
//! proved here.  Integers are little-endian and fixed-width, strings are
//! UTF-8 with a byte-length prefix, variants carry a leading tag byte,
//! and a composite's bindings follow a count.

use vstd::prelude::*;
use vstd::utf8::{decode_utf8, encode_utf8, valid_utf8};

use crate::error::DescriptorsError;
use crate::holon_descriptor::{HolonId, ReferenceModel};
use crate::property_descriptor::{
    BooleanDescriptor, CompositeDescriptor, DescriptorModel, DescriptorSharing, DetailsModel,
    EntryModel, IntegerDescriptor, IntegerFormat, PropertyDescriptor, PropertyDescriptorDetails,
    StringDescriptor,
    PropertyDescriptorMap, PropertyDescriptorUsage, PropertyEntry, SharingModel, UsageModel,
    ValueCollectionDescriptor,
};
use crate::type_header::{BaseType, HeaderModel, SemanticVersion};

verus! {

/// A 64-bit value as eight little-endian bytes.
pub open spec fn enc_u64(v: u64) -> Seq<u8> {
    seq![
        (v & 0xff) as u8,
        ((v >> 8) & 0xff) as u8,
        ((v >> 16) & 0xff) as u8,
        ((v >> 24) & 0xff) as u8,
        ((v >> 32) & 0xff) as u8,
        ((v >> 40) & 0xff) as u8,
        ((v >> 48) & 0xff) as u8,
        ((v >> 56) & 0xff) as u8,
    ]
}

/// Eight little-endian bytes as a 64-bit value.
pub open spec fn u64_of_le(
    b0: u8,
    b1: u8,
    b2: u8,
    b3: u8,
    b4: u8,
    b5: u8,
    b6: u8,
    b7: u8,
) -> u64 {
    (b0 as u64) | ((b1 as u64) << 8) | ((b2 as u64) << 16) | ((b3 as u64) << 24) | ((b4
        as u64) << 32) | ((b5 as u64) << 40) | ((b6 as u64) << 48) | ((b7 as u64) << 56)
}

/// Reading back the eight bytes of a value gives the value.
pub proof fn lemma_u64_le_roundtrip(v: u64)
    ensures
        u64_of_le(
            (v & 0xff) as u8,
            ((v >> 8) & 0xff) as u8,
            ((v >> 16) & 0xff) as u8,
            ((v >> 24) & 0xff) as u8,
            ((v >> 32) & 0xff) as u8,
            ((v >> 40) & 0xff) as u8,
            ((v >> 48) & 0xff) as u8,
            ((v >> 56) & 0xff) as u8,
        ) == v,
{
    let b0 = (v & 0xff) as u8;
    let b1 = ((v >> 8) & 0xff) as u8;
    let b2 = ((v >> 16) & 0xff) as u8;
    let b3 = ((v >> 24) & 0xff) as u8;
    let b4 = ((v >> 32) & 0xff) as u8;
    let b5 = ((v >> 40) & 0xff) as u8;
    let b6 = ((v >> 48) & 0xff) as u8;
    let b7 = ((v >> 56) & 0xff) as u8;
    assert((b0 as u64) | ((b1 as u64) << 8) | ((b2 as u64) << 16) | ((b3 as u64) << 24) | ((b4
        as u64) << 32) | ((b5 as u64) << 40) | ((b6 as u64) << 48) | ((b7 as u64) << 56) == v)
        by (bit_vector)
        requires
            b0 == (v & 0xff) as u8,
            b1 == ((v >> 8) & 0xff) as u8,
            b2 == ((v >> 16) & 0xff) as u8,
            b3 == ((v >> 24) & 0xff) as u8,
            b4 == ((v >> 32) & 0xff) as u8,
            b5 == ((v >> 40) & 0xff) as u8,
            b6 == ((v >> 48) & 0xff) as u8,
            b7 == ((v >> 56) & 0xff) as u8,
    ;
}

/// A 32-bit value as four little-endian bytes.
pub open spec fn enc_u32(v: u32) -> Seq<u8> {
    seq![
        (v & 0xff) as u8,
        ((v >> 8) & 0xff) as u8,
        ((v >> 16) & 0xff) as u8,
        ((v >> 24) & 0xff) as u8,
    ]
}

/// Four little-endian bytes as a 32-bit value.
pub open spec fn u32_of_le(b0: u8, b1: u8, b2: u8, b3: u8) -> u32 {
    (b0 as u32) | ((b1 as u32) << 8) | ((b2 as u32) << 16) | ((b3 as u32) << 24)
}

/// Reading back the four bytes of a value gives the value.
pub proof fn lemma_u32_le_roundtrip(v: u32)
    ensures
        u32_of_le(
            (v & 0xff) as u8,
            ((v >> 8) & 0xff) as u8,
            ((v >> 16) & 0xff) as u8,
            ((v >> 24) & 0xff) as u8,
        ) == v,
{
    let b0 = (v & 0xff) as u8;
    let b1 = ((v >> 8) & 0xff) as u8;
    let b2 = ((v >> 16) & 0xff) as u8;
    let b3 = ((v >> 24) & 0xff) as u8;
    assert((b0 as u32) | ((b1 as u32) << 8) | ((b2 as u32) << 16) | ((b3 as u32) << 24) == v)
        by (bit_vector)
        requires
            b0 == (v & 0xff) as u8,
            b1 == ((v >> 8) & 0xff) as u8,
            b2 == ((v >> 16) & 0xff) as u8,
            b3 == ((v >> 24) & 0xff) as u8,
    ;
}

/// A signed 64-bit value as the bytes of its two's-complement bits.
pub open spec fn enc_i64(v: i64) -> Seq<u8> {
    enc_u64(v as u64)
}

/// A boolean as one byte.
pub open spec fn enc_bool(b: bool) -> Seq<u8> {
    seq![if b { 1u8 } else { 0u8 }]
}

/// The tag byte of a base type.
pub open spec fn base_type_tag(b: BaseType) -> u8 {
    match b {
        BaseType::Holon => 0,
        BaseType::Collection => 1,
        BaseType::Composite => 2,
        BaseType::Relationship => 3,
        BaseType::Boolean => 4,
        BaseType::Integer => 5,
        BaseType::String => 6,
        BaseType::Enum => 7,
    }
}

/// The base type a tag byte names, if any.
pub open spec fn base_type_of_tag(t: u8) -> Option<BaseType> {
    if t == 0 {
        Some(BaseType::Holon)
    } else if t == 1 {
        Some(BaseType::Collection)
    } else if t == 2 {
        Some(BaseType::Composite)
    } else if t == 3 {
        Some(BaseType::Relationship)
    } else if t == 4 {
        Some(BaseType::Boolean)
    } else if t == 5 {
        Some(BaseType::Integer)
    } else if t == 6 {
        Some(BaseType::String)
    } else if t == 7 {
        Some(BaseType::Enum)
    } else {
        None
    }
}

/// The tag byte of an integer format.
pub open spec fn format_tag(f: IntegerFormat) -> u8 {
    match f {
        IntegerFormat::I8 => 0,
        IntegerFormat::I16 => 1,
        IntegerFormat::I32 => 2,
        IntegerFormat::I64 => 3,
        IntegerFormat::U8 => 4,
        IntegerFormat::U16 => 5,
        IntegerFormat::U32 => 6,
        IntegerFormat::U64 => 7,
    }
}

/// The integer format a tag byte names, if any.
pub open spec fn format_of_tag(t: u8) -> Option<IntegerFormat> {
    if t == 0 {
        Some(IntegerFormat::I8)
    } else if t == 1 {
        Some(IntegerFormat::I16)
    } else if t == 2 {
        Some(IntegerFormat::I32)
    } else if t == 3 {
        Some(IntegerFormat::I64)
    } else if t == 4 {
        Some(IntegerFormat::U8)
    } else if t == 5 {
        Some(IntegerFormat::U16)
    } else if t == 6 {
        Some(IntegerFormat::U32)
    } else if t == 7 {
        Some(IntegerFormat::U64)
    } else {
        None
    }
}

/// A string as its UTF-8 bytes behind a byte-count prefix.
pub open spec fn enc_str(s: Seq<char>) -> Seq<u8> {
    enc_u64(encode_utf8(s).len() as u64) + encode_utf8(s)
}

/// A header: name, base-type tag, description, label, the three version
/// parts, and the dependency flag.
pub open spec fn enc_header(h: HeaderModel) -> Seq<u8> {
    enc_str(h.name) + seq![base_type_tag(h.base_type)] + enc_str(h.description) + enc_str(h.label)
        + seq![h.version.major, h.version.minor, h.version.patch] + enc_bool(h.is_dependent)
}

/// A reference: presence flags and payloads for identifier and name.
pub open spec fn enc_reference(id: Option<Seq<u8>>, name: Option<Seq<char>>) -> Seq<u8> {
    (match id {
        None => seq![0u8],
        Some(bytes) => seq![1u8] + enc_u64(bytes.len() as u64) + bytes,
    }) + (match name {
        None => seq![0u8],
        Some(s) => seq![1u8] + enc_str(s),
    })
}

/// Sharing: a tag byte, and the reference where shared.
pub open spec fn enc_sharing(s: SharingModel) -> Seq<u8> {
    match s {
        SharingModel::Dedicated => seq![0u8],
        SharingModel::Shared(r) => seq![1u8] + enc_reference(r.id, r.name),
    }
}

/// Details: a variant tag byte and the variant's fields; a composite
/// carries a binding count and then each binding.
pub open spec fn enc_details(d: DetailsModel) -> Seq<u8>
    decreases d,
{
    match d {
        DetailsModel::Boolean { is_fuzzy } => seq![0u8] + enc_bool(is_fuzzy),
        DetailsModel::String { min_length, max_length } => seq![1u8] + enc_u32(min_length)
            + enc_u32(max_length),
        DetailsModel::Integer { format, min_value, max_value } => seq![2u8] + seq![
            format_tag(format),
        ] + enc_i64(min_value) + enc_i64(max_value),
        DetailsModel::Composite { entries } => seq![3u8] + enc_u64(entries.len() as u64)
            + enc_entry_seq(entries),
        DetailsModel::ValueCollection {
            contains_items_of_type,
            min_items,
            max_items,
            unique_items,
            is_ordered,
        } => seq![4u8] + enc_str(contains_items_of_type) + enc_u32(min_items) + enc_u32(max_items)
            + enc_bool(unique_items) + enc_bool(is_ordered),
    }
}

/// The bindings of a composite, first to last.
pub open spec fn enc_entry_seq(entries: Seq<EntryModel>) -> Seq<u8>
    decreases entries,
{
    if entries.len() == 0 {
        Seq::empty()
    } else {
        enc_entry(entries.first()) + enc_entry_seq(entries.drop_first())
    }
}

/// One binding: its name, then the usage.
pub open spec fn enc_entry(e: EntryModel) -> Seq<u8>
    decreases e,
{
    enc_str(e.name) + enc_usage(e.usage)
}

/// One usage: its metadata, the sharing, and the descriptor.
pub open spec fn enc_usage(u: UsageModel) -> Seq<u8>
    decreases u,
{
    enc_str(u.description) + enc_str(u.label) + enc_sharing(u.sharing) + enc_descriptor(
        u.descriptor,
    )
}

/// A whole property descriptor: header, then details.
pub open spec fn enc_descriptor(d: DescriptorModel) -> Seq<u8>
    decreases d,
{
    enc_header(d.header) + enc_details(d.details)
}

/// Whether a string's UTF-8 byte count fits the length prefix; every
/// string held in memory does.
pub open spec fn str_fits(s: Seq<char>) -> bool {
    encode_utf8(s).len() <= u64::MAX
}

/// Whether a header's strings fit their length prefixes.
pub open spec fn header_fits(h: HeaderModel) -> bool {
    str_fits(h.name) && str_fits(h.description) && str_fits(h.label)
}

/// The bytes of a composed value are the bytes it was composed from.
proof fn lemma_u64_of_le_bytes(b0: u8, b1: u8, b2: u8, b3: u8, b4: u8, b5: u8, b6: u8, b7: u8)
    ensures
        enc_u64(u64_of_le(b0, b1, b2, b3, b4, b5, b6, b7)) =~= seq![b0, b1, b2, b3, b4, b5, b6, b7],
{
    let v = u64_of_le(b0, b1, b2, b3, b4, b5, b6, b7);
    assert((v & 0xff) as u8 == b0 && ((v >> 8) & 0xff) as u8 == b1 && ((v >> 16) & 0xff) as u8
        == b2 && ((v >> 24) & 0xff) as u8 == b3 && ((v >> 32) & 0xff) as u8 == b4 && ((v >> 40)
        & 0xff) as u8 == b5 && ((v >> 48) & 0xff) as u8 == b6 && ((v >> 56) & 0xff) as u8 == b7)
        by (bit_vector)
        requires
            v == (b0 as u64) | ((b1 as u64) << 8) | ((b2 as u64) << 16) | ((b3 as u64) << 24) | ((
            b4 as u64) << 32) | ((b5 as u64) << 40) | ((b6 as u64) << 48) | ((b7 as u64) << 56),
    ;
}

/// The bytes of a composed 32-bit value are the bytes it was composed
/// from.
proof fn lemma_u32_of_le_bytes(b0: u8, b1: u8, b2: u8, b3: u8)
    ensures
        enc_u32(u32_of_le(b0, b1, b2, b3)) =~= seq![b0, b1, b2, b3],
{
    let v = u32_of_le(b0, b1, b2, b3);
    assert((v & 0xff) as u8 == b0 && ((v >> 8) & 0xff) as u8 == b1 && ((v >> 16) & 0xff) as u8
        == b2 && ((v >> 24) & 0xff) as u8 == b3) by (bit_vector)
        requires
            v == (b0 as u32) | ((b1 as u32) << 8) | ((b2 as u32) << 16) | ((b3 as u32) << 24),
    ;
}

/// Extending a binding sequence extends its encoding.
proof fn lemma_enc_entry_seq_snoc(entries: Seq<EntryModel>, e: EntryModel)
    ensures
        enc_entry_seq(entries.push(e)) =~= enc_entry_seq(entries) + enc_entry(e),
    decreases entries.len(),
{
    if entries.len() == 0 {
        assert(entries.push(e).first() == e);
        assert(entries.push(e).drop_first() =~= Seq::<EntryModel>::empty());
        assert(enc_entry_seq(Seq::<EntryModel>::empty()) =~= Seq::<u8>::empty());
    } else {
        assert(entries.push(e).first() == entries.first());
        assert(entries.push(e).drop_first() =~= entries.drop_first().push(e));
        lemma_enc_entry_seq_snoc(entries.drop_first(), e);
    }
}

/// Appends the eight little-endian bytes of a value.
fn write_u64(out: &mut Vec<u8>, v: u64)
    ensures
        final(out)@ =~= old(out)@ + enc_u64(v),
{
    out.push((v & 0xff) as u8);
    out.push(((v >> 8) & 0xff) as u8);
    out.push(((v >> 16) & 0xff) as u8);
    out.push(((v >> 24) & 0xff) as u8);
    out.push(((v >> 32) & 0xff) as u8);
    out.push(((v >> 40) & 0xff) as u8);
    out.push(((v >> 48) & 0xff) as u8);
    out.push(((v >> 56) & 0xff) as u8);
}

/// Appends the four little-endian bytes of a value.
fn write_u32(out: &mut Vec<u8>, v: u32)
    ensures
        final(out)@ =~= old(out)@ + enc_u32(v),
{
    out.push((v & 0xff) as u8);
    out.push(((v >> 8) & 0xff) as u8);
    out.push(((v >> 16) & 0xff) as u8);
    out.push(((v >> 24) & 0xff) as u8);
}

/// Appends a signed value's two's-complement bytes.
fn write_i64(out: &mut Vec<u8>, v: i64)
    ensures
        final(out)@ =~= old(out)@ + enc_i64(v),
{
    write_u64(out, #[verifier::truncate] (v as u64));
}

/// Appends one flag byte.
fn write_bool(out: &mut Vec<u8>, b: bool)
    ensures
        final(out)@ =~= old(out)@ + enc_bool(b),
{
    if b {
        out.push(1u8);
    } else {
        out.push(0u8);
    }
}

/// Appends a string's UTF-8 bytes behind their count.
fn write_str(out: &mut Vec<u8>, s: &String)
    ensures
        final(out)@ =~= old(out)@ + enc_str(s@),
        str_fits(s@),
{
    let bytes = s.as_str().as_bytes();
    let n = bytes.len();
    write_u64(out, n as u64);
    let mut i: usize = 0;
    while i < n
        invariant
            0 <= i <= n,
            n == bytes@.len(),
            bytes@ == encode_utf8(s@),
            out@ =~= old(out)@ + enc_u64(n as u64) + encode_utf8(s@).subrange(0, i as int),
        decreases n - i,
    {
        out.push(bytes[i]);
        i = i + 1;
    }
    proof {
        assert(encode_utf8(s@).subrange(0, n as int) =~= encode_utf8(s@));
        assert(out@ =~= old(out)@ + enc_str(s@));
    }
}

/// Appends a header.
fn write_header(out: &mut Vec<u8>, h: &crate::type_header::TypeHeader)
    ensures
        final(out)@ =~= old(out)@ + enc_header(h.deep_view()),
        header_fits(h.deep_view()),
{
    write_str(out, &h.name);
    let tag: u8 = match h.base_type {
        BaseType::Holon => 0,
        BaseType::Collection => 1,
        BaseType::Composite => 2,
        BaseType::Relationship => 3,
        BaseType::Boolean => 4,
        BaseType::Integer => 5,
        BaseType::String => 6,
        BaseType::Enum => 7,
    };
    out.push(tag);
    write_str(out, &h.description);
    write_str(out, &h.label);
    out.push(h.version.major);
    out.push(h.version.minor);
    out.push(h.version.patch);
    write_bool(out, h.is_dependent);
    proof {
        assert(out@ =~= old(out)@ + enc_header(h.deep_view()));
    }
}

/// Appends a reference's presence flags and payloads.
fn write_reference(out: &mut Vec<u8>, r: &crate::holon_descriptor::HolonReference)
    ensures
        final(out)@ =~= old(out)@ + enc_reference(r.id.deep_view(), r.name.deep_view()),
        r.id.deep_view() matches Some(b) ==> b.len() <= u64::MAX,
        r.name.deep_view() matches Some(t) ==> str_fits(t),
{
    match &r.id {
        None => {
            out.push(0u8);
        },
        Some(id) => {
            out.push(1u8);
            let n = id.bytes.len();
            write_u64(out, n as u64);
            let mut i: usize = 0;
            while i < n
                invariant
                    0 <= i <= n,
                    n == id.bytes@.len(),
                    out@ =~= old(out)@ + seq![1u8] + enc_u64(n as u64) + id.bytes@.subrange(
                        0,
                        i as int,
                    ),
                decreases n - i,
            {
                out.push(id.bytes[i]);
                i = i + 1;
            }
            proof {
                assert(id.bytes@.subrange(0, n as int) =~= id.bytes@);
                assert(id.bytes@ =~= id.deep_view());
            }
        },
    }
    match &r.name {
        None => {
            out.push(0u8);
        },
        Some(s) => {
            out.push(1u8);
            write_str(out, s);
        },
    }
    proof {
        assert(out@ =~= old(out)@ + enc_reference(r.id.deep_view(), r.name.deep_view()));
    }
}

/// Appends a sharing declaration.
fn write_sharing(out: &mut Vec<u8>, s: &DescriptorSharing)
    ensures
        final(out)@ =~= old(out)@ + enc_sharing(s.deep_view()),
        fits_sharing(s.deep_view()),
{
    match s {
        DescriptorSharing::Dedicated => {
            out.push(0u8);
        },
        DescriptorSharing::Shared(r) => {
            out.push(1u8);
            write_reference(out, r);
        },
    }
}

/// Appends descriptor details, nested composites included.
#[verifier::rlimit(50)]
#[verifier::spinoff_prover]
fn write_details(out: &mut Vec<u8>, d: &PropertyDescriptorDetails)
    ensures
        final(out)@ =~= old(out)@ + enc_details(d.model()),
        fits_details(d.model()),
    decreases *d,
{
    match d {
        PropertyDescriptorDetails::Boolean(b) => {
            out.push(0u8);
            write_bool(out, b.is_fuzzy);
        },
        PropertyDescriptorDetails::String(s) => {
            out.push(1u8);
            write_u32(out, s.min_length);
            write_u32(out, s.max_length);
        },
        PropertyDescriptorDetails::Integer(i) => {
            out.push(2u8);
            let tag: u8 = match i.format {
                IntegerFormat::I8 => 0,
                IntegerFormat::I16 => 1,
                IntegerFormat::I32 => 2,
                IntegerFormat::I64 => 3,
                IntegerFormat::U8 => 4,
                IntegerFormat::U16 => 5,
                IntegerFormat::U32 => 6,
                IntegerFormat::U64 => 7,
            };
            out.push(tag);
            write_i64(out, i.min_value);
            write_i64(out, i.max_value);
        },
        PropertyDescriptorDetails::Composite(c) => {
            out.push(3u8);
            let n = c.property_map.properties.len();
            write_u64(out, n as u64);
            let mut i: usize = 0;
            while i < n
                invariant
                    0 <= i <= n,
                    n == c.property_map.properties@.len(),
                    *d == PropertyDescriptorDetails::Composite(*c),
                    fits_entries(c.property_map.model().take(i as int)),
                    out@ =~= old(out)@ + seq![3u8] + enc_u64(n as u64) + enc_entry_seq(
                        c.property_map.model().take(i as int),
                    ),
                decreases n - i,
            {
                proof {
                    broadcast use vstd::std_specs::vec::group_vec_axioms;

                    lemma_enc_entry_seq_snoc(
                        c.property_map.model().take(i as int),
                        c.property_map.model()[i as int],
                    );
                    assert(c.property_map.model().take(i as int).push(
                        c.property_map.model()[i as int],
                    ) =~= c.property_map.model().take(i as int + 1));
                    assert(decreases_to!(*d => d->Composite_0));
                    assert(d->Composite_0 == *c);
                    assert(decreases_to!(*c => c.property_map.properties));
                    assert(decreases_to!(c.property_map.properties => c.property_map.properties[i as int]));
                    assert(decreases_to!(*d => c.property_map.properties[i as int]));
                }
                write_entry(out, &c.property_map.properties[i]);
                proof {
                    lemma_fits_entries_snoc(
                        c.property_map.model().take(i as int),
                        c.property_map.model()[i as int],
                    );
                }
                i = i + 1;
            }
            proof {
                assert(c.property_map.model().take(n as int) =~= c.property_map.model());
                assert(out@ =~= old(out)@ + enc_details(d.model()));
                assert(fits_details(d.model()));
            }
        },
        PropertyDescriptorDetails::ValueCollection(v) => {
            out.push(4u8);
            write_str(out, &v.contains_items_of_type);
            write_u32(out, v.min_items);
            write_u32(out, v.max_items);
            write_bool(out, v.unique_items);
            write_bool(out, v.is_ordered);
            proof {
                assert(out@ =~= old(out)@ + enc_details(d.model()));
            }
        },
    }
}

/// Appends one binding.
fn write_entry(out: &mut Vec<u8>, e: &PropertyEntry)
    ensures
        final(out)@ =~= old(out)@ + enc_entry(e.model()),
        fits_entry(e.model()),
    decreases *e,
{
    write_str(out, &e.name);
    write_usage(out, &e.usage);
}

/// Appends one usage.
fn write_usage(out: &mut Vec<u8>, u: &PropertyDescriptorUsage)
    ensures
        final(out)@ =~= old(out)@ + enc_usage(u.model()),
        fits_usage(u.model()),
    decreases *u,
{
    write_str(out, &u.description);
    write_str(out, &u.label);
    write_sharing(out, &u.sharing);
    write_descriptor(out, &u.descriptor);
}

/// Appends a whole descriptor.
fn write_descriptor(out: &mut Vec<u8>, d: &PropertyDescriptor)
    ensures
        final(out)@ =~= old(out)@ + enc_descriptor(d.model()),
        fits_descriptor(d.model()),
    decreases *d,
{
    write_header(out, &d.header);
    write_details(out, &d.details);
}

/// Serializes a descriptor into the wire format.
#[verifier::spinoff_prover]
pub fn serialize_property_descriptor(d: &PropertyDescriptor) -> (r: Vec<u8>)
    ensures
        r@ == enc_descriptor(d.model()),
        fits_descriptor(d.model()),
{
    let mut out: Vec<u8> = Vec::new();
    write_header(&mut out, &d.header);
    write_details(&mut out, &d.details);
    proof {
        assert(out@ =~= enc_descriptor(d.model()));
    }
    out
}


/// Relies on String::from_utf8: it succeeds exactly on valid UTF-8 and
/// the returned string holds those bytes' characters.
#[verifier::external_body]
fn string_from_utf8(bytes: Vec<u8>) -> (r: Option<String>)
    ensures
        r is Some <==> valid_utf8(bytes@),
        r matches Some(s) ==> s@ == decode_utf8(bytes@),
{
    String::from_utf8(bytes).ok()
}

/// One byte, if present.
pub open spec fn dec_u8(s: Seq<u8>, pos: int) -> Option<(u8, int)> {
    if 0 <= pos && pos + 1 <= s.len() {
        Some((s[pos], pos + 1))
    } else {
        None
    }
}

/// One flag byte; only the two flag values decode.
pub open spec fn dec_bool(s: Seq<u8>, pos: int) -> Option<(bool, int)> {
    match dec_u8(s, pos) {
        None => None,
        Some((b, p)) => if b == 0 {
            Some((false, p))
        } else if b == 1 {
            Some((true, p))
        } else {
            None
        },
    }
}

/// Four little-endian bytes, if present.
pub open spec fn dec_u32(s: Seq<u8>, pos: int) -> Option<(u32, int)> {
    if 0 <= pos && pos + 4 <= s.len() {
        Some((u32_of_le(s[pos], s[pos + 1], s[pos + 2], s[pos + 3]), pos + 4))
    } else {
        None
    }
}

/// Eight little-endian bytes, if present.
pub open spec fn dec_u64(s: Seq<u8>, pos: int) -> Option<(u64, int)> {
    if 0 <= pos && pos + 8 <= s.len() {
        Some(
            (
                u64_of_le(
                    s[pos],
                    s[pos + 1],
                    s[pos + 2],
                    s[pos + 3],
                    s[pos + 4],
                    s[pos + 5],
                    s[pos + 6],
                    s[pos + 7],
                ),
                pos + 8,
            ),
        )
    } else {
        None
    }
}

/// Eight bytes as a signed value.
pub open spec fn dec_i64(s: Seq<u8>, pos: int) -> Option<(i64, int)> {
    match dec_u64(s, pos) {
        None => None,
        Some((v, p)) => Some((v as i64, p)),
    }
}

/// A counted UTF-8 string, if its bytes are present and valid.
pub open spec fn dec_str(s: Seq<u8>, pos: int) -> Option<(Seq<char>, int)> {
    match dec_u64(s, pos) {
        None => None,
        Some((l, p)) => if p + l <= s.len() && valid_utf8(s.subrange(p, p + l)) {
            Some((decode_utf8(s.subrange(p, p + l)), p + l))
        } else {
            None
        },
    }
}

/// The three string fields of a header.
pub open spec fn dec_header_strings(s: Seq<u8>, pos: int) -> Option<
    ((Seq<char>, u8, Seq<char>, Seq<char>), int),
> {
    match dec_str(s, pos) {
        None => None,
        Some((name, p1)) => match dec_u8(s, p1) {
            None => None,
            Some((tag, p2)) => match dec_str(s, p2) {
                None => None,
                Some((description, p3)) => match dec_str(s, p3) {
                    None => None,
                    Some((label, p4)) => Some(((name, tag, description, label), p4)),
                },
            },
        },
    }
}

/// The version triple and dependency flag of a header.
pub open spec fn dec_header_tail(s: Seq<u8>, pos: int) -> Option<((u8, u8, u8, bool), int)> {
    match dec_u8(s, pos) {
        None => None,
        Some((major, p1)) => match dec_u8(s, p1) {
            None => None,
            Some((minor, p2)) => match dec_u8(s, p2) {
                None => None,
                Some((patch, p3)) => match dec_bool(s, p3) {
                    None => None,
                    Some((dep, p4)) => Some(((major, minor, patch, dep), p4)),
                },
            },
        },
    }
}

/// A whole header, if present and its base-type tag is known.
pub open spec fn dec_header(s: Seq<u8>, pos: int) -> Option<(HeaderModel, int)> {
    match dec_header_strings(s, pos) {
        None => None,
        Some(((name, tag, description, label), p1)) => match base_type_of_tag(tag) {
            None => None,
            Some(base_type) => match dec_header_tail(s, p1) {
                None => None,
                Some(((major, minor, patch, is_dependent), p2)) => Some(
                    (
                        HeaderModel {
                            name,
                            base_type,
                            description,
                            label,
                            version: SemanticVersion { major, minor, patch },
                            is_dependent,
                        },
                        p2,
                    ),
                ),
            },
        },
    }
}

/// The boolean details payload.
pub open spec fn dec_boolean_details(s: Seq<u8>, pos: int) -> Option<(DetailsModel, int)> {
    match dec_bool(s, pos) {
        None => None,
        Some((is_fuzzy, p)) => Some((DetailsModel::Boolean { is_fuzzy }, p)),
    }
}

/// The string details payload.
pub open spec fn dec_string_details(s: Seq<u8>, pos: int) -> Option<(DetailsModel, int)> {
    match dec_u32(s, pos) {
        None => None,
        Some((min_length, p1)) => match dec_u32(s, p1) {
            None => None,
            Some((max_length, p2)) => Some((DetailsModel::String { min_length, max_length }, p2)),
        },
    }
}

/// The integer details payload.
pub open spec fn dec_integer_details(s: Seq<u8>, pos: int) -> Option<(DetailsModel, int)> {
    match dec_u8(s, pos) {
        None => None,
        Some((ftag, p1)) => match format_of_tag(ftag) {
            None => None,
            Some(format) => match dec_i64(s, p1) {
                None => None,
                Some((min_value, p2)) => match dec_i64(s, p2) {
                    None => None,
                    Some((max_value, p3)) => Some(
                        (DetailsModel::Integer { format, min_value, max_value }, p3),
                    ),
                },
            },
        },
    }
}

/// The value-collection details payload.
pub open spec fn dec_collection_details(s: Seq<u8>, pos: int) -> Option<(DetailsModel, int)> {
    match dec_str(s, pos) {
        None => None,
        Some((contains_items_of_type, p1)) => match dec_u32(s, p1) {
            None => None,
            Some((min_items, p2)) => match dec_u32(s, p2) {
                None => None,
                Some((max_items, p3)) => match dec_bool(s, p3) {
                    None => None,
                    Some((unique_items, p4)) => match dec_bool(s, p4) {
                        None => None,
                        Some((is_ordered, p5)) => Some(
                            (
                                DetailsModel::ValueCollection {
                                    contains_items_of_type,
                                    min_items,
                                    max_items,
                                    unique_items,
                                    is_ordered,
                                },
                                p5,
                            ),
                        ),
                    },
                },
            },
        },
    }
}

/// An optional identifier payload and an optional name, behind their
/// presence flags.
pub open spec fn dec_reference(s: Seq<u8>, pos: int) -> Option<(ReferenceModel, int)> {
    match dec_u8(s, pos) {
        None => None,
        Some((id_flag, p1)) => {
            let id_part: Option<(Option<Seq<u8>>, int)> = if id_flag == 0 {
                Some((None, p1))
            } else if id_flag == 1 {
                match dec_u64(s, p1) {
                    None => None,
                    Some((l, p2)) => if p2 + l <= s.len() {
                        Some((Some(s.subrange(p2, p2 + l)), p2 + l))
                    } else {
                        None
                    },
                }
            } else {
                None
            };
            match id_part {
                None => None,
                Some((id, p3)) => match dec_u8(s, p3) {
                    None => None,
                    Some((name_flag, p4)) => if name_flag == 0 {
                        Some((ReferenceModel { id, name: None }, p4))
                    } else if name_flag == 1 {
                        match dec_str(s, p4) {
                            None => None,
                            Some((name, p5)) => Some(
                                (ReferenceModel { id, name: Some(name) }, p5),
                            ),
                        }
                    } else {
                        None
                    },
                },
            }
        },
    }
}

/// Sharing: a tag byte, then the reference where shared.
pub open spec fn dec_sharing(s: Seq<u8>, pos: int) -> Option<(SharingModel, int)> {
    match dec_u8(s, pos) {
        None => None,
        Some((tag, p1)) => if tag == 0 {
            Some((SharingModel::Dedicated, p1))
        } else if tag == 1 {
            match dec_reference(s, p1) {
                None => None,
                Some((r, p2)) => Some((SharingModel::Shared(r), p2)),
            }
        } else {
            None
        },
    }
}

/// Details of every kind; a composite's bindings are decoded by mutual
/// recursion with the whole-descriptor decoder.  The positions handed
/// to a recursive call always advance, and the definitions refuse (as
/// they never see on real input) a non-advancing position, which bounds
/// the recursion by the bytes left.
pub open spec fn dec_details_full(s: Seq<u8>, pos: int) -> Option<(DetailsModel, int)>
    decreases s.len() - pos, 0int,
{
    match dec_u8(s, pos) {
        None => None,
        Some((tag, p)) => if tag == 0 {
            dec_boolean_details(s, p)
        } else if tag == 1 {
            dec_string_details(s, p)
        } else if tag == 2 {
            dec_integer_details(s, p)
        } else if tag == 3 {
            match dec_u64(s, p) {
                None => None,
                Some((n, p2)) => if p2 <= pos || s.len() < p2 {
                    None
                } else {
                    match dec_entries(s, p2, n as nat) {
                        None => None,
                        Some((entries, p3)) => Some((DetailsModel::Composite { entries }, p3)),
                    }
                },
            }
        } else if tag == 4 {
            dec_collection_details(s, p)
        } else {
            None
        },
    }
}

/// Exactly `n` bindings, one after another.
pub open spec fn dec_entries(s: Seq<u8>, pos: int, n: nat) -> Option<(Seq<EntryModel>, int)>
    decreases s.len() - pos, 1int,
{
    if n == 0 {
        Some((Seq::empty(), pos))
    } else if pos < 0 || s.len() < pos {
        None
    } else {
        match dec_entry(s, pos) {
            None => None,
            Some((e, p1)) => if p1 <= pos || s.len() < p1 {
                None
            } else {
                match dec_entries(s, p1, (n - 1) as nat) {
                    None => None,
                    Some((rest, p2)) => Some((seq![e] + rest, p2)),
                }
            },
        }
    }
}

/// One binding: its name, then the usage.
pub open spec fn dec_entry(s: Seq<u8>, pos: int) -> Option<(EntryModel, int)>
    decreases s.len() - pos, 0int,
{
    match dec_str(s, pos) {
        None => None,
        Some((name, p1)) => if p1 <= pos || s.len() < p1 {
            None
        } else {
            match dec_usage(s, p1) {
                None => None,
                Some((usage, p2)) => Some((EntryModel { name, usage }, p2)),
            }
        },
    }
}

/// One usage: its metadata, the sharing, and the descriptor.
pub open spec fn dec_usage(s: Seq<u8>, pos: int) -> Option<(UsageModel, int)>
    decreases s.len() - pos, 0int,
{
    match dec_str(s, pos) {
        None => None,
        Some((description, p1)) => match dec_str(s, p1) {
            None => None,
            Some((label, p2)) => match dec_sharing(s, p2) {
                None => None,
                Some((sharing, p3)) => if p3 <= pos || s.len() < p3 {
                    None
                } else {
                    match dec_descriptor_full(s, p3) {
                        None => None,
                        Some((descriptor, p4)) => Some(
                            (UsageModel { description, descriptor, label, sharing }, p4),
                        ),
                    }
                },
            },
        },
    }
}

/// A whole descriptor: header, then details of any kind.
pub open spec fn dec_descriptor_full(s: Seq<u8>, pos: int) -> Option<(DescriptorModel, int)>
    decreases s.len() - pos, 0int,
{
    match dec_header(s, pos) {
        None => None,
        Some((header, p1)) => if p1 <= pos || s.len() < p1 {
            None
        } else {
            match dec_details_full(s, p1) {
                None => None,
                Some((details, p2)) => Some((DescriptorModel { header, details }, p2)),
            }
        },
    }
}

/// Whether a string's encoding, an identifier, or a binding count fits
/// its length prefix, through the whole structure; everything held in
/// memory does.
pub open spec fn fits_descriptor(m: DescriptorModel) -> bool
    decreases m,
{
    header_fits(m.header) && fits_details(m.details)
}

/// The details-level part of [`fits_descriptor`].
pub open spec fn fits_details(d: DetailsModel) -> bool
    decreases d,
{
    match d {
        DetailsModel::Composite { entries } => entries.len() <= u64::MAX && fits_entries(entries),
        DetailsModel::ValueCollection { contains_items_of_type, .. } => str_fits(
            contains_items_of_type,
        ),
        _ => true,
    }
}

/// The binding-sequence part of [`fits_descriptor`].
pub open spec fn fits_entries(entries: Seq<EntryModel>) -> bool
    decreases entries,
{
    entries.len() == 0 || (fits_entry(entries.first()) && fits_entries(entries.drop_first()))
}

/// The binding-level part of [`fits_descriptor`].
pub open spec fn fits_entry(e: EntryModel) -> bool
    decreases e,
{
    str_fits(e.name) && fits_usage(e.usage)
}

/// The usage-level part of [`fits_descriptor`].
pub open spec fn fits_usage(u: UsageModel) -> bool
    decreases u,
{
    str_fits(u.description) && str_fits(u.label) && fits_sharing(u.sharing) && fits_descriptor(
        u.descriptor,
    )
}

/// The sharing-level part of [`fits_descriptor`].
pub open spec fn fits_sharing(sh: SharingModel) -> bool {
    match sh {
        SharingModel::Shared(r) => (r.id matches Some(bytes) ==> bytes.len() <= u64::MAX) && (
        r.name matches Some(n) ==> str_fits(n)),
        SharingModel::Dedicated => true,
    }
}


/// Reads one byte.
fn read_u8(bytes: &Vec<u8>, pos: usize) -> (r: Result<(u8, usize), DescriptorsError>)
    ensures
        match r {
            Ok((v, p)) => dec_u8(bytes@, pos as int) == Some((v, p as int)) && p == pos + 1,
            Err(_) => dec_u8(bytes@, pos as int) is None,
        },
{
    if pos < bytes.len() {
        Ok((bytes[pos], pos + 1))
    } else {
        Err(DescriptorsError::InvalidEncoding(String::from_str("byte")))
    }
}

/// Reads one flag byte.
fn read_bool(bytes: &Vec<u8>, pos: usize) -> (r: Result<(bool, usize), DescriptorsError>)
    ensures
        match r {
            Ok((v, p)) => dec_bool(bytes@, pos as int) == Some((v, p as int)) && p == pos + 1
                && enc_bool(v) =~= bytes@.subrange(pos as int, p as int),
            Err(_) => dec_bool(bytes@, pos as int) is None,
        },
{
    match read_u8(bytes, pos) {
        Err(e) => Err(e),
        Ok((b, p)) => {
            if b == 0 {
                Ok((false, p))
            } else if b == 1 {
                Ok((true, p))
            } else {
                Err(DescriptorsError::InvalidEncoding(String::from_str("flag")))
            }
        },
    }
}

/// Reads four little-endian bytes.
fn read_u32(bytes: &Vec<u8>, pos: usize) -> (r: Result<(u32, usize), DescriptorsError>)
    ensures
        match r {
            Ok((v, p)) => dec_u32(bytes@, pos as int) == Some((v, p as int)) && p == pos + 4
                && enc_u32(v) =~= bytes@.subrange(pos as int, p as int),
            Err(_) => dec_u32(bytes@, pos as int) is None,
        },
{
    if pos < bytes.len() && bytes.len() - pos >= 4 {
        let b0 = bytes[pos];
        let b1 = bytes[pos + 1];
        let b2 = bytes[pos + 2];
        let b3 = bytes[pos + 3];
        let v = (b0 as u32) | ((b1 as u32) << 8u32) | ((b2 as u32) << 16u32) | ((b3
            as u32) << 24u32);
        proof {
            lemma_u32_of_le_bytes(b0, b1, b2, b3);
            assert(enc_u32(v) =~= bytes@.subrange(pos as int, pos + 4));
        }
        Ok((v, pos + 4))
    } else {
        Err(DescriptorsError::InvalidEncoding(String::from_str("word")))
    }
}

/// Reads eight little-endian bytes.
fn read_u64(bytes: &Vec<u8>, pos: usize) -> (r: Result<(u64, usize), DescriptorsError>)
    ensures
        match r {
            Ok((v, p)) => dec_u64(bytes@, pos as int) == Some((v, p as int)) && p == pos + 8
                && enc_u64(v) =~= bytes@.subrange(pos as int, p as int),
            Err(_) => dec_u64(bytes@, pos as int) is None,
        },
{
    if pos < bytes.len() && bytes.len() - pos >= 8 {
        let b0 = bytes[pos];
        let b1 = bytes[pos + 1];
        let b2 = bytes[pos + 2];
        let b3 = bytes[pos + 3];
        let b4 = bytes[pos + 4];
        let b5 = bytes[pos + 5];
        let b6 = bytes[pos + 6];
        let b7 = bytes[pos + 7];
        let v = (b0 as u64) | ((b1 as u64) << 8u64) | ((b2 as u64) << 16u64) | ((b3
            as u64) << 24u64) | ((b4 as u64) << 32u64) | ((b5 as u64) << 40u64) | ((b6
            as u64) << 48u64) | ((b7 as u64) << 56u64);
        proof {
            lemma_u64_of_le_bytes(b0, b1, b2, b3, b4, b5, b6, b7);
            assert(enc_u64(v) =~= bytes@.subrange(pos as int, pos + 8));
        }
        Ok((v, pos + 8))
    } else {
        Err(DescriptorsError::InvalidEncoding(String::from_str("count")))
    }
}

/// Reads a signed value's bytes.
fn read_i64(bytes: &Vec<u8>, pos: usize) -> (r: Result<(i64, usize), DescriptorsError>)
    ensures
        match r {
            Ok((v, p)) => dec_i64(bytes@, pos as int) == Some((v, p as int)) && p == pos + 8
                && enc_i64(v) =~= bytes@.subrange(pos as int, p as int),
            Err(_) => dec_i64(bytes@, pos as int) is None,
        },
{
    match read_u64(bytes, pos) {
        Err(e) => Err(e),
        Ok((w, p)) => {
            let v = #[verifier::truncate] (w as i64);
            proof {
                assert(v as u64 == w) by (bit_vector)
                    requires
                        v == w as i64,
                ;
            }
            Ok((v, p))
        },
    }
}

/// Reads a counted UTF-8 string.
#[verifier::spinoff_prover]
fn read_string(bytes: &Vec<u8>, pos: usize) -> (r: Result<(String, usize), DescriptorsError>)
    ensures
        match r {
            Ok((s, p)) => {
                &&& dec_str(bytes@, pos as int) == Some((s@, p as int))
                &&& enc_str(s@) =~= bytes@.subrange(pos as int, p as int)
                &&& str_fits(s@)
                &&& pos < p <= bytes@.len()
            },
            Err(_) => dec_str(bytes@, pos as int) is None,
        },
{
    broadcast use vstd::utf8::decode_utf8_encode_utf8;

    match read_u64(bytes, pos) {
        Err(e) => Err(e),
        Ok((l, p)) => {
            let remaining = bytes.len() - p;
            if l > remaining as u64 {
                return Err(DescriptorsError::InvalidEncoding(String::from_str("text length")));
            }
            let l_us = l as usize;
            let mut sub: Vec<u8> = Vec::new();
            let mut i: usize = 0;
            while i < l_us
                invariant
                    0 <= i <= l_us,
                    p + l_us <= bytes@.len(),
                    p + l_us <= usize::MAX,
                    sub@ =~= bytes@.subrange(p as int, p + i),
                decreases l_us - i,
            {
                sub.push(bytes[p + i]);
                i = i + 1;
            }
            proof {
                assert(sub@ =~= bytes@.subrange(p as int, p + l_us));
            }
            match string_from_utf8(sub) {
                None => {
                    proof {
                        assert(!valid_utf8(bytes@.subrange(p as int, p + l)));
                    }
                    Err(DescriptorsError::InvalidEncoding(String::from_str("text")))
                },
                Some(s) => {
                    proof {
                        let seg = bytes@.subrange(p as int, p + l);
                        assert(s@ == decode_utf8(seg));
                        assert(encode_utf8(s@) == seg);
                        assert(enc_u64(l) =~= bytes@.subrange(pos as int, p as int));
                        assert(enc_str(s@) =~= bytes@.subrange(pos as int, p + l));
                    }
                    Ok((s, p + l_us))
                },
            }
        },
    }
}

/// Reads a header.
#[verifier::rlimit(100)]
#[verifier::spinoff_prover]
fn read_header(bytes: &Vec<u8>, pos: usize) -> (r: Result<
    (crate::type_header::TypeHeader, usize),
    DescriptorsError,
>)
    ensures
        match r {
            Ok((h, p)) => {
                &&& dec_header(bytes@, pos as int) == Some((h.deep_view(), p as int))
                &&& enc_header(h.deep_view()) =~= bytes@.subrange(pos as int, p as int)
                &&& header_fits(h.deep_view())
                &&& pos < p <= bytes@.len()
            },
            Err(_) => dec_header(bytes@, pos as int) is None,
        },
{
    let (name, p1) = match read_string(bytes, pos) {
        Ok(v) => v,
        Err(e) => {
            return Err(e);
        },
    };
    let (tag, p2) = match read_u8(bytes, p1) {
        Ok(v) => v,
        Err(e) => {
            return Err(e);
        },
    };
    let base_type = if tag == 0 {
        BaseType::Holon
    } else if tag == 1 {
        BaseType::Collection
    } else if tag == 2 {
        BaseType::Composite
    } else if tag == 3 {
        BaseType::Relationship
    } else if tag == 4 {
        BaseType::Boolean
    } else if tag == 5 {
        BaseType::Integer
    } else if tag == 6 {
        BaseType::String
    } else if tag == 7 {
        BaseType::Enum
    } else {
        return Err(DescriptorsError::InvalidEncoding(String::from_str("base type tag")));
    };
    let (description, p3) = match read_string(bytes, p2) {
        Ok(v) => v,
        Err(e) => {
            return Err(e);
        },
    };
    let (label, p4) = match read_string(bytes, p3) {
        Ok(v) => v,
        Err(e) => {
            return Err(e);
        },
    };
    let (major, p5) = match read_u8(bytes, p4) {
        Ok(v) => v,
        Err(e) => {
            return Err(e);
        },
    };
    let (minor, p6) = match read_u8(bytes, p5) {
        Ok(v) => v,
        Err(e) => {
            return Err(e);
        },
    };
    let (patch, p7) = match read_u8(bytes, p6) {
        Ok(v) => v,
        Err(e) => {
            return Err(e);
        },
    };
    let (is_dependent, p8) = match read_bool(bytes, p7) {
        Ok(v) => v,
        Err(e) => {
            return Err(e);
        },
    };
    let h = crate::type_header::TypeHeader {
        name,
        base_type,
        description,
        label,
        version: SemanticVersion { major, minor, patch },
        is_dependent,
    };
    proof {
        assert(enc_header(h.deep_view()) =~= bytes@.subrange(pos as int, p8 as int));
    }
    Ok((h, p8))
}


/// Reads a reference.
fn read_reference(bytes: &Vec<u8>, pos: usize) -> (r: Result<
    (crate::holon_descriptor::HolonReference, usize),
    DescriptorsError,
>)
    ensures
        match r {
            Ok((h, p)) => {
                &&& enc_reference(h.id.deep_view(), h.name.deep_view()) =~= bytes@.subrange(
                    pos as int,
                    p as int,
                )
                &&& pos < p <= bytes@.len()
                &&& dec_reference(bytes@, pos as int) == Some((h.deep_view(), p as int))
                &&& h.id matches Some(i) ==> i.bytes@.len() <= u64::MAX
                &&& h.name matches Some(n) ==> str_fits(n@)
            },
            Err(_) => dec_reference(bytes@, pos as int) is None,
        },
{
    let (id_flag, p1) = match read_u8(bytes, pos) {
        Ok(v) => v,
        Err(e) => {
            return Err(e);
        },
    };
    let (id, p2) = if id_flag == 0 {
        (None, p1)
    } else if id_flag == 1 {
        let (n, q) = match read_u64(bytes, p1) {
            Ok(v) => v,
            Err(e) => {
                return Err(e);
            },
        };
        let remaining = bytes.len() - q;
        if n > remaining as u64 {
            return Err(DescriptorsError::InvalidEncoding(String::from_str("identifier length")));
        }
        let n_us = n as usize;
        let mut id_bytes: Vec<u8> = Vec::new();
        let mut i: usize = 0;
        while i < n_us
            invariant
                0 <= i <= n_us,
                q + n_us <= bytes@.len(),
                q + n_us <= usize::MAX,
                id_bytes@ =~= bytes@.subrange(q as int, q + i),
            decreases n_us - i,
        {
            id_bytes.push(bytes[q + i]);
            i = i + 1;
        }
        proof {
            assert(id_bytes@ =~= bytes@.subrange(q as int, q + n_us));
        }
        (Some(HolonId { bytes: id_bytes }), q + n_us)
    } else {
        return Err(DescriptorsError::InvalidEncoding(String::from_str("identifier flag")));
    };
    let (name, p3) = match read_u8(bytes, p2) {
        Ok(v) => v,
        Err(e) => {
            return Err(e);
        },
    };
    let (name, p4) = if name == 0 {
        (None, p3)
    } else if name == 1 {
        let (s, q) = match read_string(bytes, p3) {
            Ok(v) => v,
            Err(e) => {
                return Err(e);
            },
        };
        (Some(s), q)
    } else {
        return Err(DescriptorsError::InvalidEncoding(String::from_str("name flag")));
    };
    let h = crate::holon_descriptor::HolonReference { id, name };
    proof {
        assert(enc_reference(h.id.deep_view(), h.name.deep_view()) =~= bytes@.subrange(
            pos as int,
            p4 as int,
        ));
    }
    Ok((h, p4))
}

/// Reads a sharing declaration.
fn read_sharing(bytes: &Vec<u8>, pos: usize) -> (r: Result<(DescriptorSharing, usize), DescriptorsError>)
    ensures
        match r {
            Ok((sh, p)) => {
                &&& enc_sharing(sh.deep_view()) =~= bytes@.subrange(pos as int, p as int)
                &&& pos < p <= bytes@.len()
                &&& dec_sharing(bytes@, pos as int) == Some((sh.deep_view(), p as int))
                &&& fits_sharing(sh.deep_view())
            },
            Err(_) => dec_sharing(bytes@, pos as int) is None,
        },
{
    let (tag, p1) = match read_u8(bytes, pos) {
        Ok(v) => v,
        Err(e) => {
            return Err(e);
        },
    };
    if tag == 0 {
        proof {
            assert(enc_sharing(SharingModel::Dedicated) =~= bytes@.subrange(pos as int, p1 as int));
        }
        Ok((DescriptorSharing::Dedicated, p1))
    } else if tag == 1 {
        let (h, p2) = match read_reference(bytes, p1) {
            Ok(v) => v,
            Err(e) => {
                return Err(e);
            },
        };
        let sh = DescriptorSharing::Shared(h);
        proof {
            assert(enc_sharing(sh.deep_view()) =~= bytes@.subrange(pos as int, p2 as int));
        }
        Ok((sh, p2))
    } else {
        Err(DescriptorsError::InvalidEncoding(String::from_str("sharing tag")))
    }
}

/// Reads descriptor details; a composite's bindings are read by mutual
/// recursion with the descriptor reader.
#[verifier::rlimit(100)]
#[verifier::spinoff_prover]
fn read_details(bytes: &Vec<u8>, pos: usize) -> (r: Result<
    (PropertyDescriptorDetails, usize),
    DescriptorsError,
>)
    requires
        pos <= bytes@.len(),
    ensures
        match r {
            Ok((d, p)) => {
                &&& pos < p <= bytes@.len()
                &&& enc_details(d.model()) =~= bytes@.subrange(pos as int, p as int)
                &&& dec_details_full(bytes@, pos as int) == Some((d.model(), p as int))
                &&& fits_details(d.model())
            },
            Err(_) => dec_details_full(bytes@, pos as int) is None,
        },
    decreases bytes@.len() - pos, 1int,
{
    let (tag, p1) = match read_u8(bytes, pos) {
        Ok(v) => v,
        Err(e) => {
            return Err(e);
        },
    };
    if tag == 0 {
        let (is_fuzzy, p2) = match read_bool(bytes, p1) {
            Ok(v) => v,
            Err(e) => {
                return Err(e);
            },
        };
        let d = PropertyDescriptorDetails::Boolean(BooleanDescriptor { is_fuzzy });
        proof {
            assert(enc_details(d.model()) =~= bytes@.subrange(pos as int, p2 as int));
        }
        Ok((d, p2))
    } else if tag == 1 {
        let (min_length, p2) = match read_u32(bytes, p1) {
            Ok(v) => v,
            Err(e) => {
                return Err(e);
            },
        };
        let (max_length, p3) = match read_u32(bytes, p2) {
            Ok(v) => v,
            Err(e) => {
                return Err(e);
            },
        };
        let d = PropertyDescriptorDetails::String(StringDescriptor { min_length, max_length });
        proof {
            assert(enc_details(d.model()) =~= bytes@.subrange(pos as int, p3 as int));
        }
        Ok((d, p3))
    } else if tag == 2 {
        let (ftag, p2) = match read_u8(bytes, p1) {
            Ok(v) => v,
            Err(e) => {
                return Err(e);
            },
        };
        let format = if ftag == 0 {
            IntegerFormat::I8
        } else if ftag == 1 {
            IntegerFormat::I16
        } else if ftag == 2 {
            IntegerFormat::I32
        } else if ftag == 3 {
            IntegerFormat::I64
        } else if ftag == 4 {
            IntegerFormat::U8
        } else if ftag == 5 {
            IntegerFormat::U16
        } else if ftag == 6 {
            IntegerFormat::U32
        } else if ftag == 7 {
            IntegerFormat::U64
        } else {
            return Err(DescriptorsError::InvalidEncoding(String::from_str("format tag")));
        };
        let (min_value, p3) = match read_i64(bytes, p2) {
            Ok(v) => v,
            Err(e) => {
                return Err(e);
            },
        };
        let (max_value, p4) = match read_i64(bytes, p3) {
            Ok(v) => v,
            Err(e) => {
                return Err(e);
            },
        };
        let d = PropertyDescriptorDetails::Integer(
            IntegerDescriptor { format, min_value, max_value },
        );
        proof {
            assert(enc_details(d.model()) =~= bytes@.subrange(pos as int, p4 as int));
        }
        Ok((d, p4))
    } else if tag == 3 {
        read_composite_details(bytes, pos, p1)
    } else if tag == 4 {
        let (contains_items_of_type, p2) = match read_string(bytes, p1) {
            Ok(v) => v,
            Err(e) => {
                return Err(e);
            },
        };
        let (min_items, p3) = match read_u32(bytes, p2) {
            Ok(v) => v,
            Err(e) => {
                return Err(e);
            },
        };
        let (max_items, p4) = match read_u32(bytes, p3) {
            Ok(v) => v,
            Err(e) => {
                return Err(e);
            },
        };
        let (unique_items, p5) = match read_bool(bytes, p4) {
            Ok(v) => v,
            Err(e) => {
                return Err(e);
            },
        };
        let (is_ordered, p6) = match read_bool(bytes, p5) {
            Ok(v) => v,
            Err(e) => {
                return Err(e);
            },
        };
        let d = PropertyDescriptorDetails::ValueCollection(
            ValueCollectionDescriptor {
                contains_items_of_type,
                min_items,
                max_items,
                unique_items,
                is_ordered,
            },
        );
        proof {
            assert(enc_details(d.model()) =~= bytes@.subrange(pos as int, p6 as int));
        }
        Ok((d, p6))
    } else {
        Err(DescriptorsError::InvalidEncoding(String::from_str("details tag")))
    }
}

/// Unfolds one step of a successful binding-sequence decode.
proof fn lemma_dec_entries_step(
    s: Seq<u8>,
    pos: int,
    m: nat,
    tail: Seq<EntryModel>,
    end: int,
    em: EntryModel,
    q: int,
)
    requires
        m > 0,
        0 <= pos <= s.len(),
        dec_entries(s, pos, m) == Some((tail, end)),
        dec_entry(s, pos) == Some((em, q)),
        pos < q <= s.len(),
    ensures
        tail.len() == m,
        tail[0] == em,
        dec_entries(s, q, (m - 1) as nat) == Some((tail.skip(1), end)),
{
    lemma_dec_entries_len(s, pos, m);
    match dec_entries(s, q, (m - 1) as nat) {
        None => {
            assert(false);
        },
        Some((rest, end2)) => {
            assert(tail == seq![em] + rest);
            assert(end == end2);
            assert(tail[0] == em);
            assert(tail.skip(1) =~= rest);
        },
    }
}

/// Reads exactly `n` bindings, one after another.
#[verifier::rlimit(100)]
#[verifier::spinoff_prover]
fn read_entry_list(bytes: &Vec<u8>, pos: usize, n: u64) -> (r: Result<
    (Vec<PropertyEntry>, usize),
    DescriptorsError,
>)
    requires
        pos <= bytes@.len(),
    ensures
        match r {
            Ok((es, p)) => {
                &&& pos <= p <= bytes@.len()
                &&& es@.len() == n
                &&& fits_entries((PropertyDescriptorMap { properties: es }).model())
                &&& enc_entry_seq((PropertyDescriptorMap { properties: es }).model())
                    =~= bytes@.subrange(pos as int, p as int)
                &&& dec_entries(bytes@, pos as int, n as nat) == Some(
                    ((PropertyDescriptorMap { properties: es }).model(), p as int),
                )
            },
            Err(_) => dec_entries(bytes@, pos as int, n as nat) is None,
        },
    decreases bytes@.len() - pos, 5int,
{
    let ghost full = dec_entries(bytes@, pos as int, n as nat);
    proof {
        lemma_dec_entries_len(bytes@, pos as int, n as nat);
    }
    let mut entries: Vec<PropertyEntry> = Vec::new();
    let mut cur: usize = pos;
    let mut k: u64 = 0;
    while k < n
        invariant
            0 <= k <= n,
            pos <= cur <= bytes@.len(),
            pos + k <= cur,
            entries@.len() == k,
            full == dec_entries(bytes@, pos as int, n as nat),
            full matches Some(v) ==> v.0.len() == n,
            fits_entries((PropertyDescriptorMap { properties: entries }).model()),
            full matches Some(v) ==> dec_entries(bytes@, cur as int, (n - k) as nat) == Some(
                (v.0.skip(k as int), v.1),
            ) && (PropertyDescriptorMap { properties: entries }).model() =~= v.0.take(k as int),
            enc_entry_seq((PropertyDescriptorMap { properties: entries }).model())
                =~= bytes@.subrange(pos as int, cur as int),
        decreases n - k,
    {
        let (e, q) = match read_entry(bytes, cur) {
            Ok(v) => v,
            Err(err) => {
                proof {
                    if full is Some {
                        assert(dec_entry(bytes@, cur as int) is None);
                        assert(dec_entries(bytes@, cur as int, (n - k) as nat) is None);
                        assert(false);
                    }
                }
                return Err(err);
            },
        };
        let ghost prev = (PropertyDescriptorMap { properties: entries }).model();
        proof {
            lemma_enc_entry_seq_snoc(prev, e.model());
            lemma_fits_entries_snoc(prev, e.model());
            if full is Some {
                let v = full->0;
                lemma_dec_entries_step(
                    bytes@,
                    cur as int,
                    (n - k) as nat,
                    v.0.skip(k as int),
                    v.1,
                    e.model(),
                    q as int,
                );
                assert(v.0.skip(k as int).skip(1) =~= v.0.skip(k as int + 1));
                assert(v.0[k as int] == v.0.skip(k as int)[0]);
                assert(prev.push(e.model()) =~= v.0.take(k as int + 1));
            }
        }
        entries.push(e);
        proof {
            assert((PropertyDescriptorMap { properties: entries }).model() =~= prev.push(
                e.model(),
            ));
            assert(enc_entry_seq((PropertyDescriptorMap { properties: entries }).model())
                =~= bytes@.subrange(pos as int, q as int));
        }
        cur = q;
        k = k + 1;
    }
    let ghost models = (PropertyDescriptorMap { properties: entries }).model();
    proof {
        assert(bytes@.subrange(pos as int, pos + enc_entry_seq(models).len()) =~= enc_entry_seq(
            models,
        ));
        lemma_dec_entries_enc(bytes@, pos as int, models);
        assert(models.len() == n);
        assert(dec_entries(bytes@, pos as int, n as nat) == Some((models, cur as int)));
    }
    Ok((entries, cur))
}

/// Introduces a composite details decode from its decoded parts.
#[verifier::rlimit(100)]
#[verifier::spinoff_prover]
proof fn lemma_dec_details_composite_intro(
    s: Seq<u8>,
    pos: int,
    p1: int,
    p2: int,
    n: u64,
    models: Seq<EntryModel>,
    end: int,
)
    requires
        0 <= pos,
        p1 == pos + 1,
        p1 <= s.len(),
        s[pos] == 3,
        dec_u64(s, p1) == Some((n, p2)),
        p2 <= s.len(),
        dec_entries(s, p2, n as nat) == Some((models, end)),
    ensures
        dec_details_full(s, pos) == Some((DetailsModel::Composite { entries: models }, end)),
{
    assert(dec_u8(s, pos) == Some((3u8, p1)));
    assert(p2 == p1 + 8);
    assert(p2 > pos);
}

/// Assembles a composite details encoding from its parts' segments.
#[verifier::rlimit(100)]
#[verifier::spinoff_prover]
proof fn lemma_enc_details_composite_assemble(
    s: Seq<u8>,
    pos: int,
    p1: int,
    p2: int,
    end: int,
    n: u64,
    models: Seq<EntryModel>,
)
    requires
        0 <= pos <= p1 <= p2 <= end <= s.len(),
        p1 == pos + 1,
        p2 == p1 + 8,
        s[pos] == 3,
        enc_u64(n) =~= s.subrange(p1, p2),
        enc_entry_seq(models) =~= s.subrange(p2, end),
        models.len() == n,
    ensures
        enc_details(DetailsModel::Composite { entries: models }) =~= s.subrange(pos, end),
{
    assert(enc_details(DetailsModel::Composite { entries: models }) =~= seq![3u8] + enc_u64(n)
        + enc_entry_seq(models));
}

/// Reads the bindings of a composite, the branch of the details reader
/// that recurses.
#[verifier::rlimit(100)]
#[verifier::spinoff_prover]
fn read_composite_details(bytes: &Vec<u8>, pos: usize, p1: usize) -> (r: Result<
    (PropertyDescriptorDetails, usize),
    DescriptorsError,
>)
    requires
        pos < p1 <= bytes@.len(),
        p1 == pos + 1,
        bytes@[pos as int] == 3,
    ensures
        match r {
            Ok((d, p)) => {
                &&& pos < p <= bytes@.len()
                &&& enc_details(d.model()) =~= bytes@.subrange(pos as int, p as int)
                &&& d matches PropertyDescriptorDetails::Composite(_)
                &&& dec_details_full(bytes@, pos as int) == Some((d.model(), p as int))
                &&& fits_details(d.model())
            },
            Err(_) => dec_details_full(bytes@, pos as int) is None,
        },
    decreases bytes@.len() - pos, 0int,
{
    let (n, p2) = match read_u64(bytes, p1) {
        Ok(v) => v,
        Err(e) => {
            return Err(e);
        },
    };
    let (entries, cur) = match read_entry_list(bytes, p2, n) {
        Ok(v) => v,
        Err(e) => {
            proof {
                assert(dec_details_full(bytes@, pos as int) is None);
            }
            return Err(e);
        },
    };
    let ghost models = (PropertyDescriptorMap { properties: entries }).model();
    let map = PropertyDescriptorMap { properties: entries };
    let d = PropertyDescriptorDetails::Composite(CompositeDescriptor { property_map: map });
    proof {
        assert(d.model() == (DetailsModel::Composite { entries: models }));
        lemma_dec_details_composite_intro(
            bytes@,
            pos as int,
            p1 as int,
            p2 as int,
            n,
            models,
            cur as int,
        );
        lemma_enc_details_composite_assemble(
            bytes@,
            pos as int,
            p1 as int,
            p2 as int,
            cur as int,
            n,
            models,
        );
        assert(fits_details(d.model()));
    }
    Ok((d, cur))
}

/// Reads one binding.
#[verifier::spinoff_prover]
fn read_entry(bytes: &Vec<u8>, pos: usize) -> (r: Result<(PropertyEntry, usize), DescriptorsError>)
    requires
        pos <= bytes@.len(),
    ensures
        match r {
            Ok((e, p)) => {
                &&& pos < p <= bytes@.len()
                &&& enc_entry(e.model()) =~= bytes@.subrange(pos as int, p as int)
                &&& dec_entry(bytes@, pos as int) == Some((e.model(), p as int))
                &&& fits_entry(e.model())
            },
            Err(_) => dec_entry(bytes@, pos as int) is None,
        },
    decreases bytes@.len() - pos, 3int,
{
    let (name, p1) = match read_string(bytes, pos) {
        Ok(v) => v,
        Err(e) => {
            return Err(e);
        },
    };
    let (usage, p2) = match read_usage(bytes, p1) {
        Ok(v) => v,
        Err(e) => {
            return Err(e);
        },
    };
    let e = PropertyEntry { name, usage };
    proof {
        assert(enc_entry(e.model()) =~= bytes@.subrange(pos as int, p2 as int));
    }
    Ok((e, p2))
}

/// Reads one usage.
#[verifier::rlimit(100)]
#[verifier::spinoff_prover]
fn read_usage(bytes: &Vec<u8>, pos: usize) -> (r: Result<
    (PropertyDescriptorUsage, usize),
    DescriptorsError,
>)
    requires
        pos <= bytes@.len(),
    ensures
        match r {
            Ok((u, p)) => {
                &&& pos < p <= bytes@.len()
                &&& enc_usage(u.model()) =~= bytes@.subrange(pos as int, p as int)
                &&& dec_usage(bytes@, pos as int) == Some((u.model(), p as int))
                &&& fits_usage(u.model())
            },
            Err(_) => dec_usage(bytes@, pos as int) is None,
        },
    decreases bytes@.len() - pos, 2int,
{
    let (description, p1) = match read_string(bytes, pos) {
        Ok(v) => v,
        Err(e) => {
            return Err(e);
        },
    };
    let (label, p2) = match read_string(bytes, p1) {
        Ok(v) => v,
        Err(e) => {
            return Err(e);
        },
    };
    let (sharing, p3) = match read_sharing(bytes, p2) {
        Ok(v) => v,
        Err(e) => {
            return Err(e);
        },
    };
    let (descriptor, p4) = match read_descriptor(bytes, p3) {
        Ok(v) => v,
        Err(e) => {
            return Err(e);
        },
    };
    let u = PropertyDescriptorUsage { description, descriptor, label, sharing };
    proof {
        assert(enc_usage(u.model()) =~= bytes@.subrange(pos as int, p4 as int));
    }
    Ok((u, p4))
}

/// Reads a whole descriptor.
#[verifier::rlimit(100)]
#[verifier::spinoff_prover]
fn read_descriptor(bytes: &Vec<u8>, pos: usize) -> (r: Result<
    (PropertyDescriptor, usize),
    DescriptorsError,
>)
    requires
        pos <= bytes@.len(),
    ensures
        match r {
            Ok((d, p)) => {
                &&& pos < p <= bytes@.len()
                &&& enc_descriptor(d.model()) =~= bytes@.subrange(pos as int, p as int)
                &&& dec_descriptor_full(bytes@, pos as int) == Some((d.model(), p as int))
                &&& fits_descriptor(d.model())
            },
            Err(_) => dec_descriptor_full(bytes@, pos as int) is None,
        },
    decreases bytes@.len() - pos, 4int,
{
    let (header, p1) = match read_header(bytes, pos) {
        Ok(v) => v,
        Err(e) => {
            proof {
                assert(dec_header(bytes@, pos as int) is None);
                assert(dec_descriptor_full(bytes@, pos as int) is None);
            }
            return Err(e);
        },
    };
    let (details, p2) = match read_details(bytes, p1) {
        Ok(v) => v,
        Err(e) => {
            proof {
                assert(dec_header(bytes@, pos as int) == Some((header.deep_view(), p1 as int)));
                assert(dec_details_full(bytes@, p1 as int) is None);
                assert(dec_descriptor_full(bytes@, pos as int) is None);
            }
            return Err(e);
        },
    };
    let d = PropertyDescriptor { header, details };
    proof {
        assert(enc_descriptor(d.model()) =~= bytes@.subrange(pos as int, p2 as int));
        assert(dec_header(bytes@, pos as int) == Some((header.deep_view(), p1 as int)));
        assert(dec_details_full(bytes@, p1 as int) == Some((details.model(), p2 as int)));
        assert(dec_descriptor_full(bytes@, pos as int) == Some((d.model(), p2 as int)));
    }
    Ok((d, p2))
}

/// Deserializes a descriptor from the wire format; the bytes must hold
/// exactly one descriptor.
#[verifier::spinoff_prover]
pub fn deserialize_property_descriptor(bytes: &Vec<u8>) -> (r: Result<
    PropertyDescriptor,
    DescriptorsError,
>)
    ensures
        r matches Ok(d) ==> enc_descriptor(d.model()) =~= bytes@ && dec_descriptor_full(bytes@, 0)
            == Some((d.model(), bytes@.len() as int)),
        ({
            let dm = dec_descriptor_full(bytes@, 0);
            dm is Some && (dm->0).1 == bytes@.len() ==> (r matches Ok(d) && d.model() == (dm->0).0)
        }),
{
    match read_descriptor(bytes, 0) {
        Err(e) => Err(e),
        Ok((d, p)) => {
            if p == bytes.len() {
                proof {
                    assert(bytes@.subrange(0, p as int) =~= bytes@);
                }
                Ok(d)
            } else {
                Err(DescriptorsError::InvalidEncoding(String::from_str("trailing bytes")))
            }
        },
    }
}


/// A piece of an encoded region is the matching piece of the encoding.
proof fn lemma_slice_part(s: Seq<u8>, pos: int, whole: Seq<u8>, a: int, b: int, part: Seq<u8>)
    requires
        0 <= pos,
        pos + whole.len() <= s.len(),
        s.subrange(pos, pos + whole.len()) =~= whole,
        0 <= a <= b <= whole.len(),
        whole.subrange(a, b) =~= part,
    ensures
        s.subrange(pos + a, pos + b) =~= part,
{
    assert forall|k: int| 0 <= k < b - a implies s.subrange(pos + a, pos + b)[k] == part[k] by {
        assert(s.subrange(pos, pos + whole.len())[a + k] == whole[a + k]);
    }
}

/// Eight encoded bytes decode to the encoded value.
proof fn lemma_dec_u64_enc(s: Seq<u8>, pos: int, v: u64)
    requires
        0 <= pos,
        pos + 8 <= s.len(),
        s.subrange(pos, pos + 8) =~= enc_u64(v),
    ensures
        dec_u64(s, pos) == Some((v, pos + 8)),
{
    lemma_u64_le_roundtrip(v);
    assert(s[pos] == enc_u64(v)[0]);
    assert(s[pos + 1] == enc_u64(v)[1]);
    assert(s[pos + 2] == enc_u64(v)[2]);
    assert(s[pos + 3] == enc_u64(v)[3]);
    assert(s[pos + 4] == enc_u64(v)[4]);
    assert(s[pos + 5] == enc_u64(v)[5]);
    assert(s[pos + 6] == enc_u64(v)[6]);
    assert(s[pos + 7] == enc_u64(v)[7]);
}

/// Four encoded bytes decode to the encoded value.
proof fn lemma_dec_u32_enc(s: Seq<u8>, pos: int, v: u32)
    requires
        0 <= pos,
        pos + 4 <= s.len(),
        s.subrange(pos, pos + 4) =~= enc_u32(v),
    ensures
        dec_u32(s, pos) == Some((v, pos + 4)),
{
    lemma_u32_le_roundtrip(v);
    assert(s[pos] == enc_u32(v)[0]);
    assert(s[pos + 1] == enc_u32(v)[1]);
    assert(s[pos + 2] == enc_u32(v)[2]);
    assert(s[pos + 3] == enc_u32(v)[3]);
}

/// An encoded signed value decodes to itself.
proof fn lemma_dec_i64_enc(s: Seq<u8>, pos: int, v: i64)
    requires
        0 <= pos,
        pos + 8 <= s.len(),
        s.subrange(pos, pos + 8) =~= enc_i64(v),
    ensures
        dec_i64(s, pos) == Some((v, pos + 8)),
{
    lemma_dec_u64_enc(s, pos, v as u64);
    assert((v as u64) as i64 == v) by (bit_vector);
}

/// An encoded flag byte decodes to the encoded flag.
proof fn lemma_dec_bool_enc(s: Seq<u8>, pos: int, b: bool)
    requires
        0 <= pos,
        pos + 1 <= s.len(),
        s.subrange(pos, pos + 1) =~= enc_bool(b),
    ensures
        dec_bool(s, pos) == Some((b, pos + 1)),
{
    assert(s[pos] == enc_bool(b)[0]);
}

/// An encoded string decodes to the encoded characters.
proof fn lemma_dec_str_enc(s: Seq<u8>, pos: int, t: Seq<char>)
    requires
        str_fits(t),
        0 <= pos,
        pos + enc_str(t).len() <= s.len(),
        s.subrange(pos, pos + enc_str(t).len()) =~= enc_str(t),
    ensures
        dec_str(s, pos) == Some((t, pos + enc_str(t).len())),
{
    broadcast use vstd::utf8::encode_utf8_valid_utf8;
    broadcast use vstd::utf8::encode_utf8_decode_utf8;

    let u = encode_utf8(t);
    let l = u.len() as u64;
    let whole = enc_str(t);
    assert(l as int == u.len());
    assert(whole.len() == 8 + u.len());
    assert(whole.subrange(0, 8) =~= enc_u64(l));
    lemma_slice_part(s, pos, whole, 0, 8, enc_u64(l));
    lemma_dec_u64_enc(s, pos, l);
    let p = pos + 8;
    assert(whole.subrange(8, whole.len() as int) =~= u);
    lemma_slice_part(s, pos, whole, 8, whole.len() as int, u);
    assert(s.subrange(p, p + u.len()) =~= u);
    assert(valid_utf8(u));
    assert(decode_utf8(u) == t);
}

/// A base-type tag round-trips.
proof fn lemma_base_type_tag_roundtrip(b: BaseType)
    ensures
        base_type_of_tag(base_type_tag(b)) == Some(b),
{
}

/// An integer-format tag round-trips.
proof fn lemma_format_tag_roundtrip(f: IntegerFormat)
    ensures
        format_of_tag(format_tag(f)) == Some(f),
{
}

/// An encoded header decodes to the encoded header.
#[verifier::rlimit(100)]
proof fn lemma_dec_header_enc(s: Seq<u8>, pos: int, h: HeaderModel)
    requires
        header_fits(h),
        0 <= pos,
        pos + enc_header(h).len() <= s.len(),
        s.subrange(pos, pos + enc_header(h).len()) =~= enc_header(h),
    ensures
        dec_header(s, pos) == Some((h, pos + enc_header(h).len())),
{
    let e1 = enc_str(h.name);
    let e2 = enc_str(h.description);
    let e3 = enc_str(h.label);
    let whole = enc_header(h);
    let a1 = e1.len() as int;
    let a2 = a1 + 1;
    let a3 = a2 + e2.len();
    let a4 = a3 + e3.len();
    let a5 = a4 + 3;
    let a6 = a5 + 1;
    let p1 = pos + a1;
    let p2 = pos + a2;
    let p3 = pos + a3;
    let p4 = pos + a4;
    let p5 = pos + a5;
    let p6 = pos + a6;
    assert(whole.len() == a6);
    assert(whole.subrange(0, a1) =~= e1);
    lemma_slice_part(s, pos, whole, 0, a1, e1);
    lemma_dec_str_enc(s, pos, h.name);
    assert(s.subrange(pos, pos + whole.len()) =~= whole);
    assert(whole[a1] == base_type_tag(h.base_type));
    assert(s[p1] == base_type_tag(h.base_type));
    lemma_base_type_tag_roundtrip(h.base_type);
    assert(whole.subrange(a2, a3) =~= e2);
    lemma_slice_part(s, pos, whole, a2, a3, e2);
    lemma_dec_str_enc(s, p2, h.description);
    assert(whole.subrange(a3, a4) =~= e3);
    lemma_slice_part(s, pos, whole, a3, a4, e3);
    lemma_dec_str_enc(s, p3, h.label);
    assert(whole[a4] == h.version.major);
    assert(s[p4] == h.version.major);
    assert(whole[a4 + 1] == h.version.minor);
    assert(s[p4 + 1] == h.version.minor);
    assert(whole[a4 + 2] == h.version.patch);
    assert(s[p4 + 2] == h.version.patch);
    assert(whole.subrange(a5, a6) =~= enc_bool(h.is_dependent));
    lemma_slice_part(s, pos, whole, a5, a6, enc_bool(h.is_dependent));
    lemma_dec_bool_enc(s, p5, h.is_dependent);
    assert(dec_header_strings(s, pos) == Some(
        ((h.name, base_type_tag(h.base_type), h.description, h.label), p4),
    ));
    assert(dec_header_tail(s, p4) == Some(
        ((h.version.major, h.version.minor, h.version.patch, h.is_dependent), p6),
    ));
    assert((HeaderModel {
        name: h.name,
        base_type: h.base_type,
        description: h.description,
        label: h.label,
        version: SemanticVersion {
            major: h.version.major,
            minor: h.version.minor,
            patch: h.version.patch,
        },
        is_dependent: h.is_dependent,
    }) =~= h);
}

/// A decoded binding sequence has exactly the asked-for count.
proof fn lemma_dec_entries_len(s: Seq<u8>, pos: int, n: nat)
    ensures
        dec_entries(s, pos, n) matches Some(v) ==> v.0.len() == n,
    decreases s.len() - pos, 1int,
{
    if n > 0 && 0 <= pos && pos <= s.len() {
        match dec_entry(s, pos) {
            None => {},
            Some((e, p1)) => {
                if pos < p1 <= s.len() {
                    lemma_dec_entries_len(s, p1, (n - 1) as nat);
                }
            },
        }
    }
}

/// Growing a binding sequence by a binding within bounds keeps it
/// within bounds.
proof fn lemma_fits_entries_snoc(entries: Seq<EntryModel>, e: EntryModel)
    requires
        fits_entries(entries),
        fits_entry(e),
    ensures
        fits_entries(entries.push(e)),
    decreases entries.len(),
{
    if entries.len() == 0 {
        assert(entries.push(e).first() == e);
        assert(entries.push(e).drop_first() =~= Seq::<EntryModel>::empty());
        assert(fits_entries(entries.push(e).drop_first()));
        assert(fits_entries(entries.push(e)));
    } else {
        assert(fits_entry(entries.first()));
        assert(fits_entries(entries.drop_first()));
        assert(entries.push(e).first() == entries.first());
        assert(entries.push(e).drop_first() =~= entries.drop_first().push(e));
        lemma_fits_entries_snoc(entries.drop_first(), e);
        assert(fits_entries(entries.push(e).drop_first()));
        assert(fits_entries(entries.push(e)));
    }
}

/// An encoded reference decodes to the encoded reference.
proof fn lemma_dec_reference_enc(s: Seq<u8>, pos: int, id: Option<Seq<u8>>, name: Option<Seq<char>>)
    requires
        0 <= pos,
        pos + enc_reference(id, name).len() <= s.len(),
        s.subrange(pos, pos + enc_reference(id, name).len()) =~= enc_reference(id, name),
        id matches Some(b) ==> b.len() <= u64::MAX,
        name matches Some(t) ==> str_fits(t),
    ensures
        dec_reference(s, pos) == Some(
            (ReferenceModel { id, name }, pos + enc_reference(id, name).len()),
        ),
{
    let whole = enc_reference(id, name);
    let id_part: Seq<u8> = match id {
        None => seq![0u8],
        Some(bytes) => seq![1u8] + enc_u64(bytes.len() as u64) + bytes,
    };
    let name_part: Seq<u8> = match name {
        None => seq![0u8],
        Some(t) => seq![1u8] + enc_str(t),
    };
    assert(whole =~= id_part + name_part);
    let p3 = pos + id_part.len();
    match id {
        None => {
            assert(whole[0] == 0u8);
            assert(s.subrange(pos, pos + whole.len())[0] == whole[0]);
        },
        Some(bytes) => {
            assert(whole[0] == 1u8);
            assert(s.subrange(pos, pos + whole.len())[0] == whole[0]);
            assert(id_part.subrange(1, 9) =~= enc_u64(bytes.len() as u64));
            assert(whole.subrange(1, 9) =~= enc_u64(bytes.len() as u64));
            lemma_slice_part(s, pos, whole, 1, 9, enc_u64(bytes.len() as u64));
            lemma_dec_u64_enc(s, pos + 1, bytes.len() as u64);
            assert(whole.subrange(9, id_part.len() as int) =~= bytes);
            lemma_slice_part(s, pos, whole, 9, id_part.len() as int, bytes);
        },
    }
    match name {
        None => {
            assert(whole[p3 - pos] == 0u8);
            assert(s.subrange(pos, pos + whole.len())[p3 - pos] == whole[p3 - pos]);
        },
        Some(t) => {
            assert(whole[p3 - pos] == 1u8);
            assert(s.subrange(pos, pos + whole.len())[p3 - pos] == whole[p3 - pos]);
            assert(whole.subrange(p3 - pos + 1, whole.len() as int) =~= enc_str(t));
            lemma_slice_part(s, pos, whole, p3 - pos + 1, whole.len() as int, enc_str(t));
            lemma_dec_str_enc(s, p3 + 1, t);
        },
    }
}

/// An encoded sharing declaration decodes to itself.
proof fn lemma_dec_sharing_enc(s: Seq<u8>, pos: int, sh: SharingModel)
    requires
        fits_sharing(sh),
        0 <= pos,
        pos + enc_sharing(sh).len() <= s.len(),
        s.subrange(pos, pos + enc_sharing(sh).len()) =~= enc_sharing(sh),
    ensures
        dec_sharing(s, pos) == Some((sh, pos + enc_sharing(sh).len())),
{
    let whole = enc_sharing(sh);
    match sh {
        SharingModel::Dedicated => {
            assert(whole[0] == 0u8);
            assert(s.subrange(pos, pos + whole.len())[0] == whole[0]);
        },
        SharingModel::Shared(r) => {
            assert(whole[0] == 1u8);
            assert(s.subrange(pos, pos + whole.len())[0] == whole[0]);
            assert(whole.subrange(1, whole.len() as int) =~= enc_reference(r.id, r.name));
            lemma_slice_part(s, pos, whole, 1, whole.len() as int, enc_reference(r.id, r.name));
            lemma_dec_reference_enc(s, pos + 1, r.id, r.name);
            assert((ReferenceModel { id: r.id, name: r.name }) =~= r);
        },
    }
}

/// The composite case of [`lemma_dec_details_enc`].
#[verifier::rlimit(100)]
#[verifier::spinoff_prover]
proof fn lemma_dec_composite_details_enc(s: Seq<u8>, pos: int, entries: Seq<EntryModel>)
    requires
        fits_details(DetailsModel::Composite { entries }),
        0 <= pos,
        pos + enc_details(DetailsModel::Composite { entries }).len() <= s.len(),
        s.subrange(pos, pos + enc_details(DetailsModel::Composite { entries }).len())
            =~= enc_details(DetailsModel::Composite { entries }),
    ensures
        dec_details_full(s, pos) == Some(
            (
                DetailsModel::Composite { entries },
                pos + enc_details(DetailsModel::Composite { entries }).len(),
            ),
        ),
    decreases entries, 3int,
{
    let d = DetailsModel::Composite { entries };
    let whole = enc_details(d);
    assert(whole =~= seq![3u8] + enc_u64(entries.len() as u64) + enc_entry_seq(entries));
    assert(whole[0] == 3u8);
    assert(s.subrange(pos, pos + whole.len())[0] == whole[0]);
    assert(s[pos] == 3u8);
    assert(whole.subrange(1, 9) =~= enc_u64(entries.len() as u64));
    lemma_slice_part(s, pos, whole, 1, 9, enc_u64(entries.len() as u64));
    lemma_dec_u64_enc(s, pos + 1, entries.len() as u64);
    assert(whole.subrange(9, whole.len() as int) =~= enc_entry_seq(entries));
    lemma_slice_part(s, pos, whole, 9, whole.len() as int, enc_entry_seq(entries));
    lemma_dec_entries_enc(s, pos + 9, entries);
}

/// Encoded details of any kind decode to the encoded details.
#[verifier::rlimit(100)]
#[verifier::spinoff_prover]
proof fn lemma_dec_details_enc(s: Seq<u8>, pos: int, d: DetailsModel)
    requires
        fits_details(d),
        0 <= pos,
        pos + enc_details(d).len() <= s.len(),
        s.subrange(pos, pos + enc_details(d).len()) =~= enc_details(d),
    ensures
        dec_details_full(s, pos) == Some((d, pos + enc_details(d).len())),
    decreases d, 1int,
{
    match d {
        DetailsModel::Boolean { is_fuzzy } => {
            let whole = enc_details(d);
            assert(whole[0] == 0u8);
            assert(s.subrange(pos, pos + whole.len())[0] == whole[0]);
            assert(s[pos] == 0u8);
            assert(whole.subrange(1, 2) =~= enc_bool(is_fuzzy));
            lemma_slice_part(s, pos, whole, 1, 2, enc_bool(is_fuzzy));
            lemma_dec_bool_enc(s, pos + 1, is_fuzzy);
        },
        DetailsModel::String { min_length, max_length } => {
            let whole = enc_details(d);
            assert(whole[0] == 1u8);
            assert(s.subrange(pos, pos + whole.len())[0] == whole[0]);
            assert(s[pos] == 1u8);
            assert(whole.subrange(1, 5) =~= enc_u32(min_length));
            lemma_slice_part(s, pos, whole, 1, 5, enc_u32(min_length));
            lemma_dec_u32_enc(s, pos + 1, min_length);
            assert(whole.subrange(5, 9) =~= enc_u32(max_length));
            lemma_slice_part(s, pos, whole, 5, 9, enc_u32(max_length));
            lemma_dec_u32_enc(s, pos + 5, max_length);
        },
        DetailsModel::Integer { format, min_value, max_value } => {
            let whole = enc_details(d);
            assert(whole[0] == 2u8);
            assert(s.subrange(pos, pos + whole.len())[0] == whole[0]);
            assert(s[pos] == 2u8);
            assert(whole[1] == format_tag(format));
            assert(s.subrange(pos, pos + whole.len())[1] == whole[1]);
            assert(s[pos + 1] == format_tag(format));
            lemma_format_tag_roundtrip(format);
            assert(whole.subrange(2, 10) =~= enc_i64(min_value));
            lemma_slice_part(s, pos, whole, 2, 10, enc_i64(min_value));
            lemma_dec_i64_enc(s, pos + 2, min_value);
            assert(whole.subrange(10, 18) =~= enc_i64(max_value));
            lemma_slice_part(s, pos, whole, 10, 18, enc_i64(max_value));
            lemma_dec_i64_enc(s, pos + 10, max_value);
        },
        DetailsModel::Composite { entries } => {
            lemma_dec_composite_details_enc(s, pos, entries);
        },
        DetailsModel::ValueCollection {
            contains_items_of_type,
            min_items,
            max_items,
            unique_items,
            is_ordered,
        } => {
            let whole = enc_details(d);
            let e1 = enc_str(contains_items_of_type);
            assert(whole[0] == 4u8);
            assert(s.subrange(pos, pos + whole.len())[0] == whole[0]);
            assert(s[pos] == 4u8);
            let a1: int = 1 + e1.len() as int;
            assert(whole.subrange(1, a1) =~= e1);
            lemma_slice_part(s, pos, whole, 1, a1, e1);
            lemma_dec_str_enc(s, pos + 1, contains_items_of_type);
            assert(whole.subrange(a1, a1 + 4) =~= enc_u32(min_items));
            lemma_slice_part(s, pos, whole, a1, a1 + 4, enc_u32(min_items));
            lemma_dec_u32_enc(s, pos + a1, min_items);
            assert(whole.subrange(a1 + 4, a1 + 8) =~= enc_u32(max_items));
            lemma_slice_part(s, pos, whole, a1 + 4, a1 + 8, enc_u32(max_items));
            lemma_dec_u32_enc(s, pos + a1 + 4, max_items);
            assert(whole.subrange(a1 + 8, a1 + 9) =~= enc_bool(unique_items));
            lemma_slice_part(s, pos, whole, a1 + 8, a1 + 9, enc_bool(unique_items));
            lemma_dec_bool_enc(s, pos + a1 + 8, unique_items);
            assert(whole.subrange(a1 + 9, a1 + 10) =~= enc_bool(is_ordered));
            lemma_slice_part(s, pos, whole, a1 + 9, a1 + 10, enc_bool(is_ordered));
            lemma_dec_bool_enc(s, pos + a1 + 9, is_ordered);
        },
    }
}

/// An encoded binding sequence decodes, binding by binding, to itself.
#[verifier::rlimit(100)]
#[verifier::spinoff_prover]
proof fn lemma_dec_entries_enc(s: Seq<u8>, pos: int, entries: Seq<EntryModel>)
    requires
        fits_entries(entries),
        0 <= pos,
        pos + enc_entry_seq(entries).len() <= s.len(),
        s.subrange(pos, pos + enc_entry_seq(entries).len()) =~= enc_entry_seq(entries),
    ensures
        dec_entries(s, pos, entries.len()) == Some(
            (entries, pos + enc_entry_seq(entries).len()),
        ),
    decreases entries, 2int,
{
    if entries.len() == 0 {
        assert(dec_entries(s, pos, 0) == Some((Seq::<EntryModel>::empty(), pos)));
        assert(entries =~= Seq::<EntryModel>::empty());
    } else {
        let whole = enc_entry_seq(entries);
        let e0 = enc_entry(entries.first());
        assert(whole =~= e0 + enc_entry_seq(entries.drop_first()));
        assert(whole.subrange(0, e0.len() as int) =~= e0);
        lemma_slice_part(s, pos, whole, 0, e0.len() as int, e0);
        lemma_dec_entry_enc(s, pos, entries.first());
        let p1 = pos + e0.len();
        assert(e0.len() > 0);
        assert(whole.subrange(e0.len() as int, whole.len() as int) =~= enc_entry_seq(
            entries.drop_first(),
        ));
        lemma_slice_part(
            s,
            pos,
            whole,
            e0.len() as int,
            whole.len() as int,
            enc_entry_seq(entries.drop_first()),
        );
        lemma_dec_entries_enc(s, p1, entries.drop_first());
        assert(seq![entries.first()] + entries.drop_first() =~= entries);
    }
}

/// An encoded binding decodes to itself.
#[verifier::rlimit(100)]
#[verifier::spinoff_prover]
proof fn lemma_dec_entry_enc(s: Seq<u8>, pos: int, e: EntryModel)
    requires
        fits_entry(e),
        0 <= pos,
        pos + enc_entry(e).len() <= s.len(),
        s.subrange(pos, pos + enc_entry(e).len()) =~= enc_entry(e),
    ensures
        dec_entry(s, pos) == Some((e, pos + enc_entry(e).len())),
    decreases e, 1int,
{
    let whole = enc_entry(e);
    let e1 = enc_str(e.name);
    assert(whole =~= e1 + enc_usage(e.usage));
    assert(whole.subrange(0, e1.len() as int) =~= e1);
    lemma_slice_part(s, pos, whole, 0, e1.len() as int, e1);
    lemma_dec_str_enc(s, pos, e.name);
    let p1 = pos + e1.len();
    assert(whole.subrange(e1.len() as int, whole.len() as int) =~= enc_usage(e.usage));
    lemma_slice_part(s, pos, whole, e1.len() as int, whole.len() as int, enc_usage(e.usage));
    lemma_dec_usage_enc(s, p1, e.usage);
    assert((EntryModel { name: e.name, usage: e.usage }) =~= e);
}

/// An encoded usage decodes to itself.
#[verifier::rlimit(100)]
#[verifier::spinoff_prover]
proof fn lemma_dec_usage_enc(s: Seq<u8>, pos: int, u: UsageModel)
    requires
        fits_usage(u),
        0 <= pos,
        pos + enc_usage(u).len() <= s.len(),
        s.subrange(pos, pos + enc_usage(u).len()) =~= enc_usage(u),
    ensures
        dec_usage(s, pos) == Some((u, pos + enc_usage(u).len())),
    decreases u, 1int,
{
    let whole = enc_usage(u);
    let e1 = enc_str(u.description);
    let e2 = enc_str(u.label);
    let e3 = enc_sharing(u.sharing);
    let a1 = e1.len() as int;
    let a2 = a1 + e2.len();
    let a3 = a2 + e3.len();
    assert(whole =~= e1 + e2 + e3 + enc_descriptor(u.descriptor));
    assert(whole.subrange(0, a1) =~= e1);
    lemma_slice_part(s, pos, whole, 0, a1, e1);
    lemma_dec_str_enc(s, pos, u.description);
    assert(whole.subrange(a1, a2) =~= e2);
    lemma_slice_part(s, pos, whole, a1, a2, e2);
    lemma_dec_str_enc(s, pos + a1, u.label);
    assert(whole.subrange(a2, a3) =~= e3);
    lemma_slice_part(s, pos, whole, a2, a3, e3);
    lemma_dec_sharing_enc(s, pos + a2, u.sharing);
    assert(whole.subrange(a3, whole.len() as int) =~= enc_descriptor(u.descriptor));
    lemma_slice_part(s, pos, whole, a3, whole.len() as int, enc_descriptor(u.descriptor));
    lemma_dec_descriptor_enc(s, pos + a3, u.descriptor);
    assert((UsageModel {
        description: u.description,
        descriptor: u.descriptor,
        label: u.label,
        sharing: u.sharing,
    }) =~= u);
}

/// An encoded descriptor of any shape decodes to itself.
#[verifier::rlimit(100)]
#[verifier::spinoff_prover]
proof fn lemma_dec_descriptor_enc(s: Seq<u8>, pos: int, m: DescriptorModel)
    requires
        fits_descriptor(m),
        0 <= pos,
        pos + enc_descriptor(m).len() <= s.len(),
        s.subrange(pos, pos + enc_descriptor(m).len()) =~= enc_descriptor(m),
    ensures
        dec_descriptor_full(s, pos) == Some((m, pos + enc_descriptor(m).len())),
    decreases m, 2int,
{
    let whole = enc_descriptor(m);
    let hl = enc_header(m.header).len() as int;
    assert(whole.subrange(0, hl) =~= enc_header(m.header));
    lemma_slice_part(s, pos, whole, 0, hl, enc_header(m.header));
    lemma_dec_header_enc(s, pos, m.header);
    assert(whole.subrange(hl, whole.len() as int) =~= enc_details(m.details));
    lemma_slice_part(s, pos, whole, hl, whole.len() as int, enc_details(m.details));
    lemma_dec_details_enc(s, pos + hl, m.details);
    assert((DescriptorModel { header: m.header, details: m.details }) =~= m);
}

/// The round-trip law: what the serializer emits for any descriptor
/// within the format's size bounds deserializes to exactly the value
/// that was serialized.  Together with the contracts of
/// [`serialize_property_descriptor`] and
/// [`deserialize_property_descriptor`], deserializing the serialization
/// of a descriptor yields a descriptor with the original's value.
pub proof fn lemma_descriptor_roundtrip(m: DescriptorModel)
    requires
        fits_descriptor(m),
    ensures
        dec_descriptor_full(enc_descriptor(m), 0) == Some((m, enc_descriptor(m).len() as int)),
{
    let s = enc_descriptor(m);
    assert(s.subrange(0, s.len() as int) =~= s);
    lemma_dec_descriptor_enc(s, 0, m);
}

} // verus!
