//! What holds of payment metadata across writing and reading it.

use vstd::prelude::*;

use super::fields::{
    exactly_struct, key_field, lookup, number_field, opt_u64_field, opt_u64_record,
};
use super::metadata::{
    bolt12_holds, bolt12_read, lease_bytes, lease_read, lease_records, metadata_bytes,
    metadata_read, metadata_records, opt_metadata, parameters_bytes, parameters_field, parameters_read,
    parameters_records, LSPS2LeaseParameters, LSPS2LeaseParametersView, LSPS2Parameters, PaymentMetadata,
    PaymentMetadataView, LDK_NODE_BOLT12_PAYMENT_METADATA_KEY,
};
use super::tlv::{
    be_bytes, be_value, bigsize, lemma_be_bytes_len, lemma_be_bytes_of_value,
    lemma_be_value_of_bytes, lemma_struct_records, ordered, pow256, records, starts_with_struct,
    stream_bytes, struct_bytes, struct_read, struct_records, understood, Record, RecordView,
};
use crate::primitives::{is_public_key, PublicKey};

verus! {

/// In an ordered list, each record is found by its type.
proof fn lemma_lookup_present(list: Seq<RecordView>, i: int)
    requires
        ordered(list),
        0 <= i < list.len(),
    ensures
        lookup(list, list[i].typ) == Some(list[i].value),
    decreases list.len(),
{
    if i > 0 {
        assert(list[0].typ < list[i].typ);
        lemma_lookup_present(list.drop_first(), i - 1);
    }
}

/// A type that no record has is not found.
proof fn lemma_lookup_absent(list: Seq<RecordView>, typ: u64)
    requires
        forall|i: int| 0 <= i < list.len() ==> (#[trigger] list[i]).typ != typ,
    ensures
        lookup(list, typ) is None,
    decreases list.len(),
{
    if list.len() > 0 {
        lemma_lookup_absent(list.drop_first(), typ);
    }
}

/// One more record at the end does not change what is found of another type.
proof fn lemma_lookup_push(list: Seq<RecordView>, record: RecordView, typ: u64)
    requires
        record.typ != typ,
    ensures
        lookup(list.push(record), typ) == lookup(list, typ),
    decreases list.len(),
{
    let longer = list.push(record);
    if list.len() == 0 {
        assert(longer.drop_first() =~= list);
    } else {
        assert(longer.drop_first() =~= list.drop_first().push(record));
        lemma_lookup_push(list.drop_first(), record, typ);
    }
}

/// The bytes of a number that fits into its field stand for it.
proof fn lemma_number_bytes(n: nat, width: nat)
    requires
        width == 8 && n <= u64::MAX || width == 4 && n <= u32::MAX,
    ensures
        be_bytes(n, width).len() == width,
        be_value(be_bytes(n, width)) == n,
{
    lemma_be_bytes_len(n, width);
    reveal_with_fuel(pow256, 9);
    lemma_be_value_of_bytes(n, width);
}

/// What is written as a structure is read as the same records, whatever follows it.
proof fn lemma_written_struct(list: Seq<RecordView>, known: Seq<u64>, rest: Seq<u8>)
    requires
        ordered(list),
        understood(list, known),
        struct_bytes(list).len() + rest.len() <= u64::MAX,
    ensures
        struct_read(struct_bytes(list) + rest, known) == Some(list),
        exactly_struct(struct_bytes(list)),
{
    let bytes = struct_bytes(list) + rest;
    assert(struct_bytes(list) =~= bytes.take(struct_bytes(list).len() as int));
    assert(starts_with_struct(bytes, list));
    lemma_struct_records(bytes, list);
    lemma_struct_records(struct_bytes(list), list);
}

/// Fee limits are read back as they were written, whatever follows them.
pub proof fn lemma_parameters_roundtrip(parameters: LSPS2Parameters, rest: Seq<u8>)
    requires
        parameters_bytes(parameters).len() + rest.len() <= u64::MAX,
    ensures
        parameters_read(parameters_bytes(parameters) + rest) == Some(parameters),
        exactly_struct(parameters_bytes(parameters)),
{
    let list = parameters_records(parameters);
    let known: Seq<u64> = seq![0, 2];
    assert(known.contains(0)) by {
        assert(known[0] == 0);
    }
    assert(known.contains(2)) by {
        assert(known[1] == 2);
    }
    lemma_written_struct(list, known, rest);
    match parameters.max_total_opening_fee_msat {
        Some(n) => {
            lemma_lookup_present(list, 0);
            lemma_number_bytes(n as nat, 8);
        },
        None => lemma_lookup_absent(list, 0),
    }
    match parameters.max_proportional_opening_fee_ppm_msat {
        Some(n) => {
            lemma_lookup_present(list, list.len() - 1);
            lemma_number_bytes(n as nat, 8);
        },
        None => lemma_lookup_absent(list, 2),
    }
}

/// A lease is read back as it was written, whatever follows it.
pub proof fn lemma_lease_roundtrip(lease: LSPS2LeaseParametersView, rest: Seq<u8>)
    requires
        lease.valid(),
        lease_bytes(lease).len() + rest.len() <= u64::MAX,
    ensures
        lease_read(lease_bytes(lease) + rest) == Some(lease),
        exactly_struct(lease_bytes(lease)),
{
    let list = lease_records(lease);
    let known: Seq<u64> = seq![0, 2, 4, 6, 8];
    assert(known.contains(0) && known.contains(2) && known.contains(4) && known.contains(6)
        && known.contains(8)) by {
        assert(known[0] == 0 && known[1] == 2 && known[2] == 4 && known[3] == 6 && known[4] == 8);
    }
    lemma_written_struct(list, known, rest);
    lemma_lookup_present(list, 0);
    lemma_lookup_present(list, 1);
    lemma_number_bytes(lease.intercept_scid as nat, 8);
    lemma_lookup_present(list, 2);
    lemma_number_bytes(lease.cltv_expiry_delta as nat, 4);
    match lease.payment_size_msat {
        Some(n) => {
            lemma_lookup_present(list, 3);
            lemma_number_bytes(n as nat, 8);
        },
        None => lemma_lookup_absent(list, 6),
    }
    lemma_lookup_present(list, list.len() - 1);
    lemma_number_bytes(lease.valid_until as nat, 8);
}

/// The bytes of a record's value are among those of a structure that holds the record.
proof fn lemma_value_fits(list: Seq<RecordView>, i: int)
    requires
        0 <= i < list.len(),
    ensures
        list[i].value.len() <= stream_bytes(list).len(),
        list[i].value.len() <= struct_bytes(list).len(),
    decreases list.len(),
{
    if i > 0 {
        lemma_value_fits(list.drop_first(), i - 1);
    }
}

/// Payment metadata is read back as it was written, whatever follows it.
pub proof fn lemma_metadata_roundtrip(metadata: PaymentMetadataView, rest: Seq<u8>)
    requires
        metadata.valid(),
        metadata_bytes(metadata).len() + rest.len() <= u64::MAX,
    ensures
        metadata_read(metadata_bytes(metadata) + rest) == Some(metadata),
{
    let list = metadata_records(metadata);
    let known: Seq<u64> = seq![0, 1];
    assert(known.contains(0)) by {
        assert(known[0] == 0);
    }
    lemma_written_struct(list, known, rest);
    lemma_parameters_found(metadata, list);
    match metadata.lsps2_lease_parameters {
        Some(lease) => {
            let last = list.len() - 1;
            lemma_lookup_present(list, last);
            lemma_value_fits(list, last);
            lemma_lease_roundtrip(lease, Seq::empty());
            assert(lease_bytes(lease) + Seq::<u8>::empty() =~= lease_bytes(lease));
        },
        None => lemma_lookup_absent(list, 1),
    }
}

/// The records of payment metadata give its fee limits.
proof fn lemma_parameters_found(metadata: PaymentMetadataView, list: Seq<RecordView>)
    requires
        list == metadata_records(metadata),
        struct_bytes(list).len() <= u64::MAX,
    ensures
        parameters_field(list, 0) == Some(metadata.lsps2_parameters),
{
    match metadata.lsps2_parameters {
        Some(parameters) => {
            lemma_lookup_present(list, 0);
            lemma_value_fits(list, 0);
            lemma_parameters_roundtrip(parameters, Seq::empty());
            assert(parameters_bytes(parameters) + Seq::<u8>::empty() =~= parameters_bytes(
                parameters,
            ));
        },
        None => lemma_lookup_absent(list, 0),
    }
}

/// A reader that predates the lease and knows nothing but the fee limits accepts whatever is
/// written, and finds the fee limits.
pub proof fn lemma_lease_skippable_by_older_readers(metadata: PaymentMetadataView, rest: Seq<u8>)
    requires
        metadata_bytes(metadata).len() + rest.len() <= u64::MAX,
    ensures
        struct_read(metadata_bytes(metadata) + rest, seq![0]) matches Some(list)
            && parameters_field(list, 0) == Some(metadata.lsps2_parameters),
{
    let list = metadata_records(metadata);
    let known: Seq<u64> = seq![0];
    assert(known.contains(0)) by {
        assert(known[0] == 0);
    }
    lemma_written_struct(list, known, rest);
    lemma_parameters_found(metadata, list);
}

/// A record of an odd type that the reader does not know, at the end of the others, changes
/// nothing about what is read.
pub proof fn lemma_unknown_odd_record_skipped(list: Seq<RecordView>, record: RecordView)
    requires
        ordered(list.push(record)),
        record.typ % 2 == 1,
        record.typ != 1,
        struct_bytes(list).len() <= u64::MAX,
        struct_bytes(list.push(record)).len() <= u64::MAX,
    ensures
        metadata_read(struct_bytes(list.push(record))) == metadata_read(struct_bytes(list)),
{
    let longer = list.push(record);
    let known: Seq<u64> = seq![0, 1];
    lemma_struct_records(struct_bytes(list), list);
    lemma_struct_records(struct_bytes(longer), longer);
    assert(ordered(list)) by {
        assert forall|i: int, j: int| 0 <= i < j < list.len() implies list[i].typ < list[j].typ by {
            assert(longer[i].typ < longer[j].typ);
        }
    }
    assert(understood(longer, known) == understood(list, known)) by {
        if understood(longer, known) {
            assert forall|i: int| 0 <= i < list.len() implies known.contains(
                (#[trigger] list[i]).typ,
            ) || list[i].typ % 2 == 1 by {
                assert(longer[i] == list[i]);
            }
        }
    }
    lemma_lookup_push(list, record, 0);
    lemma_lookup_push(list, record, 1);
}

/// A record of an even type that the reader does not know makes it refuse the whole.
pub proof fn lemma_unknown_even_record_refused(list: Seq<RecordView>, i: int)
    requires
        0 <= i < list.len(),
        list[i].typ % 2 == 0,
        list[i].typ != 0,
        struct_bytes(list).len() <= u64::MAX,
    ensures
        metadata_read(struct_bytes(list)) is None,
{
    lemma_struct_records(struct_bytes(list), list);
    let known: Seq<u64> = seq![0, 1];
    assert(!known.contains(list[i].typ));
}

/// Payment metadata is read back out of the BOLT12 payment metadata that it was put into.
pub proof fn lemma_bolt12_roundtrip(
    payment_metadata: Map<u64, Vec<u8>>,
    metadata: PaymentMetadataView,
)
    requires
        metadata.valid(),
        metadata_bytes(metadata).len() <= u64::MAX,
        bolt12_holds(payment_metadata, metadata),
    ensures
        bolt12_read(payment_metadata) == Some(metadata),
{
    lemma_metadata_roundtrip(metadata, Seq::empty());
    assert(metadata_bytes(metadata) + Seq::<u8>::empty() =~= metadata_bytes(metadata));
    assert(payment_metadata.dom().contains(LDK_NODE_BOLT12_PAYMENT_METADATA_KEY));
}

/// What stands under other keys of BOLT12 payment metadata does not matter.
pub proof fn lemma_bolt12_other_keys(
    payment_metadata: Map<u64, Vec<u8>>,
    key: u64,
    value: Vec<u8>,
)
    requires
        key != LDK_NODE_BOLT12_PAYMENT_METADATA_KEY,
    ensures
        bolt12_read(payment_metadata.insert(key, value)) == bolt12_read(payment_metadata),
        bolt12_read(payment_metadata.remove(key)) == bolt12_read(payment_metadata),
{
}

/// Payment metadata that holds the same is the same.
pub proof fn lemma_metadata_determined(a: PaymentMetadata, b: PaymentMetadata)
    requires
        a@ == b@,
    ensures
        a == b,
{
    if let (Some(lease_a), Some(lease_b)) = (a.lsps2_lease_parameters, b.lsps2_lease_parameters) {
        assert(lease_a@ == lease_b@);
        PublicKey::lemma_view_injective(lease_a.lsp_node_id, lease_b.lsp_node_id);
    }
}

/// Numbers of fixed width have their most significant byte first.
pub proof fn lemma_numbers_are_big_endian(n: nat)
    ensures
        n <= u64::MAX ==> be_bytes(n, 8) == seq![
            (n / 0x100_0000_0000_0000) as u8,
            (n / 0x1_0000_0000_0000 % 256) as u8,
            (n / 0x100_0000_0000 % 256) as u8,
            (n / 0x1_0000_0000 % 256) as u8,
            (n / 0x100_0000 % 256) as u8,
            (n / 0x1_0000 % 256) as u8,
            (n / 0x100 % 256) as u8,
            (n % 256) as u8,
        ],
        n <= u32::MAX ==> be_bytes(n, 4) == seq![
            (n / 0x100_0000) as u8,
            (n / 0x1_0000 % 256) as u8,
            (n / 0x100 % 256) as u8,
            (n % 256) as u8,
        ],
        n <= u16::MAX ==> be_bytes(n, 2) == seq![(n / 0x100) as u8, (n % 256) as u8],
        n <= u8::MAX ==> be_bytes(n, 1) == seq![n as u8],
{
    reveal_with_fuel(be_bytes, 9);
    assert(n / 256 / 256 == n / 0x1_0000);
    assert(n / 256 / 256 / 256 == n / 0x100_0000);
    assert(n / 256 / 256 / 256 / 256 == n / 0x1_0000_0000);
    assert(n / 256 / 256 / 256 / 256 / 256 == n / 0x100_0000_0000);
    assert(n / 256 / 256 / 256 / 256 / 256 / 256 == n / 0x1_0000_0000_0000);
    assert(n / 256 / 256 / 256 / 256 / 256 / 256 / 256 == n / 0x100_0000_0000_0000);
    if n <= u64::MAX {
        assert(n / 0x100_0000_0000_0000 % 256 == n / 0x100_0000_0000_0000);
        assert(be_bytes(n, 8) =~= seq![
            (n / 0x100_0000_0000_0000) as u8,
            (n / 0x1_0000_0000_0000 % 256) as u8,
            (n / 0x100_0000_0000 % 256) as u8,
            (n / 0x1_0000_0000 % 256) as u8,
            (n / 0x100_0000 % 256) as u8,
            (n / 0x1_0000 % 256) as u8,
            (n / 0x100 % 256) as u8,
            (n % 256) as u8,
        ]);
    }
    if n <= u32::MAX {
        assert(be_bytes(n, 4) =~= seq![
            (n / 0x100_0000) as u8,
            (n / 0x1_0000 % 256) as u8,
            (n / 0x100 % 256) as u8,
            (n % 256) as u8,
        ]);
    }
    if n <= u16::MAX {
        assert(be_bytes(n, 2) =~= seq![(n / 0x100) as u8, (n % 256) as u8]);
    }
    if n <= u8::MAX {
        assert(be_bytes(n, 1) =~= seq![n as u8]);
    }
}

/// Eight bytes, and four, are read with the most significant first.
pub proof fn lemma_bytes_are_read_big_endian(bytes: Seq<u8>)
    ensures
        bytes.len() == 8 ==> be_value(bytes) == 0x100_0000_0000_0000 * bytes[0]
            + 0x1_0000_0000_0000 * bytes[1] + 0x100_0000_0000 * bytes[2] + 0x1_0000_0000
            * bytes[3] + 0x100_0000 * bytes[4] + 0x1_0000 * bytes[5] + 0x100 * bytes[6] + bytes[7],
        bytes.len() == 4 ==> be_value(bytes) == 0x100_0000 * bytes[0] + 0x1_0000 * bytes[1] + 0x100
            * bytes[2] + bytes[3],
{
    reveal_with_fuel(be_value, 9);
}

/// A variable-length integer is written in the shortest of its four forms.
pub proof fn lemma_integers_take_their_shortest_form(n: nat)
    ensures
        n < 0xFD ==> bigsize(n) == seq![n as u8],
        0xFD <= n < 0x1_0000 ==> bigsize(n) == seq![0xFDu8, (n / 0x100) as u8, (n % 256) as u8],
        0x1_0000 <= n < 0x1_0000_0000 ==> bigsize(n) == seq![
            0xFEu8,
            (n / 0x100_0000) as u8,
            (n / 0x1_0000 % 256) as u8,
            (n / 0x100 % 256) as u8,
            (n % 256) as u8,
        ],
        0x1_0000_0000 <= n <= u64::MAX ==> bigsize(n) == seq![
            0xFFu8,
            (n / 0x100_0000_0000_0000) as u8,
            (n / 0x1_0000_0000_0000 % 256) as u8,
            (n / 0x100_0000_0000 % 256) as u8,
            (n / 0x1_0000_0000 % 256) as u8,
            (n / 0x100_0000 % 256) as u8,
            (n / 0x1_0000 % 256) as u8,
            (n / 0x100 % 256) as u8,
            (n % 256) as u8,
        ],
{
    lemma_numbers_are_big_endian(n);
}

/// A stream is its records one after the other, each a type, a length and as many bytes; a structure
/// is the length of its stream and the stream.
pub proof fn lemma_streams_are_concatenations(
    a: Seq<RecordView>,
    b: Seq<RecordView>,
    record: RecordView,
)
    ensures
        stream_bytes(Seq::empty()) == Seq::<u8>::empty(),
        stream_bytes(seq![record]) == bigsize(record.typ as nat) + bigsize(record.value.len())
            + record.value,
        stream_bytes(a + b) == stream_bytes(a) + stream_bytes(b),
        struct_bytes(a) == bigsize(stream_bytes(a).len()) + stream_bytes(a),
    decreases a.len(),
{
    assert(seq![record].drop_first() =~= Seq::<RecordView>::empty());
    assert(stream_bytes(seq![record].drop_first()) =~= Seq::<u8>::empty());
    assert(stream_bytes(seq![record]) =~= bigsize(record.typ as nat) + bigsize(record.value.len())
        + record.value);
    if a.len() == 0 {
        assert(a + b =~= b);
        assert(stream_bytes(a + b) =~= stream_bytes(a) + stream_bytes(b));
    } else {
        lemma_streams_are_concatenations(a.drop_first(), b, record);
        assert((a + b).drop_first() =~= a.drop_first() + b);
        assert(stream_bytes(a + b) =~= stream_bytes(a) + stream_bytes(b));
    }
}

/// Fee limits are laid out as their length, then type 0, length 8 and the total fee if there is one,
/// then type 2, length 8 and the proportional fee if there is one.
pub proof fn lemma_parameters_layout(parameters: LSPS2Parameters)
    ensures
        parameters_bytes(parameters) == match (
            parameters.max_total_opening_fee_msat,
            parameters.max_proportional_opening_fee_ppm_msat,
        ) {
            (None, None) => seq![0u8],
            (Some(total), None) => seq![10u8, 0, 8] + be_bytes(total as nat, 8),
            (None, Some(proportional)) => seq![10u8, 2, 8] + be_bytes(proportional as nat, 8),
            (Some(total), Some(proportional)) => seq![20u8, 0, 8] + be_bytes(total as nat, 8)
                + seq![2u8, 8] + be_bytes(proportional as nat, 8),
        },
{
    let none: Seq<RecordView> = Seq::empty();
    let total = opt_u64_record(0, parameters.max_total_opening_fee_msat);
    let proportional = opt_u64_record(2, parameters.max_proportional_opening_fee_ppm_msat);
    lemma_opt_number_layout(0, parameters.max_total_opening_fee_msat);
    lemma_opt_number_layout(2, parameters.max_proportional_opening_fee_ppm_msat);
    lemma_streams_are_concatenations(total, proportional, RecordView { typ: 0, value: seq![] });
    lemma_integers_take_their_shortest_form(stream_bytes(total + proportional).len());
    let bytes = parameters_bytes(parameters);
    match (
        parameters.max_total_opening_fee_msat,
        parameters.max_proportional_opening_fee_ppm_msat,
    ) {
        (None, None) => assert(bytes =~= seq![0u8]),
        (Some(n), None) => assert(bytes =~= seq![10u8, 0, 8] + be_bytes(n as nat, 8)),
        (None, Some(m)) => assert(bytes =~= seq![10u8, 2, 8] + be_bytes(m as nat, 8)),
        (Some(n), Some(m)) => assert(bytes =~= seq![20u8, 0, 8] + be_bytes(n as nat, 8)
            + seq![2u8, 8] + be_bytes(m as nat, 8)),
    }
}

/// An optional number of a small type is laid out as its type, its length and its bytes, or not at
/// all.
proof fn lemma_opt_number_layout(typ: u64, n: Option<u64>)
    requires
        typ < 0xFD,
    ensures
        n matches Some(n) ==> stream_bytes(opt_u64_record(typ, Some(n))) == seq![typ as u8, 8u8]
            + be_bytes(n as nat, 8) && be_bytes(n as nat, 8).len() == 8,
        n is None ==> stream_bytes(opt_u64_record(typ, n)) == Seq::<u8>::empty(),
{
    if let Some(n) = n {
        lemma_be_bytes_len(n as nat, 8);
        lemma_record_layout(typ, be_bytes(n as nat, 8));
        assert(opt_u64_record(typ, Some(n)) =~= seq![
            RecordView { typ, value: be_bytes(n as nat, 8) },
        ]);
    }
}

/// A short record of a small type is laid out as its type, its length and its value.
proof fn lemma_record_layout(typ: u64, value: Seq<u8>)
    requires
        typ < 0xFD,
        value.len() < 0xFD,
    ensures
        stream_bytes(seq![RecordView { typ, value }]) == seq![typ as u8, value.len() as u8] + value,
{
    lemma_streams_are_concatenations(Seq::empty(), Seq::empty(), RecordView { typ, value });
    lemma_integers_take_their_shortest_form(typ as nat);
    lemma_integers_take_their_shortest_form(value.len());
    assert(stream_bytes(seq![RecordView { typ, value }]) =~= seq![
        typ as u8,
        value.len() as u8,
    ] + value);
}

/// A lease is laid out as its length, then each field behind its type and its length: the key, the
/// short channel id, the difference in height, the size of the payment if it is fixed, and the end.
pub proof fn lemma_lease_layout(lease: LSPS2LeaseParametersView)
    requires
        lease.lsp_node_id.len() == 33,
    ensures
        lease_bytes(lease) == (match lease.payment_size_msat {
            Some(_) => seq![71u8],
            None => seq![61u8],
        }) + seq![0u8, 33] + lease.lsp_node_id + seq![2u8, 8] + be_bytes(
            lease.intercept_scid as nat,
            8,
        ) + seq![4u8, 4] + be_bytes(lease.cltv_expiry_delta as nat, 4) + (
        match lease.payment_size_msat {
            Some(size) => seq![6u8, 8] + be_bytes(size as nat, 8),
            None => Seq::empty(),
        }) + seq![8u8, 8] + be_bytes(lease.valid_until as nat, 8),
{
    let scid = be_bytes(lease.intercept_scid as nat, 8);
    let delta = be_bytes(lease.cltv_expiry_delta as nat, 4);
    let end = be_bytes(lease.valid_until as nat, 8);
    lemma_be_bytes_len(lease.intercept_scid as nat, 8);
    lemma_be_bytes_len(lease.cltv_expiry_delta as nat, 4);
    lemma_be_bytes_len(lease.valid_until as nat, 8);
    lemma_record_layout(0, lease.lsp_node_id);
    lemma_record_layout(2, scid);
    lemma_record_layout(4, delta);
    lemma_record_layout(8, end);
    lemma_opt_number_layout(6, lease.payment_size_msat);
    let r0 = seq![RecordView { typ: 0, value: lease.lsp_node_id }];
    let r2 = seq![RecordView { typ: 2, value: scid }];
    let r4 = seq![RecordView { typ: 4, value: delta }];
    let r6 = opt_u64_record(6, lease.payment_size_msat);
    let r8 = seq![RecordView { typ: 8, value: end }];
    let any = RecordView { typ: 0, value: seq![] };
    lemma_streams_are_concatenations(r0, r2, any);
    lemma_streams_are_concatenations(r0 + r2, r4, any);
    lemma_streams_are_concatenations(r0 + r2 + r4, r6, any);
    lemma_streams_are_concatenations(r0 + r2 + r4 + r6, r8, any);
    assert(lease_records(lease) =~= r0 + r2 + r4 + r6 + r8);
    lemma_integers_take_their_shortest_form(stream_bytes(lease_records(lease)).len());
    let bytes = lease_bytes(lease);
    match lease.payment_size_msat {
        Some(size) => {
            lemma_be_bytes_len(size as nat, 8);
            assert(bytes =~= seq![71u8] + seq![0u8, 33] + lease.lsp_node_id + seq![2u8, 8] + scid
                + seq![4u8, 4] + delta + (seq![6u8, 8] + be_bytes(size as nat, 8)) + seq![8u8, 8]
                + end);
        },
        None => {
            assert(bytes =~= seq![61u8] + seq![0u8, 33] + lease.lsp_node_id + seq![2u8, 8] + scid
                + seq![4u8, 4] + delta + Seq::<u8>::empty() + seq![8u8, 8] + end);
        },
    }
}

/// Metadata is laid out as its length, then type 0, a length and the fee limits if there are any,
/// then type 1, a length and the lease if there is one.
pub proof fn lemma_metadata_layout(metadata: PaymentMetadataView)
    requires
        metadata.lsps2_lease_parameters matches Some(lease) ==> lease.lsp_node_id.len() == 33,
    ensures
        ({
            let limits = match metadata.lsps2_parameters {
                Some(parameters) => seq![0u8, parameters_bytes(parameters).len() as u8]
                    + parameters_bytes(parameters),
                None => Seq::empty(),
            };
            let leased = match metadata.lsps2_lease_parameters {
                Some(lease) => seq![1u8, lease_bytes(lease).len() as u8] + lease_bytes(lease),
                None => Seq::empty(),
            };
            &&& (limits + leased).len() < 0xFD
            &&& metadata_bytes(metadata) == seq![(limits + leased).len() as u8] + limits + leased
        }),
{
    let none: Seq<RecordView> = Seq::empty();
    let any = RecordView { typ: 0, value: seq![] };
    lemma_streams_are_concatenations(none, none, any);
    let r0 = match metadata.lsps2_parameters {
        Some(parameters) => seq![RecordView { typ: 0, value: parameters_bytes(parameters) }],
        None => none,
    };
    let r1 = match metadata.lsps2_lease_parameters {
        Some(lease) => seq![RecordView { typ: 1, value: lease_bytes(lease) }],
        None => none,
    };
    if let Some(parameters) = metadata.lsps2_parameters {
        lemma_parameters_layout(parameters);
        if let Some(n) = parameters.max_total_opening_fee_msat {
            lemma_be_bytes_len(n as nat, 8);
        }
        if let Some(n) = parameters.max_proportional_opening_fee_ppm_msat {
            lemma_be_bytes_len(n as nat, 8);
        }
        lemma_record_layout(0, parameters_bytes(parameters));
    }
    if let Some(lease) = metadata.lsps2_lease_parameters {
        lemma_lease_layout(lease);
        lemma_be_bytes_len(lease.intercept_scid as nat, 8);
        lemma_be_bytes_len(lease.cltv_expiry_delta as nat, 4);
        lemma_be_bytes_len(lease.valid_until as nat, 8);
        if let Some(size) = lease.payment_size_msat {
            lemma_be_bytes_len(size as nat, 8);
        }
        lemma_record_layout(1, lease_bytes(lease));
    }
    lemma_streams_are_concatenations(r0, r1, any);
    assert(metadata_records(metadata) =~= r0 + r1);
    lemma_integers_take_their_shortest_form(stream_bytes(r0 + r1).len());
    assert(metadata_bytes(metadata) =~= seq![stream_bytes(r0 + r1).len() as u8] + stream_bytes(r0)
        + stream_bytes(r1));
}

/// A reader takes a structure exactly if its types ascend and each one is known to it or odd, and
/// then takes all records; it takes nothing from bytes that do not begin with a structure.
pub proof fn lemma_reader_takes_ascending_understood_records(
    list: Seq<RecordView>,
    known: Seq<u64>,
    rest: Seq<u8>,
    bytes: Seq<u8>,
)
    requires
        struct_bytes(list).len() + rest.len() <= u64::MAX,
    ensures
        (forall|i: int, j: int| 0 <= i < j < list.len() ==> list[i].typ < list[j].typ) && (forall|
            i: int,
        |
            0 <= i < list.len() ==> list[i].typ % 2 == 1 || (exists|k: int|
                0 <= k < known.len() && known[k] == #[trigger] list[i].typ)) ==> struct_read(
            struct_bytes(list) + rest,
            known,
        ) == Some(list),
        (exists|i: int, j: int| 0 <= i < j < list.len() && list[i].typ >= list[j].typ)
            ==> struct_read(struct_bytes(list) + rest, known) is None,
        (exists|i: int|
            0 <= i < list.len() && #[trigger] list[i].typ % 2 == 0 && (forall|k: int|
                0 <= k < known.len() ==> known[k] != list[i].typ)) ==> struct_read(
            struct_bytes(list) + rest,
            known,
        ) is None,
        (forall|l: Seq<RecordView>| !(#[trigger] struct_bytes(l)).is_prefix_of(bytes))
            ==> struct_read(bytes, known) is None,
{
    let given = struct_bytes(list) + rest;
    assert(struct_bytes(list) =~= given.take(struct_bytes(list).len() as int));
    assert(starts_with_struct(given, list));
    lemma_struct_records(given, list);
    if (forall|i: int|
        0 <= i < list.len() ==> list[i].typ % 2 == 1 || (exists|k: int|
            0 <= k < known.len() && known[k] == #[trigger] list[i].typ)) {
        assert forall|i: int| 0 <= i < list.len() implies known.contains((#[trigger] list[i]).typ)
            || list[i].typ % 2 == 1 by {
            let typ = list[i].typ;
            assert(typ % 2 == 1 || (exists|k: int| 0 <= k < known.len() && known[k] == typ));
        }
        assert(understood(list, known));
    }
    if (forall|l: Seq<RecordView>| !(#[trigger] struct_bytes(l)).is_prefix_of(bytes)) {
        assert forall|l: Seq<RecordView>| !(#[trigger] starts_with_struct(bytes, l)) by {
            assert(!struct_bytes(l).is_prefix_of(bytes));
        }
    }
}

/// A type is found exactly if a record has it, and then with the value of the first such record.
pub proof fn lemma_lookup_finds_the_first(list: Seq<RecordView>, typ: u64)
    ensures
        match lookup(list, typ) {
            Some(value) => exists|i: int|
                0 <= i < list.len() && (#[trigger] list[i]).typ == typ && list[i].value == value && (
                forall|j: int| 0 <= j < i ==> (#[trigger] list[j]).typ != typ),
            None => forall|i: int| 0 <= i < list.len() ==> (#[trigger] list[i]).typ != typ,
        },
    decreases list.len(),
{
    if list.len() > 0 && list[0].typ != typ {
        let tail = list.drop_first();
        lemma_lookup_finds_the_first(tail, typ);
        match lookup(tail, typ) {
            Some(value) => {
                let i = choose|i: int|
                    0 <= i < tail.len() && (#[trigger] tail[i]).typ == typ && tail[i].value
                        == value && (forall|j: int|
                        0 <= j < i ==> (#[trigger] tail[j]).typ != typ);
                assert(list[i + 1] == tail[i]);
                assert forall|j: int| 0 <= j < i + 1 implies (#[trigger] list[j]).typ != typ by {
                    if j > 0 {
                        assert(tail[j - 1] == list[j]);
                    }
                }
            },
            None => {
                assert forall|i: int| 0 <= i < list.len() implies (#[trigger] list[i]).typ
                    != typ by {
                    if i > 0 {
                        assert(tail[i - 1] == list[i]);
                    }
                }
            },
        }
    } else if list.len() > 0 {
        assert(list[0].typ == typ);
    }
}

/// Whether the types ascend, and each one is below the limit and even, or odd.
pub open spec fn ascending_up_to(list: Seq<RecordView>, limit: u64) -> bool {
    &&& forall|i: int, j: int| 0 <= i < j < list.len() ==> list[i].typ < list[j].typ
    &&& forall|i: int|
        0 <= i < list.len() ==> (#[trigger] list[i]).typ % 2 == 1 || list[i].typ < limit
}

/// Where the types ascend and are understood, each record is found under its type; where no record
/// has a type, nothing is found.
proof fn lemma_found_by_type(list: Seq<RecordView>, typ: u64)
    requires
        forall|i: int, j: int| 0 <= i < j < list.len() ==> list[i].typ < list[j].typ,
    ensures
        forall|i: int|
            0 <= i < list.len() && (#[trigger] list[i]).typ == typ ==> lookup(list, typ) == Some(
                list[i].value,
            ),
        (forall|i: int| 0 <= i < list.len() ==> (#[trigger] list[i]).typ != typ) ==> lookup(
            list,
            typ,
        ) is None,
        lookup(list, typ) is Some ==> exists|i: int|
            0 <= i < list.len() && (#[trigger] list[i]).typ == typ && Some(list[i].value)
                == lookup(list, typ),
{
    lemma_lookup_finds_the_first(list, typ);
    assert(ordered(list));
    assert forall|i: int| 0 <= i < list.len() && (#[trigger] list[i]).typ == typ implies lookup(
        list,
        typ,
    ) == Some(list[i].value) by {
        lemma_lookup_present(list, i);
    }
}

/// Fee limits are taken exactly from records in ascending order, none of an unknown even type, whose
/// fees have eight bytes. Each fee is the number in its record, and there is none without a record.
pub proof fn lemma_parameters_are_read_from_their_records(list: Seq<RecordView>, rest: Seq<u8>)
    requires
        struct_bytes(list).len() + rest.len() <= u64::MAX,
    ensures
        ({
            let read = parameters_read(struct_bytes(list) + rest);
            &&& read is Some <==> ascending_up_to(list, 3) && (forall|i: int|
                0 <= i < list.len() && ((#[trigger] list[i]).typ == 0 || list[i].typ == 2)
                    ==> list[i].value.len() == 8)
            &&& read matches Some(parameters) ==> {
                &&& forall|i: int|
                    0 <= i < list.len() && (#[trigger] list[i]).typ == 0
                        ==> parameters.max_total_opening_fee_msat == Some(
                        be_value(list[i].value) as u64,
                    )
                &&& forall|i: int|
                    0 <= i < list.len() && (#[trigger] list[i]).typ == 2
                        ==> parameters.max_proportional_opening_fee_ppm_msat == Some(
                        be_value(list[i].value) as u64,
                    )
                &&& (forall|i: int| 0 <= i < list.len() ==> (#[trigger] list[i]).typ != 0)
                    ==> parameters.max_total_opening_fee_msat is None
                &&& (forall|i: int| 0 <= i < list.len() ==> (#[trigger] list[i]).typ != 2)
                    ==> parameters.max_proportional_opening_fee_ppm_msat is None
            }
        }),
{
    let known: Seq<u64> = seq![0, 2];
    lemma_read_of_written(list, known, rest);
    lemma_known_types(list, known, 3);
    if ordered(list) {
        lemma_found_by_type(list, 0);
        lemma_found_by_type(list, 2);
    }
}

/// What is written as a structure is taken as its records if they ascend and are understood, and
/// refused otherwise.
proof fn lemma_read_of_written(list: Seq<RecordView>, known: Seq<u64>, rest: Seq<u8>)
    requires
        struct_bytes(list).len() + rest.len() <= u64::MAX,
    ensures
        struct_read(struct_bytes(list) + rest, known) == if ordered(list) && understood(
            list,
            known,
        ) {
            Some(list)
        } else {
            None
        },
{
    let given = struct_bytes(list) + rest;
    assert(struct_bytes(list) =~= given.take(struct_bytes(list).len() as int));
    assert(starts_with_struct(given, list));
    lemma_struct_records(given, list);
}

/// A reader that knows all even types below a limit understands what ascends with no other even
/// type.
proof fn lemma_known_types(list: Seq<RecordView>, known: Seq<u64>, limit: u64)
    requires
        forall|typ: u64| typ < limit && typ % 2 == 0 ==> #[trigger] known.contains(typ),
        forall|typ: u64| #[trigger] known.contains(typ) ==> typ < limit,
    ensures
        ordered(list) && understood(list, known) <==> ascending_up_to(list, limit),
{
    if understood(list, known) {
        assert forall|i: int| 0 <= i < list.len() implies (#[trigger] list[i]).typ % 2 == 1
            || list[i].typ < limit by {
            assert(known.contains(list[i].typ) || list[i].typ % 2 == 1);
        }
    }
    if ascending_up_to(list, limit) {
        assert forall|i: int| 0 <= i < list.len() implies known.contains((#[trigger] list[i]).typ)
            || list[i].typ % 2 == 1 by {
            assert(list[i].typ % 2 == 1 || list[i].typ < limit);
        }
    }
}

/// A lease is taken exactly from records in ascending order, none of an unknown even type, that give
/// a valid key, a short channel id, a difference in height and an end in their widths, and the size
/// of the payment in its width or not at all. Each field is what its record holds.
pub proof fn lemma_lease_is_read_from_its_records(list: Seq<RecordView>, rest: Seq<u8>)
    requires
        struct_bytes(list).len() + rest.len() <= u64::MAX,
    ensures
        ({
            let read = lease_read(struct_bytes(list) + rest);
            &&& read is Some <==> {
                &&& ascending_up_to(list, 9)
                &&& exists|i: int| 0 <= i < list.len() && (#[trigger] list[i]).typ == 0
                &&& exists|i: int| 0 <= i < list.len() && (#[trigger] list[i]).typ == 2
                &&& exists|i: int| 0 <= i < list.len() && (#[trigger] list[i]).typ == 4
                &&& exists|i: int| 0 <= i < list.len() && (#[trigger] list[i]).typ == 8
                &&& forall|i: int|
                    0 <= i < list.len() && (#[trigger] list[i]).typ == 0 ==> list[i].value.len()
                        == 33 && is_public_key(list[i].value)
                &&& forall|i: int|
                    0 <= i < list.len() && ((#[trigger] list[i]).typ == 2 || list[i].typ == 6
                        || list[i].typ == 8) ==> list[i].value.len() == 8
                &&& forall|i: int|
                    0 <= i < list.len() && (#[trigger] list[i]).typ == 4 ==> list[i].value.len()
                        == 4
            }
            &&& read matches Some(lease) ==> {
                &&& forall|i: int|
                    0 <= i < list.len() && (#[trigger] list[i]).typ == 0 ==> lease.lsp_node_id
                        == list[i].value
                &&& forall|i: int|
                    0 <= i < list.len() && (#[trigger] list[i]).typ == 2 ==> lease.intercept_scid
                        == be_value(list[i].value)
                &&& forall|i: int|
                    0 <= i < list.len() && (#[trigger] list[i]).typ == 4
                        ==> lease.cltv_expiry_delta == be_value(list[i].value)
                &&& forall|i: int|
                    0 <= i < list.len() && (#[trigger] list[i]).typ == 6
                        ==> lease.payment_size_msat == Some(be_value(list[i].value) as u64)
                &&& (forall|i: int| 0 <= i < list.len() ==> (#[trigger] list[i]).typ != 6)
                    ==> lease.payment_size_msat is None
                &&& forall|i: int|
                    0 <= i < list.len() && (#[trigger] list[i]).typ == 8 ==> lease.valid_until
                        == be_value(list[i].value)
            }
        }),
{
    let known: Seq<u64> = seq![0, 2, 4, 6, 8];
    assert(known.contains(0) && known.contains(2) && known.contains(4) && known.contains(6)
        && known.contains(8)) by {
        assert(known[0] == 0 && known[1] == 2 && known[2] == 4 && known[3] == 6 && known[4] == 8);
    }
    lemma_read_of_written(list, known, rest);
    lemma_known_types(list, known, 9);
    if ordered(list) {
        lemma_found_by_type(list, 0);
        lemma_found_by_type(list, 2);
        lemma_found_by_type(list, 4);
        lemma_found_by_type(list, 6);
        lemma_found_by_type(list, 8);
        assert forall|i: int| 0 <= i < list.len() implies be_value((#[trigger] list[i]).value)
            < pow256(list[i].value.len()) by {
            lemma_be_bytes_of_value(list[i].value);
        }
        reveal_with_fuel(pow256, 9);
    }
}

/// Metadata is taken exactly from records in ascending order, none of an unknown even type, whose
/// fee limits are such and nothing more, and whose lease is one and nothing more. Each field is what
/// its record holds, and there is none without a record.
pub proof fn lemma_metadata_is_read_from_its_records(list: Seq<RecordView>, rest: Seq<u8>)
    requires
        struct_bytes(list).len() + rest.len() <= u64::MAX,
    ensures
        ({
            let read = metadata_read(struct_bytes(list) + rest);
            &&& read is Some <==> {
                &&& ascending_up_to(list, 2)
                &&& forall|i: int|
                    0 <= i < list.len() && (#[trigger] list[i]).typ == 0 ==> parameters_read(
                        list[i].value,
                    ) is Some && exists|inner: Seq<RecordView>| #[trigger]
                        struct_bytes(inner) == list[i].value
                &&& forall|i: int|
                    0 <= i < list.len() && (#[trigger] list[i]).typ == 1 ==> lease_read(
                        list[i].value,
                    ) is Some && exists|inner: Seq<RecordView>| #[trigger]
                        struct_bytes(inner) == list[i].value
            }
            &&& read matches Some(metadata) ==> {
                &&& forall|i: int|
                    0 <= i < list.len() && (#[trigger] list[i]).typ == 0
                        ==> metadata.lsps2_parameters == parameters_read(list[i].value)
                &&& (forall|i: int| 0 <= i < list.len() ==> (#[trigger] list[i]).typ != 0)
                    ==> metadata.lsps2_parameters is None
                &&& forall|i: int|
                    0 <= i < list.len() && (#[trigger] list[i]).typ == 1
                        ==> metadata.lsps2_lease_parameters == lease_read(list[i].value)
                &&& (forall|i: int| 0 <= i < list.len() ==> (#[trigger] list[i]).typ != 1)
                    ==> metadata.lsps2_lease_parameters is None
            }
        }),
{
    let known: Seq<u64> = seq![0, 1];
    assert(known.contains(0) && known.contains(1)) by {
        assert(known[0] == 0 && known[1] == 1);
    }
    lemma_read_of_written(list, known, rest);
    lemma_known_types(list, known, 2);
    if ordered(list) {
        lemma_found_by_type(list, 0);
        lemma_found_by_type(list, 1);
    }
    assert forall|i: int| 0 <= i < list.len() implies exactly_struct((#[trigger] list[i]).value)
        == exists|inner: Seq<RecordView>| #[trigger] struct_bytes(inner) == list[i].value by {
        lemma_value_fits(list, i);
        lemma_exactly_one_struct(list[i].value);
    }
}

/// A field is what the record found under its type holds. A number that is missing or of another
/// width is refused, unless it may be missing; a key that is missing or invalid is refused.
pub proof fn lemma_fields_are_what_is_found(list: Seq<RecordView>, typ: u64, width: nat, n: u64)
    ensures
        lookup(list, typ) is None ==> opt_u64_field(list, typ) == Some(None::<u64>) && number_field(
            list,
            typ,
            width,
        ) is None && key_field(list, typ) is None,
        lookup(list, typ) matches Some(value) ==> {
            &&& value.len() == 8 ==> opt_u64_field(list, typ) == Some(
                Some(be_value(value) as u64),
            )
            &&& value.len() != 8 ==> opt_u64_field(list, typ) is None
            &&& value.len() == width ==> number_field(list, typ, width) == Some(be_value(value))
            &&& value.len() != width ==> number_field(list, typ, width) is None
            &&& value.len() == 33 && is_public_key(value) ==> key_field(list, typ) == Some(value)
            &&& value.len() != 33 || !is_public_key(value) ==> key_field(list, typ) is None
        },
        opt_u64_record(typ, None).len() == 0,
        opt_u64_record(typ, Some(n)).len() == 1,
        opt_u64_record(typ, Some(n))[0].typ == typ,
        opt_u64_record(typ, Some(n))[0].value == be_bytes(n as nat, 8),
{
}

/// Bytes are one structure with nothing behind it exactly if they are the bytes of some records.
proof fn lemma_exactly_one_struct(bytes: Seq<u8>)
    requires
        bytes.len() <= u64::MAX,
    ensures
        exactly_struct(bytes) == exists|inner: Seq<RecordView>| #[trigger]
            struct_bytes(inner) == bytes,
{
    if exactly_struct(bytes) {
        let list = struct_records(bytes)->0;
        assert(starts_with_struct(bytes, list));
        assert(struct_bytes(list) =~= bytes);
    }
    if exists|inner: Seq<RecordView>| #[trigger] struct_bytes(inner) == bytes {
        let inner = choose|inner: Seq<RecordView>| #[trigger] struct_bytes(inner) == bytes;
        assert(starts_with_struct(bytes, inner));
        lemma_struct_records(bytes, inner);
    }
}

/// Bytes that begin with no structure are taken for nothing.
pub proof fn lemma_no_structure_is_refused(bytes: Seq<u8>)
    requires
        forall|list: Seq<RecordView>| !(#[trigger] struct_bytes(list)).is_prefix_of(bytes),
    ensures
        parameters_read(bytes) is None,
        lease_read(bytes) is None,
        metadata_read(bytes) is None,
{
    assert forall|list: Seq<RecordView>| !(#[trigger] starts_with_struct(bytes, list)) by {
        assert(!struct_bytes(list).is_prefix_of(bytes));
    }
}

/// BOLT12 payment metadata is read under the node's own key, which is 0, and only there; what is put
/// into it stands there alone.
pub proof fn lemma_bolt12_uses_one_key(
    payment_metadata: Map<u64, Vec<u8>>,
    metadata: PaymentMetadataView,
)
    ensures
        payment_metadata.contains_key(0) ==> bolt12_read(payment_metadata) == metadata_read(
            payment_metadata[0]@,
        ),
        !payment_metadata.contains_key(0) ==> bolt12_read(payment_metadata) is None,
        bolt12_holds(payment_metadata, metadata) ==> payment_metadata[0]@ == metadata_bytes(
            metadata,
        ) && forall|key: u64| #[trigger] payment_metadata.contains_key(key) <==> key == 0,
{
    if bolt12_holds(payment_metadata, metadata) {
        assert forall|key: u64| #[trigger] payment_metadata.contains_key(key) <==> key == 0 by {
            assert(payment_metadata.dom().contains(key) == set![0u64].contains(key));
        }
    }
}

/// A lease is valid exactly if its node is given by the bytes of a key, and metadata is exactly if
/// it has no lease or a valid one.
pub proof fn lemma_only_the_key_decides_validity(
    lease: LSPS2LeaseParametersView,
    metadata: PaymentMetadataView,
    key: PublicKey,
)
    ensures
        lease.valid() <==> lease.lsp_node_id.len() == 33 && is_public_key(lease.lsp_node_id),
        metadata.lsps2_lease_parameters is None ==> metadata.valid(),
        metadata.lsps2_lease_parameters == Some(lease) ==> (metadata.valid() <==> lease.valid()),
        key.valid() <==> key@.len() == 33 && is_public_key(key@),
{
}

/// Views of metadata, of leases and of records keep all of them.
pub proof fn lemma_metadata_views_keep_everything(
    metadata: PaymentMetadata,
    lease: LSPS2LeaseParameters,
    list: Seq<Record>,
)
    ensures
        metadata@.lsps2_parameters == metadata.lsps2_parameters,
        metadata.lsps2_lease_parameters matches Some(lease) ==> metadata@.lsps2_lease_parameters
            == Some(lease@),
        metadata.lsps2_lease_parameters is None ==> metadata@.lsps2_lease_parameters is None,
        opt_metadata(Some(metadata)) == Some(metadata@),
        opt_metadata(None) is None,
        lease@.lsp_node_id == lease.lsp_node_id@,
        lease@.intercept_scid == lease.intercept_scid,
        lease@.cltv_expiry_delta == lease.cltv_expiry_delta,
        lease@.payment_size_msat == lease.payment_size_msat,
        lease@.valid_until == lease.valid_until,
        records(list).len() == list.len(),
        forall|i: int|
            0 <= i < list.len() ==> (#[trigger] records(list)[i]).typ == list[i].typ && records(
                list,
            )[i].value == list[i].value@,
{
}

} // verus!
