use bitcoin::secp256k1::{PublicKey as Key, Secp256k1, SecretKey};
use ldk_node::payment::fields::find;
use ldk_node::payment::metadata::{
    LSPS2LeaseParameters, LSPS2Parameters, PaymentMetadata, LDK_NODE_BOLT12_PAYMENT_METADATA_KEY,
};
use ldk_node::payment::tlv::{read_struct, write_struct, Record};
use ldk_node::primitives::PublicKey;
use lightning::util::ser::{BigSize, Writeable};
use std::collections::BTreeMap;

fn lsp_node_id() -> PublicKey {
    let key =
        Key::from_secret_key(&Secp256k1::new(), &SecretKey::from_slice(&[7; 32]).unwrap());
    PublicKey::from_bytes(key.serialize()).unwrap()
}

fn lease() -> LSPS2LeaseParameters {
    LSPS2LeaseParameters {
        lsp_node_id: lsp_node_id(),
        intercept_scid: 42,
        cltv_expiry_delta: 48,
        payment_size_msat: Some(3_000),
        valid_until: u64::MAX,
    }
}

#[test]
fn empty_metadata_roundtrips() {
    let metadata = PaymentMetadata { lsps2_parameters: None, lsps2_lease_parameters: None };

    let encoded = metadata.encode();
    let decoded = PaymentMetadata::read(&encoded).unwrap();

    assert_eq!(metadata, decoded);
}

#[test]
fn lsps2_parameters_roundtrip() {
    let lsps2_parameters = LSPS2Parameters {
        max_total_opening_fee_msat: Some(42_000),
        max_proportional_opening_fee_ppm_msat: Some(17_000),
    };
    let metadata = PaymentMetadata {
        lsps2_parameters: Some(lsps2_parameters),
        lsps2_lease_parameters: None,
    };

    let encoded = metadata.encode();
    let decoded = PaymentMetadata::read(&encoded).unwrap();

    assert_eq!(metadata, decoded);
}

#[test]
fn lease_parameters_are_skippable_by_older_readers() {
    // `lsps2_lease_parameters` is only consumed while constructing blinded payment paths by
    // the same version that wrote it; a reader that does not understand the field can still
    // validate the withheld fee via `lsps2_parameters`. The field is therefore semantically
    // optional and must use an odd TLV type so that readers predating it (or newer flows
    // reusing this struct) can skip it instead of failing the whole parse - and with it the
    // payment's claim-time fee validation.
    let lsps2_parameters = LSPS2Parameters {
        max_total_opening_fee_msat: Some(42_000),
        max_proportional_opening_fee_ppm_msat: None,
    };
    let metadata = PaymentMetadata {
        lsps2_parameters: Some(lsps2_parameters),
        lsps2_lease_parameters: Some(lease()),
    };

    let encoded = metadata.encode();
    // A reader that knows nothing but the fee limits.
    let prior = read_struct(&encoded, &vec![0]);

    assert_eq!(
        prior
            .and_then(|(records, _)| find(&records, 0).cloned())
            .and_then(|value| LSPS2Parameters::read(&value)),
        Some(lsps2_parameters)
    );
}

#[test]
fn bolt12_metadata_roundtrips() {
    let metadata = PaymentMetadata {
        lsps2_parameters: Some(LSPS2Parameters {
            max_total_opening_fee_msat: Some(42_000),
            max_proportional_opening_fee_ppm_msat: None,
        }),
        lsps2_lease_parameters: None,
    };

    let encoded = metadata.encode_as_bolt12_payment_metadata();

    assert_eq!(PaymentMetadata::decode_from_bolt12_payment_metadata(&encoded), Some(metadata));
}

#[test]
fn lease_parameters_roundtrip() {
    for payment_size_msat in [None, Some(0), Some(u64::MAX)] {
        let lease = LSPS2LeaseParameters { payment_size_msat, ..lease() };
        assert_eq!(LSPS2LeaseParameters::read(&lease.encode()), Some(lease));
        let metadata =
            PaymentMetadata { lsps2_parameters: None, lsps2_lease_parameters: Some(lease) };
        assert_eq!(PaymentMetadata::read(&metadata.encode()), Some(metadata));
    }
}

#[test]
fn metadata_has_a_fixed_layout() {
    let empty = PaymentMetadata { lsps2_parameters: None, lsps2_lease_parameters: None };
    assert_eq!(empty.encode(), vec![0]);

    let limits = LSPS2Parameters {
        max_total_opening_fee_msat: Some(42_000),
        max_proportional_opening_fee_ppm_msat: None,
    };
    let metadata =
        PaymentMetadata { lsps2_parameters: Some(limits), lsps2_lease_parameters: None };
    let expected = vec![13, 0, 11, 10, 0, 8, 0, 0, 0, 0, 0, 0, 0xA4, 0x10];
    assert_eq!(metadata.encode(), expected);

    let bolt12 = metadata.encode_as_bolt12_payment_metadata();
    assert_eq!(bolt12, BTreeMap::from([(LDK_NODE_BOLT12_PAYMENT_METADATA_KEY, expected)]));

    let leased = PaymentMetadata { lsps2_parameters: None, lsps2_lease_parameters: Some(lease()) };
    let encoded = leased.encode();
    assert_eq!(encoded[..5], [74, 1, 72, 71, 0]);
    assert_eq!(encoded[5], 33);
    assert_eq!(encoded[6..39], lsp_node_id().serialize());
    assert_eq!(encoded[39..49], [2, 8, 0, 0, 0, 0, 0, 0, 0, 42]);
    assert_eq!(encoded[49..55], [4, 4, 0, 0, 0, 48]);
    assert_eq!(encoded[55..65], [6, 8, 0, 0, 0, 0, 0, 0, 0x0B, 0xB8]);
    assert_eq!(encoded[65..75], [8, 8, 255, 255, 255, 255, 255, 255, 255, 255]);
    assert_eq!(encoded.len(), 75);
}

#[test]
fn bytes_behind_the_metadata_are_ignored() {
    let metadata =
        PaymentMetadata { lsps2_parameters: None, lsps2_lease_parameters: Some(lease()) };
    let mut encoded = metadata.encode();
    encoded.extend([1, 2, 3]);
    assert_eq!(PaymentMetadata::read(&encoded), Some(metadata));
}

#[test]
fn malformed_metadata_is_refused() {
    let limits = LSPS2Parameters {
        max_total_opening_fee_msat: Some(1),
        max_proportional_opening_fee_ppm_msat: Some(2),
    };
    let record = |typ: u64, value: Vec<u8>| Record { typ, value };
    let read = |records: Vec<Record>| PaymentMetadata::read(&write_struct(&records));

    assert!(read(vec![record(0, limits.encode()), record(1, lease().encode())]).is_some());
    // No length, and a length that is not there.
    assert_eq!(PaymentMetadata::read(&vec![]), None);
    assert_eq!(PaymentMetadata::read(&vec![1]), None);
    // A length that is not written in its shortest form.
    assert_eq!(PaymentMetadata::read(&vec![0xFD, 0, 0]), None);
    // Types out of order, and a type that comes twice.
    assert_eq!(read(vec![record(1, lease().encode()), record(0, limits.encode())]), None);
    assert_eq!(read(vec![record(0, limits.encode()), record(0, limits.encode())]), None);
    // Even types that are not known.
    assert_eq!(read(vec![record(2, lease().encode())]), None);
    assert_eq!(read(vec![record(0, limits.encode()), record(4, vec![])]), None);
    // Values that hold too little or too much.
    assert_eq!(read(vec![record(0, vec![])]), None);
    let mut long = limits.encode();
    long.push(0);
    assert_eq!(read(vec![record(0, long)]), None);
    assert_eq!(read(vec![record(1, vec![0])]), None);
    let mut long = lease().encode();
    long.push(0);
    assert_eq!(read(vec![record(1, long)]), None);
    assert_eq!(read(vec![record(0, write_struct(&vec![record(0, vec![0; 7])]))]), None);
}

#[test]
fn unknown_odd_records_are_skipped() {
    let limits = LSPS2Parameters {
        max_total_opening_fee_msat: None,
        max_proportional_opening_fee_ppm_msat: Some(2),
    };
    let encoded = write_struct(&vec![
        Record { typ: 0, value: limits.encode() },
        Record { typ: 3, value: vec![9; 300] },
        Record { typ: 70_001, value: vec![] },
    ]);
    assert_eq!(
        PaymentMetadata::read(&encoded),
        Some(PaymentMetadata { lsps2_parameters: Some(limits), lsps2_lease_parameters: None })
    );
}

#[test]
fn a_lease_needs_all_its_fields_and_a_valid_key() {
    let fields = || {
        vec![
            Record { typ: 0, value: lsp_node_id().serialize().to_vec() },
            Record { typ: 2, value: vec![0; 8] },
            Record { typ: 4, value: vec![0; 4] },
            Record { typ: 8, value: vec![0; 8] },
        ]
    };
    assert!(LSPS2LeaseParameters::read(&write_struct(&fields())).is_some());
    for missing in 0..4 {
        let mut fields = fields();
        fields.remove(missing);
        assert_eq!(LSPS2LeaseParameters::read(&write_struct(&fields)), None);
    }
    let mut bad_key = fields();
    bad_key[0].value = vec![0; 33];
    assert_eq!(LSPS2LeaseParameters::read(&write_struct(&bad_key)), None);
    let mut bad_width = fields();
    bad_width[2].value.push(0);
    assert_eq!(LSPS2LeaseParameters::read(&write_struct(&bad_width)), None);
}

#[test]
fn keys_are_checked() {
    assert_eq!(PublicKey::from_bytes([0; 33]), None);
    assert_eq!(PublicKey::from_bytes([4; 33]), None);
    let key = lsp_node_id();
    assert_eq!(PublicKey::from_bytes(key.serialize()), Some(key));
}

#[test]
fn integers_are_written_like_those_of_the_protocol() {
    for n in [
        0,
        1,
        0xFC,
        0xFD,
        0xFE,
        0xFF,
        0x100,
        0xFFFF,
        0x1_0000,
        0xFFFF_FFFF,
        0x1_0000_0000,
        u64::MAX,
    ] {
        let encoded = write_struct(&vec![Record { typ: n, value: vec![] }]);
        let mut expected = BigSize(n).encode();
        expected.push(0);
        expected.insert(0, expected.len() as u8);
        assert_eq!(encoded, expected);
        let (records, len) = read_struct(&encoded, &vec![n]).unwrap();
        assert_eq!(records, vec![Record { typ: n, value: vec![] }]);
        assert_eq!(len, encoded.len());
    }
}

#[test]
fn foreign_bolt12_metadata_is_left_alone() {
    let metadata =
        PaymentMetadata { lsps2_parameters: None, lsps2_lease_parameters: Some(lease()) };
    let mut bolt12 = metadata.encode_as_bolt12_payment_metadata();
    bolt12.insert(7, vec![1, 2, 3]);
    assert_eq!(PaymentMetadata::decode_from_bolt12_payment_metadata(&bolt12), Some(metadata));
    bolt12.remove(&LDK_NODE_BOLT12_PAYMENT_METADATA_KEY);
    assert_eq!(PaymentMetadata::decode_from_bolt12_payment_metadata(&bolt12), None);
    bolt12.insert(LDK_NODE_BOLT12_PAYMENT_METADATA_KEY, vec![1]);
    assert_eq!(PaymentMetadata::decode_from_bolt12_payment_metadata(&bolt12), None);
}
