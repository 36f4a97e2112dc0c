//! What the node remembers of a payment in the metadata that the payer echoes back.

use std::collections::BTreeMap;

use vstd::prelude::*;

use super::fields::{
    exactly_struct, find, key_field, key_vec, lookup, number_field, opt_u64_field, opt_u64_record,
    push_opt_u64, read_key, read_number, read_opt_u64,
};
use super::laws::{lemma_lease_roundtrip, lemma_metadata_roundtrip, lemma_parameters_roundtrip};
use super::tlv::{
    be_bytes, be_vec, read_struct, records, struct_bytes, struct_read, write_struct, Record,
    RecordView,
};
use crate::primitives::{is_public_key, PublicKey};

verus! {

broadcast use vstd::std_specs::btree::group_btree_axioms;

/// The key under which the node's own metadata stands in BOLT12 payment metadata.
pub const LDK_NODE_BOLT12_PAYMENT_METADATA_KEY: u64 = 0;

/// The most that an LSP may withhold from a payment for opening a channel.
///
/// This library writes the limits as records of the types 0 and 2, in the order of the fields. No
/// protocol fixes these types.
#[derive(Clone, Copy, Debug, PartialEq, Eq)]
pub struct LSPS2Parameters {
    /// The maximal total fee, in millisatoshis.
    pub max_total_opening_fee_msat: Option<u64>,
    /// The maximal proportional fee, in parts per million of a millisatoshi.
    pub max_proportional_opening_fee_ppm_msat: Option<u64>,
}

/// What an LSP leased to the node for one payment: where the payment is intercepted, and until
/// when.
///
/// This library writes the fields as records of the types 0, 2, 4, 6 and 8, in their order. No
/// protocol fixes these types.
#[derive(Clone, Copy, Debug, PartialEq, Eq)]
pub struct LSPS2LeaseParameters {
    /// The node of the LSP.
    pub lsp_node_id: PublicKey,
    /// The short channel id at which the LSP intercepts the payment.
    pub intercept_scid: u64,
    /// The difference in block height that the LSP asks for.
    pub cltv_expiry_delta: u32,
    /// The size of the payment, if it is fixed, in millisatoshis.
    pub payment_size_msat: Option<u64>,
    /// When the lease ends.
    pub valid_until: u64,
}

/// What an [`LSPS2LeaseParameters`] holds.
#[verifier::ext_equal]
pub struct LSPS2LeaseParametersView {
    pub lsp_node_id: Seq<u8>,
    pub intercept_scid: u64,
    pub cltv_expiry_delta: u32,
    pub payment_size_msat: Option<u64>,
    pub valid_until: u64,
}

impl View for LSPS2LeaseParameters {
    type V = LSPS2LeaseParametersView;

    open spec fn view(&self) -> LSPS2LeaseParametersView {
        LSPS2LeaseParametersView {
            lsp_node_id: self.lsp_node_id@,
            intercept_scid: self.intercept_scid,
            cltv_expiry_delta: self.cltv_expiry_delta,
            payment_size_msat: self.payment_size_msat,
            valid_until: self.valid_until,
        }
    }
}

impl LSPS2LeaseParametersView {
    /// Whether the node of the LSP is given by the bytes of a key.
    pub open spec fn valid(self) -> bool {
        self.lsp_node_id.len() == 33 && is_public_key(self.lsp_node_id)
    }
}

/// Metadata carried in BOLT11 invoice metadata or BOLT12 payment-context metadata.
#[derive(Clone, Copy, Debug, PartialEq, Eq)]
pub struct PaymentMetadata {
    /// Fee limits retained until payment claim to validate the LSP's withholding.
    pub lsps2_parameters: Option<LSPS2Parameters>,
    /// Single-use routing parameters consumed while constructing blinded payment paths. Only the
    /// version that wrote them reads them, so their type is odd and other readers skip them.
    pub lsps2_lease_parameters: Option<LSPS2LeaseParameters>,
}

/// What a [`PaymentMetadata`] holds.
#[verifier::ext_equal]
pub struct PaymentMetadataView {
    pub lsps2_parameters: Option<LSPS2Parameters>,
    pub lsps2_lease_parameters: Option<LSPS2LeaseParametersView>,
}

impl View for PaymentMetadata {
    type V = PaymentMetadataView;

    open spec fn view(&self) -> PaymentMetadataView {
        PaymentMetadataView {
            lsps2_parameters: self.lsps2_parameters,
            lsps2_lease_parameters: match self.lsps2_lease_parameters {
                Some(lease) => Some(lease@),
                None => None,
            },
        }
    }
}

impl PaymentMetadataView {
    /// Whether the node of the LSP, if there is a lease, is given by the bytes of a key.
    pub open spec fn valid(self) -> bool {
        self.lsps2_lease_parameters matches Some(lease) ==> lease.valid()
    }
}

/// The records of fee limits. Their types are this library's choice.
pub open spec fn parameters_records(parameters: LSPS2Parameters) -> Seq<RecordView> {
    opt_u64_record(0, parameters.max_total_opening_fee_msat) + opt_u64_record(
        2,
        parameters.max_proportional_opening_fee_ppm_msat,
    )
}

/// The bytes of fee limits.
pub open spec fn parameters_bytes(parameters: LSPS2Parameters) -> Seq<u8> {
    struct_bytes(parameters_records(parameters))
}

/// The fee limits that bytes begin with, or `None` if they begin with none.
pub open spec fn parameters_read(bytes: Seq<u8>) -> Option<LSPS2Parameters> {
    match struct_read(bytes, seq![0, 2]) {
        Some(list) => match (opt_u64_field(list, 0), opt_u64_field(list, 2)) {
            (
                Some(max_total_opening_fee_msat),
                Some(max_proportional_opening_fee_ppm_msat),
            ) => Some(
                LSPS2Parameters {
                    max_total_opening_fee_msat,
                    max_proportional_opening_fee_ppm_msat,
                },
            ),
            _ => None,
        },
        None => None,
    }
}

impl LSPS2Parameters {
    /// The bytes of the fee limits.
    pub fn encode(&self) -> (res: Vec<u8>)
        ensures
            res@ == parameters_bytes(*self),
            parameters_read(res@) == Some(*self),
    {
        let mut list: Vec<Record> = Vec::new();
        push_opt_u64(&mut list, 0, self.max_total_opening_fee_msat);
        push_opt_u64(&mut list, 2, self.max_proportional_opening_fee_ppm_msat);
        assert(records(list@) =~= parameters_records(*self));
        let bytes = write_struct(&list);
        proof {
            assert(bytes.len() == bytes@.len());
            lemma_parameters_roundtrip(*self, Seq::empty());
            assert(bytes@ + Seq::<u8>::empty() =~= bytes@);
        }
        bytes
    }

    /// Reads the fee limits that the bytes begin with, and returns them and how many bytes they
    /// take up.
    fn read_prefix(bytes: &Vec<u8>) -> (res: Option<(LSPS2Parameters, usize)>)
        ensures
            match res {
                Some((parameters, len)) => {
                    &&& parameters_read(bytes@) == Some(parameters)
                    &&& (len == bytes.len()) == exactly_struct(bytes@)
                },
                None => parameters_read(bytes@) is None,
            },
    {
        let known: Vec<u64> = vec![0, 2];
        assert(known@ =~= seq![0, 2]);
        let (list, len) = match read_struct(bytes, &known) {
            Some(read) => read,
            None => {
                return None;
            },
        };
        match (read_opt_u64(&list, 0), read_opt_u64(&list, 2)) {
            (
                Some(max_total_opening_fee_msat),
                Some(max_proportional_opening_fee_ppm_msat),
            ) => Some(
                (
                    LSPS2Parameters {
                        max_total_opening_fee_msat,
                        max_proportional_opening_fee_ppm_msat,
                    },
                    len,
                ),
            ),
            _ => None,
        }
    }

    /// Reads the fee limits that the bytes begin with.
    pub fn read(bytes: &Vec<u8>) -> (res: Option<LSPS2Parameters>)
        ensures
            res == parameters_read(bytes@),
    {
        match Self::read_prefix(bytes) {
            Some((parameters, _)) => Some(parameters),
            None => None,
        }
    }
}

/// The records of a lease. Their types are this library's choice.
pub open spec fn lease_records(lease: LSPS2LeaseParametersView) -> Seq<RecordView> {
    seq![
        RecordView { typ: 0, value: lease.lsp_node_id },
        RecordView { typ: 2, value: be_bytes(lease.intercept_scid as nat, 8) },
        RecordView { typ: 4, value: be_bytes(lease.cltv_expiry_delta as nat, 4) },
    ] + opt_u64_record(6, lease.payment_size_msat) + seq![
        RecordView { typ: 8, value: be_bytes(lease.valid_until as nat, 8) },
    ]
}

/// The bytes of a lease.
pub open spec fn lease_bytes(lease: LSPS2LeaseParametersView) -> Seq<u8> {
    struct_bytes(lease_records(lease))
}

/// The lease that bytes begin with, or `None` if they begin with none.
pub open spec fn lease_read(bytes: Seq<u8>) -> Option<LSPS2LeaseParametersView> {
    match struct_read(bytes, seq![0, 2, 4, 6, 8]) {
        Some(list) => match (
            key_field(list, 0),
            number_field(list, 2, 8),
            number_field(list, 4, 4),
            opt_u64_field(list, 6),
            number_field(list, 8, 8),
        ) {
            (
                Some(lsp_node_id),
                Some(intercept_scid),
                Some(cltv_expiry_delta),
                Some(payment_size_msat),
                Some(valid_until),
            ) => Some(
                LSPS2LeaseParametersView {
                    lsp_node_id,
                    intercept_scid: intercept_scid as u64,
                    cltv_expiry_delta: cltv_expiry_delta as u32,
                    payment_size_msat,
                    valid_until: valid_until as u64,
                },
            ),
            _ => None,
        },
        None => None,
    }
}

impl LSPS2LeaseParameters {
    /// The bytes of the lease.
    pub fn encode(&self) -> (res: Vec<u8>)
        ensures
            res@ == lease_bytes(self@),
            lease_read(res@) == Some(self@),
            self@.valid(),
    {
        let mut list: Vec<Record> = Vec::new();
        list.push(Record { typ: 0, value: key_vec(&self.lsp_node_id) });
        list.push(Record { typ: 2, value: be_vec(self.intercept_scid, 8) });
        list.push(Record { typ: 4, value: be_vec(self.cltv_expiry_delta as u64, 4) });
        let ghost head = records(list@);
        push_opt_u64(&mut list, 6, self.payment_size_msat);
        let ghost all_but_last = records(list@);
        list.push(Record { typ: 8, value: be_vec(self.valid_until, 8) });
        proof {
            let lease = self@;
            assert(head =~= seq![
                RecordView { typ: 0, value: lease.lsp_node_id },
                RecordView { typ: 2, value: be_bytes(lease.intercept_scid as nat, 8) },
                RecordView { typ: 4, value: be_bytes(lease.cltv_expiry_delta as nat, 4) },
            ]);
            assert(records(list@) =~= all_but_last.push(list@.last()@));
            assert(records(list@) =~= lease_records(lease));
        }
        let bytes = write_struct(&list);
        proof {
            assert(bytes.len() == bytes@.len());
            lemma_lease_roundtrip(self@, Seq::empty());
            assert(bytes@ + Seq::<u8>::empty() =~= bytes@);
        }
        bytes
    }

    /// Reads the lease that the bytes begin with, and returns it and how many bytes it takes up.
    fn read_prefix(bytes: &Vec<u8>) -> (res: Option<(LSPS2LeaseParameters, usize)>)
        ensures
            match res {
                Some((lease, len)) => {
                    &&& lease_read(bytes@) == Some(lease@)
                    &&& (len == bytes.len()) == exactly_struct(bytes@)
                },
                None => lease_read(bytes@) is None,
            },
    {
        let known: Vec<u64> = vec![0, 2, 4, 6, 8];
        assert(known@ =~= seq![0, 2, 4, 6, 8]);
        let (list, len) = match read_struct(bytes, &known) {
            Some(read) => read,
            None => {
                return None;
            },
        };
        match (
            read_key(&list, 0),
            read_number(&list, 2, 8),
            read_number(&list, 4, 4),
            read_opt_u64(&list, 6),
            read_number(&list, 8, 8),
        ) {
            (
                Some(lsp_node_id),
                Some(intercept_scid),
                Some(cltv_expiry_delta),
                Some(payment_size_msat),
                Some(valid_until),
            ) => Some(
                (
                    LSPS2LeaseParameters {
                        lsp_node_id,
                        intercept_scid,
                        cltv_expiry_delta: cltv_expiry_delta as u32,
                        payment_size_msat,
                        valid_until,
                    },
                    len,
                ),
            ),
            _ => None,
        }
    }

    /// Reads the lease that the bytes begin with.
    pub fn read(bytes: &Vec<u8>) -> (res: Option<LSPS2LeaseParameters>)
        ensures
            match res {
                Some(lease) => lease_read(bytes@) == Some(lease@),
                None => lease_read(bytes@) is None,
            },
    {
        match Self::read_prefix(bytes) {
            Some((lease, _)) => Some(lease),
            None => None,
        }
    }
}

/// The records of payment metadata. The lease has an odd type, so that readers that do not know it
/// skip it.
pub open spec fn metadata_records(metadata: PaymentMetadataView) -> Seq<RecordView> {
    (match metadata.lsps2_parameters {
        Some(parameters) => seq![RecordView { typ: 0, value: parameters_bytes(parameters) }],
        None => Seq::empty(),
    }) + (match metadata.lsps2_lease_parameters {
        Some(lease) => seq![RecordView { typ: 1, value: lease_bytes(lease) }],
        None => Seq::empty(),
    })
}

/// The bytes of payment metadata.
pub open spec fn metadata_bytes(metadata: PaymentMetadataView) -> Seq<u8> {
    struct_bytes(metadata_records(metadata))
}

/// What the optional fee limits in a list of records hold: nothing if they have no record, and
/// `None` overall if their record does not hold fee limits alone.
pub open spec fn parameters_field(list: Seq<RecordView>, typ: u64) -> Option<
    Option<LSPS2Parameters>,
> {
    match lookup(list, typ) {
        Some(value) => if parameters_read(value) is Some && exactly_struct(value) {
            Some(parameters_read(value))
        } else {
            None
        },
        None => Some(None),
    }
}

/// What the optional lease in a list of records holds: nothing if it has no record, and `None`
/// overall if its record does not hold a lease alone.
pub open spec fn lease_field(list: Seq<RecordView>, typ: u64) -> Option<
    Option<LSPS2LeaseParametersView>,
> {
    match lookup(list, typ) {
        Some(value) => if lease_read(value) is Some && exactly_struct(value) {
            Some(lease_read(value))
        } else {
            None
        },
        None => Some(None),
    }
}

/// The payment metadata that bytes begin with, or `None` if they begin with none.
pub open spec fn metadata_read(bytes: Seq<u8>) -> Option<PaymentMetadataView> {
    match struct_read(bytes, seq![0, 1]) {
        Some(list) => match (parameters_field(list, 0), lease_field(list, 1)) {
            (Some(lsps2_parameters), Some(lsps2_lease_parameters)) => Some(
                PaymentMetadataView { lsps2_parameters, lsps2_lease_parameters },
            ),
            _ => None,
        },
        None => None,
    }
}

/// What optional payment metadata holds.
pub open spec fn opt_metadata(metadata: Option<PaymentMetadata>) -> Option<PaymentMetadataView> {
    match metadata {
        Some(metadata) => Some(metadata@),
        None => None,
    }
}

/// Whether BOLT12 payment metadata holds this metadata and nothing else.
pub open spec fn bolt12_holds(
    payment_metadata: Map<u64, Vec<u8>>,
    metadata: PaymentMetadataView,
) -> bool {
    &&& payment_metadata.dom() == set![LDK_NODE_BOLT12_PAYMENT_METADATA_KEY]
    &&& payment_metadata[LDK_NODE_BOLT12_PAYMENT_METADATA_KEY]@ == metadata_bytes(metadata)
}

/// The node's own metadata in BOLT12 payment metadata, or `None` if there is none or it is
/// malformed.
pub open spec fn bolt12_read(payment_metadata: Map<u64, Vec<u8>>) -> Option<PaymentMetadataView> {
    if payment_metadata.contains_key(LDK_NODE_BOLT12_PAYMENT_METADATA_KEY) {
        metadata_read(payment_metadata[LDK_NODE_BOLT12_PAYMENT_METADATA_KEY]@)
    } else {
        None
    }
}

impl PaymentMetadata {
    /// The bytes of the metadata.
    pub fn encode(&self) -> (res: Vec<u8>)
        ensures
            res@ == metadata_bytes(self@),
            metadata_read(res@) == Some(self@),
    {
        let mut list: Vec<Record> = Vec::new();
        if let Some(parameters) = &self.lsps2_parameters {
            list.push(Record { typ: 0, value: parameters.encode() });
        }
        if let Some(lease) = &self.lsps2_lease_parameters {
            list.push(Record { typ: 1, value: lease.encode() });
        }
        assert(records(list@) =~= metadata_records(self@));
        let bytes = write_struct(&list);
        proof {
            assert(bytes.len() == bytes@.len());
            lemma_metadata_roundtrip(self@, Seq::empty());
            assert(bytes@ + Seq::<u8>::empty() =~= bytes@);
        }
        bytes
    }

    /// Reads the metadata that the bytes begin with.
    pub fn read(bytes: &Vec<u8>) -> (res: Option<PaymentMetadata>)
        ensures
            opt_metadata(res) == metadata_read(bytes@),
    {
        let known: Vec<u64> = vec![0, 1];
        assert(known@ =~= seq![0, 1]);
        let list = match read_struct(bytes, &known) {
            Some((list, _)) => list,
            None => {
                return None;
            },
        };
        let lsps2_parameters = match find(&list, 0) {
            Some(value) => match LSPS2Parameters::read_prefix(value) {
                Some((parameters, len)) => if len == value.len() {
                    Some(parameters)
                } else {
                    return None;
                },
                None => {
                    return None;
                },
            },
            None => None,
        };
        let lsps2_lease_parameters = match find(&list, 1) {
            Some(value) => match LSPS2LeaseParameters::read_prefix(value) {
                Some((lease, len)) => if len == value.len() {
                    Some(lease)
                } else {
                    return None;
                },
                None => {
                    return None;
                },
            },
            None => None,
        };
        Some(PaymentMetadata { lsps2_parameters, lsps2_lease_parameters })
    }

    /// BOLT12 payment metadata that holds this metadata and nothing else.
    pub fn encode_as_bolt12_payment_metadata(&self) -> (res: BTreeMap<u64, Vec<u8>>)
        ensures
            bolt12_holds(res@, self@),
            bolt12_read(res@) == Some(self@),
    {
        let mut metadata: BTreeMap<u64, Vec<u8>> = BTreeMap::new();
        metadata.insert(LDK_NODE_BOLT12_PAYMENT_METADATA_KEY, self.encode());
        metadata
    }

    /// Reads the node's own metadata out of BOLT12 payment metadata. Returns `None` where there is
    /// none or it is malformed.
    pub fn decode_from_bolt12_payment_metadata(payment_metadata: &BTreeMap<u64, Vec<u8>>) -> (res:
        Option<PaymentMetadata>)
        ensures
            opt_metadata(res) == bolt12_read(payment_metadata@),
    {
        match payment_metadata.get(&LDK_NODE_BOLT12_PAYMENT_METADATA_KEY) {
            Some(encoded) => Self::read(encoded),
            None => None,
        }
    }
}

} // verus!
