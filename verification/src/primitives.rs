//! The identifiers and transaction parts that the rest of the crate works on, as plain values.

use vstd::prelude::*;

verus! {

/// The identifier under which the node's user knows a channel.
#[derive(Clone, Copy, Debug, PartialEq, Eq)]
pub struct UserChannelId(pub u128);

/// The 32-byte identifier of a channel.
#[derive(Clone, Copy, Debug, PartialEq, Eq)]
pub struct ChannelId(pub [u8; 32]);

/// An output of a transaction, referred to by the transaction's id and the output's index.
#[derive(Clone, Copy, Debug, PartialEq, Eq)]
pub struct OutPoint {
    /// The id of the transaction, in its internal byte order.
    pub txid: [u8; 32],
    /// The index of the output.
    pub vout: u32,
}

impl OutPoint {
    /// Whether the two refer to the same output.
    pub fn same(&self, other: &OutPoint) -> (res: bool)
        ensures
            res == (*self == *other),
    {
        if self.vout != other.vout {
            return false;
        }
        let mut i: usize = 0;
        while i < 32
            invariant
                i <= 32,
                forall|j: int| 0 <= j < i ==> self.txid[j] == other.txid[j],
            decreases 32 - i,
        {
            if self.txid[i] != other.txid[i] {
                return false;
            }
            i += 1;
        }
        assert(self.txid =~= other.txid);
        true
    }
}

/// A channel's funding output, whose index the protocol limits to 16 bits.
#[derive(Clone, Copy, Debug, PartialEq, Eq)]
pub struct FundingOutPoint {
    /// The id of the funding transaction, in its internal byte order.
    pub txid: [u8; 32],
    /// The index of the funding output.
    pub index: u16,
}

impl FundingOutPoint {
    /// The same output with the index width that transactions use.
    pub open spec fn outpoint(self) -> OutPoint {
        OutPoint { txid: self.txid, vout: self.index as u32 }
    }

    /// The same output with the index width that transactions use.
    pub fn into_bitcoin_outpoint(self) -> (res: OutPoint)
        ensures
            res == self.outpoint(),
    {
        OutPoint { txid: self.txid, vout: self.index as u32 }
    }
}

/// A transaction output: an amount and the script that guards it.
#[derive(Debug, PartialEq, Eq)]
pub struct TxOut {
    /// The amount in satoshis.
    pub value_sats: u64,
    /// The bytes of the script.
    pub script_pubkey: Vec<u8>,
}

/// What a [`TxOut`] holds.
#[verifier::ext_equal]
pub struct TxOutView {
    pub value_sats: u64,
    pub script_pubkey: Seq<u8>,
}

impl View for TxOut {
    type V = TxOutView;

    open spec fn view(&self) -> TxOutView {
        TxOutView { value_sats: self.value_sats, script_pubkey: self.script_pubkey@ }
    }
}

impl Clone for TxOut {
    fn clone(&self) -> (res: Self)
        ensures
            res@ == self@,
    {
        let script_pubkey = self.script_pubkey.clone();
        assert(script_pubkey@ =~= self.script_pubkey@);
        TxOut { value_sats: self.value_sats, script_pubkey }
    }
}

impl TxOut {
    /// Whether the two pay the same amount to the same script.
    pub fn same(&self, other: &TxOut) -> (res: bool)
        ensures
            res == (self@ == other@),
    {
        self.value_sats == other.value_sats && same_bytes(&self.script_pubkey, &other.script_pubkey)
    }
}

/// What a list of outputs holds, in order.
pub open spec fn tx_outs(outputs: Seq<TxOut>) -> Seq<TxOutView> {
    outputs.map_values(|output: TxOut| output@)
}

/// A copy of a list of outputs.
pub fn clone_tx_outs(outputs: &Vec<TxOut>) -> (res: Vec<TxOut>)
    ensures
        tx_outs(res@) == tx_outs(outputs@),
{
    let res = outputs.clone();
    assert(tx_outs(res@) =~= tx_outs(outputs@));
    res
}

/// Whether two lists hold the same outputs in the same order.
pub fn same_tx_outs(a: &Vec<TxOut>, b: &Vec<TxOut>) -> (res: bool)
    ensures
        res == (tx_outs(a@) == tx_outs(b@)),
{
    if a.len() != b.len() {
        assert(tx_outs(a@).len() != tx_outs(b@).len());
        return false;
    }
    let mut i: usize = 0;
    while i < a.len()
        invariant
            i <= a.len(),
            a.len() == b.len(),
            forall|j: int| 0 <= j < i ==> a[j]@ == b[j]@,
        decreases a.len() - i,
    {
        if !a[i].same(&b[i]) {
            assert(tx_outs(a@)[i as int] != tx_outs(b@)[i as int]);
            return false;
        }
        i += 1;
    }
    assert(tx_outs(a@) =~= tx_outs(b@));
    true
}

/// Whether two byte strings are the same.
pub fn same_bytes(a: &Vec<u8>, b: &Vec<u8>) -> (res: bool)
    ensures
        res == (a@ == b@),
{
    if a.len() != b.len() {
        return false;
    }
    let mut i: usize = 0;
    while i < a.len()
        invariant
            i <= a.len(),
            a.len() == b.len(),
            forall|j: int| 0 <= j < i ==> a[j] == b[j],
        decreases a.len() - i,
    {
        if a[i] != b[i] {
            return false;
        }
        i += 1;
    }
    assert(a@ =~= b@);
    true
}

/// Whether the secp256k1 library takes the 33 bytes for a public key.
pub uninterp spec fn is_public_key(bytes: Seq<u8>) -> bool;

/// Calls `bitcoin::secp256k1::PublicKey::from_slice` and says whether it accepted the bytes, which
/// is [`is_public_key`] of them.
#[verifier::external_body]
fn accepts_public_key(bytes: &[u8; 33]) -> (res: bool)
    ensures
        res == is_public_key(bytes@),
{
    bitcoin::secp256k1::PublicKey::from_slice(bytes).is_ok()
}

/// A public key in its 33-byte compressed form.
#[derive(Clone, Copy, Debug, PartialEq, Eq)]
pub struct PublicKey {
    bytes: [u8; 33],
}

impl View for PublicKey {
    type V = Seq<u8>;

    closed spec fn view(&self) -> Seq<u8> {
        self.bytes@
    }
}

impl PublicKey {
    #[verifier::type_invariant]
    spec fn accepted(self) -> bool {
        is_public_key(self.bytes@)
    }

    /// Whether the bytes are those of a key.
    pub open spec fn valid(self) -> bool {
        self@.len() == 33 && is_public_key(self@)
    }

    /// The key with these bytes, or `None` where they are not those of a key.
    pub fn from_bytes(bytes: [u8; 33]) -> (res: Option<PublicKey>)
        ensures
            res is Some <==> is_public_key(bytes@),
            res matches Some(key) ==> key@ == bytes@ && key.valid(),
    {
        if accepts_public_key(&bytes) {
            Some(PublicKey { bytes })
        } else {
            None
        }
    }

    /// The bytes of the key.
    pub fn serialize(&self) -> (res: [u8; 33])
        ensures
            res@ == self@,
            self.valid(),
    {
        proof {
            use_type_invariant(self);
        }
        self.bytes
    }

    /// Two keys with the same bytes are the same key.
    pub proof fn lemma_view_injective(a: PublicKey, b: PublicKey)
        requires
            a@ == b@,
        ensures
            a == b,
    {
        assert(a.bytes =~= b.bytes) by {
            assert forall|i: int| 0 <= i < 33 implies a.bytes[i] == b.bytes[i] by {
                assert(a@[i] == b@[i]);
            }
        }
    }
}

} // verus!
