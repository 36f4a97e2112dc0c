//! What a splice puts into and takes out of a channel's funding transaction.

use lightning::ln::funding::FundingContribution as LdkContribution;
use lightning::util::ser::{Readable, Writeable};
use vstd::prelude::*;

use crate::primitives::{clone_tx_outs, same_bytes, same_tx_outs, tx_outs, OutPoint, TxOut, TxOutView};

verus! {

/// The components of a funding transaction contributed by one party.
#[derive(Debug, PartialEq, Eq)]
pub struct FundingContribution {
    /// The outputs being spent by the contribution, in order.
    pub inputs: Vec<OutPoint>,
    /// The outputs that the contribution adds, in order, without the change.
    pub outputs: Vec<TxOut>,
    /// The output where any change is sent.
    pub change_output: Option<TxOut>,
    /// The serialized contribution, as it is handed back to the channel. It also fixes what the
    /// other fields leave out, such as fees and feerates.
    pub encoding: Vec<u8>,
}

/// What a [`FundingContribution`] holds.
#[verifier::ext_equal]
pub struct FundingContributionView {
    pub inputs: Seq<OutPoint>,
    pub outputs: Seq<TxOutView>,
    pub change_output: Option<TxOutView>,
    pub encoding: Seq<u8>,
}

/// What an optional output holds.
pub open spec fn opt_tx_out(output: Option<TxOut>) -> Option<TxOutView> {
    match output {
        Some(output) => Some(output@),
        None => None,
    }
}

/// What an optional contribution holds.
pub open spec fn opt_contribution(contribution: Option<FundingContribution>) -> Option<
    FundingContributionView,
> {
    match contribution {
        Some(contribution) => Some(contribution@),
        None => None,
    }
}

impl View for FundingContribution {
    type V = FundingContributionView;

    open spec fn view(&self) -> FundingContributionView {
        FundingContributionView {
            inputs: self.inputs@,
            outputs: tx_outs(self.outputs@),
            change_output: opt_tx_out(self.change_output),
            encoding: self.encoding@,
        }
    }
}

impl Clone for FundingContribution {
    fn clone(&self) -> (res: Self)
        ensures
            res@ == self@,
    {
        let inputs = self.inputs.clone();
        assert(inputs@ =~= self.inputs@);
        let outputs = clone_tx_outs(&self.outputs);
        let change_output = self.change_output.clone();
        let encoding = self.encoding.clone();
        assert(encoding@ =~= self.encoding@);
        FundingContribution { inputs, outputs, change_output, encoding }
    }
}

impl FundingContributionView {
    /// Whether the contribution neither spends nor adds outputs: it moves channel balance only.
    pub open spec fn moves_nothing(self) -> bool {
        self.inputs.len() == 0 && self.outputs.len() == 0
    }

    /// Everything that the contribution pays to, the change last.
    pub open spec fn paid_outputs(self) -> Seq<TxOutView> {
        match self.change_output {
            Some(change) => self.outputs.push(change),
            None => self.outputs,
        }
    }
}

/// Whether two contributions describe the same splice attempt: they spend the same outputs and add
/// the same ones, in the same order. Fees, feerates and the change may differ, as they are adjusted
/// during negotiation. Where neither contribution moves anything, nothing but full equality can
/// tell that they are the same.
pub open spec fn same_splice(a: FundingContributionView, b: FundingContributionView) -> bool {
    &&& a.inputs == b.inputs
    &&& a.outputs == b.outputs
    &&& a.moves_nothing() && b.moves_nothing() ==> a == b
}

/// The contribution that bytes serialize, or `None` if they serialize none.
pub uninterp spec fn contribution_read(encoding: Seq<u8>) -> Option<FundingContributionView>;

/// Reads bytes as a `lightning::ln::funding::FundingContribution`, which is [`contribution_read`] of
/// them. The parts are those that its accessors `inputs`, `outputs` and `change_output` return, and
/// the encoding is what it is written as.
#[verifier::external_body]
fn parse_contribution(encoding: &Vec<u8>) -> (res: Option<FundingContribution>)
    ensures
        opt_contribution(res) == contribution_read(encoding@),
{
    let read: LdkContribution = Readable::read(&mut &encoding[..]).ok()?;
    let txid = |txid| bitcoin::hashes::Hash::to_byte_array(txid);
    let outpoint = |o: bitcoin::OutPoint| OutPoint { txid: txid(o.txid), vout: o.vout };
    let tx_out = |o: &bitcoin::TxOut| TxOut {
        value_sats: o.value.to_sat(),
        script_pubkey: o.script_pubkey.to_bytes(),
    };
    Some(FundingContribution {
        inputs: read.inputs().iter().map(|input| outpoint(input.outpoint())).collect(),
        outputs: read.outputs().iter().map(tx_out).collect(),
        change_output: read.change_output().map(tx_out),
        encoding: read.encode(),
    })
}

impl FundingContribution {
    /// Reads a serialized contribution.
    pub fn read(encoding: &Vec<u8>) -> (res: Option<FundingContribution>)
        ensures
            opt_contribution(res) == contribution_read(encoding@),
    {
        parse_contribution(encoding)
    }

    /// Whether the two contributions are equal in everything.
    pub fn same(&self, other: &FundingContribution) -> (res: bool)
        ensures
            res == (self@ == other@),
    {
        let same_change = match (&self.change_output, &other.change_output) {
            (Some(a), Some(b)) => a.same(b),
            (None, None) => true,
            _ => false,
        };
        same_change && same_inputs(&self.inputs, &other.inputs) && same_tx_outs(
            &self.outputs,
            &other.outputs,
        ) && same_bytes(&self.encoding, &other.encoding)
    }

    /// A list of everything that the contribution pays to, the change last.
    pub fn paid_outputs(&self) -> (res: Vec<TxOut>)
        ensures
            tx_outs(res@) == self@.paid_outputs(),
    {
        let mut outputs = clone_tx_outs(&self.outputs);
        match &self.change_output {
            Some(change) => {
                let ghost before = outputs@;
                outputs.push(change.clone());
                assert(tx_outs(outputs@) =~= tx_outs(before).push(change@));
            },
            None => {},
        }
        outputs
    }
}

/// Whether two lists spend the same outputs in the same order.
fn same_inputs(a: &Vec<OutPoint>, b: &Vec<OutPoint>) -> (res: bool)
    ensures
        res == (a@ == b@),
{
    if a.len() != b.len() {
        return false;
    }
    let mut i: usize = 0;
    while i < a.len()
        invariant
            i <= a.len(),
            a.len() == b.len(),
            forall|j: int| 0 <= j < i ==> a[j] == b[j],
        decreases a.len() - i,
    {
        if !a[i].same(&b[i]) {
            return false;
        }
        i += 1;
    }
    assert(a@ =~= b@);
    true
}

/// Whether two contributions describe the same splice attempt. A contribution may be adjusted
/// during negotiation, which touches only its fee fields and change value, so fees and feerates do
/// not identify an attempt. Its inputs and outputs do: they are what the user asked to move.
/// Contributions carrying neither (channel-balance-only attempts) fall back to full equality.
pub fn is_same_splice(a: &FundingContribution, b: &FundingContribution) -> (res: bool)
    ensures
        res == same_splice(a@, b@),
{
    if a.inputs.len() == 0 && a.outputs.len() == 0 && b.inputs.len() == 0 && b.outputs.len() == 0 {
        return a.same(b);
    }
    same_inputs(&a.inputs, &b.inputs) && same_tx_outs(&a.outputs, &b.outputs)
}

} // verus!
