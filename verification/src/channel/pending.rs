//! The splices that the node keeps track of while they are in flight.

use vstd::prelude::*;

use super::contribution::{FundingContribution, FundingContributionView};
use crate::primitives::{clone_tx_outs, tx_outs, ChannelId, OutPoint, PublicKey, TxOut, TxOutView};

verus! {

/// The parameters of the call that asked for a splice.
#[derive(Debug, PartialEq, Eq)]
pub enum SpliceKind {
    /// Funds are added to the channel.
    In {
        /// The amount to add, in satoshis.
        amount_sats: u64,
    },
    /// Funds are taken out of the channel.
    Out {
        /// The outputs to pay.
        outputs: Vec<TxOut>,
    },
    /// The fee of a pending splice is raised.
    Rbf {  },
}

/// What a [`SpliceKind`] holds.
#[verifier::ext_equal]
pub enum SpliceKindView {
    In { amount_sats: u64 },
    Out { outputs: Seq<TxOutView> },
    Rbf {  },
}

impl View for SpliceKind {
    type V = SpliceKindView;

    open spec fn view(&self) -> SpliceKindView {
        match self {
            SpliceKind::In { amount_sats } => SpliceKindView::In { amount_sats: *amount_sats },
            SpliceKind::Out { outputs } => SpliceKindView::Out { outputs: tx_outs(outputs@) },
            SpliceKind::Rbf {  } => SpliceKindView::Rbf {  },
        }
    }
}

impl Clone for SpliceKind {
    fn clone(&self) -> (res: Self)
        ensures
            res@ == self@,
    {
        match self {
            SpliceKind::In { amount_sats } => SpliceKind::In { amount_sats: *amount_sats },
            SpliceKind::Out { outputs } => SpliceKind::Out { outputs: clone_tx_outs(outputs) },
            SpliceKind::Rbf {  } => SpliceKind::Rbf {  },
        }
    }
}

/// A user-initiated splice tracked for retry: everything needed to hand its contribution back to
/// the channel, or to rebuild the contribution from the originating call's parameters.
#[derive(Debug, PartialEq, Eq)]
pub struct PendingSplice {
    /// The channel being spliced.
    pub channel_id: ChannelId,
    /// The channel counterparty.
    pub counterparty_node_id: PublicKey,
    /// The channel's funding outpoint when the splice was initiated. It only changes once a splice
    /// locks, so a newly locked funding at a different outpoint means this splice (or a
    /// replacement) completed and there is nothing left to resubmit.
    pub pre_splice_funding_txo: OutPoint,
    /// The contribution handed to the channel, resubmitted verbatim when a fresh contribution
    /// cannot be built.
    pub contribution: FundingContribution,
    /// The parameters of the originating call, used to rebuild a fresh contribution at retry
    /// time. `None` for a splice adopted from a failure event replayed after a restart: its
    /// contribution can be resubmitted, but the originating parameters did not survive the
    /// restart, so it cannot be rebuilt.
    pub kind: Option<SpliceKind>,
    /// The number of times the contribution has been resubmitted after the originating call handed
    /// it off.
    pub attempts: u8,
    /// Whether the synchronous hand-off of the contribution was rejected. The originating call
    /// already surfaced that error, so a failure event the rejection may have enqueued must be
    /// consumed rather than reported a second time or retried.
    pub rejected: bool,
}

/// What a [`PendingSplice`] holds.
#[verifier::ext_equal]
pub struct PendingSpliceView {
    pub channel_id: ChannelId,
    pub counterparty_node_id: PublicKey,
    pub pre_splice_funding_txo: OutPoint,
    pub contribution: FundingContributionView,
    pub kind: Option<SpliceKindView>,
    pub attempts: u8,
    pub rejected: bool,
}

/// What optional splice parameters hold.
pub open spec fn opt_kind(kind: Option<SpliceKind>) -> Option<SpliceKindView> {
    match kind {
        Some(kind) => Some(kind@),
        None => None,
    }
}

impl View for PendingSplice {
    type V = PendingSpliceView;

    open spec fn view(&self) -> PendingSpliceView {
        PendingSpliceView {
            channel_id: self.channel_id,
            counterparty_node_id: self.counterparty_node_id,
            pre_splice_funding_txo: self.pre_splice_funding_txo,
            contribution: self.contribution@,
            kind: opt_kind(self.kind),
            attempts: self.attempts,
            rejected: self.rejected,
        }
    }
}

impl Clone for PendingSplice {
    fn clone(&self) -> (res: Self)
        ensures
            res@ == self@,
    {
        PendingSplice {
            channel_id: self.channel_id,
            counterparty_node_id: self.counterparty_node_id,
            pre_splice_funding_txo: self.pre_splice_funding_txo,
            contribution: self.contribution.clone(),
            kind: self.kind.clone(),
            attempts: self.attempts,
            rejected: self.rejected,
        }
    }
}

/// What an optional tracked splice holds.
pub open spec fn opt_splice(splice: Option<PendingSplice>) -> Option<PendingSpliceView> {
    match splice {
        Some(splice) => Some(splice@),
        None => None,
    }
}

} // verus!
