//! Building a fresh contribution for a splice that failed.

use vstd::prelude::*;

use super::contribution::{opt_contribution, FundingContribution};
use super::error::{APIError, Error};
use super::pending::{SpliceKind, SpliceKindView};
use super::retrier::{rebuilt_contribution, SpliceRetrier};
use crate::primitives::{clone_tx_outs, tx_outs, TxOut, TxOutView};

verus! {

/// What a channel says of a splice that can be negotiated. Feerates are in satoshis per thousand
/// weight units.
#[derive(Clone, Copy, Debug, PartialEq, Eq)]
pub struct FundingTemplate {
    /// The least feerate with which the splice replaces a pending one, if there is a pending one.
    pub min_rbf_feerate: Option<u64>,
}

/// A contribution to be built.
#[derive(Debug, PartialEq, Eq)]
pub enum ContributionRequest {
    /// Funds are added to the channel.
    SpliceIn {
        /// The amount to add, in satoshis.
        amount_sats: u64,
        /// The feerate to pay.
        feerate: u64,
        /// The feerate to accept at most.
        max_feerate: u64,
    },
    /// Funds are taken out of the channel.
    SpliceOut {
        /// The outputs to pay.
        outputs: Vec<TxOut>,
        /// The feerate to pay.
        feerate: u64,
        /// The feerate to accept at most.
        max_feerate: u64,
    },
    /// The fee of a pending splice is raised to what it takes to replace it.
    RbfPrior {
        /// The feerate to accept at most.
        max_feerate: u64,
    },
}

/// What a [`ContributionRequest`] holds.
#[verifier::ext_equal]
pub enum ContributionRequestView {
    SpliceIn { amount_sats: u64, feerate: u64, max_feerate: u64 },
    SpliceOut { outputs: Seq<TxOutView>, feerate: u64, max_feerate: u64 },
    RbfPrior { max_feerate: u64 },
}

impl View for ContributionRequest {
    type V = ContributionRequestView;

    open spec fn view(&self) -> ContributionRequestView {
        match self {
            ContributionRequest::SpliceIn { amount_sats, feerate, max_feerate } =>
                ContributionRequestView::SpliceIn {
                    amount_sats: *amount_sats,
                    feerate: *feerate,
                    max_feerate: *max_feerate,
                },
            ContributionRequest::SpliceOut { outputs, feerate, max_feerate } =>
                ContributionRequestView::SpliceOut {
                    outputs: tx_outs(outputs@),
                    feerate: *feerate,
                    max_feerate: *max_feerate,
                },
            ContributionRequest::RbfPrior { max_feerate } => ContributionRequestView::RbfPrior {
                max_feerate: *max_feerate,
            },
        }
    }
}

/// The feerate to pay: the estimated one, raised to the least one that replaces a pending splice
/// unless that is more than the maximum.
pub open spec fn splice_feerate(
    est_feerate: u64,
    max_feerate: u64,
    min_rbf_feerate: Option<u64>,
) -> u64 {
    match min_rbf_feerate {
        Some(min) => if est_feerate < min <= max_feerate {
            min
        } else {
            est_feerate
        },
        None => est_feerate,
    }
}

/// The contribution to build for a splice with these parameters.
pub open spec fn contribution_request(
    kind: SpliceKindView,
    feerate: u64,
    max_feerate: u64,
) -> ContributionRequestView {
    match kind {
        SpliceKindView::In { amount_sats } => ContributionRequestView::SpliceIn {
            amount_sats,
            feerate,
            max_feerate,
        },
        SpliceKindView::Out { outputs } => ContributionRequestView::SpliceOut {
            outputs,
            feerate,
            max_feerate,
        },
        SpliceKindView::Rbf {  } => ContributionRequestView::RbfPrior { max_feerate },
    }
}

impl SpliceRetrier {
    /// Says which fresh contribution to build from the parameters of the originating call, given the
    /// channel's answer to whether it can be spliced, the estimated feerate and the maximal one.
    pub fn rebuild_contribution(
        template: &Result<FundingTemplate, APIError>,
        est_feerate: u64,
        max_feerate: u64,
        kind: &SpliceKind,
    ) -> (res: Result<ContributionRequest, Error>)
        ensures
            match template {
                Ok(template) => res matches Ok(request) && request@ == contribution_request(
                    kind@,
                    splice_feerate(est_feerate, max_feerate, template.min_rbf_feerate),
                    max_feerate,
                ),
                Err(_) => res == Err::<ContributionRequest, Error>(Error::ChannelSplicingFailed),
            },
    {
        let min_rbf_feerate = match template {
            Ok(template) => template.min_rbf_feerate,
            Err(_) => {
                return Err(Error::ChannelSplicingFailed);
            },
        };
        let feerate = match min_rbf_feerate {
            Some(min) => if min <= max_feerate && est_feerate < min {
                min
            } else {
                est_feerate
            },
            None => est_feerate,
        };
        match kind {
            SpliceKind::In { amount_sats } => Ok(
                ContributionRequest::SpliceIn { amount_sats: *amount_sats, feerate, max_feerate },
            ),
            SpliceKind::Out { outputs } => Ok(
                ContributionRequest::SpliceOut {
                    outputs: clone_tx_outs(outputs),
                    feerate,
                    max_feerate,
                },
            ),
            SpliceKind::Rbf {  } => Ok(ContributionRequest::RbfPrior { max_feerate }),
        }
    }

    /// Takes the contribution that was built, or `None` where building it failed.
    pub fn finish_rebuild(built: Option<FundingContribution>) -> (res: Result<
        FundingContribution,
        Error,
    >)
        ensures
            rebuilt_contribution(res) == opt_contribution(built),
    {
        match built {
            Some(contribution) => Ok(contribution),
            None => Err(Error::ChannelSplicingFailed),
        }
    }
}

} // verus!
