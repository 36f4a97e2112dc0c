//! What a failed splice negotiation means for the splice that is tracked for its channel.

use lightning::events::NegotiationFailureReason as LdkFailureReason;
use lightning::types::string::UntrustedString;
use vstd::prelude::*;

use super::contribution::{is_same_splice, same_splice, FundingContribution, FundingContributionView};
use super::pending::{PendingSplice, PendingSpliceView};

verus! {

/// The number of times a splice contribution is resubmitted before the splice is given up on and
/// the failure surfaced to the user.
pub const MAX_SPLICE_ATTEMPTS: u8 = 3;

/// Why the negotiation of a splice failed.
#[derive(Debug, PartialEq, Eq)]
pub enum NegotiationFailureReason {
    /// The reason was not available.
    Unknown,
    /// The peer disconnected during negotiation.
    PeerDisconnected,
    /// The counterparty aborted the negotiation.
    CounterpartyAborted {
        /// The counterparty's abort message.
        msg: String,
    },
    /// An error occurred while the transaction was negotiated.
    NegotiationError {
        /// A developer-readable error message.
        msg: String,
    },
    /// The contribution was invalid.
    ContributionInvalid,
    /// The negotiation was canceled on this side.
    LocallyCanceled,
    /// The channel is closing.
    ChannelClosing,
    /// The contribution's feerate was too low to replace a pending splice.
    FeeRateTooLow,
    /// A pending splice could not be replaced.
    CannotInitiateRbf,
}

impl NegotiationFailureReason {
    /// Whether a negotiation that failed for this reason is worth retrying.
    pub open spec fn retriable(self) -> bool {
        ||| self is Unknown
        ||| self is PeerDisconnected
        ||| self is ContributionInvalid
        ||| self is FeeRateTooLow
    }

    /// Calls `lightning::events::NegotiationFailureReason::is_retriable` on the same reason, which
    /// holds of the four reasons that [`Self::retriable`] lists and of no other.
    #[verifier::external_body]
    fn is_retriable(&self) -> (res: bool)
        ensures
            res == self.retriable(),
    {
        let reason = match self {
            Self::Unknown => LdkFailureReason::Unknown,
            Self::PeerDisconnected => LdkFailureReason::PeerDisconnected,
            Self::CounterpartyAborted { msg } => LdkFailureReason::CounterpartyAborted {
                msg: UntrustedString(msg.clone()),
            },
            Self::NegotiationError { msg } => LdkFailureReason::NegotiationError { msg: msg.clone() },
            Self::ContributionInvalid => LdkFailureReason::ContributionInvalid,
            Self::LocallyCanceled => LdkFailureReason::LocallyCanceled,
            Self::ChannelClosing => LdkFailureReason::ChannelClosing,
            Self::FeeRateTooLow => LdkFailureReason::FeeRateTooLow,
            Self::CannotInitiateRbf => LdkFailureReason::CannotInitiateRbf,
        };
        reason.is_retriable()
    }
}

/// The action to take on the failure of a splice that is tracked, decided purely from the failure
/// reason, the attempt count, and whether the originating parameters are available.
#[derive(Clone, Copy, Debug, PartialEq, Eq)]
pub enum RetryDecision {
    /// Give up and surface the failure to the user.
    Abandon,
    /// Resubmit the stored contribution unchanged (the originating parameters are unavailable, so
    /// a fresh contribution cannot be built).
    ResubmitStored,
    /// Rebuild a fresh contribution from the originating parameters, picking up current fee rates
    /// and wallet state.
    Rebuild,
}

/// Give up on a reason that retrying cannot address or once the budget of attempts is used up;
/// otherwise rebuild wherever the originating parameters are at hand.
pub open spec fn retry_decision(
    reason: NegotiationFailureReason,
    attempts: u8,
    can_rebuild: bool,
) -> RetryDecision {
    if !reason.retriable() || attempts >= MAX_SPLICE_ATTEMPTS {
        RetryDecision::Abandon
    } else if can_rebuild {
        RetryDecision::Rebuild
    } else {
        RetryDecision::ResubmitStored
    }
}

/// Decides what to do about a failure of the tracked splice.
pub fn decide_retry(reason: &NegotiationFailureReason, attempts: u8, can_rebuild: bool) -> (res:
    RetryDecision)
    ensures
        res == retry_decision(*reason, attempts, can_rebuild),
{
    if !reason.is_retriable() || attempts >= MAX_SPLICE_ATTEMPTS {
        return RetryDecision::Abandon;
    }
    // Rebuilding picks up current fee rates and wallet state, so prefer it whenever the
    // originating parameters are available. Only a splice adopted from a replayed event cannot be
    // rebuilt; its stored contribution is resubmitted unchanged.
    if can_rebuild {
        RetryDecision::Rebuild
    } else {
        RetryDecision::ResubmitStored
    }
}

/// What a failed negotiation means for the splice tracked for its channel, decided purely from the
/// tracked state and the event's payload.
#[derive(Clone, Copy, Debug, PartialEq, Eq)]
pub enum FailureClass {
    /// The failure is final for us: surface it to the user.
    Surface,
    /// Nothing is tracked but the failure is recoverable and carries its contribution: start
    /// tracking it (a failure event replayed after a restart, whose registration did not survive
    /// the restart).
    Adopt,
    /// The failure belongs to a contribution whose synchronous hand-off was rejected: the
    /// originating call already surfaced that error, so the event is dropped.
    Consume,
    /// The failure concerns the tracked splice: the retry matrix decides.
    Pending(RetryDecision),
}

/// Whether a failure that carries `contribution` is a failure of `splice`. One that carries none
/// is not.
pub open spec fn concerns(
    contribution: Option<FundingContributionView>,
    splice: PendingSpliceView,
) -> bool {
    contribution matches Some(c) && same_splice(c, splice.contribution)
}

/// The class of a failure, from what is tracked for its channel and what the event carries.
pub open spec fn failure_class(
    pending: Option<PendingSpliceView>,
    reason: NegotiationFailureReason,
    contribution: Option<FundingContributionView>,
) -> FailureClass {
    match pending {
        Some(splice) => if !concerns(contribution, splice) {
            FailureClass::Surface
        } else if splice.rejected {
            FailureClass::Consume
        } else {
            FailureClass::Pending(retry_decision(reason, splice.attempts, splice.kind is Some))
        },
        None => if reason.retriable() && contribution is Some {
            FailureClass::Adopt
        } else {
            FailureClass::Surface
        },
    }
}

/// What an optional reference to a tracked splice holds.
pub open spec fn opt_splice_ref(splice: Option<&PendingSplice>) -> Option<PendingSpliceView> {
    match splice {
        Some(splice) => Some(splice@),
        None => None,
    }
}

/// What an optional reference to a contribution holds.
pub open spec fn opt_contribution_ref(contribution: Option<&FundingContribution>) -> Option<
    FundingContributionView,
> {
    match contribution {
        Some(contribution) => Some(contribution@),
        None => None,
    }
}

/// Classifies a failure.
pub fn classify_failure(
    pending: Option<&PendingSplice>,
    reason: &NegotiationFailureReason,
    contribution: Option<&FundingContribution>,
) -> (res: FailureClass)
    ensures
        res == failure_class(opt_splice_ref(pending), *reason, opt_contribution_ref(contribution)),
{
    match pending {
        Some(splice) => {
            // Only act on failures of the splice we are tracking. A mismatch means the failure
            // concerns some other attempt (e.g. a stale event replayed after a newer splice was
            // initiated).
            let same = match contribution {
                Some(c) => is_same_splice(c, &splice.contribution),
                None => false,
            };
            if !same {
                FailureClass::Surface
            } else if splice.rejected {
                FailureClass::Consume
            } else {
                FailureClass::Pending(decide_retry(reason, splice.attempts, splice.kind.is_some()))
            }
        },
        None => {
            if reason.is_retriable() && contribution.is_some() {
                FailureClass::Adopt
            } else {
                FailureClass::Surface
            }
        },
    }
}

} // verus!
