//! Driving a failed splice back into its channel, one step at a time.
//!
//! A failure takes several calls to the channel and the wallet to handle. Each function here takes
//! the outcome of one of them and says which comes next.

use vstd::prelude::*;

use super::contribution::{
    is_same_splice, opt_contribution, FundingContribution, FundingContributionView,
};
use super::error::{APIError, Error};
use super::failure::{
    classify_failure, decide_retry, failure_class, retry_decision, FailureClass,
    NegotiationFailureReason, RetryDecision,
};
use super::pending::{opt_splice, PendingSplice, PendingSpliceView, SpliceKind, SpliceKindView};
use super::registry::{after_lock, registered, resubmitted, still_holds, SpliceRegistry};
use crate::primitives::{
    tx_outs, ChannelId, FundingOutPoint, OutPoint, PublicKey, TxOut, TxOutView, UserChannelId,
};

verus! {

/// What a list of a peer's channels says of one of them.
#[derive(Clone, Copy, Debug, PartialEq, Eq)]
pub struct ChannelDetails {
    /// The identifier under which the user knows the channel.
    pub user_channel_id: u128,
    /// The channel's funding output, if the channel has been funded.
    pub funding_txo: Option<FundingOutPoint>,
}

/// The next thing to do about a failed splice.
#[derive(Debug, PartialEq, Eq)]
pub enum RetryAction {
    /// The failure is handled.
    Done {
        /// Whether to surface the failure to the user.
        surface: bool,
    },
    /// List the counterparty's channels, to adopt the splice that `contribution` belongs to.
    ListChannels {
        /// The contribution that the failure event carried.
        contribution: FundingContribution,
    },
    /// Probe whether the splice's channel can take a contribution at all.
    ProbeChannel {
        /// The splice that failed.
        splice: PendingSplice,
    },
    /// Build a fresh contribution for the splice.
    RebuildContribution {
        /// The splice that failed.
        splice: PendingSplice,
        /// The parameters to build it from.
        kind: SpliceKind,
    },
    /// Hand a contribution back to the channel.
    HandOff {
        /// The outputs whose addresses have to be reserved first. A failure to reserve them risks
        /// only address reuse, so it does not block the hand-off.
        reserve: Option<Vec<TxOut>>,
        /// The channel to splice.
        channel_id: ChannelId,
        /// The channel counterparty.
        counterparty_node_id: PublicKey,
        /// The contribution.
        contribution: FundingContribution,
    },
}

/// What a [`RetryAction`] holds.
#[verifier::ext_equal]
pub enum RetryActionView {
    Done { surface: bool },
    ListChannels { contribution: FundingContributionView },
    ProbeChannel { splice: PendingSpliceView },
    RebuildContribution { splice: PendingSpliceView, kind: SpliceKindView },
    HandOff {
        reserve: Option<Seq<TxOutView>>,
        channel_id: ChannelId,
        counterparty_node_id: PublicKey,
        contribution: FundingContributionView,
    },
}

/// What an optional list of outputs holds.
pub open spec fn opt_tx_outs(outputs: Option<Vec<TxOut>>) -> Option<Seq<TxOutView>> {
    match outputs {
        Some(outputs) => Some(tx_outs(outputs@)),
        None => None,
    }
}

impl View for RetryAction {
    type V = RetryActionView;

    open spec fn view(&self) -> RetryActionView {
        match self {
            RetryAction::Done { surface } => RetryActionView::Done { surface: *surface },
            RetryAction::ListChannels { contribution } => RetryActionView::ListChannels {
                contribution: contribution@,
            },
            RetryAction::ProbeChannel { splice } => RetryActionView::ProbeChannel {
                splice: splice@,
            },
            RetryAction::RebuildContribution { splice, kind } =>
                RetryActionView::RebuildContribution { splice: splice@, kind: kind@ },
            RetryAction::HandOff { reserve, channel_id, counterparty_node_id, contribution } =>
                RetryActionView::HandOff {
                    reserve: opt_tx_outs(*reserve),
                    channel_id: *channel_id,
                    counterparty_node_id: *counterparty_node_id,
                    contribution: contribution@,
                },
        }
    }
}

/// A splice as a user's call starts it.
pub open spec fn fresh_splice(
    channel_id: ChannelId,
    counterparty_node_id: PublicKey,
    pre_splice_funding_txo: OutPoint,
    contribution: FundingContributionView,
    kind: Option<SpliceKindView>,
) -> PendingSpliceView {
    PendingSpliceView {
        channel_id,
        counterparty_node_id,
        pre_splice_funding_txo,
        contribution,
        kind,
        attempts: 0,
        rejected: false,
    }
}

/// The first thing to do about a failure of `splice`, once it is decided whether to give up on it or
/// how to retry it.
pub open spec fn decision_action(
    splice: PendingSpliceView,
    decision: RetryDecision,
) -> RetryActionView {
    match decision {
        RetryDecision::Abandon => RetryActionView::Done { surface: true },
        RetryDecision::ResubmitStored => RetryActionView::ProbeChannel { splice },
        RetryDecision::Rebuild => RetryActionView::RebuildContribution {
            splice,
            kind: splice.kind->0,
        },
    }
}

/// The first thing to do about a failure, from what is tracked for its channel and what the event
/// carries.
pub open spec fn failure_action(
    splice: Option<PendingSpliceView>,
    reason: NegotiationFailureReason,
    contribution: Option<FundingContributionView>,
) -> RetryActionView {
    match failure_class(splice, reason, contribution) {
        FailureClass::Surface => RetryActionView::Done { surface: true },
        FailureClass::Consume => RetryActionView::Done { surface: false },
        FailureClass::Adopt => RetryActionView::ListChannels { contribution: contribution->0 },
        FailureClass::Pending(decision) => decision_action(splice->0, decision),
    }
}

/// The position of the first of the listed channels that the user knows under the identifier, or
/// the length of the list if there is none.
pub open spec fn channel_position(channels: Seq<ChannelDetails>, id: UserChannelId) -> int
    decreases channels.len(),
{
    if channels.len() == 0 || channels[0].user_channel_id == id.0 {
        0
    } else {
        1 + channel_position(channels.drop_first(), id)
    }
}

/// The funding output of the first of the listed channels that the user knows under the
/// identifier; `None` if there is no such channel or it has not been funded.
pub open spec fn channel_funding(channels: Seq<ChannelDetails>, id: UserChannelId) -> Option<
    OutPoint,
> {
    let i = channel_position(channels, id);
    if i < channels.len() && channels[i].funding_txo is Some {
        Some(channels[i].funding_txo->0.outpoint())
    } else {
        None
    }
}

/// The splice that starts being tracked when a failure event is adopted; `None` if the channel is
/// gone or not ready.
pub open spec fn adopted_splice(
    channel_id: ChannelId,
    id: UserChannelId,
    counterparty_node_id: PublicKey,
    contribution: FundingContributionView,
    channels: Seq<ChannelDetails>,
) -> Option<PendingSpliceView> {
    match channel_funding(channels, id) {
        Some(funding_txo) => Some(
            fresh_splice(channel_id, counterparty_node_id, funding_txo, contribution, None),
        ),
        None => None,
    }
}

/// What handing back the rebuilt contribution, or the stored one where there is none, comes to.
/// The stored contribution's addresses were released when its attempt failed, so they are reserved
/// again; a rebuilt contribution selected fresh ones.
pub open spec fn resubmission(
    splice: PendingSpliceView,
    rebuilt: Option<FundingContributionView>,
) -> RetryActionView {
    match rebuilt {
        Some(contribution) => RetryActionView::HandOff {
            reserve: None,
            channel_id: splice.channel_id,
            counterparty_node_id: splice.counterparty_node_id,
            contribution,
        },
        None => RetryActionView::HandOff {
            reserve: Some(splice.contribution.paid_outputs()),
            channel_id: splice.channel_id,
            counterparty_node_id: splice.counterparty_node_id,
            contribution: splice.contribution,
        },
    }
}

/// The contribution that a resubmission carries.
pub open spec fn carried(
    splice: PendingSpliceView,
    rebuilt: Option<FundingContributionView>,
) -> FundingContributionView {
    match rebuilt {
        Some(contribution) => contribution,
        None => splice.contribution,
    }
}

/// Whether the count of attempts has room for one more resubmission of `splice`.
pub open spec fn can_count(
    splices: Map<u128, PendingSpliceView>,
    id: UserChannelId,
    splice: PendingSpliceView,
) -> bool {
    still_holds(splices, id, splice.contribution) ==> splices[id.0].attempts < u8::MAX
}

/// What a resubmission makes of the tracked splices: the attempt is counted while the splice that
/// failed is still the tracked one, and nothing changes once it is not.
pub open spec fn after_resubmission(
    splices: Map<u128, PendingSpliceView>,
    id: UserChannelId,
    splice: PendingSpliceView,
    rebuilt: Option<FundingContributionView>,
) -> Map<u128, PendingSpliceView> {
    if still_holds(splices, id, splice.contribution) {
        splices.insert(id.0, resubmitted(splices[id.0], carried(splice, rebuilt)))
    } else {
        splices
    }
}

/// What a resubmission asks for: the hand-off while the splice that failed is still the tracked
/// one, and nothing once it is not.
pub open spec fn resubmission_action(
    splices: Map<u128, PendingSpliceView>,
    id: UserChannelId,
    splice: PendingSpliceView,
    rebuilt: Option<FundingContributionView>,
) -> RetryActionView {
    if still_holds(splices, id, splice.contribution) {
        resubmission(splice, rebuilt)
    } else {
        RetryActionView::Done { surface: false }
    }
}

/// Whether a refusal of a hand-off means that the channel or peer is gone.
pub open spec fn channel_gone(outcome: Result<(), APIError>) -> bool {
    outcome is Err && outcome->Err_0 is ChannelUnavailable
}

/// What the outcome of a rebuild holds, with nothing where the rebuild failed.
pub open spec fn rebuilt_contribution(rebuilt: Result<FundingContribution, Error>) -> Option<
    FundingContributionView,
> {
    match rebuilt {
        Ok(contribution) => Some(contribution@),
        Err(_) => None,
    }
}

/// Retries user-initiated splices that fail for recoverable reasons while the node runs.
///
/// A splice negotiation in progress is abandoned whenever the peer disconnects, and the failure is
/// reported by an event. The splice entry points register each splice here before handing its
/// contribution to the channel; a recoverable failure is then driven back into the channel until
/// the splice either locks or fails for a reason retrying cannot address, at which point the
/// failure is surfaced.
///
/// The tracked state is in-memory only, so retries do not survive a restart. A failure event that
/// was never handled while running replays after a restart, and its splice is adopted and
/// resubmitted.
pub struct SpliceRetrier {
    registry: SpliceRegistry,
}

impl View for SpliceRetrier {
    type V = Map<u128, PendingSpliceView>;

    closed spec fn view(&self) -> Map<u128, PendingSpliceView> {
        self.registry@
    }
}

impl SpliceRetrier {
    /// A retrier that tracks nothing.
    pub fn new() -> (res: Self)
        ensures
            res@ == Map::<u128, PendingSpliceView>::empty(),
    {
        SpliceRetrier { registry: SpliceRegistry::default() }
    }

    /// The tracked splice of the channel.
    pub fn get(&self, user_channel_id: UserChannelId) -> (res: Option<PendingSplice>)
        ensures
            opt_splice(res) == registered(self@, user_channel_id),
    {
        self.registry.get(user_channel_id)
    }

    /// Tracks a user-initiated splice, whose contribution is to be handed to the channel next.
    /// Tracking starts before the hand-off, so a failure event cannot arrive before the splice it
    /// concerns is tracked. A newer splice supersedes whatever was tracked for the channel: at most
    /// one splice is ever in flight per channel, and a fee bump replaces the splice it bumps.
    ///
    /// Returns the tracked splice, for [`Self::finish_submit`].
    pub fn submit(
        &mut self,
        user_channel_id: UserChannelId,
        counterparty_node_id: PublicKey,
        channel_id: ChannelId,
        pre_splice_funding_txo: OutPoint,
        contribution: FundingContribution,
        kind: SpliceKind,
    ) -> (res: PendingSplice)
        ensures
            res@ == fresh_splice(
                channel_id,
                counterparty_node_id,
                pre_splice_funding_txo,
                contribution@,
                Some(kind@),
            ),
            final(self)@ == old(self)@.insert(user_channel_id.0, res@),
    {
        let splice = PendingSplice {
            channel_id,
            counterparty_node_id,
            pre_splice_funding_txo,
            contribution,
            kind: Some(kind),
            attempts: 0,
            rejected: false,
        };
        self.registry.register(user_channel_id, splice.clone());
        splice
    }

    /// Takes the outcome of handing the contribution of `splice` to the channel.
    ///
    /// On a synchronous rejection the error is returned for the caller to surface, and the splice
    /// stays tracked but marked rejected: a failure event may still be enqueued for the rejected
    /// contribution, which must be consumed rather than reported a second time.
    pub fn finish_submit(
        &mut self,
        user_channel_id: UserChannelId,
        splice: PendingSplice,
        outcome: Result<(), APIError>,
    ) -> (res: Result<(), APIError>)
        ensures
            res == outcome,
            final(self)@ == match outcome {
                Ok(()) => old(self)@,
                Err(_) => old(self)@.insert(
                    user_channel_id.0,
                    PendingSpliceView { rejected: true, ..splice@ },
                ),
            },
    {
        if outcome.is_err() {
            let rejected = PendingSplice { rejected: true, ..splice };
            self.registry.register(user_channel_id, rejected);
        }
        outcome
    }

    /// What to do first about a failure of `splice`.
    fn act_on(splice: PendingSplice, decision: RetryDecision) -> (res: RetryAction)
        requires
            decision is Rebuild ==> splice.kind is Some,
        ensures
            res@ == decision_action(splice@, decision),
    {
        match decision {
            // The splice deliberately stays tracked on every give-up path: the user-facing event
            // is queued only after the failure has been handled, and the failure event is replayed
            // if that write fails. Classifying the replay with the entry intact converges on the
            // same give-up, whereas unregistering would make the replay adopt the splice afresh
            // with a reset attempt budget. The entry is cleaned up by a superseding registration,
            // by a locked funding or by the channel's closing.
            RetryDecision::Abandon => RetryAction::Done { surface: true },
            // Probe whether the channel can take a contribution at all: it cannot when it is gone,
            // mid-shutdown, out of balance for the fees, or the peer no longer supports splicing.
            RetryDecision::ResubmitStored => RetryAction::ProbeChannel { splice },
            RetryDecision::Rebuild => {
                let kind = splice.kind.clone().unwrap();
                RetryAction::RebuildContribution { splice, kind }
            },
        }
    }

    /// Starts handling the failure of a splice negotiation, retrying recoverable failures.
    pub fn on_negotiation_failed(
        &self,
        user_channel_id: UserChannelId,
        reason: &NegotiationFailureReason,
        contribution: Option<FundingContribution>,
    ) -> (res: RetryAction)
        ensures
            res@ == failure_action(
                registered(self@, user_channel_id),
                *reason,
                opt_contribution(contribution),
            ),
    {
        let splice = self.registry.get(user_channel_id);
        match classify_failure(splice.as_ref(), reason, contribution.as_ref()) {
            FailureClass::Surface => RetryAction::Done { surface: true },
            FailureClass::Consume => RetryAction::Done { surface: false },
            FailureClass::Adopt => RetryAction::ListChannels {
                contribution: contribution.unwrap(),
            },
            FailureClass::Pending(decision) => Self::act_on(splice.unwrap(), decision),
        }
    }

    /// Starts tracking the splice behind a failure event that arrived with nothing tracked: failure
    /// events are persisted, so a failure never handled while running — e.g. a disconnect during
    /// shutdown — replays after a restart, and its registration did not survive that restart.
    /// Returns `None` when the channel is gone or not ready, in which case there is nothing left to
    /// retry.
    pub fn adopt(
        &mut self,
        channel_id: ChannelId,
        user_channel_id: UserChannelId,
        counterparty_node_id: PublicKey,
        contribution: FundingContribution,
        channels: &Vec<ChannelDetails>,
    ) -> (res: Option<PendingSplice>)
        ensures
            opt_splice(res) == adopted_splice(
                channel_id,
                user_channel_id,
                counterparty_node_id,
                contribution@,
                channels@,
            ),
            final(self)@ == match res {
                Some(splice) => old(self)@.insert(user_channel_id.0, splice@),
                None => old(self)@,
            },
    {
        let mut i: usize = 0;
        assert(channels@.skip(0) =~= channels@);
        while i < channels.len() && channels[i].user_channel_id != user_channel_id.0
            invariant
                i <= channels.len(),
                channel_position(channels@, user_channel_id) == i + channel_position(
                    channels@.skip(i as int),
                    user_channel_id,
                ),
            decreases channels.len() - i,
        {
            assert(channels@.skip(i as int).drop_first() =~= channels@.skip(i + 1));
            i += 1;
        }
        assert(channel_position(channels@, user_channel_id) == i);
        if i == channels.len() {
            return None;
        }
        match channels[i].funding_txo {
            Some(funding_txo) => {
                let splice = PendingSplice {
                    channel_id,
                    counterparty_node_id,
                    pre_splice_funding_txo: funding_txo.into_bitcoin_outpoint(),
                    contribution,
                    kind: None,
                    attempts: 0,
                    rejected: false,
                };
                self.registry.register(user_channel_id, splice.clone());
                Some(splice)
            },
            None => None,
        }
    }

    /// Takes the counterparty's channels and adopts the splice that the failure event carried.
    pub fn on_channels_listed(
        &mut self,
        channel_id: ChannelId,
        user_channel_id: UserChannelId,
        counterparty_node_id: PublicKey,
        reason: &NegotiationFailureReason,
        contribution: FundingContribution,
        channels: &Vec<ChannelDetails>,
    ) -> (res: RetryAction)
        ensures
            match adopted_splice(
                channel_id,
                user_channel_id,
                counterparty_node_id,
                contribution@,
                channels@,
            ) {
                Some(splice) => {
                    &&& final(self)@ == old(self)@.insert(user_channel_id.0, splice)
                    &&& res@ == decision_action(splice, retry_decision(*reason, 0, false))
                },
                None => {
                    &&& final(self)@ == old(self)@
                    &&& res@ == RetryActionView::Done { surface: true }
                },
            },
    {
        match self.adopt(channel_id, user_channel_id, counterparty_node_id, contribution, channels) {
            Some(splice) => {
                let decision = decide_retry(reason, splice.attempts, splice.kind.is_some());
                Self::act_on(splice, decision)
            },
            None => RetryAction::Done { surface: true },
        }
    }

    /// Takes the outcome of probing the channel of `splice`. Retrying cannot help where the channel
    /// refuses, and dropping the failure would leave the user unaware their splice is dead, so the
    /// splice is then given up on and the failure surfaced.
    pub fn on_channel_probed(
        &mut self,
        user_channel_id: UserChannelId,
        splice: PendingSplice,
        probe: &Result<(), APIError>,
    ) -> (res: RetryAction)
        requires
            probe is Ok ==> can_count(old(self)@, user_channel_id, splice@),
        ensures
            match probe {
                Ok(()) => {
                    &&& final(self)@ == after_resubmission(
                        old(self)@,
                        user_channel_id,
                        splice@,
                        None,
                    )
                    &&& res@ == resubmission_action(old(self)@, user_channel_id, splice@, None)
                },
                Err(_) => {
                    &&& final(self)@ == old(self)@
                    &&& res@ == RetryActionView::Done { surface: true }
                },
            },
    {
        if probe.is_err() {
            return RetryAction::Done { surface: true };
        }
        self.resubmit(user_channel_id, splice, None)
    }

    /// Takes the outcome of rebuilding the contribution of `splice`. The wallet may no longer be
    /// able to fund a fresh contribution (or the channel may be gone, which the hand-off then
    /// surfaces). The stored contribution is still worth handing back rather than giving up.
    pub fn on_contribution_rebuilt(
        &mut self,
        user_channel_id: UserChannelId,
        splice: PendingSplice,
        rebuilt: Result<FundingContribution, Error>,
    ) -> (res: RetryAction)
        requires
            can_count(old(self)@, user_channel_id, splice@),
        ensures
            final(self)@ == after_resubmission(
                old(self)@,
                user_channel_id,
                splice@,
                rebuilt_contribution(rebuilt),
            ),
            res@ == resubmission_action(
                old(self)@,
                user_channel_id,
                splice@,
                rebuilt_contribution(rebuilt),
            ),
    {
        match rebuilt {
            Ok(contribution) => self.resubmit(user_channel_id, splice, Some(contribution)),
            Err(_) => self.resubmit(user_channel_id, splice, None),
        }
    }

    /// Whether the count of attempts has room for one more resubmission of `splice`.
    pub fn can_resubmit(&self, user_channel_id: UserChannelId, splice: &PendingSplice) -> (res: bool)
        ensures
            res == can_count(self@, user_channel_id, splice@),
    {
        match self.registry.get(user_channel_id) {
            Some(held) => held.attempts < u8::MAX || !is_same_splice(
                &held.contribution,
                &splice.contribution,
            ),
            None => true,
        }
    }

    /// Records the attempt and asks for the contribution to be handed back to the channel. The
    /// attempt count is bumped before the hand-off so repeated failures stay bounded.
    pub fn resubmit(
        &mut self,
        user_channel_id: UserChannelId,
        splice: PendingSplice,
        rebuilt: Option<FundingContribution>,
    ) -> (res: RetryAction)
        requires
            can_count(old(self)@, user_channel_id, splice@),
        ensures
            final(self)@ == after_resubmission(
                old(self)@,
                user_channel_id,
                splice@,
                opt_contribution(rebuilt),
            ),
            res@ == resubmission_action(
                old(self)@,
                user_channel_id,
                splice@,
                opt_contribution(rebuilt),
            ),
    {
        let resubmitting_stored = rebuilt.is_none();
        let contribution = match rebuilt {
            Some(contribution) => contribution,
            None => splice.contribution.clone(),
        };
        // The tracked splice may have moved on while the contribution was being rebuilt (locked,
        // closed, or superseded by a newer splice); resubmit only while it is the one that failed.
        if !self.registry.record_attempt(
            user_channel_id,
            &splice.contribution,
            contribution.clone(),
        ) {
            return RetryAction::Done { surface: false };
        }
        let reserve = if resubmitting_stored {
            Some(contribution.paid_outputs())
        } else {
            None
        };
        RetryAction::HandOff {
            reserve,
            channel_id: splice.channel_id,
            counterparty_node_id: splice.counterparty_node_id,
            contribution,
        }
    }

    /// Takes the outcome of handing a contribution back and says whether the failure being handled
    /// should be surfaced after all. A [`APIError::ChannelUnavailable`] rejection means the channel
    /// or peer is gone, so no further failure event is coming and the splice is given up on. Any
    /// other rejection is not: either a fresh failure event was enqueued, which gives up at
    /// [`MAX_SPLICE_ATTEMPTS`], or another negotiation is already being driven for the channel.
    ///
    /// [`MAX_SPLICE_ATTEMPTS`]: super::failure::MAX_SPLICE_ATTEMPTS
    pub fn on_handed_off(outcome: &Result<(), APIError>) -> (res: bool)
        ensures
            res == channel_gone(*outcome),
    {
        match outcome {
            Err(APIError::ChannelUnavailable { .. }) => true,
            _ => false,
        }
    }

    /// Clears any tracked splice made obsolete by a newly locked funding transaction.
    pub fn on_channel_ready(
        &mut self,
        user_channel_id: UserChannelId,
        funding_txo: Option<OutPoint>,
    )
        ensures
            final(self)@ == match funding_txo {
                Some(funding_txo) => after_lock(old(self)@, user_channel_id, funding_txo),
                None => old(self)@,
            },
    {
        if let Some(funding_txo) = funding_txo {
            self.registry.clear_if_obsoleted(user_channel_id, funding_txo);
        }
    }

    /// Clears any tracked splice for a closed channel, as there is nothing left to splice.
    pub fn on_channel_closed(&mut self, user_channel_id: UserChannelId)
        ensures
            final(self)@ == old(self)@.remove(user_channel_id.0),
    {
        self.registry.clear(user_channel_id);
    }
}

} // verus!
