//! What holds of tracked splices from their first hand-off to their end.

use vstd::prelude::*;

use super::contribution::{
    opt_contribution, opt_tx_out, same_splice, FundingContribution, FundingContributionView,
};
use super::error::{APIError, Error};
use super::failure::{
    concerns, failure_class, opt_contribution_ref, opt_splice_ref, retry_decision, FailureClass,
    NegotiationFailureReason, RetryDecision, MAX_SPLICE_ATTEMPTS,
};
use super::pending::{opt_splice, PendingSplice, PendingSpliceView, SpliceKind, SpliceKindView};
use super::rebuild::{
    contribution_request, splice_feerate, ContributionRequest, ContributionRequestView,
};
use super::registry::{after_lock, registered, resubmitted, still_holds};
use super::retrier::{
    adopted_splice, after_resubmission, can_count, carried, channel_gone, channel_position, decision_action,
    failure_action, fresh_splice, rebuilt_contribution, resubmission, resubmission_action,
    ChannelDetails, RetryAction, RetryActionView,
};
use crate::primitives::{tx_outs, ChannelId, OutPoint, PublicKey, TxOut, TxOutView, UserChannelId};

verus! {

/// Being the same splice attempt is an equivalence.
pub proof fn lemma_same_splice_is_equivalence(
    a: FundingContributionView,
    b: FundingContributionView,
    c: FundingContributionView,
)
    ensures
        same_splice(a, a),
        same_splice(a, b) ==> same_splice(b, a),
        same_splice(a, b) && same_splice(b, c) ==> same_splice(a, c),
{
}

/// A contribution that moves something is still recognized after its fees and its change have been
/// adjusted.
pub proof fn lemma_adjusted_copy_is_same_splice(
    a: FundingContributionView,
    b: FundingContributionView,
)
    requires
        !a.moves_nothing(),
        b.inputs == a.inputs,
        b.outputs == a.outputs,
    ensures
        same_splice(a, b),
{
}

/// A contribution that moves nothing is recognized by nothing but itself.
pub proof fn lemma_empty_contribution_matches_itself_only(
    a: FundingContributionView,
    b: FundingContributionView,
)
    requires
        a.moves_nothing(),
    ensures
        same_splice(a, b) <==> a == b,
{
}

/// A failure of a splice whose hand-off was rejected is consumed: it is neither reported nor
/// retried, whatever its reason.
pub proof fn lemma_rejected_hand_off_is_consumed(
    splices: Map<u128, PendingSpliceView>,
    id: UserChannelId,
    splice: PendingSpliceView,
    reason: NegotiationFailureReason,
    contribution: FundingContributionView,
)
    requires
        same_splice(contribution, splice.contribution),
    ensures
        ({
            let rejected = PendingSpliceView { rejected: true, ..splice };
            let after = splices.insert(id.0, rejected);
            failure_action(registered(after, id), reason, Some(contribution))
                == RetryActionView::Done { surface: false }
        }),
{
}

/// A failure that concerns another attempt than the tracked one is surfaced, and so is one that
/// does not say which attempt it concerns.
pub proof fn lemma_other_attempt_is_surfaced(
    splice: PendingSpliceView,
    reason: NegotiationFailureReason,
    contribution: Option<FundingContributionView>,
)
    requires
        contribution matches Some(c) ==> !same_splice(c, splice.contribution),
    ensures
        failure_action(Some(splice), reason, contribution) == (RetryActionView::Done {
            surface: true,
        }),
{
}

/// A failure for a reason that retrying cannot address is surfaced, unless the hand-off was
/// rejected and its caller knows already.
pub proof fn lemma_final_failure_is_surfaced(
    splice: Option<PendingSpliceView>,
    reason: NegotiationFailureReason,
    contribution: Option<FundingContributionView>,
)
    requires
        !reason.retriable(),
        splice matches Some(splice) ==> !(splice.rejected && concerns(contribution, splice)),
    ensures
        failure_action(splice, reason, contribution) == (RetryActionView::Done { surface: true }),
{
}

/// A recoverable failure of the tracked splice is driven back while the budget lasts: with a fresh
/// contribution where the originating parameters are known, and with the stored one otherwise.
pub proof fn lemma_recoverable_failure_is_retried(
    splice: PendingSpliceView,
    reason: NegotiationFailureReason,
    contribution: FundingContributionView,
)
    requires
        reason.retriable(),
        same_splice(contribution, splice.contribution),
        !splice.rejected,
        splice.attempts < MAX_SPLICE_ATTEMPTS,
    ensures
        failure_action(Some(splice), reason, Some(contribution)) == match splice.kind {
            Some(kind) => RetryActionView::RebuildContribution { splice, kind },
            None => RetryActionView::ProbeChannel { splice },
        },
{
}

/// Once the budget is used up the splice is given up on, and as the tracked splices stay as they
/// are, a replay of the same failure is given up on again.
pub proof fn lemma_give_up_converges(
    splices: Map<u128, PendingSpliceView>,
    id: UserChannelId,
    reason: NegotiationFailureReason,
    contribution: Option<FundingContributionView>,
)
    requires
        splices.contains_key(id.0),
        splices[id.0].attempts >= MAX_SPLICE_ATTEMPTS,
        !splices[id.0].rejected,
    ensures
        failure_action(registered(splices, id), reason, contribution) == (RetryActionView::Done {
            surface: true,
        }),
{
}

/// A failure that arrives with nothing tracked is only adopted where it can be retried, and is then
/// retried with the contribution that it carries.
pub proof fn lemma_adopted_failure_is_retried(
    splices: Map<u128, PendingSpliceView>,
    id: UserChannelId,
    reason: NegotiationFailureReason,
    contribution: FundingContributionView,
    channel_id: ChannelId,
    counterparty_node_id: PublicKey,
    channels: Seq<ChannelDetails>,
)
    requires
        failure_class(registered(splices, id), reason, Some(contribution)) is Adopt,
    ensures
        retry_decision(reason, 0, false) is ResubmitStored,
        adopted_splice(channel_id, id, counterparty_node_id, contribution, channels) matches Some(
            splice,
        ) ==> {
            let after = splices.insert(id.0, splice);
            &&& splice.contribution == contribution
            &&& still_holds(after, id, splice.contribution)
            &&& resubmission_action(after, id, splice, None) == resubmission(splice, None)
        },
{
}

/// The next failure of an adopted splice counts against its budget; it is not adopted afresh.
pub proof fn lemma_adopted_splice_is_not_adopted_again(
    id: UserChannelId,
    reason: NegotiationFailureReason,
    contribution: FundingContributionView,
    channel_id: ChannelId,
    counterparty_node_id: PublicKey,
    channels: Seq<ChannelDetails>,
)
    requires
        adopted_splice(channel_id, id, counterparty_node_id, contribution, channels) is Some,
    ensures
        ({
            let splice = adopted_splice(
                channel_id,
                id,
                counterparty_node_id,
                contribution,
                channels,
            )->0;
            let once = resubmitted(splice, carried(splice, None));
            &&& once.attempts == 1
            &&& failure_class(Some(once), reason, Some(contribution)) == FailureClass::Pending(
                retry_decision(reason, 1, false),
            )
        }),
{
}

/// Where a splice is adopted, its channel is the first listed one with the identifier.
pub proof fn lemma_adopts_first_listed_channel(
    channels: Seq<ChannelDetails>,
    id: UserChannelId,
)
    ensures
        ({
            let i = channel_position(channels, id);
            &&& 0 <= i <= channels.len()
            &&& i < channels.len() ==> channels[i].user_channel_id == id.0
            &&& forall|j: int| 0 <= j < i ==> (#[trigger] channels[j]).user_channel_id != id.0
        }),
    decreases channels.len(),
{
    if channels.len() > 0 && channels[0].user_channel_id != id.0 {
        let rest = channels.drop_first();
        lemma_adopts_first_listed_channel(rest, id);
        assert forall|j: int| 0 <= j < channel_position(channels, id) implies (
        #[trigger] channels[j]).user_channel_id != id.0 by {
            if j > 0 {
                assert(rest[j - 1] == channels[j]);
            }
        }
    }
}

/// What comes of one failure event of a tracked splice: the event, and what the channel and the
/// wallet answered.
#[verifier::ext_equal]
pub struct FailureRound {
    /// Why the negotiation failed.
    pub reason: NegotiationFailureReason,
    /// The contribution that the event carries.
    pub contribution: Option<FundingContributionView>,
    /// Whether the channel could take a contribution when it was probed.
    pub probed: bool,
    /// The fresh contribution, if one could be built.
    pub rebuilt: Option<FundingContributionView>,
}

/// The splice that is handed back to the channel after one failure event, or `None` if it is not
/// handed back.
pub open spec fn handed_back(splice: PendingSpliceView, round: FailureRound) -> Option<
    PendingSpliceView,
> {
    match failure_action(Some(splice), round.reason, round.contribution) {
        RetryActionView::ProbeChannel { .. } => if round.probed {
            Some(resubmitted(splice, carried(splice, None)))
        } else {
            None
        },
        RetryActionView::RebuildContribution { .. } => Some(
            resubmitted(splice, carried(splice, round.rebuilt)),
        ),
        _ => None,
    }
}

/// How often a splice is handed back over a sequence of failure events.
pub open spec fn resubmissions(splice: PendingSpliceView, rounds: Seq<FailureRound>) -> nat
    decreases rounds.len(),
{
    if rounds.len() == 0 {
        0
    } else {
        match handed_back(splice, rounds[0]) {
            Some(next) => 1 + resubmissions(next, rounds.drop_first()),
            None => resubmissions(splice, rounds.drop_first()),
        }
    }
}

/// Whatever fails, and however often: a splice is handed back no more often than its budget allows.
pub proof fn lemma_resubmissions_are_bounded(
    splice: PendingSpliceView,
    rounds: Seq<FailureRound>,
)
    requires
        splice.attempts <= MAX_SPLICE_ATTEMPTS,
    ensures
        splice.attempts + resubmissions(splice, rounds) <= MAX_SPLICE_ATTEMPTS,
    decreases rounds.len(),
{
    if rounds.len() > 0 {
        match handed_back(splice, rounds[0]) {
            Some(next) => {
                assert(splice.attempts < MAX_SPLICE_ATTEMPTS);
                lemma_resubmissions_are_bounded(next, rounds.drop_first());
            },
            None => lemma_resubmissions_are_bounded(splice, rounds.drop_first()),
        }
    }
}

/// A resubmission counts one attempt, keeps what the splice is about, and tracks the contribution
/// that is handed back, so that the next failure of it is recognized.
pub proof fn lemma_resubmission_is_counted(
    splices: Map<u128, PendingSpliceView>,
    id: UserChannelId,
    splice: PendingSpliceView,
    rebuilt: Option<FundingContributionView>,
)
    requires
        still_holds(splices, id, splice.contribution),
        splices[id.0].attempts < u8::MAX,
    ensures
        ({
            let before = splices[id.0];
            let after = after_resubmission(splices, id, splice, rebuilt)[id.0];
            &&& after.attempts == before.attempts + 1
            &&& after.contribution == carried(splice, rebuilt)
            &&& after.kind == before.kind
            &&& after.pre_splice_funding_txo == before.pre_splice_funding_txo
            &&& after.rejected == before.rejected
            &&& resubmission_action(splices, id, splice, rebuilt) matches RetryActionView::HandOff {
                contribution,
                ..
            } && same_splice(contribution, after.contribution)
        }),
{
}

/// A splice that has moved on is not resubmitted: nothing is handed off and nothing changes once
/// it has been superseded by another attempt, cleared by a locked funding, or cleared by the
/// channel's closing.
pub proof fn lemma_moved_on_is_not_resubmitted(
    splices: Map<u128, PendingSpliceView>,
    id: UserChannelId,
    splice: PendingSpliceView,
    rebuilt: Option<FundingContributionView>,
    newer: PendingSpliceView,
    locked: OutPoint,
)
    requires
        !same_splice(newer.contribution, splice.contribution),
        still_holds(splices, id, splice.contribution),
        splices[id.0].pre_splice_funding_txo != locked,
    ensures
        ({
            let superseded = splices.insert(id.0, newer);
            &&& after_resubmission(superseded, id, splice, rebuilt) == superseded
            &&& resubmission_action(superseded, id, splice, rebuilt) == (RetryActionView::Done {
                surface: false,
            })
        }),
        ({
            let completed = after_lock(splices, id, locked);
            &&& after_resubmission(completed, id, splice, rebuilt) == completed
            &&& resubmission_action(completed, id, splice, rebuilt) == (RetryActionView::Done {
                surface: false,
            })
        }),
        ({
            let closed = splices.remove(id.0);
            &&& after_resubmission(closed, id, splice, rebuilt) == closed
            &&& resubmission_action(closed, id, splice, rebuilt) == (RetryActionView::Done {
                surface: false,
            })
        }),
{
}

/// A locked funding clears a splice that predates it and no other.
pub proof fn lemma_lock_clears_predating_splice_only(
    splices: Map<u128, PendingSpliceView>,
    id: UserChannelId,
    locked: OutPoint,
)
    ensures
        registered(after_lock(splices, id, locked), id) == match registered(splices, id) {
            Some(splice) => if splice.pre_splice_funding_txo == locked {
                Some(splice)
            } else {
                None
            },
            None => None,
        },
{
}

/// What happens to the splice of one channel leaves those of all others alone.
pub proof fn lemma_other_channels_are_untouched(
    splices: Map<u128, PendingSpliceView>,
    id: UserChannelId,
    other: UserChannelId,
    splice: PendingSpliceView,
    rebuilt: Option<FundingContributionView>,
    locked: OutPoint,
)
    requires
        id != other,
    ensures
        registered(splices.insert(id.0, splice), other) == registered(splices, other),
        registered(splices.remove(id.0), other) == registered(splices, other),
        registered(after_lock(splices, id, locked), other) == registered(splices, other),
        registered(after_resubmission(splices, id, splice, rebuilt), other) == registered(
            splices,
            other,
        ),
{
}

/// The feerate of a rebuilt contribution is no less than the estimate, replaces a pending splice
/// wherever the maximum allows it, and exceeds the maximum only if the estimate does.
pub proof fn lemma_feerate_bounds(
    est_feerate: u64,
    max_feerate: u64,
    min_rbf_feerate: Option<u64>,
)
    ensures
        ({
            let feerate = splice_feerate(est_feerate, max_feerate, min_rbf_feerate);
            &&& feerate >= est_feerate
            &&& min_rbf_feerate matches Some(min) ==> (min <= max_feerate ==> feerate >= min)
            &&& feerate > max_feerate ==> est_feerate > max_feerate
        }),
{
}

/// What is the same splice attempt spends the same outputs and adds the same ones, with the same
/// amounts and scripts, in the same order.
pub proof fn lemma_same_splice_moves_the_same(
    a: FundingContributionView,
    b: FundingContributionView,
)
    requires
        same_splice(a, b),
    ensures
        a.inputs == b.inputs,
        a.outputs.len() == b.outputs.len(),
        forall|i: int|
            0 <= i < a.outputs.len() ==> (#[trigger] a.outputs[i]).value_sats
                == b.outputs[i].value_sats && a.outputs[i].script_pubkey
                == b.outputs[i].script_pubkey,
        a.outputs == b.outputs,
{
}

/// Two contributions that spend at least one output or add at least one are the same splice attempt
/// if they spend and add the same, whatever their change and the rest of their encoding.
pub proof fn lemma_same_moves_are_same_splice(
    a: FundingContributionView,
    b: FundingContributionView,
)
    requires
        a.inputs.len() > 0 || a.outputs.len() > 0,
        a.inputs == b.inputs,
        a.outputs == b.outputs,
    ensures
        same_splice(a, b),
        same_splice(b, a),
{
}

/// Of two contributions that neither spend nor add an output, the change and the whole encoding
/// have to be the same.
pub proof fn lemma_same_splice_without_moves(
    a: FundingContributionView,
    b: FundingContributionView,
)
    requires
        a.inputs.len() == 0,
        a.outputs.len() == 0,
    ensures
        same_splice(a, b) <==> b.inputs.len() == 0 && b.outputs.len() == 0 && a.change_output
            == b.change_output && a.encoding == b.encoding,
{
    if b.inputs.len() == 0 && b.outputs.len() == 0 {
        assert(a.inputs =~= b.inputs);
        assert(a.outputs =~= b.outputs);
        assert(a.change_output == b.change_output && a.encoding == b.encoding ==> a =~= b);
    }
}

/// To change the amount or the script of one added output, or one spent output, is to make another
/// attempt.
pub proof fn lemma_other_moves_are_another_splice(
    a: FundingContributionView,
    i: int,
    output: TxOutView,
    input: OutPoint,
)
    ensures
        0 <= i < a.outputs.len() && a.outputs[i] != output ==> !same_splice(
            a,
            (FundingContributionView { outputs: a.outputs.update(i, output), ..a }),
        ),
        0 <= i < a.inputs.len() && a.inputs[i] != input ==> !same_splice(
            a,
            (FundingContributionView { inputs: a.inputs.update(i, input), ..a }),
        ),
        !same_splice(a, (FundingContributionView { outputs: a.outputs.push(output), ..a })),
        !same_splice(a, (FundingContributionView { inputs: a.inputs.push(input), ..a })),
{
    assert(a.outputs.push(output).len() != a.outputs.len());
    assert(a.inputs.push(input).len() != a.inputs.len());
    if 0 <= i < a.outputs.len() {
        assert(a.outputs.update(i, output)[i] == output);
    }
    if 0 <= i < a.inputs.len() {
        assert(a.inputs.update(i, input)[i] == input);
    }
}

/// A contribution pays to all its added outputs, in order, and then to its change if it has one,
/// and to nothing else.
pub proof fn lemma_paid_outputs_are_outputs_and_change(contribution: FundingContributionView)
    ensures
        contribution.change_output is None ==> contribution.paid_outputs() == contribution.outputs,
        contribution.change_output matches Some(change) ==> {
            &&& contribution.paid_outputs().len() == contribution.outputs.len() + 1
            &&& contribution.paid_outputs().last() == change
        },
        forall|i: int|
            0 <= i < contribution.outputs.len() ==> contribution.paid_outputs()[i]
                == #[trigger] contribution.outputs[i],
{
}

/// A resubmission of the stored contribution reserves the address of every output that it adds and
/// of its change, and no other; it hands the stored contribution to the splice's own channel.
pub proof fn lemma_stored_resubmission_reserves_everything_paid(
    splices: Map<u128, PendingSpliceView>,
    id: UserChannelId,
    splice: PendingSpliceView,
)
    requires
        splices.contains_key(id.0),
        same_splice(splices[id.0].contribution, splice.contribution),
    ensures
        resubmission_action(splices, id, splice, None) matches RetryActionView::HandOff {
            reserve,
            channel_id,
            counterparty_node_id,
            contribution,
        } && {
            &&& contribution == splice.contribution
            &&& channel_id == splice.channel_id
            &&& counterparty_node_id == splice.counterparty_node_id
            &&& reserve matches Some(reserved) && {
                &&& reserved.len() == contribution.outputs.len() + (
                if contribution.change_output is Some {
                    1int
                } else {
                    0int
                })
                &&& forall|i: int|
                    0 <= i < contribution.outputs.len() ==> reserved[i]
                        == #[trigger] contribution.outputs[i]
                &&& contribution.change_output matches Some(change) ==> reserved.last() == change
            }
        },
{
}

/// A resubmission of a rebuilt contribution reserves nothing; it hands that contribution to the
/// splice's own channel.
pub proof fn lemma_rebuilt_resubmission_reserves_nothing(
    splices: Map<u128, PendingSpliceView>,
    id: UserChannelId,
    splice: PendingSpliceView,
    rebuilt: FundingContributionView,
)
    requires
        splices.contains_key(id.0),
        same_splice(splices[id.0].contribution, splice.contribution),
    ensures
        resubmission_action(splices, id, splice, Some(rebuilt)) == (RetryActionView::HandOff {
            reserve: None,
            channel_id: splice.channel_id,
            counterparty_node_id: splice.counterparty_node_id,
            contribution: rebuilt,
        }),
{
}

/// A resubmission happens exactly while the attempt that failed is the one held for the channel.
/// It changes the held splice in its attempts and its contribution and in nothing else, and what is
/// handed off is what is held from there on.
pub proof fn lemma_resubmission_follows_what_is_held(
    splices: Map<u128, PendingSpliceView>,
    id: UserChannelId,
    splice: PendingSpliceView,
    rebuilt: Option<FundingContributionView>,
)
    ensures
        ({
            let held = splices.contains_key(id.0) && same_splice(
                splices[id.0].contribution,
                splice.contribution,
            );
            let before = splices[id.0];
            let after = after_resubmission(splices, id, splice, rebuilt);
            let action = resubmission_action(splices, id, splice, rebuilt);
            &&& !held ==> after == splices && action == (RetryActionView::Done { surface: false })
            &&& held ==> {
                &&& after.dom() == splices.dom()
                &&& before.attempts < u8::MAX ==> after[id.0].attempts == before.attempts + 1
                &&& after[id.0].channel_id == before.channel_id
                &&& after[id.0].counterparty_node_id == before.counterparty_node_id
                &&& after[id.0].pre_splice_funding_txo == before.pre_splice_funding_txo
                &&& after[id.0].kind == before.kind
                &&& after[id.0].rejected == before.rejected
                &&& after[id.0].contribution == match rebuilt {
                    Some(contribution) => contribution,
                    None => splice.contribution,
                }
                &&& action matches RetryActionView::HandOff { contribution, .. } && contribution
                    == after[id.0].contribution
            }
        }),
{
    let after = after_resubmission(splices, id, splice, rebuilt);
    if splices.contains_key(id.0) {
        assert(splices.insert(id.0, splices[id.0]).dom() =~= splices.dom());
        assert(after.dom() =~= splices.dom());
    }
}

/// Four reasons are worth retrying, and no other.
pub proof fn lemma_retriable_reasons(reason: NegotiationFailureReason)
    ensures
        match reason {
            NegotiationFailureReason::Unknown => reason.retriable(),
            NegotiationFailureReason::PeerDisconnected => reason.retriable(),
            NegotiationFailureReason::ContributionInvalid => reason.retriable(),
            NegotiationFailureReason::FeeRateTooLow => reason.retriable(),
            NegotiationFailureReason::CounterpartyAborted { .. } => !reason.retriable(),
            NegotiationFailureReason::NegotiationError { .. } => !reason.retriable(),
            NegotiationFailureReason::LocallyCanceled => !reason.retriable(),
            NegotiationFailureReason::ChannelClosing => !reason.retriable(),
            NegotiationFailureReason::CannotInitiateRbf => !reason.retriable(),
        },
{
}

/// A splice is resubmitted three times at most. Before that, a retriable failure is retried, with a
/// fresh contribution if and only if one can be built. Any other failure is given up on, whatever
/// can be built.
pub proof fn lemma_decision_is_driven_by_reason_and_budget(
    reason: NegotiationFailureReason,
    attempts: u8,
    can_rebuild: bool,
)
    ensures
        MAX_SPLICE_ATTEMPTS == 3,
        retry_decision(reason, attempts, can_rebuild) is Abandon <==> !reason.retriable()
            || attempts >= 3,
        reason.retriable() && attempts < 3 ==> (retry_decision(
            reason,
            attempts,
            can_rebuild,
        ) is Rebuild <==> can_rebuild),
        reason.retriable() && attempts < 3 ==> (retry_decision(
            reason,
            attempts,
            can_rebuild,
        ) is ResubmitStored <==> !can_rebuild),
{
}

/// With nothing held for its channel, every retriable failure that carries its contribution is
/// adopted with that contribution, and every other failure is surfaced.
pub proof fn lemma_unknown_splice_is_adopted(
    reason: NegotiationFailureReason,
    contribution: Option<FundingContributionView>,
)
    ensures
        contribution matches Some(c) ==> (reason.retriable() ==> {
            &&& failure_class(None, reason, contribution) is Adopt
            &&& failure_action(None, reason, contribution) == (RetryActionView::ListChannels {
                contribution: c,
            })
        }),
        contribution is None || !reason.retriable() ==> {
            &&& failure_class(None, reason, contribution) is Surface
            &&& failure_action(None, reason, contribution) == (RetryActionView::Done {
                surface: true,
            })
        },
{
}

/// With a splice held for its channel, a failure of another attempt, or of none that it names, is
/// surfaced. A failure of the held attempt is consumed if the hand-off was rejected, and otherwise
/// decided by its reason, the attempts so far and the parameters at hand; it is never adopted.
pub proof fn lemma_held_splice_decides_its_failures(
    splice: PendingSpliceView,
    reason: NegotiationFailureReason,
    contribution: Option<FundingContributionView>,
)
    ensures
        ({
            let class = failure_class(Some(splice), reason, contribution);
            match contribution {
                None => class is Surface,
                Some(c) => {
                    &&& !same_splice(c, splice.contribution) ==> class is Surface
                    &&& same_splice(c, splice.contribution) ==> if splice.rejected {
                        class is Consume
                    } else {
                        class == FailureClass::Pending(
                            if !reason.retriable() || splice.attempts >= 3 {
                                RetryDecision::Abandon
                            } else if splice.kind is Some {
                                RetryDecision::Rebuild
                            } else {
                                RetryDecision::ResubmitStored
                            },
                        )
                    }
                },
            }
        }),
{
}

/// What is done first about a decided failure names the very splice, and for a rebuild its own
/// parameters; giving up surfaces the failure.
pub proof fn lemma_decision_acts_on_the_splice(splice: PendingSpliceView)
    ensures
        decision_action(splice, RetryDecision::Abandon) == (RetryActionView::Done {
            surface: true,
        }),
        decision_action(splice, RetryDecision::ResubmitStored) == (RetryActionView::ProbeChannel {
            splice,
        }),
        splice.kind matches Some(kind) ==> decision_action(splice, RetryDecision::Rebuild) == (
        RetryActionView::RebuildContribution { splice, kind }),
{
}

/// One more resubmission can be counted unless the attempt is held and its count is at its end.
pub proof fn lemma_room_for_one_more_attempt(
    splices: Map<u128, PendingSpliceView>,
    id: UserChannelId,
    splice: PendingSpliceView,
)
    ensures
        can_count(splices, id, splice) <==> !(splices.contains_key(id.0) && same_splice(
            splices[id.0].contribution,
            splice.contribution,
        ) && splices[id.0].attempts == 255),
{
}

/// Each class of failure leads to its own first step.
pub proof fn lemma_class_leads_to_action(
    splice: Option<PendingSpliceView>,
    reason: NegotiationFailureReason,
    contribution: Option<FundingContributionView>,
)
    ensures
        ({
            let class = failure_class(splice, reason, contribution);
            let action = failure_action(splice, reason, contribution);
            &&& class is Surface ==> action == (RetryActionView::Done { surface: true })
            &&& class is Consume ==> action == (RetryActionView::Done { surface: false })
            &&& class is Adopt ==> contribution is Some && action == (
            RetryActionView::ListChannels { contribution: contribution->0 })
            &&& class == FailureClass::Pending(RetryDecision::Abandon) ==> action == (
            RetryActionView::Done { surface: true })
            &&& class == FailureClass::Pending(RetryDecision::ResubmitStored) ==> splice is Some
                && action == (RetryActionView::ProbeChannel { splice: splice->0 })
            &&& class == FailureClass::Pending(RetryDecision::Rebuild) ==> splice is Some
                && splice->0.kind is Some && action == (RetryActionView::RebuildContribution {
                splice: splice->0,
                kind: splice->0.kind->0,
            })
        }),
{
}

/// A splice starts with what its call gave it, no attempt counted and not rejected.
pub proof fn lemma_fresh_splice_holds_what_it_was_given(
    channel_id: ChannelId,
    counterparty_node_id: PublicKey,
    pre_splice_funding_txo: OutPoint,
    contribution: FundingContributionView,
    kind: Option<SpliceKindView>,
)
    ensures
        ({
            let splice = fresh_splice(
                channel_id,
                counterparty_node_id,
                pre_splice_funding_txo,
                contribution,
                kind,
            );
            &&& splice.channel_id == channel_id
            &&& splice.counterparty_node_id == counterparty_node_id
            &&& splice.pre_splice_funding_txo == pre_splice_funding_txo
            &&& splice.contribution == contribution
            &&& splice.kind == kind
            &&& splice.attempts == 0
            &&& !splice.rejected
        }),
{
}

/// A splice is adopted if and only if the first listed channel with the identifier has a funding
/// output. It then belongs to the channel and the peer of the event, carries the event's
/// contribution, predates nothing but that funding output, and has neither parameters nor attempts.
pub proof fn lemma_adopted_splice_holds_the_listed_funding(
    channels: Seq<ChannelDetails>,
    i: int,
    channel_id: ChannelId,
    id: UserChannelId,
    counterparty_node_id: PublicKey,
    contribution: FundingContributionView,
)
    requires
        0 <= i < channels.len(),
        channels[i].user_channel_id == id.0,
        forall|j: int| 0 <= j < i ==> (#[trigger] channels[j]).user_channel_id != id.0,
    ensures
        ({
            let adopted = adopted_splice(
                channel_id,
                id,
                counterparty_node_id,
                contribution,
                channels,
            );
            match channels[i].funding_txo {
                None => adopted is None,
                Some(funding) => adopted matches Some(splice) && {
                    &&& splice.channel_id == channel_id
                    &&& splice.counterparty_node_id == counterparty_node_id
                    &&& splice.contribution == contribution
                    &&& splice.pre_splice_funding_txo.txid == funding.txid
                    &&& splice.pre_splice_funding_txo.vout == funding.index
                    &&& splice.kind is None
                    &&& splice.attempts == 0
                    &&& !splice.rejected
                },
            }
        }),
{
    lemma_adopts_first_listed_channel(channels, id);
    let found = channel_position(channels, id);
    assert(found == i) by {
        if found < i {
            assert(channels[found].user_channel_id != id.0);
        }
        if found > i {
            assert(channels[i].user_channel_id != id.0);
        }
    }
}

/// Where no listed channel has the identifier, nothing is adopted.
pub proof fn lemma_nothing_is_adopted_for_an_unlisted_channel(
    channels: Seq<ChannelDetails>,
    channel_id: ChannelId,
    id: UserChannelId,
    counterparty_node_id: PublicKey,
    contribution: FundingContributionView,
)
    requires
        forall|j: int| 0 <= j < channels.len() ==> (#[trigger] channels[j]).user_channel_id != id.0,
    ensures
        adopted_splice(channel_id, id, counterparty_node_id, contribution, channels) is None,
{
    lemma_adopts_first_listed_channel(channels, id);
    let found = channel_position(channels, id);
    if found < channels.len() {
        assert(channels[found].user_channel_id != id.0);
    }
}

/// Only a refusal for an unavailable channel means that the channel is gone.
pub proof fn lemma_only_an_unavailable_channel_is_gone(error: APIError)
    ensures
        !channel_gone(Ok(())),
        match error {
            APIError::ChannelUnavailable { .. } => channel_gone(Err(error)),
            APIError::APIMisuseError { .. } => !channel_gone(Err(error)),
            APIError::FeeRateTooHigh { .. } => !channel_gone(Err(error)),
            APIError::InvalidRoute { .. } => !channel_gone(Err(error)),
            APIError::MonitorUpdateInProgress => !channel_gone(Err(error)),
            APIError::IncompatibleShutdownScript { .. } => !channel_gone(Err(error)),
        },
{
}

/// What is held for a channel is what stands under its identifier, and the attempt that a
/// contribution belongs to is held if and only if the contribution there is of the same attempt.
pub proof fn lemma_held_means_under_the_identifier(
    splices: Map<u128, PendingSpliceView>,
    id: UserChannelId,
    contribution: FundingContributionView,
)
    ensures
        splices.contains_key(id.0) ==> registered(splices, id) == Some(splices[id.0]),
        !splices.contains_key(id.0) ==> registered(splices, id) is None,
        still_holds(splices, id, contribution) <==> splices.contains_key(id.0) && same_splice(
            splices[id.0].contribution,
            contribution,
        ),
{
}

/// A locked funding takes away what is held for its channel if that was started on another funding
/// output, in the transaction or the index, and nothing else.
pub proof fn lemma_lock_takes_away_one_splice_at_most(
    splices: Map<u128, PendingSpliceView>,
    id: UserChannelId,
    locked: OutPoint,
    key: u128,
)
    ensures
        after_lock(splices, id, locked).contains_key(key) <==> splices.contains_key(key) && (key
            == id.0 ==> splices[key].pre_splice_funding_txo.txid == locked.txid
            && splices[key].pre_splice_funding_txo.vout == locked.vout),
        after_lock(splices, id, locked).contains_key(key) ==> after_lock(splices, id, locked)[key]
            == splices[key],
{
}

/// The feerate of a rebuilt contribution is the least one that is no less than the estimate and,
/// where the maximum allows it, no less than what replaces a pending splice.
pub proof fn lemma_feerate_is_the_least_sufficient(
    est_feerate: u64,
    max_feerate: u64,
    min_rbf_feerate: Option<u64>,
    other: u64,
)
    requires
        other >= est_feerate,
        min_rbf_feerate matches Some(min) ==> (min <= max_feerate ==> other >= min),
    ensures
        splice_feerate(est_feerate, max_feerate, min_rbf_feerate) <= other,
{
}

/// A rebuild asks for exactly what the originating call asked for: the same amount to add, or the
/// same outputs to pay, whatever the feerates are. It pays the given feerate and accepts at most the
/// given maximum.
pub proof fn lemma_rebuild_asks_for_the_same(kind: SpliceKindView, feerate: u64, max_feerate: u64)
    ensures
        kind matches SpliceKindView::In { amount_sats } ==> (contribution_request(
            kind,
            feerate,
            max_feerate,
        ) matches ContributionRequestView::SpliceIn {
            amount_sats: amount,
            feerate: paid,
            max_feerate: most,
        } && amount == amount_sats && paid == feerate && most == max_feerate),
        kind matches SpliceKindView::Out { outputs } ==> (contribution_request(
            kind,
            feerate,
            max_feerate,
        ) matches ContributionRequestView::SpliceOut {
            outputs: paid_to,
            feerate: paid,
            max_feerate: most,
        } && paid_to == outputs && paid == feerate && most == max_feerate),
        kind is Rbf ==> (contribution_request(
            kind,
            feerate,
            max_feerate,
        ) matches ContributionRequestView::RbfPrior { max_feerate: most } && most == max_feerate),
{
}

/// A view of an output or of a list of outputs keeps every amount and every script.
pub proof fn lemma_output_views_keep_everything(output: TxOut, outputs: Seq<TxOut>)
    ensures
        output@.value_sats == output.value_sats,
        output@.script_pubkey == output.script_pubkey@,
        tx_outs(outputs).len() == outputs.len(),
        forall|i: int|
            0 <= i < outputs.len() ==> (#[trigger] tx_outs(outputs)[i]).value_sats
                == outputs[i].value_sats && tx_outs(outputs)[i].script_pubkey
                == outputs[i].script_pubkey@,
        opt_tx_out(Some(output)) == Some(output@),
        opt_tx_out(None) is None,
{
}

/// A view of a contribution keeps its inputs, its outputs, its change and its encoding.
pub proof fn lemma_contribution_view_keeps_everything(contribution: FundingContribution)
    ensures
        contribution@.inputs == contribution.inputs@,
        contribution@.outputs.len() == contribution.outputs.len(),
        forall|i: int|
            0 <= i < contribution.outputs.len() ==> (#[trigger] contribution@.outputs[i])
                == contribution.outputs[i]@,
        contribution.change_output matches Some(change) ==> contribution@.change_output == Some(
            change@,
        ),
        contribution.change_output is None ==> contribution@.change_output is None,
        contribution@.encoding == contribution.encoding@,
        opt_contribution(Some(contribution)) == Some(contribution@),
        opt_contribution(None) is None,
        opt_contribution_ref(Some(&contribution)) == Some(contribution@),
        opt_contribution_ref(None) is None,
        rebuilt_contribution(Ok(contribution)) == Some(contribution@),
        rebuilt_contribution(Err(Error::ChannelSplicingFailed)) is None,
{
}

/// A view of a splice keeps all of it.
pub proof fn lemma_splice_view_keeps_everything(splice: PendingSplice, kind: SpliceKind)
    ensures
        splice@.channel_id == splice.channel_id,
        splice@.counterparty_node_id == splice.counterparty_node_id,
        splice@.pre_splice_funding_txo == splice.pre_splice_funding_txo,
        splice@.contribution == splice.contribution@,
        splice.kind matches Some(kind) ==> splice@.kind == Some(kind@),
        splice.kind is None ==> splice@.kind is None,
        splice@.attempts == splice.attempts,
        splice@.rejected == splice.rejected,
        opt_splice(Some(splice)) == Some(splice@),
        opt_splice(None) is None,
        opt_splice_ref(Some(&splice)) == Some(splice@),
        opt_splice_ref(None) is None,
        kind matches SpliceKind::In { amount_sats } ==> kind@ == (SpliceKindView::In {
            amount_sats,
        }),
        kind matches SpliceKind::Out { outputs } ==> (kind@ matches SpliceKindView::Out {
            outputs: paid_to,
        } && paid_to == tx_outs(outputs@)),
        kind is Rbf ==> kind@ is Rbf,
{
}

/// A view of an action keeps all of it.
pub proof fn lemma_action_view_keeps_everything(action: RetryAction, request: ContributionRequest)
    ensures
        match action {
            RetryAction::Done { surface } => action@ == (RetryActionView::Done { surface }),
            RetryAction::ListChannels { contribution } => action@ == (
            RetryActionView::ListChannels { contribution: contribution@ }),
            RetryAction::ProbeChannel { splice } => action@ == (RetryActionView::ProbeChannel {
                splice: splice@,
            }),
            RetryAction::RebuildContribution { splice, kind } => action@ == (
            RetryActionView::RebuildContribution { splice: splice@, kind: kind@ }),
            RetryAction::HandOff { reserve, channel_id, counterparty_node_id, contribution } => {
                &&& action@ is HandOff
                &&& action@->channel_id == channel_id
                &&& action@->counterparty_node_id == counterparty_node_id
                &&& action@->HandOff_contribution == contribution@
                &&& reserve is None ==> action@->reserve is None
                &&& reserve matches Some(outputs) ==> action@->reserve == Some(tx_outs(outputs@))
            },
        },
        match request {
            ContributionRequest::SpliceIn { amount_sats, feerate, max_feerate } => request@ == (
            ContributionRequestView::SpliceIn { amount_sats, feerate, max_feerate }),
            ContributionRequest::SpliceOut { outputs, feerate, max_feerate } => request@ == (
            ContributionRequestView::SpliceOut { outputs: tx_outs(outputs@), feerate, max_feerate }),
            ContributionRequest::RbfPrior { max_feerate } => request@ == (
            ContributionRequestView::RbfPrior { max_feerate }),
        },
{
}

} // verus!
