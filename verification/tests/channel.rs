use bitcoin::secp256k1::PublicKey as Key;
use ldk_node::channel::contribution::{is_same_splice, FundingContribution};
use ldk_node::channel::error::{APIError, Error};
use ldk_node::channel::failure::NegotiationFailureReason::{
    CannotInitiateRbf, ChannelClosing, ContributionInvalid, CounterpartyAborted, FeeRateTooLow,
    LocallyCanceled, NegotiationError, PeerDisconnected, Unknown,
};
use ldk_node::channel::failure::{
    classify_failure, decide_retry, FailureClass, RetryDecision, MAX_SPLICE_ATTEMPTS,
};
use ldk_node::channel::pending::{PendingSplice, SpliceKind};
use ldk_node::channel::rebuild::{ContributionRequest, FundingTemplate};
use ldk_node::channel::registry::SpliceRegistry;
use ldk_node::channel::retrier::{ChannelDetails, RetryAction, SpliceRetrier};
use ldk_node::payment::tlv::{write_struct, Record};
use ldk_node::primitives::{ChannelId, FundingOutPoint, OutPoint, PublicKey, TxOut, UserChannelId};
use lightning::util::ser::Writeable;
use lightning::util::wallet_utils::ConfirmedUtxo;
use std::str::FromStr;

fn encoded_contribution(
    feerate: u64, inputs: &[ConfirmedUtxo], outputs: &[bitcoin::TxOut],
    change: Option<&bitcoin::TxOut>,
) -> Vec<u8> {
    let mut records = vec![Record { typ: 1, value: 0u64.encode() }];
    if !inputs.is_empty() {
        let value = inputs.iter().flat_map(|i| i.encode()).collect();
        records.push(Record { typ: 3, value });
    }
    if !outputs.is_empty() {
        let value = outputs.iter().flat_map(|o| o.encode()).collect();
        records.push(Record { typ: 5, value });
    }
    if let Some(change) = change {
        records.push(Record { typ: 7, value: change.encode() });
    }
    records.push(Record { typ: 9, value: feerate.encode() });
    records.push(Record { typ: 11, value: 10_000u64.encode() });
    records.push(Record { typ: 13, value: vec![1] });
    write_struct(&records)
}

fn test_funding_contribution_with_outputs(
    feerate: u64, outputs: &[bitcoin::TxOut],
) -> FundingContribution {
    FundingContribution::read(&encoded_contribution(feerate, &[], outputs, None)).unwrap()
}

fn test_funding_contribution_with_feerate(feerate: u64) -> FundingContribution {
    test_funding_contribution_with_outputs(feerate, &[])
}

fn test_funding_contribution() -> FundingContribution {
    test_funding_contribution_with_feerate(253)
}

fn node_id() -> PublicKey {
    let key =
        Key::from_str("0279be667ef9dcbbac55a06295ce870b07029bfcdb2dce28d959f2815b16f81798").unwrap();
    PublicKey::from_bytes(key.serialize()).unwrap()
}

fn test_splice(contribution: FundingContribution) -> PendingSplice {
    PendingSplice {
        channel_id: ChannelId([7u8; 32]),
        counterparty_node_id: node_id(),
        pre_splice_funding_txo: OutPoint { txid: [3u8; 32], vout: 0 },
        contribution,
        kind: Some(SpliceKind::In { amount_sats: 10_000 }),
        attempts: 0,
        rejected: false,
    }
}

fn bitcoin_output(sats: u64, script: Vec<u8>) -> bitcoin::TxOut {
    bitcoin::TxOut {
        value: bitcoin::Amount::from_sat(sats),
        script_pubkey: bitcoin::ScriptBuf::from_bytes(script),
    }
}

#[test]
fn decide_retry_matrix() {
    // A non-retriable reason gives up regardless of attempts or available parameters.
    assert_eq!(decide_retry(&LocallyCanceled, 0, true), RetryDecision::Abandon);
    // Retriable, but the resubmission budget is exhausted -> give up.
    assert_eq!(
        decide_retry(&PeerDisconnected, MAX_SPLICE_ATTEMPTS, true),
        RetryDecision::Abandon
    );
    // The originating parameters are available: rebuild at current fee rates.
    assert_eq!(decide_retry(&PeerDisconnected, 0, true), RetryDecision::Rebuild);
    assert_eq!(
        decide_retry(&FeeRateTooLow, MAX_SPLICE_ATTEMPTS - 1, true),
        RetryDecision::Rebuild
    );
    // No originating parameters (adopted from a replayed event): resubmitting the stored
    // contribution is all that is possible.
    assert_eq!(decide_retry(&Unknown, 0, false), RetryDecision::ResubmitStored);
    assert_eq!(decide_retry(&ContributionInvalid, 0, false), RetryDecision::ResubmitStored);
}

#[test]
fn only_four_reasons_are_retried() {
    for reason in [Unknown, PeerDisconnected, ContributionInvalid, FeeRateTooLow] {
        assert_eq!(decide_retry(&reason, 0, true), RetryDecision::Rebuild);
    }
    for reason in [
        CounterpartyAborted { msg: String::from("no") },
        NegotiationError { msg: String::from("no") },
        LocallyCanceled,
        ChannelClosing,
        CannotInitiateRbf,
    ] {
        assert_eq!(decide_retry(&reason, 0, true), RetryDecision::Abandon);
    }
}

#[test]
fn classify_failure_matrix() {
    let pending = test_splice(test_funding_contribution());
    let failed = pending.contribution.clone();

    // The tracked splice failed and its originating parameters are available: rebuild.
    assert_eq!(
        classify_failure(Some(&pending), &PeerDisconnected, Some(&failed)),
        FailureClass::Pending(RetryDecision::Rebuild),
    );
    // A splice adopted from a replayed event has no originating parameters: resubmitting the
    // stored contribution is all that is possible, whatever the retriable reason.
    let mut adopted = pending.clone();
    adopted.kind = None;
    assert_eq!(
        classify_failure(Some(&adopted), &PeerDisconnected, Some(&failed)),
        FailureClass::Pending(RetryDecision::ResubmitStored),
    );
    assert_eq!(
        classify_failure(Some(&adopted), &FeeRateTooLow, Some(&failed)),
        FailureClass::Pending(RetryDecision::ResubmitStored),
    );
    // The failure concerns some other attempt (a stale event replayed after a newer splice
    // was initiated): surface it.
    let stale = test_funding_contribution_with_feerate(500);
    assert_eq!(
        classify_failure(Some(&pending), &PeerDisconnected, Some(&stale)),
        FailureClass::Surface,
    );
    assert_eq!(classify_failure(Some(&pending), &PeerDisconnected, None), FailureClass::Surface);

    // Nothing tracked, but the failure is recoverable and carries a resubmittable
    // contribution (a failure event replayed after a restart): adopt it.
    assert_eq!(classify_failure(None, &PeerDisconnected, Some(&failed)), FailureClass::Adopt);
    // Nothing tracked and no way to retry: surface.
    assert_eq!(classify_failure(None, &LocallyCanceled, Some(&failed)), FailureClass::Surface);
    assert_eq!(classify_failure(None, &PeerDisconnected, None), FailureClass::Surface);
}

#[test]
fn a_rejected_hand_off_consumes_its_failure_event() {
    let mut rejected = test_splice(test_funding_contribution());
    rejected.rejected = true;
    let failed = rejected.contribution.clone();

    // The originating call already surfaced the rejection: its failure event is dropped.
    assert_eq!(
        classify_failure(Some(&rejected), &PeerDisconnected, Some(&failed)),
        FailureClass::Consume,
    );
    // A failure for some other attempt still surfaces.
    let other = test_funding_contribution_with_feerate(500);
    assert_eq!(
        classify_failure(Some(&rejected), &PeerDisconnected, Some(&other)),
        FailureClass::Surface,
    );
}

#[test]
fn contributions_match_by_inputs_and_outputs() {
    let outputs = vec![bitcoin_output(1_000, Vec::new())];
    // Fee fields differ, inputs and outputs agree: the same attempt.
    let a = test_funding_contribution_with_outputs(253, &outputs);
    let b = test_funding_contribution_with_outputs(500, &outputs);
    assert!(is_same_splice(&a, &b));

    // Different outputs are a different attempt.
    let other = vec![bitcoin_output(2_000, Vec::new())];
    assert!(!is_same_splice(&a, &test_funding_contribution_with_outputs(253, &other)));

    // Contributions moving nothing (no inputs, no outputs) only match themselves exactly.
    assert!(is_same_splice(&test_funding_contribution(), &test_funding_contribution()));
    assert!(!is_same_splice(
        &test_funding_contribution(),
        &test_funding_contribution_with_feerate(500)
    ));
}

#[test]
fn an_ldk_adjusted_copy_still_matches_the_tracked_splice() {
    // A contribution may be adjusted during negotiation — the quiescence tie-breaker rebuilds
    // the acceptor's copy at a fresh feerate, touching only its fee fields and change value —
    // and the failure event then carries the adjusted copy. It still identifies the tracked
    // splice: the inputs and outputs the user asked to move are untouched.
    let outputs = vec![bitcoin_output(1_000, Vec::new())];
    let pending = test_splice(test_funding_contribution_with_outputs(253, &outputs));
    let adjusted = test_funding_contribution_with_outputs(500, &outputs);
    assert_ne!(pending.contribution, adjusted);
    assert_eq!(
        classify_failure(Some(&pending), &PeerDisconnected, Some(&adjusted)),
        FailureClass::Pending(RetryDecision::Rebuild),
    );
}

#[test]
fn a_newer_splice_supersedes_the_tracked_one() {
    let mut registry = SpliceRegistry::default();
    let user_channel_id = UserChannelId(1);
    registry.register(user_channel_id, test_splice(test_funding_contribution()));
    let newer = test_splice(test_funding_contribution_with_feerate(500));
    registry.register(user_channel_id, newer.clone());
    assert_eq!(registry.get(user_channel_id), Some(newer));
}

#[test]
fn unregister_leaves_a_newer_splice_tracked() {
    let mut registry = SpliceRegistry::default();
    let user_channel_id = UserChannelId(1);
    let failed = test_splice(test_funding_contribution());
    let newer = test_splice(test_funding_contribution_with_feerate(500));
    registry.register(user_channel_id, newer.clone());

    // The failed splice was already superseded: its undo must not drop the newer one.
    registry.unregister(user_channel_id, &failed.contribution);
    assert_eq!(registry.get(user_channel_id), Some(newer.clone()));

    registry.unregister(user_channel_id, &newer.contribution);
    assert_eq!(registry.get(user_channel_id), None);
}

#[test]
fn record_attempt_bumps_only_the_splice_that_failed() {
    let mut registry = SpliceRegistry::default();
    let user_channel_id = UserChannelId(1);
    let prior = test_funding_contribution();

    // Nothing tracked: the splice moved on, nothing to resubmit.
    assert!(!registry.record_attempt(user_channel_id, &prior, prior.clone()));

    registry.register(user_channel_id, test_splice(prior.clone()));
    let rebuilt = test_funding_contribution_with_feerate(500);
    assert!(registry.record_attempt(user_channel_id, &prior, rebuilt.clone()));
    let pending = registry.get(user_channel_id).unwrap();
    assert_eq!(pending.attempts, 1);
    assert_eq!(pending.contribution, rebuilt);

    // The tracked contribution no longer matches the failed one: superseded, don't resubmit.
    assert!(!registry.record_attempt(user_channel_id, &prior, prior.clone()));
}

#[test]
fn a_locked_funding_clears_only_a_predating_splice() {
    let mut registry = SpliceRegistry::default();
    let user_channel_id = UserChannelId(1);
    let splice = test_splice(test_funding_contribution());
    registry.register(user_channel_id, splice.clone());

    // The tracked splice was created after this lock — its pre-splice outpoint is the newly
    // locked funding — so it is still pending.
    registry.clear_if_obsoleted(user_channel_id, splice.pre_splice_funding_txo);
    assert!(registry.get(user_channel_id).is_some());

    // A different outpoint locked: the tracked splice (or a replacement) completed.
    let locked = OutPoint { txid: [9u8; 32], vout: 1 };
    registry.clear_if_obsoleted(user_channel_id, locked);
    assert!(registry.get(user_channel_id).is_none());
}

#[test]
fn a_closed_channel_clears_its_splice() {
    let mut registry = SpliceRegistry::default();
    let user_channel_id = UserChannelId(1);
    registry.register(user_channel_id, test_splice(test_funding_contribution()));
    registry.clear(user_channel_id);
    assert!(registry.get(user_channel_id).is_none());
}

#[test]
fn other_channels_keep_their_splices() {
    let mut registry = SpliceRegistry::default();
    let splice = test_splice(test_funding_contribution());
    let other = test_splice(test_funding_contribution_with_feerate(500));
    registry.register(UserChannelId(1), splice.clone());
    registry.register(UserChannelId(2), other.clone());
    assert!(registry.record_attempt(
        UserChannelId(1),
        &splice.contribution,
        splice.contribution.clone()
    ));
    registry.clear(UserChannelId(1));
    assert_eq!(registry.get(UserChannelId(2)), Some(other));
}

#[test]
fn a_contribution_is_read_with_all_its_parts() {
    let script = bitcoin::ScriptBuf::from_bytes([vec![0x00, 0x14], vec![5; 20]].concat());
    let prevtx = bitcoin::Transaction {
        version: bitcoin::transaction::Version::TWO,
        lock_time: bitcoin::absolute::LockTime::ZERO,
        input: Vec::new(),
        output: vec![bitcoin_output(1, Vec::new()), bitcoin_output(50_000, script.to_bytes())],
    };
    let txid = bitcoin::hashes::Hash::to_byte_array(prevtx.compute_txid());
    let input = ConfirmedUtxo::new_p2wpkh(prevtx, 1).unwrap();
    let output = bitcoin_output(20_000, vec![0x51]);
    let change = bitcoin_output(29_000, vec![0x52, 0x53]);
    let encoding = encoded_contribution(253, &[input], &[output], Some(&change));

    let contribution = FundingContribution::read(&encoding).unwrap();
    assert_eq!(contribution.inputs, vec![OutPoint { txid, vout: 1 }]);
    assert_eq!(
        contribution.outputs,
        vec![TxOut { value_sats: 20_000, script_pubkey: vec![0x51] }]
    );
    assert_eq!(
        contribution.change_output,
        Some(TxOut { value_sats: 29_000, script_pubkey: vec![0x52, 0x53] })
    );
    assert_eq!(contribution.encoding, encoding);
    assert_eq!(
        contribution.paid_outputs(),
        vec![
            TxOut { value_sats: 20_000, script_pubkey: vec![0x51] },
            TxOut { value_sats: 29_000, script_pubkey: vec![0x52, 0x53] },
        ]
    );
    assert_eq!(FundingContribution::read(&contribution.encoding), Some(contribution));
}

#[test]
fn what_a_contribution_does_not_need_is_dropped() {
    // An unknown record of an odd type and bytes behind the contribution are not kept.
    let encoding = test_funding_contribution().encoding;
    let mut longer = encoding.clone();
    longer[0] += 3;
    longer.extend([17, 1, 99]);
    longer.extend([1, 2, 3]);
    assert_eq!(FundingContribution::read(&longer).unwrap().encoding, encoding);
}

#[test]
fn malformed_contributions_are_refused() {
    assert_eq!(FundingContribution::read(&vec![]), None);
    assert_eq!(FundingContribution::read(&vec![0]), None);
    let mut short = test_funding_contribution().encoding;
    short.pop();
    assert_eq!(FundingContribution::read(&short), None);
}

#[test]
fn contributions_with_other_inputs_do_not_match() {
    let a = FundingContribution {
        inputs: vec![OutPoint { txid: [1; 32], vout: 0 }],
        outputs: vec![],
        change_output: None,
        encoding: vec![1],
    };
    let mut b = a.clone();
    b.encoding = vec![2];
    b.change_output = Some(TxOut { value_sats: 7, script_pubkey: vec![] });
    assert!(is_same_splice(&a, &b));
    assert!(is_same_splice(&b, &a));
    b.inputs[0].vout = 1;
    assert!(!is_same_splice(&a, &b));
    b.inputs.clear();
    assert!(!is_same_splice(&a, &b));
}

fn submit(retrier: &mut SpliceRetrier, contribution: FundingContribution) -> PendingSplice {
    retrier.submit(
        UserChannelId(1),
        node_id(),
        ChannelId([7u8; 32]),
        OutPoint { txid: [3u8; 32], vout: 0 },
        contribution,
        SpliceKind::In { amount_sats: 10_000 },
    )
}

fn unavailable() -> APIError {
    APIError::ChannelUnavailable { err: String::from("gone") }
}

fn misuse() -> APIError {
    APIError::APIMisuseError { err: String::from("busy") }
}

#[test]
fn an_accepted_submission_stays_tracked() {
    let mut retrier = SpliceRetrier::new();
    assert_eq!(retrier.get(UserChannelId(1)), None);
    let splice = submit(&mut retrier, test_funding_contribution());
    assert_eq!(splice, test_splice(test_funding_contribution()));
    assert_eq!(retrier.finish_submit(UserChannelId(1), splice.clone(), Ok(())), Ok(()));
    assert_eq!(retrier.get(UserChannelId(1)), Some(splice));
}

#[test]
fn a_rejected_submission_is_reported_once() {
    let mut retrier = SpliceRetrier::new();
    let splice = submit(&mut retrier, test_funding_contribution());
    assert_eq!(
        retrier.finish_submit(UserChannelId(1), splice, Err(misuse())),
        Err(misuse())
    );
    assert!(retrier.get(UserChannelId(1)).unwrap().rejected);
    for reason in [PeerDisconnected, LocallyCanceled] {
        assert_eq!(
            retrier.on_negotiation_failed(
                UserChannelId(1),
                &reason,
                Some(test_funding_contribution())
            ),
            RetryAction::Done { surface: false },
        );
    }
}

#[test]
fn a_recoverable_failure_is_rebuilt_until_the_budget_is_used_up() {
    let mut retrier = SpliceRetrier::new();
    submit(&mut retrier, test_funding_contribution());
    let mut failed = test_funding_contribution();
    for attempt in 0..MAX_SPLICE_ATTEMPTS {
        let action =
            retrier.on_negotiation_failed(UserChannelId(1), &PeerDisconnected, Some(failed.clone()));
        let splice = match action {
            RetryAction::RebuildContribution { splice, kind } => {
                assert_eq!(kind, SpliceKind::In { amount_sats: 10_000 });
                splice
            },
            action => panic!("unexpected {:?}", action),
        };
        assert_eq!(splice.attempts, attempt);
        let rebuilt = test_funding_contribution_with_feerate(500 + attempt as u64);
        assert_eq!(
            retrier.on_contribution_rebuilt(UserChannelId(1), splice, Ok(rebuilt.clone())),
            RetryAction::HandOff {
                reserve: None,
                channel_id: ChannelId([7u8; 32]),
                counterparty_node_id: node_id(),
                contribution: rebuilt.clone(),
            },
        );
        assert!(!SpliceRetrier::on_handed_off(&Ok(())));
        failed = rebuilt;
    }
    let before = retrier.get(UserChannelId(1));
    assert!(retrier.can_resubmit(UserChannelId(1), before.as_ref().unwrap()));
    for _ in 0..2 {
        // A replay of the event that was given up on is given up on again.
        assert_eq!(
            retrier.on_negotiation_failed(
                UserChannelId(1),
                &PeerDisconnected,
                Some(failed.clone())
            ),
            RetryAction::Done { surface: true },
        );
        assert_eq!(retrier.get(UserChannelId(1)), before);
    }
    assert_eq!(before.unwrap().attempts, MAX_SPLICE_ATTEMPTS);
}

#[test]
fn a_failed_rebuild_falls_back_to_the_stored_contribution() {
    let mut retrier = SpliceRetrier::new();
    let outputs = [bitcoin_output(1_000, vec![0x51])];
    let change = bitcoin_output(5, vec![0x52]);
    let encoding = encoded_contribution(253, &[], &outputs, Some(&change));
    let contribution = FundingContribution::read(&encoding).unwrap();
    let splice = submit(&mut retrier, contribution.clone());
    assert_eq!(
        retrier.on_contribution_rebuilt(
            UserChannelId(1),
            splice,
            Err(Error::ChannelSplicingFailed)
        ),
        RetryAction::HandOff {
            reserve: Some(vec![
                TxOut { value_sats: 1_000, script_pubkey: vec![0x51] },
                TxOut { value_sats: 5, script_pubkey: vec![0x52] },
            ]),
            channel_id: ChannelId([7u8; 32]),
            counterparty_node_id: node_id(),
            contribution,
        },
    );
    assert_eq!(retrier.get(UserChannelId(1)).unwrap().attempts, 1);
}

#[test]
fn the_count_of_attempts_is_limited() {
    let mut retrier = SpliceRetrier::new();
    let splice = submit(&mut retrier, test_funding_contribution());
    for _ in 0..u8::MAX {
        assert!(retrier.can_resubmit(UserChannelId(1), &splice));
        retrier.resubmit(UserChannelId(1), splice.clone(), None);
    }
    assert!(!retrier.can_resubmit(UserChannelId(1), &splice));
    // Other attempts and other channels are not concerned.
    let other = test_splice(test_funding_contribution_with_feerate(500));
    assert!(retrier.can_resubmit(UserChannelId(1), &other));
    assert!(retrier.can_resubmit(UserChannelId(2), &splice));
}

#[test]
fn a_splice_that_moved_on_is_not_resubmitted() {
    let mut retrier = SpliceRetrier::new();
    let splice = submit(&mut retrier, test_funding_contribution());
    let newer = submit(&mut retrier, test_funding_contribution_with_feerate(500));
    let done = RetryAction::Done { surface: false };
    assert_eq!(retrier.resubmit(UserChannelId(1), splice.clone(), None), done);
    assert_eq!(retrier.get(UserChannelId(1)), Some(newer.clone()));

    retrier.on_channel_ready(UserChannelId(1), None);
    assert!(retrier.get(UserChannelId(1)).is_some());
    retrier.on_channel_ready(UserChannelId(1), Some(OutPoint { txid: [3u8; 32], vout: 0 }));
    assert!(retrier.get(UserChannelId(1)).is_some());
    retrier.on_channel_ready(UserChannelId(1), Some(OutPoint { txid: [3u8; 32], vout: 1 }));
    assert_eq!(retrier.get(UserChannelId(1)), None);
    assert_eq!(retrier.resubmit(UserChannelId(1), newer.clone(), None), done);

    submit(&mut retrier, test_funding_contribution());
    retrier.on_channel_closed(UserChannelId(1));
    assert_eq!(retrier.get(UserChannelId(1)), None);
    assert_eq!(retrier.resubmit(UserChannelId(1), splice, None), done);
}

#[test]
fn a_replayed_failure_is_adopted_and_resubmitted() {
    let mut retrier = SpliceRetrier::new();
    let contribution = test_funding_contribution();
    let id = UserChannelId(1);
    assert_eq!(
        retrier.on_negotiation_failed(id, &PeerDisconnected, Some(contribution.clone())),
        RetryAction::ListChannels { contribution: contribution.clone() },
    );
    let listed = |user_channel_id: u128, index: u16| ChannelDetails {
        user_channel_id,
        funding_txo: Some(FundingOutPoint { txid: [4; 32], index }),
    };
    let channels = vec![listed(9, 1), listed(1, 2), listed(1, 3)];
    let adopted = PendingSplice {
        channel_id: ChannelId([7u8; 32]),
        counterparty_node_id: node_id(),
        pre_splice_funding_txo: OutPoint { txid: [4; 32], vout: 2 },
        contribution: contribution.clone(),
        kind: None,
        attempts: 0,
        rejected: false,
    };
    assert_eq!(
        retrier.on_channels_listed(
            ChannelId([7u8; 32]),
            id,
            node_id(),
            &PeerDisconnected,
            contribution.clone(),
            &channels
        ),
        RetryAction::ProbeChannel { splice: adopted.clone() },
    );
    assert_eq!(retrier.get(id), Some(adopted.clone()));
    assert_eq!(
        retrier.on_channel_probed(id, adopted.clone(), &Ok(())),
        RetryAction::HandOff {
            reserve: Some(vec![]),
            channel_id: ChannelId([7u8; 32]),
            counterparty_node_id: node_id(),
            contribution: contribution.clone(),
        },
    );
    assert_eq!(retrier.get(id).unwrap().attempts, 1);
    // The next failure of the adopted splice is not adopted afresh.
    match retrier.on_negotiation_failed(id, &PeerDisconnected, Some(contribution)) {
        RetryAction::ProbeChannel { splice } => assert_eq!(splice.attempts, 1),
        action => panic!("unexpected {:?}", action),
    }
}

#[test]
fn nothing_is_adopted_for_a_channel_that_is_gone_or_not_funded() {
    let contribution = test_funding_contribution();
    let unfunded = ChannelDetails { user_channel_id: 1, funding_txo: None };
    let other = ChannelDetails {
        user_channel_id: 2,
        funding_txo: Some(FundingOutPoint { txid: [4; 32], index: 0 }),
    };
    for channels in [vec![], vec![other], vec![other, unfunded]] {
        let mut retrier = SpliceRetrier::new();
        assert_eq!(
            retrier.on_channels_listed(
                ChannelId([7u8; 32]),
                UserChannelId(1),
                node_id(),
                &PeerDisconnected,
                contribution.clone(),
                &channels
            ),
            RetryAction::Done { surface: true },
        );
        assert_eq!(retrier.get(UserChannelId(1)), None);
    }
}

#[test]
fn a_channel_that_refuses_the_probe_is_given_up_on() {
    let mut retrier = SpliceRetrier::new();
    let splice = submit(&mut retrier, test_funding_contribution());
    assert_eq!(
        retrier.on_channel_probed(UserChannelId(1), splice.clone(), &Err(misuse())),
        RetryAction::Done { surface: true },
    );
    assert_eq!(retrier.get(UserChannelId(1)), Some(splice));
}

#[test]
fn only_an_unavailable_channel_surfaces_a_refused_hand_off() {
    assert!(SpliceRetrier::on_handed_off(&Err(unavailable())));
    for refusal in [
        misuse(),
        APIError::FeeRateTooHigh { err: String::new(), feerate: 1 },
        APIError::InvalidRoute { err: String::new() },
        APIError::MonitorUpdateInProgress,
        APIError::IncompatibleShutdownScript { script: vec![] },
    ] {
        assert!(!SpliceRetrier::on_handed_off(&Err(refusal)));
    }
}

#[test]
fn a_rebuild_pays_what_it_takes_to_replace_a_pending_splice() {
    let feerate = |min_rbf_feerate: Option<u64>| {
        let template = Ok(FundingTemplate { min_rbf_feerate });
        let kind = SpliceKind::In { amount_sats: 5 };
        match SpliceRetrier::rebuild_contribution(&template, 300, 1_000, &kind) {
            Ok(ContributionRequest::SpliceIn { amount_sats: 5, feerate, max_feerate: 1_000 }) => {
                feerate
            },
            request => panic!("unexpected {:?}", request),
        }
    };
    assert_eq!(feerate(None), 300);
    assert_eq!(feerate(Some(299)), 300);
    assert_eq!(feerate(Some(301)), 301);
    assert_eq!(feerate(Some(1_000)), 1_000);
    assert_eq!(feerate(Some(1_001)), 300);
}

#[test]
fn a_rebuild_follows_the_originating_parameters() {
    let template = Ok(FundingTemplate { min_rbf_feerate: Some(400) });
    let outputs = vec![TxOut { value_sats: 3, script_pubkey: vec![0x51] }];
    assert_eq!(
        SpliceRetrier::rebuild_contribution(&template, 300, 1_000, &SpliceKind::Out { outputs: outputs.clone() }),
        Ok(ContributionRequest::SpliceOut { outputs, feerate: 400, max_feerate: 1_000 }),
    );
    assert_eq!(
        SpliceRetrier::rebuild_contribution(&template, 300, 1_000, &SpliceKind::Rbf {}),
        Ok(ContributionRequest::RbfPrior { max_feerate: 1_000 }),
    );
    assert_eq!(
        SpliceRetrier::rebuild_contribution(&Err(unavailable()), 300, 1_000, &SpliceKind::Rbf {}),
        Err(Error::ChannelSplicingFailed),
    );
    assert_eq!(SpliceRetrier::finish_rebuild(None), Err(Error::ChannelSplicingFailed));
    let built = test_funding_contribution();
    assert_eq!(SpliceRetrier::finish_rebuild(Some(built.clone())), Ok(built));
}

#[test]
fn a_failure_that_retrying_cannot_address_is_surfaced() {
    let mut retrier = SpliceRetrier::new();
    let surfaced = RetryAction::Done { surface: true };
    let contribution = test_funding_contribution();
    let id = UserChannelId(1);
    assert_eq!(
        retrier.on_negotiation_failed(id, &ChannelClosing, Some(contribution.clone())),
        surfaced
    );
    submit(&mut retrier, contribution.clone());
    assert_eq!(retrier.on_negotiation_failed(id, &ChannelClosing, Some(contribution)), surfaced);
    assert_eq!(retrier.on_negotiation_failed(id, &PeerDisconnected, None), surfaced);
}
