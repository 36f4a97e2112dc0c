use bdk_chain::indexer::keychain_txout;
use bdk_chain::{local_chain, tx_graph, BlockId, ConfirmationBlockTime, DescriptorId};
use bdk_wallet::locked_outpoints;
use bitcoin::{absolute, transaction, Amount, BlockHash, OutPoint, ScriptBuf, Transaction, TxOut, Txid};
use ldk_node::wallet::bdk::caches_agree;
use ldk_node::wallet::change_set::{Network, WalletChangeSet};
use ldk_node::wallet::persist::{
    InitializeAction, KVStoreWalletPersister, PersistAction, PersistError,
};
use std::collections::BTreeMap;
use std::sync::Arc;

fn descriptor_id(byte: u8) -> DescriptorId {
    bitcoin::hashes::Hash::from_byte_array([byte; 32])
}

fn txid(byte: u8) -> Txid {
    bitcoin::hashes::Hash::from_byte_array([byte; 32])
}

fn block_hash(byte: u8) -> BlockHash {
    bitcoin::hashes::Hash::from_byte_array([byte; 32])
}

fn script(byte: u8) -> ScriptBuf {
    ScriptBuf::from_bytes(vec![byte])
}

fn indexer(revealed: &[(u8, u32)], scripts: &[(u8, u32, u8)]) -> keychain_txout::ChangeSet {
    let mut changes = keychain_txout::ChangeSet::default();
    for (id, index) in revealed {
        changes.last_revealed.insert(descriptor_id(*id), *index);
    }
    for (id, index, byte) in scripts {
        changes.spk_cache.entry(descriptor_id(*id)).or_default().insert(*index, script(*byte));
    }
    changes
}

fn local_chain(blocks: &[(u32, Option<u8>)]) -> local_chain::ChangeSet {
    let blocks = blocks.iter().map(|(height, hash)| (*height, hash.map(block_hash)));
    local_chain::ChangeSet { blocks: blocks.collect() }
}

fn transaction(lock: u32) -> Arc<Transaction> {
    Arc::new(Transaction {
        version: transaction::Version::TWO,
        lock_time: absolute::LockTime::from_consensus(lock),
        input: Vec::new(),
        output: Vec::new(),
    })
}

fn anchor(height: u32) -> ConfirmationBlockTime {
    let block_id = BlockId { height, hash: block_hash(height as u8) };
    ConfirmationBlockTime { block_id, confirmation_time: 1_000 }
}

fn graph(lock: u32, sats: u64, seen: u64) -> tx_graph::ChangeSet<ConfirmationBlockTime> {
    let mut changes = tx_graph::ChangeSet::default();
    changes.txs.insert(transaction(lock));
    let output = TxOut { value: Amount::from_sat(sats), script_pubkey: script(1) };
    changes.txouts.insert(OutPoint { txid: txid(1), vout: 0 }, output);
    changes.anchors.insert((anchor(lock), txid(1)));
    changes.first_seen.insert(txid(1), seen);
    changes.last_seen.insert(txid(1), seen);
    changes.last_evicted.insert(txid(1), seen);
    changes
}

fn locked(vout: u32, is_locked: bool) -> locked_outpoints::ChangeSet {
    let outpoint = OutPoint { txid: txid(1), vout };
    locked_outpoints::ChangeSet { outpoints: BTreeMap::from([(outpoint, is_locked)]) }
}

fn identity(descriptor: &str, change_descriptor: &str, network: Network) -> WalletChangeSet {
    WalletChangeSet {
        descriptor: Some(String::from(descriptor)),
        change_descriptor: Some(String::from(change_descriptor)),
        network: Some(network),
        ..WalletChangeSet::default()
    }
}

fn initialized(stored: Option<WalletChangeSet>) -> KVStoreWalletPersister {
    let mut persister = KVStoreWalletPersister::new();
    assert_eq!(persister.initialize(), InitializeAction::ReadChangeSet);
    persister.on_change_set_read(stored);
    persister
}

fn stored(persister: &KVStoreWalletPersister) -> WalletChangeSet {
    match persister.initialize() {
        InitializeAction::Ready { change_set } => change_set,
        InitializeAction::ReadChangeSet => panic!("not initialized"),
    }
}

#[test]
fn the_default_change_set_is_empty() {
    let empty = WalletChangeSet::default();
    assert!(empty.is_empty());
    let mut merged = WalletChangeSet::default();
    merged.merge(empty.clone());
    assert_eq!(merged, empty);
}

#[test]
fn every_part_makes_a_change_set_non_empty() {
    let empty = WalletChangeSet::default;
    for changes in [
        WalletChangeSet { descriptor: Some(String::from("a")), ..empty() },
        WalletChangeSet { change_descriptor: Some(String::from("a")), ..empty() },
        WalletChangeSet { network: Some(Network::Signet), ..empty() },
        WalletChangeSet { local_chain: local_chain(&[(0, None)]), ..empty() },
        WalletChangeSet { tx_graph: graph(1, 1, 1), ..empty() },
        WalletChangeSet { indexer: indexer(&[(1, 0)], &[]), ..empty() },
        WalletChangeSet { indexer: indexer(&[], &[(1, 0, 1)]), ..empty() },
        WalletChangeSet { locked_outpoints: locked(0, false), ..empty() },
    ] {
        assert!(!changes.is_empty());
        assert_eq!(changes.clone(), changes);
    }
}

#[test]
fn merging_keeps_identities_and_adds_changes() {
    let mut merged = WalletChangeSet {
        local_chain: local_chain(&[(1, Some(1)), (2, Some(2))]),
        tx_graph: graph(1, 10, 5),
        indexer: indexer(&[(1, 5), (2, 5)], &[(1, 0, 1)]),
        locked_outpoints: locked(0, true),
        ..identity("a", "b", Network::Regtest)
    };
    let mut other = WalletChangeSet {
        local_chain: local_chain(&[(2, None), (3, Some(3))]),
        tx_graph: graph(2, 20, 7),
        indexer: indexer(&[(1, 4), (2, 6), (3, 0)], &[(1, 0, 1), (1, 1, 2), (2, 0, 3)]),
        locked_outpoints: locked(0, false),
        ..WalletChangeSet::default()
    };
    other.tx_graph.last_seen.insert(txid(2), 9);
    merged.merge(other);

    assert_eq!(merged.descriptor, Some(String::from("a")));
    assert_eq!(merged.change_descriptor, Some(String::from("b")));
    assert_eq!(merged.network, Some(Network::Regtest));
    assert_eq!(merged.local_chain, local_chain(&[(1, Some(1)), (2, None), (3, Some(3))]));
    assert_eq!(
        merged.indexer,
        indexer(&[(1, 5), (2, 6), (3, 0)], &[(1, 0, 1), (1, 1, 2), (2, 0, 3)])
    );
    assert_eq!(merged.locked_outpoints, locked(0, false));
    let mut expected = graph(1, 20, 7);
    expected.txs.insert(transaction(2));
    expected.anchors.insert((anchor(2), txid(1)));
    expected.first_seen.insert(txid(1), 5);
    expected.last_seen.insert(txid(2), 9);
    assert_eq!(merged.tx_graph, expected);
}

#[test]
fn merging_the_same_changes_twice_changes_nothing() {
    let changes = WalletChangeSet {
        local_chain: local_chain(&[(1, Some(1))]),
        tx_graph: graph(1, 10, 5),
        indexer: indexer(&[(1, 5)], &[(1, 0, 1)]),
        ..identity("a", "b", Network::Bitcoin)
    };
    let mut merged = WalletChangeSet::default();
    merged.merge(changes.clone());
    assert_eq!(merged, changes);
    merged.merge(changes.clone());
    assert_eq!(merged, changes);
}

#[test]
fn the_first_identity_wins() {
    let mut merged = WalletChangeSet { network: Some(Network::Bitcoin), ..Default::default() };
    merged.merge(identity("a", "b", Network::Testnet));
    merged.merge(identity("c", "d", Network::Testnet4));
    assert_eq!(merged, identity("a", "b", Network::Bitcoin));
}

#[test]
fn different_scripts_for_one_index_disagree() {
    let cached = indexer(&[], &[(1, 0, 1), (1, 1, 2), (2, 0, 3)]);
    assert!(caches_agree(&cached, &indexer(&[], &[])));
    assert!(caches_agree(&indexer(&[], &[]), &cached));
    assert!(caches_agree(&cached, &indexer(&[], &[(1, 1, 2), (1, 2, 9), (3, 0, 9)])));
    assert!(!caches_agree(&cached, &indexer(&[], &[(1, 2, 9), (1, 1, 3)])));
    assert!(!caches_agree(&indexer(&[], &[(2, 0, 4)]), &cached));
}

fn scripts(scripts: &[(u8, u32, u8)]) -> WalletChangeSet {
    WalletChangeSet { indexer: indexer(&[], scripts), ..Default::default() }
}

#[test]
fn changes_that_contradict_pending_ones_are_not_taken_in() {
    let mut persister = KVStoreWalletPersister::new();
    persister.stash(scripts(&[(1, 0, 1)]));
    assert!(!persister.can_stash(&scripts(&[(1, 0, 2)])));
    assert!(!persister.can_persist(&scripts(&[(1, 0, 2)])));
    assert!(persister.can_stash(&scripts(&[(1, 0, 1), (1, 1, 2)])));
    assert!(persister.can_persist(&scripts(&[(1, 0, 1), (1, 1, 2)])));
}

#[test]
fn changes_that_contradict_stored_ones_are_kept_but_not_written() {
    // The stored state contradicts what is given to persist.
    let mut persister = initialized(Some(scripts(&[(1, 0, 1)])));
    assert!(!persister.can_persist(&scripts(&[(1, 0, 2)])));
    assert!(persister.can_persist(&scripts(&[(1, 0, 1), (2, 0, 2)])));
    // It contradicts what is stashed later.
    assert!(persister.can_stash(&scripts(&[(1, 0, 2)])));
    persister.stash(scripts(&[(1, 0, 2)]));
    assert!(!persister.can_persist(&WalletChangeSet::default()));
    assert_eq!(stored(&persister), scripts(&[(1, 0, 1)]));

    // It contradicts what was stashed before it was read.
    let mut persister = KVStoreWalletPersister::new();
    persister.stash(scripts(&[(1, 0, 2)]));
    assert_eq!(
        persister.on_change_set_read(Some(scripts(&[(1, 0, 1)]))),
        scripts(&[(1, 0, 1)])
    );
    assert!(!persister.can_persist(&WalletChangeSet::default()));
}

#[test]
fn changes_stashed_before_the_store_is_read_come_on_top_of_it() {
    let mut persister = KVStoreWalletPersister::new();
    persister.stash(WalletChangeSet {
        local_chain: local_chain(&[(2, None), (3, Some(3))]),
        ..Default::default()
    });
    let read = WalletChangeSet {
        local_chain: local_chain(&[(1, Some(1)), (2, Some(2))]),
        ..identity("a", "b", Network::Regtest)
    };
    persister.on_change_set_read(Some(read));
    assert!(persister.can_persist(&WalletChangeSet::default()));
    assert_eq!(
        persister.persist(&WalletChangeSet::default()),
        Ok(PersistAction::WriteLocalChain {
            local_chain: local_chain(&[(1, Some(1)), (2, None), (3, Some(3))])
        })
    );
    assert_eq!(persister.on_written(), Ok(PersistAction::Done));
}

#[test]
fn initialization_reads_the_store_once() {
    let mut persister = KVStoreWalletPersister::new();
    assert_eq!(persister.initialize(), InitializeAction::ReadChangeSet);
    let read = identity("a", "b", Network::Regtest);
    assert_eq!(persister.on_change_set_read(Some(read.clone())), read);
    assert_eq!(persister.initialize(), InitializeAction::Ready { change_set: read });

    let mut empty = KVStoreWalletPersister::new();
    assert_eq!(empty.on_change_set_read(None), WalletChangeSet::default());
    assert_eq!(
        empty.initialize(),
        InitializeAction::Ready { change_set: WalletChangeSet::default() }
    );
}

#[test]
fn changes_are_written_in_order() {
    let mut persister = initialized(None);
    let changes = WalletChangeSet {
        local_chain: local_chain(&[(1, Some(1))]),
        tx_graph: graph(1, 10, 5),
        indexer: indexer(&[(1, 5)], &[(1, 0, 1)]),
        locked_outpoints: locked(0, true),
        ..identity("a", "b", Network::Regtest)
    };
    assert_eq!(
        persister.persist(&changes),
        Ok(PersistAction::WriteDescriptor { descriptor: String::from("a") })
    );
    assert_eq!(
        persister.on_written(),
        Ok(PersistAction::WriteChangeDescriptor { change_descriptor: String::from("b") })
    );
    assert_eq!(
        persister.on_written(),
        Ok(PersistAction::WriteNetwork { network: Network::Regtest })
    );
    assert_eq!(
        persister.on_written(),
        Ok(PersistAction::WriteIndexer { indexer: changes.indexer.clone() })
    );
    assert_eq!(
        persister.on_written(),
        Ok(PersistAction::WriteTxGraph { tx_graph: changes.tx_graph.clone() })
    );
    assert_eq!(
        persister.on_written(),
        Ok(PersistAction::WriteLocalChain { local_chain: changes.local_chain.clone() })
    );
    assert_eq!(persister.on_written(), Ok(PersistAction::Done));
    // Everything is stored but the locks, and nothing is left to write.
    let expected = WalletChangeSet { locked_outpoints: Default::default(), ..changes };
    assert_eq!(stored(&persister), expected);
    assert_eq!(persister.persist(&WalletChangeSet::default()), Ok(PersistAction::Done));
}

#[test]
fn what_is_written_includes_what_was_stored() {
    let mut persister = initialized(Some(WalletChangeSet {
        indexer: indexer(&[(1, 5)], &[]),
        ..identity("a", "b", Network::Regtest)
    }));
    let changes = WalletChangeSet { indexer: indexer(&[(2, 1)], &[]), ..Default::default() };
    assert_eq!(
        persister.persist(&changes),
        Ok(PersistAction::WriteIndexer { indexer: indexer(&[(1, 5), (2, 1)], &[]) })
    );
    assert_eq!(persister.on_written(), Ok(PersistAction::Done));
}

#[test]
fn a_failed_write_is_repeated() {
    let mut persister = initialized(Some(identity("a", "b", Network::Regtest)));
    let first = WalletChangeSet { local_chain: local_chain(&[(1, Some(1))]), ..Default::default() };
    let write = PersistAction::WriteLocalChain { local_chain: local_chain(&[(1, Some(1))]) };
    assert_eq!(persister.persist(&first), Ok(write));
    // The write fails, and the next call asks for it again, with nothing added.
    let write = PersistAction::WriteLocalChain { local_chain: local_chain(&[(1, Some(1))]) };
    assert_eq!(persister.persist(&WalletChangeSet::default()), Ok(write));
    // It fails again, and other changes come in before it is repeated.
    persister.stash(WalletChangeSet {
        indexer: indexer(&[(1, 0)], &[]),
        ..WalletChangeSet::default()
    });
    let second = WalletChangeSet { local_chain: local_chain(&[(2, None)]), ..Default::default() };
    assert_eq!(
        persister.persist(&second),
        Ok(PersistAction::WriteIndexer { indexer: indexer(&[(1, 0)], &[]) })
    );
    assert_eq!(
        persister.on_written(),
        Ok(PersistAction::WriteLocalChain {
            local_chain: local_chain(&[(1, Some(1)), (2, None)])
        })
    );
    assert_eq!(persister.on_written(), Ok(PersistAction::Done));
}

#[test]
fn stashed_changes_survive_until_they_can_be_written() {
    let mut persister = KVStoreWalletPersister::new();
    assert_eq!(persister.persist(&WalletChangeSet::default()), Ok(PersistAction::Done));
    persister.stash(identity("a", "b", Network::Signet));
    assert_eq!(
        persister.persist(&WalletChangeSet::default()),
        Err(PersistError::NotInitialized)
    );
    persister.on_change_set_read(None);
    assert_eq!(
        persister.persist(&WalletChangeSet::default()),
        Ok(PersistAction::WriteDescriptor { descriptor: String::from("a") })
    );
}

#[test]
fn locks_alone_are_dropped() {
    let mut persister = initialized(None);
    let changes = WalletChangeSet { locked_outpoints: locked(0, true), ..Default::default() };
    assert_eq!(persister.persist(&changes), Ok(PersistAction::Done));
    assert_eq!(stored(&persister), WalletChangeSet::default());
}

#[test]
fn an_identity_is_never_overwritten() {
    let original = || identity("a", "b", Network::Regtest);
    for (changes, error) in [
        (identity("c", "b", Network::Regtest), PersistError::DescriptorMismatch),
        (identity("a", "c", Network::Regtest), PersistError::ChangeDescriptorMismatch),
        (identity("a", "b", Network::Bitcoin), PersistError::NetworkMismatch),
    ] {
        let mut persister = initialized(Some(original()));
        let mut outcome = persister.persist(&changes);
        // The parts that fit are written first.
        while outcome.is_ok() {
            outcome = persister.on_written();
        }
        assert_eq!(outcome, Err(error));
        assert_eq!(stored(&persister), original());
        assert!(error.is_invalid_data());
    }
    let mut persister = initialized(Some(original()));
    assert_eq!(
        persister.persist(&original()),
        Ok(PersistAction::WriteDescriptor { descriptor: String::from("a") })
    );
}

#[test]
fn errors_have_messages() {
    assert!(!PersistError::NotInitialized.is_invalid_data());
    assert_eq!(
        PersistError::NotInitialized.message(),
        "Wallet must be initialized before calling persist"
    );
    assert_eq!(
        PersistError::DescriptorMismatch.message(),
        "Wallet change set doesn't match persisted descriptor. This should never happen."
    );
    assert_eq!(
        PersistError::ChangeDescriptorMismatch.message(),
        "Wallet change set doesn't match persisted change_descriptor. This should never happen."
    );
    assert_eq!(
        PersistError::NetworkMismatch.message(),
        "Wallet change set doesn't match persisted network. This should never happen."
    );
}

#[test]
fn changes_can_be_gathered_before_they_are_merged() {
    let changes = |n: u8| WalletChangeSet {
        local_chain: local_chain(&[(n as u32, Some(n)), (9, Some(n))]),
        tx_graph: graph(n as u32, n as u64, 10 - n as u64),
        indexer: indexer(&[(1, n as u32)], &[(1, n as u32, n)]),
        locked_outpoints: locked(0, n % 2 == 0),
        ..WalletChangeSet::default()
    };
    let mut one_by_one = changes(1);
    one_by_one.merge(changes(2));
    one_by_one.merge(changes(3));
    let mut gathered = changes(2);
    gathered.merge(changes(3));
    let mut at_once = changes(1);
    at_once.merge(gathered);
    assert_eq!(one_by_one, at_once);
    assert_eq!(
        at_once.local_chain,
        local_chain(&[(1, Some(1)), (2, Some(2)), (3, Some(3)), (9, Some(3))])
    );
    assert_eq!(at_once.tx_graph.first_seen, BTreeMap::from([(txid(1), 7)]));
    assert_eq!(at_once.tx_graph.last_seen, BTreeMap::from([(txid(1), 9)]));
    assert_eq!(at_once.tx_graph.last_evicted, BTreeMap::from([(txid(1), 9)]));
}

#[test]
fn changes_that_are_refused_anyway_may_have_other_scripts() {
    let wallet = WalletChangeSet {
        indexer: indexer(&[], &[(1, 0, 1)]),
        ..identity("a", "b", Network::Regtest)
    };
    for (changes, error) in [
        (identity("c", "b", Network::Regtest), PersistError::DescriptorMismatch),
        (identity("a", "c", Network::Regtest), PersistError::ChangeDescriptorMismatch),
        (identity("a", "b", Network::Bitcoin), PersistError::NetworkMismatch),
    ] {
        let mut persister = initialized(Some(wallet.clone()));
        let changes = WalletChangeSet { indexer: indexer(&[], &[(1, 0, 2)]), ..changes };
        assert!(persister.can_persist(&changes));
        let mut outcome = persister.persist(&changes);
        while outcome.is_ok() {
            outcome = persister.on_written();
        }
        assert_eq!(outcome, Err(error));
        assert_eq!(stored(&persister), wallet);
    }
    let persister = initialized(Some(wallet));
    let same_wallet = WalletChangeSet {
        indexer: indexer(&[], &[(1, 0, 2)]),
        ..identity("a", "b", Network::Regtest)
    };
    assert!(!persister.can_persist(&same_wallet));
}

#[test]
fn stashing_and_persisting_is_persisting_both() {
    let a = WalletChangeSet {
        local_chain: local_chain(&[(1, Some(1)), (2, Some(2))]),
        indexer: indexer(&[(1, 3)], &[(1, 0, 1)]),
        ..identity("a", "b", Network::Regtest)
    };
    let b = WalletChangeSet {
        local_chain: local_chain(&[(2, None)]),
        tx_graph: graph(1, 10, 5),
        indexer: indexer(&[(1, 2), (2, 0)], &[(1, 0, 1), (2, 0, 2)]),
        ..WalletChangeSet::default()
    };
    let mut both = a.clone();
    both.merge(b.clone());

    let mut p = initialized(None);
    let mut q = initialized(None);
    assert!(p.can_stash(&a));
    p.stash(a);
    assert!(p.can_persist(&b));
    assert!(q.can_persist(&both));
    let mut written = p.persist(&b);
    let mut expected = q.persist(&both);
    let mut writes = 0;
    while written != Ok(PersistAction::Done) {
        assert_eq!(written, expected);
        assert_eq!(stored(&p), stored(&q));
        written = p.on_written();
        expected = q.on_written();
        writes += 1;
    }
    assert_eq!(expected, Ok(PersistAction::Done));
    assert_eq!(writes, 6);
    assert_eq!(stored(&p), both);
    assert_eq!(stored(&q), both);
}

#[test]
fn the_identity_of_a_wallet_is_known_once_it_is_stored() {
    let mut persister = KVStoreWalletPersister::new();
    assert!(!persister.is_identified());
    assert!(persister.keeps_identity(&identity("a", "b", Network::Regtest)));
    persister.stash(identity("a", "b", Network::Regtest));
    assert!(persister.keeps_identity(&identity("a", "b", Network::Regtest)));
    assert!(persister.keeps_identity(&WalletChangeSet::default()));
    assert!(!persister.keeps_identity(&identity("c", "b", Network::Regtest)));
    assert!(!persister.keeps_identity(&identity("a", "c", Network::Regtest)));
    assert!(!persister.keeps_identity(&identity("a", "b", Network::Signet)));

    persister.on_change_set_read(None);
    let mut outcome = persister.persist(&WalletChangeSet::default());
    let mut identified = Vec::new();
    while outcome != Ok(PersistAction::Done) {
        identified.push(persister.is_identified());
        outcome = persister.on_written();
    }
    assert_eq!(identified, vec![false, false, true]);
}
