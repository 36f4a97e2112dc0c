//! What changed in the on-chain wallet: the part of its state that has to be stored.

use bdk_chain::indexer::keychain_txout;
use bdk_chain::{local_chain, tx_graph, ConfirmationBlockTime};
use bdk_wallet::locked_outpoints;
use vstd::prelude::*;

use super::bdk::{
    chain_blocks, clone_indexer, clone_local_chain, clone_locked_outpoints, clone_tx_graph,
    empty_indexer, empty_local_chain, empty_locked_outpoints, empty_tx_graph, indexer_is_empty,
    indexer_view, local_chain_is_empty, lock_status, locked_outpoints_is_empty, merge_indexer,
    merge_local_chain, merge_locked_outpoints, merge_tx_graph, merged_indexer, merged_tx_graph,
    no_blocks, no_locks, scripts_agree, tx_graph_is_empty, tx_graph_view, IndexerView,
    TxGraphView,
};
use crate::primitives::OutPoint;

verus! {

/// The network that a wallet is for.
#[derive(Clone, Copy, Debug, PartialEq, Eq, Structural)]
pub enum Network {
    /// The main network.
    Bitcoin,
    /// The third test network.
    Testnet,
    /// The fourth test network.
    Testnet4,
    /// The signed test network.
    Signet,
    /// A local test network.
    Regtest,
}

/// Changes to a wallet.
#[derive(Debug, PartialEq)]
pub struct WalletChangeSet {
    /// The descriptor for recipient addresses.
    pub descriptor: Option<String>,
    /// The descriptor for change addresses.
    pub change_descriptor: Option<String>,
    /// The network that the wallet is for.
    pub network: Option<Network>,
    /// Changes to the blocks that the wallet has seen.
    pub local_chain: local_chain::ChangeSet,
    /// Changes to the transactions that the wallet knows of.
    pub tx_graph: tx_graph::ChangeSet<ConfirmationBlockTime>,
    /// Changes to the indices and scripts that the wallet has revealed.
    pub indexer: keychain_txout::ChangeSet,
    /// Changes to which outputs are locked.
    pub locked_outpoints: locked_outpoints::ChangeSet,
}

/// What a [`WalletChangeSet`] holds.
#[verifier::ext_equal]
pub struct WalletChangeSetView {
    pub descriptor: Option<Seq<char>>,
    pub change_descriptor: Option<Seq<char>>,
    pub network: Option<Network>,
    pub local_chain: Map<u32, Option<Seq<u8>>>,
    pub tx_graph: TxGraphView,
    pub indexer: IndexerView,
    pub locked_outpoints: Map<OutPoint, bool>,
}

/// What an optional text holds.
pub open spec fn opt_text(text: Option<String>) -> Option<Seq<char>> {
    match text {
        Some(text) => Some(text@),
        None => None,
    }
}

impl View for WalletChangeSet {
    type V = WalletChangeSetView;

    open spec fn view(&self) -> WalletChangeSetView {
        WalletChangeSetView {
            descriptor: opt_text(self.descriptor),
            change_descriptor: opt_text(self.change_descriptor),
            network: self.network,
            local_chain: chain_blocks(self.local_chain),
            tx_graph: tx_graph_view(self.tx_graph),
            indexer: indexer_view(self.indexer),
            locked_outpoints: lock_status(self.locked_outpoints),
        }
    }
}

/// The first one if there is one, and the second one otherwise.
pub open spec fn first_of<T>(a: Option<T>, b: Option<T>) -> Option<T> {
    match a {
        Some(_) => a,
        None => b,
    }
}

/// Whether something is set, and something else is to be set.
pub open spec fn conflicts<T>(held: Option<T>, changed: Option<T>) -> bool {
    held is Some && changed is Some && held != changed
}

impl WalletChangeSetView {
    /// No changes.
    pub open spec fn empty() -> WalletChangeSetView {
        WalletChangeSetView {
            descriptor: None,
            change_descriptor: None,
            network: None,
            local_chain: no_blocks(),
            tx_graph: TxGraphView::empty(),
            indexer: IndexerView::empty(),
            locked_outpoints: no_locks(),
        }
    }

    /// The changes that both come to, one after the other. The descriptors and the network never
    /// change once they are set.
    pub open spec fn merged(self, other: WalletChangeSetView) -> WalletChangeSetView {
        WalletChangeSetView {
            descriptor: first_of(self.descriptor, other.descriptor),
            change_descriptor: first_of(self.change_descriptor, other.change_descriptor),
            network: first_of(self.network, other.network),
            local_chain: self.local_chain.union_prefer_right(other.local_chain),
            tx_graph: merged_tx_graph(self.tx_graph, other.tx_graph),
            indexer: merged_indexer(self.indexer, other.indexer),
            locked_outpoints: self.locked_outpoints.union_prefer_right(other.locked_outpoints),
        }
    }

    /// Whether `other` has a descriptor, a change descriptor or a network that is not the one that is
    /// set.
    pub open spec fn mismatches(self, other: WalletChangeSetView) -> bool {
        ||| conflicts(self.descriptor, other.descriptor)
        ||| conflicts(self.change_descriptor, other.change_descriptor)
        ||| conflicts(self.network, other.network)
    }

    /// Whether the two hold no two different scripts for the same index of a descriptor.
    pub open spec fn agrees(self, other: WalletChangeSetView) -> bool {
        scripts_agree(self.indexer.spk_cache, other.indexer.spk_cache)
    }
}

/// Whether a text is set, and a different one is to be set.
pub(crate) fn text_conflicts(held: &Option<String>, changed: &Option<String>) -> (res: bool)
    ensures
        res == conflicts(opt_text(*held), opt_text(*changed)),
{
    match (held, changed) {
        (Some(held), Some(changed)) => *held != *changed,
        _ => false,
    }
}

/// Whether a network is set, and a different one is to be set.
pub(crate) fn network_conflicts(held: Option<Network>, changed: Option<Network>) -> (res: bool)
    ensures
        res == conflicts(held, changed),
{
    match (held, changed) {
        (Some(held), Some(changed)) => held != changed,
        _ => false,
    }
}

/// A copy of an optional text.
pub(crate) fn clone_text(text: &Option<String>) -> (res: Option<String>)
    ensures
        opt_text(res) == opt_text(*text),
{
    match text {
        Some(text) => Some(text.clone()),
        None => None,
    }
}

impl Default for WalletChangeSet {
    fn default() -> (res: Self)
        ensures
            res@ == WalletChangeSetView::empty(),
    {
        WalletChangeSet {
            descriptor: None,
            change_descriptor: None,
            network: None,
            local_chain: empty_local_chain(),
            tx_graph: empty_tx_graph(),
            indexer: empty_indexer(),
            locked_outpoints: empty_locked_outpoints(),
        }
    }
}

impl Clone for WalletChangeSet {
    fn clone(&self) -> (res: Self)
        ensures
            res@ == self@,
    {
        WalletChangeSet {
            descriptor: clone_text(&self.descriptor),
            change_descriptor: clone_text(&self.change_descriptor),
            network: self.network,
            local_chain: clone_local_chain(&self.local_chain),
            tx_graph: clone_tx_graph(&self.tx_graph),
            indexer: clone_indexer(&self.indexer),
            locked_outpoints: clone_locked_outpoints(&self.locked_outpoints),
        }
    }
}

impl WalletChangeSet {
    /// Takes in the changes of `other`, which come after those that are there. Descriptors and the
    /// network stay as they are once they are set.
    pub fn merge(&mut self, other: WalletChangeSet)
        requires
            old(self)@.agrees(other@),
        ensures
            final(self)@ == old(self)@.merged(other@),
    {
        if self.descriptor.is_none() {
            self.descriptor = other.descriptor;
        }
        if self.change_descriptor.is_none() {
            self.change_descriptor = other.change_descriptor;
        }
        if self.network.is_none() {
            self.network = other.network;
        }
        merge_locked_outpoints(&mut self.locked_outpoints, other.locked_outpoints);
        merge_local_chain(&mut self.local_chain, other.local_chain);
        merge_tx_graph(&mut self.tx_graph, other.tx_graph);
        merge_indexer(&mut self.indexer, other.indexer);
    }

    /// Whether `other` has a descriptor, a change descriptor or a network that is not the one that is
    /// set.
    pub fn mismatches(&self, other: &WalletChangeSet) -> (res: bool)
        ensures
            res == self@.mismatches(other@),
    {
        text_conflicts(&self.descriptor, &other.descriptor) || text_conflicts(
            &self.change_descriptor,
            &other.change_descriptor,
        ) || network_conflicts(self.network, other.network)
    }

    /// Whether there are no changes.
    pub fn is_empty(&self) -> (res: bool)
        ensures
            res == (self@ == WalletChangeSetView::empty()),
    {
        self.descriptor.is_none() && self.change_descriptor.is_none() && self.network.is_none()
            && local_chain_is_empty(&self.local_chain) && tx_graph_is_empty(&self.tx_graph)
            && indexer_is_empty(&self.indexer) && locked_outpoints_is_empty(&self.locked_outpoints)
    }
}

} // verus!
