//! Writing the wallet's changes out, one part at a time.

use bdk_chain::indexer::keychain_txout;
use bdk_chain::{local_chain, tx_graph, ConfirmationBlockTime};
use vstd::prelude::*;

use super::bdk::{
    all_scripts, caches_agree, chain_blocks, clone_indexer, clone_local_chain, clone_tx_graph,
    empty_indexer, empty_local_chain, empty_locked_outpoints, empty_tx_graph, indexer_is_empty,
    indexer_view, local_chain_is_empty, merge_indexer, merge_local_chain, merge_tx_graph,
    merged_indexer, merged_tx_graph, no_blocks, no_locks, script_at, scripts_agree, tx_graph_is_empty,
    tx_graph_view, IndexerView, TxGraphView,
};
use super::change_set::{
    conflicts, first_of, network_conflicts, opt_text, text_conflicts, Network, WalletChangeSet,
    WalletChangeSetView,
};
use super::laws::lemma_merged_twice;

verus! {

/// The parts of a wallet's state that are written separately.
#[derive(Clone, Copy, Debug, PartialEq, Eq, Structural)]
pub enum Component {
    /// The descriptor for recipient addresses.
    Descriptor,
    /// The descriptor for change addresses.
    ChangeDescriptor,
    /// The network.
    Network,
    /// The revealed indices and scripts.
    Indexer,
    /// The known transactions.
    TxGraph,
    /// The seen blocks.
    LocalChain,
}

/// Why changes cannot be written.
#[derive(Clone, Copy, Debug, PartialEq, Eq, Structural)]
pub enum PersistError {
    /// The stored state was never read.
    NotInitialized,
    /// The changes belong to a wallet with another descriptor.
    DescriptorMismatch,
    /// The changes belong to a wallet with another change descriptor.
    ChangeDescriptorMismatch,
    /// The changes belong to a wallet for another network.
    NetworkMismatch,
}

impl PersistError {
    /// Whether the changes are at fault, rather than the order of the calls.
    pub fn is_invalid_data(&self) -> (res: bool)
        ensures
            res == (*self != PersistError::NotInitialized),
    {
        match self {
            PersistError::NotInitialized => false,
            _ => true,
        }
    }

    /// What to tell the operator.
    pub fn message(&self) -> (res: &'static str)
        ensures
            res@ == match self {
                PersistError::NotInitialized => "Wallet must be initialized before calling persist"@,
                PersistError::DescriptorMismatch =>
                    "Wallet change set doesn't match persisted descriptor. This should never happen."@,
                PersistError::ChangeDescriptorMismatch =>
                    "Wallet change set doesn't match persisted change_descriptor. This should never happen."@,
                PersistError::NetworkMismatch =>
                    "Wallet change set doesn't match persisted network. This should never happen."@,
            },
    {
        match self {
            PersistError::NotInitialized => "Wallet must be initialized before calling persist",
            PersistError::DescriptorMismatch =>
                "Wallet change set doesn't match persisted descriptor. This should never happen.",
            PersistError::ChangeDescriptorMismatch =>
                "Wallet change set doesn't match persisted change_descriptor. This should never happen.",
            PersistError::NetworkMismatch =>
                "Wallet change set doesn't match persisted network. This should never happen.",
        }
    }
}

/// The next thing to do to persist changes.
#[derive(Debug, PartialEq)]
pub enum PersistAction {
    /// Everything has been written.
    Done,
    /// Write the descriptor for recipient addresses.
    WriteDescriptor {
        /// The descriptor.
        descriptor: String,
    },
    /// Write the descriptor for change addresses.
    WriteChangeDescriptor {
        /// The descriptor.
        change_descriptor: String,
    },
    /// Write the network.
    WriteNetwork {
        /// The network.
        network: Network,
    },
    /// Write the revealed indices and scripts.
    WriteIndexer {
        /// All of them.
        indexer: keychain_txout::ChangeSet,
    },
    /// Write the known transactions.
    WriteTxGraph {
        /// All of them.
        tx_graph: tx_graph::ChangeSet<ConfirmationBlockTime>,
    },
    /// Write the seen blocks.
    WriteLocalChain {
        /// All of them.
        local_chain: local_chain::ChangeSet,
    },
}

/// What a [`PersistAction`] holds.
#[verifier::ext_equal]
pub enum PersistActionView {
    Done,
    WriteDescriptor { descriptor: Seq<char> },
    WriteChangeDescriptor { change_descriptor: Seq<char> },
    WriteNetwork { network: Network },
    WriteIndexer { indexer: IndexerView },
    WriteTxGraph { tx_graph: TxGraphView },
    WriteLocalChain { local_chain: Map<u32, Option<Seq<u8>>> },
}

impl View for PersistAction {
    type V = PersistActionView;

    open spec fn view(&self) -> PersistActionView {
        match self {
            PersistAction::Done => PersistActionView::Done,
            PersistAction::WriteDescriptor { descriptor } => PersistActionView::WriteDescriptor {
                descriptor: descriptor@,
            },
            PersistAction::WriteChangeDescriptor { change_descriptor } =>
                PersistActionView::WriteChangeDescriptor { change_descriptor: change_descriptor@ },
            PersistAction::WriteNetwork { network } => PersistActionView::WriteNetwork {
                network: *network,
            },
            PersistAction::WriteIndexer { indexer } => PersistActionView::WriteIndexer {
                indexer: indexer_view(*indexer),
            },
            PersistAction::WriteTxGraph { tx_graph } => PersistActionView::WriteTxGraph {
                tx_graph: tx_graph_view(*tx_graph),
            },
            PersistAction::WriteLocalChain { local_chain } => PersistActionView::WriteLocalChain {
                local_chain: chain_blocks(*local_chain),
            },
        }
    }
}

/// What the outcome of asking for the next thing to do holds.
pub open spec fn outcome_view(outcome: Result<PersistAction, PersistError>) -> Result<
    PersistActionView,
    PersistError,
> {
    match outcome {
        Ok(action) => Ok(action@),
        Err(e) => Err(e),
    }
}

/// How to get at the stored state.
#[derive(Debug, PartialEq)]
pub enum InitializeAction {
    /// It has been read before.
    Ready {
        /// The stored state.
        change_set: WalletChangeSet,
    },
    /// Read it from the store.
    ReadChangeSet,
}

/// What a [`KVStoreWalletPersister`] holds.
#[verifier::ext_equal]
pub struct PersisterView {
    /// The stored state, with the changes that are being written.
    pub latest: Option<WalletChangeSetView>,
    /// The changes that have not been written.
    pub pending: WalletChangeSetView,
    /// The part that is being written.
    pub awaiting: Option<Component>,
}

/// The part of the pending changes that is written next. The blocks come last, as they say from
/// where to sync.
pub open spec fn first_pending(pending: WalletChangeSetView) -> Option<Component> {
    if pending.descriptor is Some {
        Some(Component::Descriptor)
    } else if pending.change_descriptor is Some {
        Some(Component::ChangeDescriptor)
    } else if pending.network is Some {
        Some(Component::Network)
    } else if pending.indexer != IndexerView::empty() {
        Some(Component::Indexer)
    } else if pending.tx_graph != TxGraphView::empty() {
        Some(Component::TxGraph)
    } else if pending.local_chain != no_blocks() {
        Some(Component::LocalChain)
    } else {
        None
    }
}

/// Whether the stored state already holds a part of the pending changes.
pub open spec fn holds_part(
    latest: WalletChangeSetView,
    pending: WalletChangeSetView,
    component: Component,
) -> bool {
    let merged = latest.merged(pending);
    match component {
        Component::Descriptor => latest.descriptor == pending.descriptor,
        Component::ChangeDescriptor => latest.change_descriptor == pending.change_descriptor,
        Component::Network => latest.network == pending.network,
        Component::Indexer => latest.indexer == merged.indexer,
        Component::TxGraph => latest.tx_graph == merged.tx_graph,
        Component::LocalChain => latest.local_chain == merged.local_chain,
    }
}

impl PersisterView {
    /// Whether a part is only being written while it is the next one to be and the stored state
    /// holds it.
    pub open spec fn recorded(self) -> bool {
        self.awaiting matches Some(component) ==> {
            &&& self.latest matches Some(latest) && holds_part(latest, self.pending, component)
            &&& first_pending(self.pending) == Some(component)
        }
    }

    /// Whether the pending changes would change the identity of the wallet.
    pub open spec fn mismatched(self) -> bool {
        self.latest matches Some(latest) && latest.mismatches(self.pending)
    }

    /// Whether all of the pending changes can be written: either they are refused before any script
    /// is looked at, or they have no script for an index of a descriptor for which a different one
    /// is stored.
    pub open spec fn writable(self) -> bool {
        !self.mismatched() ==> (self.latest matches Some(latest) ==> latest.agrees(self.pending))
    }

    /// Whether a part is only being written while it is the next one to be, the stored state holds
    /// it, and the pending changes can be written.
    pub open spec fn consistent(self) -> bool {
        &&& self.recorded()
        &&& self.awaiting is Some ==> self.writable()
    }

    /// Whether a change set can be taken in: it has no script for an index of a descriptor for
    /// which a different one is pending.
    pub open spec fn takes(self, change_set: WalletChangeSetView) -> bool {
        self.pending.agrees(change_set)
    }

    /// After the stored state has been read.
    pub open spec fn initialized(self, stored: WalletChangeSetView) -> PersisterView {
        PersisterView { latest: Some(stored), ..self }
    }

    /// After taking in changes.
    pub open spec fn stashed(self, change_set: WalletChangeSetView) -> PersisterView {
        PersisterView { pending: self.pending.merged(change_set), awaiting: None, ..self }
    }

    /// While a part is being written: it is part of the stored state already, and still pending.
    pub open spec fn writing(self, latest: WalletChangeSetView, component: Component) -> PersisterView {
        PersisterView { latest: Some(latest), awaiting: Some(component), ..self }
    }

    /// After an error: nothing is being written.
    pub open spec fn idle(self) -> PersisterView {
        PersisterView { awaiting: None, ..self }
    }

    /// After the next step, and what that step is: the first part of the pending changes is added
    /// to the stored state and written, unless it would change the identity of the wallet.
    pub open spec fn step(self) -> (PersisterView, Result<PersistActionView, PersistError>) {
        match self.latest {
            None => (self.idle(), Err(PersistError::NotInitialized)),
            Some(latest) => match first_pending(self.pending) {
                Some(Component::Descriptor) => if conflicts(
                    latest.descriptor,
                    self.pending.descriptor,
                ) {
                    (self.idle(), Err(PersistError::DescriptorMismatch))
                } else {
                    (
                        self.writing(
                            WalletChangeSetView { descriptor: self.pending.descriptor, ..latest },
                            Component::Descriptor,
                        ),
                        Ok(
                            PersistActionView::WriteDescriptor {
                                descriptor: self.pending.descriptor->0,
                            },
                        ),
                    )
                },
                Some(Component::ChangeDescriptor) => if conflicts(
                    latest.change_descriptor,
                    self.pending.change_descriptor,
                ) {
                    (self.idle(), Err(PersistError::ChangeDescriptorMismatch))
                } else {
                    (
                        self.writing(
                            WalletChangeSetView {
                                change_descriptor: self.pending.change_descriptor,
                                ..latest
                            },
                            Component::ChangeDescriptor,
                        ),
                        Ok(
                            PersistActionView::WriteChangeDescriptor {
                                change_descriptor: self.pending.change_descriptor->0,
                            },
                        ),
                    )
                },
                Some(Component::Network) => if conflicts(latest.network, self.pending.network) {
                    (self.idle(), Err(PersistError::NetworkMismatch))
                } else {
                    (
                        self.writing(
                            WalletChangeSetView { network: self.pending.network, ..latest },
                            Component::Network,
                        ),
                        Ok(PersistActionView::WriteNetwork { network: self.pending.network->0 }),
                    )
                },
                Some(Component::Indexer) => {
                    let indexer = merged_indexer(latest.indexer, self.pending.indexer);
                    (
                        self.writing(
                            WalletChangeSetView { indexer, ..latest },
                            Component::Indexer,
                        ),
                        Ok(PersistActionView::WriteIndexer { indexer }),
                    )
                },
                Some(Component::TxGraph) => {
                    let tx_graph = merged_tx_graph(latest.tx_graph, self.pending.tx_graph);
                    (
                        self.writing(
                            WalletChangeSetView { tx_graph, ..latest },
                            Component::TxGraph,
                        ),
                        Ok(PersistActionView::WriteTxGraph { tx_graph }),
                    )
                },
                Some(Component::LocalChain) => {
                    let local_chain = latest.local_chain.union_prefer_right(
                        self.pending.local_chain,
                    );
                    (
                        self.writing(
                            WalletChangeSetView { local_chain, ..latest },
                            Component::LocalChain,
                        ),
                        Ok(PersistActionView::WriteLocalChain { local_chain }),
                    )
                },
                None => (
                    PersisterView {
                        pending: WalletChangeSetView {
                            locked_outpoints: no_locks(),
                            ..self.pending
                        },
                        awaiting: None,
                        ..self
                    },
                    Ok(PersistActionView::Done),
                ),
            },
        }
    }

    /// After a call to persist changes, and what to do first.
    pub open spec fn persisting(self, change_set: WalletChangeSetView) -> (
        PersisterView,
        Result<PersistActionView, PersistError>,
    ) {
        let stashed = self.stashed(change_set);
        if stashed.pending == WalletChangeSetView::empty() {
            (stashed, Ok(PersistActionView::Done))
        } else {
            stashed.step()
        }
    }

    /// With the part that was being written no longer pending.
    pub open spec fn written(self) -> PersisterView {
        PersisterView {
            pending: match self.awaiting {
                Some(Component::Descriptor) => WalletChangeSetView {
                    descriptor: None,
                    ..self.pending
                },
                Some(Component::ChangeDescriptor) => WalletChangeSetView {
                    change_descriptor: None,
                    ..self.pending
                },
                Some(Component::Network) => WalletChangeSetView { network: None, ..self.pending },
                Some(Component::Indexer) => WalletChangeSetView {
                    indexer: IndexerView::empty(),
                    ..self.pending
                },
                Some(Component::TxGraph) => WalletChangeSetView {
                    tx_graph: TxGraphView::empty(),
                    ..self.pending
                },
                Some(Component::LocalChain) => WalletChangeSetView {
                    local_chain: no_blocks(),
                    ..self.pending
                },
                None => self.pending,
            },
            awaiting: None,
            ..self
        }
    }
}

/// The first text if there is one, and the second one otherwise.
fn first_text<'a>(a: &'a Option<String>, b: &'a Option<String>) -> (res: &'a Option<String>)
    ensures
        opt_text(*res) == first_of(opt_text(*a), opt_text(*b)),
{
    if a.is_some() {
        a
    } else {
        b
    }
}

/// Takes over the wallet's changes and sees them into the store.
///
/// Callers extract the changes from the wallet *before* persisting them, so changes that are not
/// yet successfully written are kept here. They are only dropped part by part once the
/// corresponding write has succeeded, so a failed or aborted write is retried on the next call
/// rather than lost.
pub struct KVStoreWalletPersister {
    latest_change_set: Option<WalletChangeSet>,
    pending_change_set: WalletChangeSet,
    awaiting: Option<Component>,
}

impl View for KVStoreWalletPersister {
    type V = PersisterView;

    closed spec fn view(&self) -> PersisterView {
        PersisterView {
            latest: match self.latest_change_set {
                Some(latest) => Some(latest@),
                None => None,
            },
            pending: self.pending_change_set@,
            awaiting: self.awaiting,
        }
    }
}

impl KVStoreWalletPersister {
    /// A persister that has nothing to write and has not read the stored state.
    pub fn new() -> (res: Self)
        ensures
            res@ == (PersisterView {
                latest: None,
                pending: WalletChangeSetView::empty(),
                awaiting: None,
            }),
            res@.consistent(),
    {
        KVStoreWalletPersister {
            latest_change_set: None,
            pending_change_set: WalletChangeSet::default(),
            awaiting: None,
        }
    }

    /// Whether a change set can be stashed: it has no script for an index of a descriptor for which
    /// a different one is pending.
    pub fn can_stash(&self, change_set: &WalletChangeSet) -> (res: bool)
        ensures
            res == self@.takes(change_set@),
    {
        caches_agree(&self.pending_change_set.indexer, &change_set.indexer)
    }

    /// Whether a change set can be persisted: it has no script for an index of a descriptor for
    /// which a different one is pending, and unless the changes are refused for the wallet's
    /// identity, neither it nor the pending ones have one for an index for which a different one is
    /// stored.
    pub fn can_persist(&self, change_set: &WalletChangeSet) -> (res: bool)
        ensures
            res == (self@.takes(change_set@) && self@.stashed(change_set@).writable()),
    {
        if !self.can_stash(change_set) {
            return false;
        }
        match &self.latest_change_set {
            Some(latest) => {
                proof {
                    lemma_merged_agrees(latest@, self@.pending, change_set@);
                }
                let pending = &self.pending_change_set;
                let descriptor = first_text(&pending.descriptor, &change_set.descriptor);
                let change_descriptor = first_text(
                    &pending.change_descriptor,
                    &change_set.change_descriptor,
                );
                let network = if pending.network.is_some() {
                    pending.network
                } else {
                    change_set.network
                };
                text_conflicts(&latest.descriptor, descriptor) || text_conflicts(
                    &latest.change_descriptor,
                    change_descriptor,
                ) || network_conflicts(latest.network, network) || caches_agree(
                    &latest.indexer,
                    &pending.indexer,
                ) && caches_agree(&latest.indexer, &change_set.indexer)
            },
            None => true,
        }
    }

    /// Whether a change set has no descriptor, change descriptor or network that differs from a
    /// pending one.
    pub fn keeps_identity(&self, change_set: &WalletChangeSet) -> (res: bool)
        ensures
            res == !self@.pending.mismatches(change_set@),
    {
        !self.pending_change_set.mismatches(change_set)
    }

    /// Whether the stored state has been read and has a descriptor, a change descriptor and a
    /// network.
    pub fn is_identified(&self) -> (res: bool)
        ensures
            res == (self@.latest matches Some(latest) && latest.descriptor is Some
                && latest.change_descriptor is Some && latest.network is Some),
    {
        match &self.latest_change_set {
            Some(latest) => latest.descriptor.is_some() && latest.change_descriptor.is_some()
                && latest.network.is_some(),
            None => false,
        }
    }

    /// Queues the given changes for persistence without writing them out yet. They will be
    /// included in the next [`persist`] call.
    ///
    /// This allows callers that already extracted staged changes from the wallet to abort an
    /// operation without losing them. A write that is under way is abandoned and will be repeated.
    ///
    /// [`persist`]: Self::persist
    pub fn stash(&mut self, change_set: WalletChangeSet)
        requires
            old(self)@.takes(change_set@),
        ensures
            final(self)@ == old(self)@.stashed(change_set@),
            final(self)@.consistent(),
    {
        self.pending_change_set.merge(change_set);
        self.awaiting = None;
    }

    /// Starts persisting the given changes, along with any previously stashed or failed-to-write
    /// ones. They are merged into the pending ones first and written from there.
    pub fn persist(&mut self, change_set: &WalletChangeSet) -> (res: Result<
        PersistAction,
        PersistError,
    >)
        requires
            old(self)@.takes(change_set@),
            old(self)@.stashed(change_set@).writable(),
        ensures
            (final(self)@, outcome_view(res)) == old(self)@.persisting(change_set@),
            final(self)@.consistent(),
    {
        self.stash(change_set.clone());
        if self.pending_change_set.is_empty() {
            return Ok(PersistAction::Done);
        }
        self.next()
    }

    /// Notes that the part that was being written has been written, and goes on with the next one.
    pub fn on_written(&mut self) -> (res: Result<PersistAction, PersistError>)
        requires
            old(self)@.consistent(),
            old(self)@.awaiting is Some,
        ensures
            (final(self)@, outcome_view(res)) == old(self)@.written().step(),
            final(self)@.consistent(),
    {
        match self.awaiting {
            Some(Component::Descriptor) => {
                self.pending_change_set.descriptor = None;
            },
            Some(Component::ChangeDescriptor) => {
                self.pending_change_set.change_descriptor = None;
            },
            Some(Component::Network) => {
                self.pending_change_set.network = None;
            },
            Some(Component::Indexer) => {
                self.pending_change_set.indexer = empty_indexer();
            },
            Some(Component::TxGraph) => {
                self.pending_change_set.tx_graph = empty_tx_graph();
            },
            Some(Component::LocalChain) => {
                self.pending_change_set.local_chain = empty_local_chain();
            },
            None => {},
        }
        self.awaiting = None;
        assert(self@ == old(self)@.written());
        self.next()
    }

    /// Starts writing the next part of the pending changes.
    fn next(&mut self) -> (res: Result<PersistAction, PersistError>)
        requires
            old(self)@.awaiting is None,
            old(self)@.writable(),
        ensures
            (final(self)@, outcome_view(res)) == old(self)@.step(),
            final(self)@.consistent(),
    {
        let mut latest = match self.latest_change_set.take() {
            Some(latest) => latest,
            None => {
                return Err(PersistError::NotInitialized);
            },
        };
        let res = self.next_with(&mut latest);
        self.latest_change_set = Some(latest);
        res
    }

    /// Adds the next part of the pending changes to the stored state and starts writing it.
    fn next_with(&mut self, latest: &mut WalletChangeSet) -> (res: Result<
        PersistAction,
        PersistError,
    >)
        requires
            old(self)@.awaiting is None,
            (PersisterView { latest: Some(old(latest)@), ..old(self)@ }).writable(),
        ensures
            final(self)@.latest == old(self)@.latest,
            (PersisterView { latest: Some(final(latest)@), ..final(self)@ }).consistent(),
            ((PersisterView { latest: Some(final(latest)@), ..final(self)@ }), outcome_view(res))
                == (PersisterView { latest: Some(old(latest)@), ..old(self)@ }).step(),
    {
        // Check that no persisted data is ever overridden by changes that don't match the
        // descriptor, the change descriptor or the network.
        if let Some(descriptor) = &self.pending_change_set.descriptor {
            if text_conflicts(&latest.descriptor, &self.pending_change_set.descriptor) {
                return Err(PersistError::DescriptorMismatch);
            }
            let descriptor = descriptor.clone();
            latest.descriptor = Some(descriptor.clone());
            self.awaiting = Some(Component::Descriptor);
            return Ok(PersistAction::WriteDescriptor { descriptor });
        }
        if let Some(change_descriptor) = &self.pending_change_set.change_descriptor {
            if text_conflicts(
                &latest.change_descriptor,
                &self.pending_change_set.change_descriptor,
            ) {
                return Err(PersistError::ChangeDescriptorMismatch);
            }
            let change_descriptor = change_descriptor.clone();
            latest.change_descriptor = Some(change_descriptor.clone());
            self.awaiting = Some(Component::ChangeDescriptor);
            return Ok(PersistAction::WriteChangeDescriptor { change_descriptor });
        }
        if let Some(network) = self.pending_change_set.network {
            if network_conflicts(latest.network, Some(network)) {
                return Err(PersistError::NetworkMismatch);
            }
            latest.network = Some(network);
            self.awaiting = Some(Component::Network);
            return Ok(PersistAction::WriteNetwork { network });
        }
        // The parts that follow can be written separately, but the tip of the local chain says
        // from where to sync, so it comes last.
        if !indexer_is_empty(&self.pending_change_set.indexer) {
            proof {
                lemma_merged_agrees_with_second(
                    latest@.indexer.spk_cache,
                    self@.pending.indexer.spk_cache,
                );
            }
            merge_indexer(&mut latest.indexer, clone_indexer(&self.pending_change_set.indexer));
            proof {
                lemma_merged_twice(old(latest)@, self@.pending);
            }
            self.awaiting = Some(Component::Indexer);
            return Ok(PersistAction::WriteIndexer { indexer: clone_indexer(&latest.indexer) });
        }
        if !tx_graph_is_empty(&self.pending_change_set.tx_graph) {
            merge_tx_graph(&mut latest.tx_graph, clone_tx_graph(&self.pending_change_set.tx_graph));
            proof {
                lemma_merged_twice(old(latest)@, self@.pending);
            }
            self.awaiting = Some(Component::TxGraph);
            return Ok(PersistAction::WriteTxGraph { tx_graph: clone_tx_graph(&latest.tx_graph) });
        }
        if !local_chain_is_empty(&self.pending_change_set.local_chain) {
            merge_local_chain(
                &mut latest.local_chain,
                clone_local_chain(&self.pending_change_set.local_chain),
            );
            proof {
                lemma_merged_twice(old(latest)@, self@.pending);
            }
            self.awaiting = Some(Component::LocalChain);
            return Ok(
                PersistAction::WriteLocalChain {
                    local_chain: clone_local_chain(&latest.local_chain),
                },
            );
        }
        // Locked outpoints are not persisted, so they are dropped to let the pending changes drain.
        self.pending_change_set.locked_outpoints = empty_locked_outpoints();
        Ok(PersistAction::Done)
    }

    /// Starts initializing the persister: the stored state has to be read unless it has been read
    /// before.
    pub fn initialize(&self) -> (res: InitializeAction)
        ensures
            match self@.latest {
                Some(latest) => res matches InitializeAction::Ready { change_set }
                    && change_set@ == latest,
                None => res is ReadChangeSet,
            },
    {
        match &self.latest_change_set {
            Some(latest) => InitializeAction::Ready { change_set: latest.clone() },
            None => InitializeAction::ReadChangeSet,
        }
    }

    /// Takes the stored state, as it was read. Where nothing is stored, the state is empty.
    pub fn on_change_set_read(&mut self, read: Option<WalletChangeSet>) -> (res: WalletChangeSet)
        requires
            old(self)@.latest is None,
            old(self)@.consistent(),
        ensures
            res@ == match read {
                Some(stored) => stored@,
                None => WalletChangeSetView::empty(),
            },
            final(self)@ == old(self)@.initialized(res@),
            final(self)@.consistent(),
    {
        let change_set = match read {
            Some(stored) => stored,
            None => WalletChangeSet::default(),
        };
        self.latest_change_set = Some(change_set.clone());
        change_set
    }
}

/// Changes agree with what two others come to, which agree with each other, if and only if they
/// agree with both.
pub proof fn lemma_merged_agrees(
    latest: WalletChangeSetView,
    pending: WalletChangeSetView,
    change_set: WalletChangeSetView,
)
    requires
        pending.agrees(change_set),
    ensures
        latest.agrees(pending.merged(change_set)) <==> latest.agrees(pending) && latest.agrees(
            change_set,
        ),
{
    let stored = latest.indexer.spk_cache;
    let a = pending.indexer.spk_cache;
    let b = change_set.indexer.spk_cache;
    let both = all_scripts(a, b);
    assert forall|id: Seq<u8>, index: u32|
        #![trigger script_at(stored, id, index)]
        script_at(both, id, index) == first_of(
            script_at(a, id, index),
            script_at(b, id, index),
        ) by {}
    if latest.agrees(pending.merged(change_set)) {
        assert(scripts_agree(stored, a));
        assert(scripts_agree(stored, b));
    }
}

/// What two change sets come to agrees with the second one.
proof fn lemma_merged_agrees_with_second(
    a: Map<Seq<u8>, Map<u32, Seq<u8>>>,
    b: Map<Seq<u8>, Map<u32, Seq<u8>>>,
)
    requires
        scripts_agree(a, b),
    ensures
        scripts_agree(all_scripts(a, b), b),
{
    let both = all_scripts(a, b);
    assert forall|id: Seq<u8>, index: u32|
        #![trigger script_at(both, id, index)]
        script_at(both, id, index) is Some && script_at(b, id, index) is Some implies script_at(
        both,
        id,
        index,
    ) == script_at(b, id, index) by {}
}

} // verus!
