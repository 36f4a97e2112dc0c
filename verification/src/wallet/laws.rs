//! What holds of a wallet's changes on their way to the store.

use vstd::prelude::*;

use super::bdk::{
    all_scripts, chain_blocks, graph_anchors, graph_first_seen, graph_last_evicted,
    graph_last_seen, graph_txouts, graph_txs, last_revealed, lock_status, no_blocks, no_locks,
    script_at, spk_cache, IndexerView, TxGraphView,
};
use super::change_set::{WalletChangeSet, WalletChangeSetView};
use super::persist::{
    first_pending, lemma_merged_agrees, outcome_view, Component, PersistAction, PersistActionView,
    PersistError, PersisterView,
};
use crate::primitives::OutPoint;

verus! {

/// Scripts that are taken in twice come to the same as scripts that are taken in once.
proof fn lemma_all_scripts_twice(
    a: Map<Seq<u8>, Map<u32, Seq<u8>>>,
    b: Map<Seq<u8>, Map<u32, Seq<u8>>>,
)
    ensures
        all_scripts(all_scripts(a, b), b) == all_scripts(a, b),
{
    let once = all_scripts(a, b);
    let twice = all_scripts(once, b);
    assert forall|id: Seq<u8>| once.contains_key(id) implies #[trigger] twice[id] == once[id] by {
        assert(twice[id] =~= once[id]);
    }
    assert(twice =~= once);
}

/// Merging the same changes again changes nothing, so a write can be repeated.
pub proof fn lemma_merged_twice(a: WalletChangeSetView, b: WalletChangeSetView)
    ensures
        a.merged(b).merged(b) == a.merged(b),
{
    let once = a.merged(b);
    let twice = once.merged(b);
    lemma_all_scripts_twice(a.indexer.spk_cache, b.indexer.spk_cache);
    assert(twice.indexer =~= once.indexer);
    assert(twice.tx_graph =~= once.tx_graph);
    assert(twice =~= once);
}

/// Merging no changes changes nothing.
pub proof fn lemma_merged_with_empty(a: WalletChangeSetView)
    ensures
        a.merged(WalletChangeSetView::empty()) == a,
        WalletChangeSetView::empty().merged(a) == a,
{
    let right = a.merged(WalletChangeSetView::empty());
    let left = WalletChangeSetView::empty().merged(a);
    assert(right.indexer =~= a.indexer);
    assert(right.tx_graph =~= a.tx_graph);
    assert(right =~= a);
    assert(left.indexer =~= a.indexer);
    assert(left.tx_graph =~= a.tx_graph);
    assert(left =~= a);
}

/// It does not matter whether changes are first gathered and then merged, or merged one after the
/// other.
pub proof fn lemma_merged_in_any_grouping(
    a: WalletChangeSetView,
    b: WalletChangeSetView,
    c: WalletChangeSetView,
)
    ensures
        a.merged(b).merged(c) == a.merged(b.merged(c)),
{
    let left = a.merged(b).merged(c);
    let right = a.merged(b.merged(c));
    assert(left.indexer.spk_cache =~= right.indexer.spk_cache) by {
        assert forall|id: Seq<u8>|
            left.indexer.spk_cache.contains_key(id) implies #[trigger] left.indexer.spk_cache[id]
            == right.indexer.spk_cache[id] by {
            assert(left.indexer.spk_cache[id] =~= right.indexer.spk_cache[id]);
        }
    }
    assert(left.indexer =~= right.indexer);
    assert(left.tx_graph =~= right.tx_graph);
    assert(left =~= right);
}

/// The place of a part in the order of writing.
pub open spec fn rank(component: Component) -> nat {
    match component {
        Component::Descriptor => 0,
        Component::ChangeDescriptor => 1,
        Component::Network => 2,
        Component::Indexer => 3,
        Component::TxGraph => 4,
        Component::LocalChain => 5,
    }
}

/// A bound on the number of writes that pending changes still take.
pub open spec fn writes_left(pending: WalletChangeSetView) -> nat {
    match first_pending(pending) {
        Some(component) => (6 - rank(component)) as nat,
        None => 0,
    }
}

impl PersisterView {
    /// Everything that the persister knows: the stored state with the pending changes, without the
    /// locks, which are not stored.
    pub open spec fn total(self) -> WalletChangeSetView {
        let all = match self.latest {
            Some(latest) => latest.merged(self.pending),
            None => self.pending,
        };
        WalletChangeSetView { locked_outpoints: no_locks(), ..all }
    }

    /// How persisting ends where every write succeeds.
    pub open spec fn finish(self) -> (PersisterView, Result<(), PersistError>)
        decreases writes_left(self.pending),
    {
        let (next, outcome) = self.step();
        match outcome {
            Err(e) => (next, Err(e)),
            Ok(PersistActionView::Done) => (next, Ok(())),
            Ok(_) => next.written().finish(),
        }
    }
}

/// Starting to write a part and having written it lose nothing.
pub proof fn lemma_nothing_lost(state: PersisterView)
    requires
        state.recorded(),
    ensures
        state.step().0.total() == state.total(),
        state.written().total() == state.total(),
{
    if let Some(latest) = state.latest {
        lemma_merged_twice(latest, state.pending);
        lemma_merged_with_empty(latest);
        assert(state.step().0.total() =~= state.total());
        assert(state.written().total() =~= state.total());
    }
}

/// Changes that are taken in are part of everything that is known from there on, on top of what was
/// known before.
pub proof fn lemma_stash_adds(state: PersisterView, change_set: WalletChangeSetView)
    ensures
        state.stashed(change_set).total() == (WalletChangeSetView {
            locked_outpoints: no_locks(),
            ..state.total().merged(change_set)
        }),
{
    if let Some(latest) = state.latest {
        lemma_merged_in_any_grouping(latest, state.pending, change_set);
    }
}

/// Stashing changes and then persisting others is the same as persisting both together: it asks for
/// the same write, meets the same error, and leaves the same state. The same holds of stashing.
pub proof fn lemma_stash_then_persist(
    state: PersisterView,
    a: WalletChangeSetView,
    b: WalletChangeSetView,
)
    ensures
        state.stashed(a).persisting(b) == state.persisting(a.merged(b)),
        state.stashed(a).stashed(b) == state.stashed(a.merged(b)),
{
    lemma_merged_in_any_grouping(state.pending, a, b);
}

/// Changes that agree with each other can be stashed and persisted one after the other if and only
/// if they can be persisted together.
pub proof fn lemma_stash_then_persist_is_possible(
    state: PersisterView,
    a: WalletChangeSetView,
    b: WalletChangeSetView,
)
    requires
        a.agrees(b),
    ensures
        state.takes(a) && state.stashed(a).takes(b) <==> state.takes(a.merged(b)),
        state.stashed(a).stashed(b).writable() <==> state.stashed(a.merged(b)).writable(),
{
    lemma_stash_then_persist(state, a, b);
    lemma_merged_agrees(state.pending, a, b);
    if state.takes(a) {
        lemma_merged_agrees(b, state.pending, a);
        assert(state.stashed(a).takes(b) <==> b.agrees(state.pending.merged(a)));
        assert(b.agrees(a));
        assert(b.agrees(state.pending) <==> state.pending.agrees(b));
    }
}

/// An error leaves the stored state and the pending changes as they are.
pub proof fn lemma_error_changes_nothing(state: PersisterView)
    requires
        state.step().1 is Err,
    ensures
        state.step().0.latest == state.latest,
        state.step().0.pending == state.pending,
{
}

/// Descriptors and the network are never overwritten once they are stored.
pub proof fn lemma_identity_kept(state: PersisterView)
    requires
        state.latest is Some,
    ensures
        ({
            let before = state.latest->0;
            let after = state.step().0.latest->0;
            &&& state.step().0.latest is Some
            &&& before.descriptor is Some ==> after.descriptor == before.descriptor
            &&& before.change_descriptor is Some ==> after.change_descriptor
                == before.change_descriptor
            &&& before.network is Some ==> after.network == before.network
        }),
{
}

/// A write that failed is asked for again, with the same content, by the next call.
pub proof fn lemma_failed_write_repeated(state: PersisterView)
    requires
        state.step().1 is Ok,
        state.step().1 != Ok::<PersistActionView, PersistError>(PersistActionView::Done),
    ensures
        state.step().0.persisting(WalletChangeSetView::empty()) == state.step(),
{
    let latest = state.latest->0;
    let (writing, outcome) = state.step();
    lemma_merged_with_empty(writing.pending);
    lemma_merged_twice(latest, state.pending);
    assert(writing.stashed(WalletChangeSetView::empty()) =~= writing.idle());
    assert(writing.pending != WalletChangeSetView::empty());
}

/// The parts are written in a fixed order, each at most once, the blocks last.
pub proof fn lemma_write_order(state: PersisterView)
    requires
        state.recorded(),
        state.awaiting is Some,
        state.written().step().0.awaiting is Some,
    ensures
        rank(state.awaiting->0) < rank(state.written().step().0.awaiting->0),
{
}

/// Once persisting is done, nothing is pending.
pub proof fn lemma_done_is_drained(state: PersisterView)
    requires
        state.step().1 == Ok::<PersistActionView, PersistError>(PersistActionView::Done),
    ensures
        state.step().0.pending == WalletChangeSetView::empty(),
        state.step().0.latest == state.latest,
{
    assert(state.step().0.pending =~= WalletChangeSetView::empty());
}

/// Where every write succeeds, persisting ends well if and only if the stored state has been read
/// and the pending changes fit the wallet's identity. Then nothing is pending, and what is stored
/// is everything that was known before.
pub proof fn lemma_all_writes_succeed(state: PersisterView)
    requires
        state.awaiting is None,
    ensures
        state.finish().1 is Ok <==> state.latest is Some && !state.mismatched(),
        state.finish().1 is Ok ==> {
            &&& state.finish().0.pending == WalletChangeSetView::empty()
            &&& state.finish().0.latest == Some(
                WalletChangeSetView {
                    locked_outpoints: state.latest->0.locked_outpoints,
                    ..state.total()
                },
            )
        },
    decreases writes_left(state.pending),
{
    let (next, outcome) = state.step();
    match outcome {
        Err(e) => {},
        Ok(PersistActionView::Done) => {
            lemma_done_is_drained(state);
            let latest = state.latest->0;
            lemma_merged_with_empty(latest);
            let drained = WalletChangeSetView {
                locked_outpoints: state.pending.locked_outpoints,
                ..WalletChangeSetView::empty()
            };
            assert(state.pending =~= drained);
            let stored = WalletChangeSetView {
                locked_outpoints: latest.locked_outpoints,
                ..state.total()
            };
            let same = latest.merged(WalletChangeSetView::empty());
            assert(state.total().indexer == same.indexer);
            assert(state.total().tx_graph == same.tx_graph);
            assert(state.total().local_chain == same.local_chain);
            assert(stored =~= latest);
        },
        Ok(_) => {
            lemma_step_recorded(state);
            lemma_nothing_lost(state);
            lemma_nothing_lost(next);
            lemma_all_writes_succeed(next.written());
        },
    }
}

/// A step only writes a part that the stored state holds.
proof fn lemma_step_recorded(state: PersisterView)
    ensures
        state.step().0.recorded(),
{
    if let Some(latest) = state.latest {
        lemma_merged_twice(latest, state.pending);
    }
}

/// What can happen to a persister: the stored state is read, it is given changes to keep, it is
/// given changes to write, or a write that it asked for succeeds. A write that fails or is abandoned
/// is not followed by the last.
#[verifier::ext_equal]
pub enum PersisterEvent {
    Read { stored: WalletChangeSetView },
    Stash { change_set: WalletChangeSetView },
    Persist { change_set: WalletChangeSetView },
    Written,
}

impl PersisterView {
    /// Whether the event can happen: the stored state is read once, and a write succeeds while a
    /// part is being written.
    pub open spec fn admits(self, event: PersisterEvent) -> bool {
        match event {
            PersisterEvent::Read { .. } => self.latest is None,
            PersisterEvent::Stash { .. } => true,
            PersisterEvent::Persist { .. } => true,
            PersisterEvent::Written => self.awaiting is Some,
        }
    }

    /// After the event.
    pub open spec fn after(self, event: PersisterEvent) -> PersisterView {
        match event {
            PersisterEvent::Read { stored } => self.initialized(stored),
            PersisterEvent::Stash { change_set } => self.stashed(change_set),
            PersisterEvent::Persist { change_set } => self.persisting(change_set).0,
            PersisterEvent::Written => self.written().step().0,
        }
    }

    /// Whether the events can happen one after the other.
    pub open spec fn admits_all(self, events: Seq<PersisterEvent>) -> bool
        decreases events.len(),
    {
        events.len() > 0 ==> self.admits(events[0]) && self.after(events[0]).admits_all(
            events.drop_first(),
        )
    }

    /// After the events, one after the other.
    pub open spec fn after_all(self, events: Seq<PersisterEvent>) -> PersisterView
        decreases events.len(),
    {
        if events.len() == 0 {
            self
        } else {
            self.after(events[0]).after_all(events.drop_first())
        }
    }
}

/// What is known with what an event brings, without the locks. Changes come on top of what was
/// known, which in turn comes on top of the stored state once that is read.
pub open spec fn with_event(known: WalletChangeSetView, event: PersisterEvent) -> WalletChangeSetView {
    let all = match event {
        PersisterEvent::Read { stored } => stored.merged(known),
        PersisterEvent::Stash { change_set } => known.merged(change_set),
        PersisterEvent::Persist { change_set } => known.merged(change_set),
        PersisterEvent::Written => known,
    };
    WalletChangeSetView { locked_outpoints: no_locks(), ..all }
}

/// What is known with what all events bring, one after the other, without the locks.
pub open spec fn with_events(
    known: WalletChangeSetView,
    events: Seq<PersisterEvent>,
) -> WalletChangeSetView
    decreases events.len(),
{
    if events.len() == 0 {
        known
    } else {
        with_events(with_event(known, events[0]), events.drop_first())
    }
}

/// Whatever happens, in whatever order, and whichever writes fail: the stored state with the
/// pending changes is always everything that was ever read or handed over.
pub proof fn lemma_nothing_is_ever_lost(state: PersisterView, events: Seq<PersisterEvent>)
    requires
        state.recorded(),
        state.admits_all(events),
    ensures
        state.after_all(events).recorded(),
        state.after_all(events).total() == with_events(state.total(), events),
    decreases events.len(),
{
    if events.len() > 0 {
        lemma_event_loses_nothing(state, events[0]);
        lemma_nothing_is_ever_lost(state.after(events[0]), events.drop_first());
    }
}

/// One event adds what it brings to what is known, and loses nothing.
proof fn lemma_event_loses_nothing(state: PersisterView, event: PersisterEvent)
    requires
        state.recorded(),
        state.admits(event),
    ensures
        state.after(event).recorded(),
        state.after(event).total() == with_event(state.total(), event),
{
    match event {
        PersisterEvent::Read { stored } => {
            assert(state.after(event).total() =~= with_event(state.total(), event));
        },
        PersisterEvent::Stash { change_set } => {
            lemma_stash_adds(state, change_set);
        },
        PersisterEvent::Persist { change_set } => {
            let stashed = state.stashed(change_set);
            lemma_stash_adds(state, change_set);
            lemma_step_recorded(stashed);
            lemma_nothing_lost(stashed);
        },
        PersisterEvent::Written => {
            lemma_nothing_lost(state);
            lemma_step_recorded(state.written());
            lemma_nothing_lost(state.written());
        },
    }
}

/// Where nothing had been read yet, what is known once the stored state is read is the stored state
/// merged with what was pending, without the locks.
pub proof fn lemma_read_adds_below(state: PersisterView, stored: WalletChangeSetView)
    requires
        state.latest is None,
    ensures
        state.initialized(stored).total() == (WalletChangeSetView {
            locked_outpoints: no_locks(),
            ..stored.merged(state.pending)
        }),
        state.initialized(stored).pending == state.pending,
{
}

/// What is written of a part is all of that part of the stored state, as it is once the step is
/// taken: what was stored and what is pending, and not one of them alone.
pub proof fn lemma_whole_parts_are_written(state: PersisterView)
    requires
        state.step().1 is Ok,
    ensures
        state.step().0.latest matches Some(latest) && match state.step().1->Ok_0 {
            PersistActionView::Done => true,
            PersistActionView::WriteDescriptor { descriptor } => latest.descriptor == Some(
                descriptor,
            ),
            PersistActionView::WriteChangeDescriptor { change_descriptor } =>
                latest.change_descriptor == Some(change_descriptor),
            PersistActionView::WriteNetwork { network } => latest.network == Some(network),
            PersistActionView::WriteIndexer { indexer } => latest.indexer == indexer,
            PersistActionView::WriteTxGraph { tx_graph } => latest.tx_graph == tx_graph,
            PersistActionView::WriteLocalChain { local_chain } => latest.local_chain
                == local_chain,
        },
{
}

/// What is written of a part holds all that was stored of it and all that is pending of it.
pub proof fn lemma_written_part_holds_stored_and_pending(state: PersisterView)
    requires
        state.latest is Some,
        state.step().1 is Ok,
    ensures
        ({
            let stored = state.latest->0;
            let pending = state.pending;
            match state.step().1->Ok_0 {
                PersistActionView::Done => true,
                PersistActionView::WriteDescriptor { descriptor } => {
                    &&& pending.descriptor == Some(descriptor)
                    &&& stored.descriptor is Some ==> stored.descriptor == Some(descriptor)
                },
                PersistActionView::WriteChangeDescriptor { change_descriptor } => {
                    &&& pending.change_descriptor == Some(change_descriptor)
                    &&& stored.change_descriptor is Some ==> stored.change_descriptor == Some(
                        change_descriptor,
                    )
                },
                PersistActionView::WriteNetwork { network } => {
                    &&& pending.network == Some(network)
                    &&& stored.network is Some ==> stored.network == Some(network)
                },
                PersistActionView::WriteIndexer { indexer } => {
                    &&& forall|id: Seq<u8>| #[trigger]
                        indexer.last_revealed.contains_key(id)
                            <==> stored.indexer.last_revealed.contains_key(id)
                            || pending.indexer.last_revealed.contains_key(id)
                    &&& forall|id: Seq<u8>, index: u32| #[trigger]
                        script_at(indexer.spk_cache, id, index) is Some <==> script_at(
                            stored.indexer.spk_cache,
                            id,
                            index,
                        ) is Some || script_at(pending.indexer.spk_cache, id, index) is Some
                },
                PersistActionView::WriteTxGraph { tx_graph } => {
                    &&& forall|tx: Seq<u8>| #[trigger]
                        tx_graph.txs.contains(tx) <==> stored.tx_graph.txs.contains(tx)
                            || pending.tx_graph.txs.contains(tx)
                    &&& forall|a: (u32, Seq<u8>, u64, Seq<u8>)| #[trigger]
                        tx_graph.anchors.contains(a) <==> stored.tx_graph.anchors.contains(a)
                            || pending.tx_graph.anchors.contains(a)
                    &&& forall|outpoint: OutPoint| #[trigger]
                        tx_graph.txouts.contains_key(outpoint)
                            <==> stored.tx_graph.txouts.contains_key(outpoint)
                            || pending.tx_graph.txouts.contains_key(outpoint)
                },
                PersistActionView::WriteLocalChain { local_chain } => {
                    &&& forall|height: u32| #[trigger]
                        local_chain.contains_key(height) <==> stored.local_chain.contains_key(
                            height,
                        ) || pending.local_chain.contains_key(height)
                    &&& forall|height: u32|
                        pending.local_chain.contains_key(height)
                            ==> #[trigger] local_chain[height] == pending.local_chain[height]
                    &&& forall|height: u32|
                        stored.local_chain.contains_key(height)
                            && !pending.local_chain.contains_key(height)
                            ==> #[trigger] local_chain[height] == stored.local_chain[height]
                },
            }
        }),
{
    if let Ok(PersistActionView::WriteIndexer { indexer }) = state.step().1 {
        lemma_merged_scripts(state.latest->0.indexer.spk_cache, state.pending.indexer.spk_cache);
    }
}

/// A step touches one part of the stored state at most, the one that is written, and of the pending
/// changes at most the locks.
pub proof fn lemma_step_touches_one_part(state: PersisterView)
    requires
        state.latest is Some,
    ensures
        ({
            let before = state.latest->0;
            let after = state.step().0.latest->0;
            let outcome = state.step().1;
            &&& state.step().0.latest is Some
            &&& after.locked_outpoints == before.locked_outpoints
            &&& !(outcome matches Ok(PersistActionView::WriteDescriptor { .. }))
                ==> after.descriptor == before.descriptor
            &&& !(outcome matches Ok(PersistActionView::WriteChangeDescriptor { .. }))
                ==> after.change_descriptor == before.change_descriptor
            &&& !(outcome matches Ok(PersistActionView::WriteNetwork { .. })) ==> after.network
                == before.network
            &&& !(outcome matches Ok(PersistActionView::WriteIndexer { .. })) ==> after.indexer
                == before.indexer
            &&& !(outcome matches Ok(PersistActionView::WriteTxGraph { .. })) ==> after.tx_graph
                == before.tx_graph
            &&& !(outcome matches Ok(PersistActionView::WriteLocalChain { .. }))
                ==> after.local_chain == before.local_chain
            &&& state.step().0.pending == (WalletChangeSetView {
                locked_outpoints: state.step().0.pending.locked_outpoints,
                ..state.pending
            })
            &&& outcome != Ok::<PersistActionView, PersistError>(PersistActionView::Done)
                ==> state.step().0.pending == state.pending
            &&& outcome == Ok::<PersistActionView, PersistError>(PersistActionView::Done)
                ==> state.step().0.pending.locked_outpoints.dom() == Set::<OutPoint>::empty()
        }),
{
}

/// A part is written exactly when it is pending and no part before it is: first the descriptors,
/// then the network, the indexer, the transactions and the blocks. There is nothing to write exactly
/// when no part is pending.
pub proof fn lemma_parts_wait_for_those_before(state: PersisterView)
    requires
        state.latest is Some,
        !state.latest->0.mismatches(state.pending),
    ensures
        ({
            let outcome = state.step().1;
            let pending = state.pending;
            let identified = pending.descriptor is None && pending.change_descriptor is None
                && pending.network is None;
            let indexed = pending.indexer.last_revealed.dom() == Set::<Seq<u8>>::empty()
                && pending.indexer.spk_cache.dom() == Set::<Seq<u8>>::empty();
            let graphed = pending.tx_graph.txs == Set::<Seq<u8>>::empty()
                && pending.tx_graph.txouts.dom() == Set::<OutPoint>::empty()
                && pending.tx_graph.anchors == Set::<(u32, Seq<u8>, u64, Seq<u8>)>::empty()
                && pending.tx_graph.first_seen.dom() == Set::<Seq<u8>>::empty()
                && pending.tx_graph.last_seen.dom() == Set::<Seq<u8>>::empty()
                && pending.tx_graph.last_evicted.dom() == Set::<Seq<u8>>::empty();
            let chained = pending.local_chain.dom() == Set::<u32>::empty();
            &&& outcome is Ok
            &&& outcome->Ok_0 is WriteDescriptor <==> pending.descriptor is Some
            &&& outcome->Ok_0 is WriteChangeDescriptor <==> pending.descriptor is None
                && pending.change_descriptor is Some
            &&& outcome->Ok_0 is WriteNetwork <==> pending.descriptor is None
                && pending.change_descriptor is None && pending.network is Some
            &&& outcome->Ok_0 is WriteIndexer <==> identified && !indexed
            &&& outcome->Ok_0 is WriteTxGraph <==> identified && indexed && !graphed
            &&& outcome->Ok_0 is WriteLocalChain <==> identified && indexed && graphed && !chained
            &&& outcome->Ok_0 is Done <==> identified && indexed && graphed && chained
        }),
{
    let pending = state.pending;
    let empty_indexer = IndexerView::empty();
    let empty_graph = TxGraphView::empty();
    assert(pending.indexer.last_revealed.dom() == Set::<Seq<u8>>::empty()
        ==> pending.indexer.last_revealed =~= empty_indexer.last_revealed);
    assert(pending.indexer.spk_cache.dom() == Set::<Seq<u8>>::empty()
        ==> pending.indexer.spk_cache =~= empty_indexer.spk_cache);
    assert(pending.tx_graph.txouts.dom() == Set::<OutPoint>::empty()
        ==> pending.tx_graph.txouts =~= empty_graph.txouts);
    assert(pending.tx_graph.first_seen.dom() == Set::<Seq<u8>>::empty()
        ==> pending.tx_graph.first_seen =~= empty_graph.first_seen);
    assert(pending.tx_graph.last_seen.dom() == Set::<Seq<u8>>::empty()
        ==> pending.tx_graph.last_seen =~= empty_graph.last_seen);
    assert(pending.tx_graph.last_evicted.dom() == Set::<Seq<u8>>::empty()
        ==> pending.tx_graph.last_evicted =~= empty_graph.last_evicted);
    assert(pending.local_chain.dom() == Set::<u32>::empty() ==> pending.local_chain
        =~= no_blocks());
}

/// Changes are refused exactly when the stored state has not been read, or when the next identity to
/// be written is not the one that is stored; the error says which.
pub proof fn lemma_refusals_name_their_cause(state: PersisterView)
    ensures
        ({
            let outcome = state.step().1;
            let pending = state.pending;
            &&& outcome == Err::<PersistActionView, PersistError>(PersistError::NotInitialized)
                <==> state.latest is None
            &&& outcome == Err::<PersistActionView, PersistError>(PersistError::DescriptorMismatch)
                <==> (state.latest matches Some(stored) && pending.descriptor is Some
                && stored.descriptor is Some && stored.descriptor != pending.descriptor)
            &&& outcome == Err::<PersistActionView, PersistError>(
                PersistError::ChangeDescriptorMismatch,
            ) <==> (state.latest matches Some(stored) && pending.descriptor is None
                && pending.change_descriptor is Some && stored.change_descriptor is Some
                && stored.change_descriptor != pending.change_descriptor)
            &&& outcome == Err::<PersistActionView, PersistError>(PersistError::NetworkMismatch)
                <==> (state.latest matches Some(stored) && pending.descriptor is None
                && pending.change_descriptor is None && pending.network is Some && stored.network
                is Some && stored.network != pending.network)
        }),
{
}

/// The part that is noted as being written is the one that the step asks to be written.
pub proof fn lemma_noted_part_is_the_one_asked_for(state: PersisterView)
    ensures
        state.step().0.awaiting == match state.step().1 {
            Err(_) => None,
            Ok(PersistActionView::Done) => None,
            Ok(PersistActionView::WriteDescriptor { .. }) => Some(Component::Descriptor),
            Ok(PersistActionView::WriteChangeDescriptor { .. }) => Some(
                Component::ChangeDescriptor,
            ),
            Ok(PersistActionView::WriteNetwork { .. }) => Some(Component::Network),
            Ok(PersistActionView::WriteIndexer { .. }) => Some(Component::Indexer),
            Ok(PersistActionView::WriteTxGraph { .. }) => Some(Component::TxGraph),
            Ok(PersistActionView::WriteLocalChain { .. }) => Some(Component::LocalChain),
        },
{
}

/// Once a part has been written it is no longer pending. Every other pending part stays, the locks
/// too, and so does the stored state.
pub proof fn lemma_written_clears_one_part(state: PersisterView)
    ensures
        ({
            let before = state.pending;
            let after = state.written().pending;
            &&& state.written().latest == state.latest
            &&& state.written().awaiting is None
            &&& after.locked_outpoints == before.locked_outpoints
            &&& after.descriptor == if state.awaiting == Some(Component::Descriptor) {
                None
            } else {
                before.descriptor
            }
            &&& after.change_descriptor == if state.awaiting == Some(Component::ChangeDescriptor) {
                None
            } else {
                before.change_descriptor
            }
            &&& after.network == if state.awaiting == Some(Component::Network) {
                None
            } else {
                before.network
            }
            &&& state.awaiting != Some(Component::Indexer) ==> after.indexer == before.indexer
            &&& state.awaiting == Some(Component::Indexer) ==> after.indexer.last_revealed.dom()
                == Set::<Seq<u8>>::empty() && after.indexer.spk_cache.dom() == Set::<
                Seq<u8>,
            >::empty()
            &&& state.awaiting != Some(Component::TxGraph) ==> after.tx_graph == before.tx_graph
            &&& state.awaiting == Some(Component::TxGraph) ==> {
                &&& after.tx_graph.txs == Set::<Seq<u8>>::empty()
                &&& after.tx_graph.txouts.dom() == Set::<OutPoint>::empty()
                &&& after.tx_graph.anchors == Set::<(u32, Seq<u8>, u64, Seq<u8>)>::empty()
                &&& after.tx_graph.first_seen.dom() == Set::<Seq<u8>>::empty()
                &&& after.tx_graph.last_seen.dom() == Set::<Seq<u8>>::empty()
                &&& after.tx_graph.last_evicted.dom() == Set::<Seq<u8>>::empty()
            }
            &&& state.awaiting != Some(Component::LocalChain) ==> after.local_chain
                == before.local_chain
            &&& state.awaiting == Some(Component::LocalChain) ==> after.local_chain.dom() == Set::<
                u32,
            >::empty()
        }),
{
}

/// Stashing and reading each change one thing: what is pending, and what is stored.
pub proof fn lemma_stash_and_read_change_one_thing(
    state: PersisterView,
    change_set: WalletChangeSetView,
)
    ensures
        state.stashed(change_set).latest == state.latest,
        state.stashed(change_set).pending == state.pending.merged(change_set),
        state.stashed(change_set).awaiting is None,
        state.initialized(change_set).latest == Some(change_set),
        state.initialized(change_set).pending == state.pending,
        state.initialized(change_set).awaiting == state.awaiting,
{
}

/// Persisting takes the changes in and then takes a step, unless nothing at all is pending, in which
/// case it is done without one, whether the stored state has been read or not.
pub proof fn lemma_persisting_is_stashing_and_a_step(
    state: PersisterView,
    change_set: WalletChangeSetView,
)
    ensures
        state.pending.merged(change_set) != WalletChangeSetView::empty() ==> state.persisting(
            change_set,
        ) == state.stashed(change_set).step(),
        state.pending.merged(change_set) == WalletChangeSetView::empty() ==> state.persisting(
            change_set,
        ) == (state.stashed(change_set), Ok::<PersistActionView, PersistError>(
            PersistActionView::Done,
        )),
{
}

/// Changes can be taken in exactly if they agree with the pending ones. What is pending can be
/// written exactly if nothing has been read, if it is refused for the wallet's identity, or if it
/// agrees with what is stored.
pub proof fn lemma_what_can_be_taken_in_and_written(
    state: PersisterView,
    change_set: WalletChangeSetView,
)
    ensures
        state.takes(change_set) <==> state.pending.agrees(change_set),
        state.writable() <==> match state.latest {
            None => true,
            Some(latest) => latest.mismatches(state.pending) || latest.agrees(state.pending),
        },
{
}

/// While nothing is being written a persister is consistent. While something is, it is the first
/// pending part, the stored state has it already, and what is pending can be written.
pub proof fn lemma_consistent_while_writing(state: PersisterView)
    ensures
        state.awaiting is None ==> state.consistent(),
        state.consistent() ==> (state.awaiting matches Some(component) ==> {
            &&& state.latest is Some
            &&& first_pending(state.pending) == Some(component)
            &&& state.latest->0.mismatches(state.pending) || state.latest->0.agrees(state.pending)
            &&& component is Descriptor ==> state.latest->0.descriptor == state.pending.descriptor
            &&& component is ChangeDescriptor ==> state.latest->0.change_descriptor
                == state.pending.change_descriptor
            &&& component is Network ==> state.latest->0.network == state.pending.network
            &&& component is TxGraph ==> state.pending.tx_graph.txs.subset_of(
                state.latest->0.tx_graph.txs,
            )
            &&& component is LocalChain ==> state.pending.local_chain.submap_of(
                state.latest->0.local_chain,
            )
        }),
{
    if state.consistent() && state.awaiting is Some {
        let latest = state.latest->0;
        let merged = latest.merged(state.pending);
        if state.awaiting->0 is TxGraph {
            assert(merged.tx_graph.txs == latest.tx_graph.txs);
            assert forall|tx: Seq<u8>| state.pending.tx_graph.txs.contains(tx) implies
                latest.tx_graph.txs.contains(tx) by {
                assert(merged.tx_graph.txs.contains(tx));
            }
        }
        if state.awaiting->0 is LocalChain {
            assert forall|height: u32| #[trigger]
                state.pending.local_chain.contains_key(height) implies
                latest.local_chain.contains_key(height) && latest.local_chain[height]
                == state.pending.local_chain[height] by {
                assert(merged.local_chain.contains_key(height));
            }
        }
    }
}

/// No changes are none of any kind.
pub proof fn lemma_empty_holds_nothing(changes: WalletChangeSetView)
    ensures
        changes == WalletChangeSetView::empty() <==> {
            &&& changes.descriptor is None
            &&& changes.change_descriptor is None
            &&& changes.network is None
            &&& forall|height: u32| !changes.local_chain.contains_key(height)
            &&& forall|outpoint: OutPoint| !changes.locked_outpoints.contains_key(outpoint)
            &&& forall|id: Seq<u8>| !changes.indexer.last_revealed.contains_key(id)
            &&& forall|id: Seq<u8>| !changes.indexer.spk_cache.contains_key(id)
            &&& forall|tx: Seq<u8>| !changes.tx_graph.txs.contains(tx)
            &&& forall|outpoint: OutPoint| !changes.tx_graph.txouts.contains_key(outpoint)
            &&& forall|a: (u32, Seq<u8>, u64, Seq<u8>)| !changes.tx_graph.anchors.contains(a)
            &&& forall|id: Seq<u8>| !changes.tx_graph.first_seen.contains_key(id)
            &&& forall|id: Seq<u8>| !changes.tx_graph.last_seen.contains_key(id)
            &&& forall|id: Seq<u8>| !changes.tx_graph.last_evicted.contains_key(id)
        },
{
    let empty = WalletChangeSetView::empty();
    if (forall|height: u32| !changes.local_chain.contains_key(height)) {
        assert(changes.local_chain =~= empty.local_chain);
    }
    if (forall|outpoint: OutPoint| !changes.locked_outpoints.contains_key(outpoint)) {
        assert(changes.locked_outpoints =~= empty.locked_outpoints);
    }
    if (forall|id: Seq<u8>| !changes.indexer.last_revealed.contains_key(id)) {
        assert(changes.indexer.last_revealed =~= empty.indexer.last_revealed);
    }
    if (forall|id: Seq<u8>| !changes.indexer.spk_cache.contains_key(id)) {
        assert(changes.indexer.spk_cache =~= empty.indexer.spk_cache);
    }
    if (forall|tx: Seq<u8>| !changes.tx_graph.txs.contains(tx)) {
        assert(changes.tx_graph.txs =~= empty.tx_graph.txs);
    }
    if (forall|outpoint: OutPoint| !changes.tx_graph.txouts.contains_key(outpoint)) {
        assert(changes.tx_graph.txouts =~= empty.tx_graph.txouts);
    }
    if (forall|a: (u32, Seq<u8>, u64, Seq<u8>)| !changes.tx_graph.anchors.contains(a)) {
        assert(changes.tx_graph.anchors =~= empty.tx_graph.anchors);
    }
    if (forall|id: Seq<u8>| !changes.tx_graph.first_seen.contains_key(id)) {
        assert(changes.tx_graph.first_seen =~= empty.tx_graph.first_seen);
    }
    if (forall|id: Seq<u8>| !changes.tx_graph.last_seen.contains_key(id)) {
        assert(changes.tx_graph.last_seen =~= empty.tx_graph.last_seen);
    }
    if (forall|id: Seq<u8>| !changes.tx_graph.last_evicted.contains_key(id)) {
        assert(changes.tx_graph.last_evicted =~= empty.tx_graph.last_evicted);
    }
}

/// The scripts of two caches together: each script of the second, and each of the first whose index
/// has none in the second.
proof fn lemma_merged_scripts(
    a: Map<Seq<u8>, Map<u32, Seq<u8>>>,
    b: Map<Seq<u8>, Map<u32, Seq<u8>>>,
)
    ensures
        forall|id: Seq<u8>, index: u32| #[trigger]
            script_at(all_scripts(a, b), id, index) == match script_at(b, id, index) {
                Some(script) => Some(script),
                None => script_at(a, id, index),
            },
{
}

/// Merging sets no identity that is set already, and sets each one that is not.
pub proof fn lemma_merging_keeps_identities(a: WalletChangeSetView, b: WalletChangeSetView)
    ensures
        a.descriptor is Some ==> a.merged(b).descriptor == a.descriptor,
        a.descriptor is None ==> a.merged(b).descriptor == b.descriptor,
        a.change_descriptor is Some ==> a.merged(b).change_descriptor == a.change_descriptor,
        a.change_descriptor is None ==> a.merged(b).change_descriptor == b.change_descriptor,
        a.network is Some ==> a.merged(b).network == a.network,
        a.network is None ==> a.merged(b).network == b.network,
{
}

/// Merging revealed indices keeps, of each descriptor, the greater index; merging scripts keeps all
/// of them, and of two for one index the later one.
pub proof fn lemma_merging_indices_never_goes_back(
    a: WalletChangeSetView,
    b: WalletChangeSetView,
    id: Seq<u8>,
    index: u32,
)
    ensures
        ({
            let first = a.indexer.last_revealed;
            let second = b.indexer.last_revealed;
            let both = a.merged(b).indexer.last_revealed;
            &&& both.contains_key(id) <==> first.contains_key(id) || second.contains_key(id)
            &&& first.contains_key(id) ==> both[id] >= first[id]
            &&& second.contains_key(id) ==> both[id] >= second[id]
            &&& both.contains_key(id) ==> (first.contains_key(id) && both[id] == first[id]) || (
            second.contains_key(id) && both[id] == second[id])
        }),
        ({
            let first = a.indexer.spk_cache;
            let second = b.indexer.spk_cache;
            let both = a.merged(b).indexer.spk_cache;
            &&& both.contains_key(id) <==> first.contains_key(id) || second.contains_key(id)
            &&& second.contains_key(id) && second[id].contains_key(index)
                ==> both[id].contains_key(index) && both[id][index] == second[id][index]
            &&& first.contains_key(id) && first[id].contains_key(index) && !(second.contains_key(id)
                && second[id].contains_key(index)) ==> both[id].contains_key(index)
                && both[id][index] == first[id][index]
            &&& both.contains_key(id) && both[id].contains_key(index) ==> (first.contains_key(id)
                && first[id].contains_key(index)) || (second.contains_key(id)
                && second[id].contains_key(index))
        }),
{
}

/// Merging known transactions keeps every transaction, output and anchor. Of two outputs in one
/// place it keeps the later one, of two times of a transaction the earliest at which it was first
/// seen and the latest at which it was last seen and last evicted.
pub proof fn lemma_merging_transactions_keeps_them(
    a: WalletChangeSetView,
    b: WalletChangeSetView,
    tx: Seq<u8>,
    anchor: (u32, Seq<u8>, u64, Seq<u8>),
    outpoint: OutPoint,
)
    ensures
        ({
            let first = a.tx_graph;
            let second = b.tx_graph;
            let both = a.merged(b).tx_graph;
            &&& both.txs.contains(tx) <==> first.txs.contains(tx) || second.txs.contains(tx)
            &&& both.anchors.contains(anchor) <==> first.anchors.contains(anchor)
                || second.anchors.contains(anchor)
            &&& both.txouts.contains_key(outpoint) <==> first.txouts.contains_key(outpoint)
                || second.txouts.contains_key(outpoint)
            &&& second.txouts.contains_key(outpoint) ==> both.txouts[outpoint]
                == second.txouts[outpoint]
            &&& first.txouts.contains_key(outpoint) && !second.txouts.contains_key(outpoint)
                ==> both.txouts[outpoint] == first.txouts[outpoint]
            &&& is_greatest(first.last_seen, second.last_seen, both.last_seen, tx)
            &&& is_greatest(first.last_evicted, second.last_evicted, both.last_evicted, tx)
            &&& both.first_seen.contains_key(tx) <==> first.first_seen.contains_key(tx)
                || second.first_seen.contains_key(tx)
            &&& first.first_seen.contains_key(tx) ==> both.first_seen[tx] <= first.first_seen[tx]
            &&& second.first_seen.contains_key(tx) ==> both.first_seen[tx] <= second.first_seen[tx]
            &&& both.first_seen.contains_key(tx) ==> (first.first_seen.contains_key(tx)
                && both.first_seen[tx] == first.first_seen[tx]) || (second.first_seen.contains_key(
                tx,
            ) && both.first_seen[tx] == second.first_seen[tx])
        }),
{
}

/// Whether a time is the later one of those that there are.
pub open spec fn is_greatest(
    first: Map<Seq<u8>, u64>,
    second: Map<Seq<u8>, u64>,
    both: Map<Seq<u8>, u64>,
    tx: Seq<u8>,
) -> bool {
    &&& both.contains_key(tx) <==> first.contains_key(tx) || second.contains_key(tx)
    &&& first.contains_key(tx) ==> both[tx] >= first[tx]
    &&& second.contains_key(tx) ==> both[tx] >= second[tx]
    &&& both.contains_key(tx) ==> (first.contains_key(tx) && both[tx] == first[tx]) || (
    second.contains_key(tx) && both[tx] == second[tx])
}

/// Merging seen blocks and locks keeps what is said of every height and every output, and of two
/// sayings the later one.
pub proof fn lemma_merging_blocks_and_locks_keeps_the_latest(
    a: WalletChangeSetView,
    b: WalletChangeSetView,
    height: u32,
    outpoint: OutPoint,
)
    ensures
        ({
            let first = a.local_chain;
            let second = b.local_chain;
            let both = a.merged(b).local_chain;
            &&& both.contains_key(height) <==> first.contains_key(height) || second.contains_key(
                height,
            )
            &&& second.contains_key(height) ==> both[height] == second[height]
            &&& first.contains_key(height) && !second.contains_key(height) ==> both[height]
                == first[height]
        }),
        ({
            let first = a.locked_outpoints;
            let second = b.locked_outpoints;
            let both = a.merged(b).locked_outpoints;
            &&& both.contains_key(outpoint) <==> first.contains_key(outpoint)
                || second.contains_key(outpoint)
            &&& second.contains_key(outpoint) ==> both[outpoint] == second[outpoint]
            &&& first.contains_key(outpoint) && !second.contains_key(outpoint) ==> both[outpoint]
                == first[outpoint]
        }),
{
}

/// Two wallets differ in their identity exactly when both have a descriptor, a change descriptor or
/// a network, and not the same one.
pub proof fn lemma_mismatch_is_two_identities(a: WalletChangeSetView, b: WalletChangeSetView)
    ensures
        a.mismatches(b) <==> (a.descriptor is Some && b.descriptor is Some && a.descriptor
            != b.descriptor) || (a.change_descriptor is Some && b.change_descriptor is Some
            && a.change_descriptor != b.change_descriptor) || (a.network is Some && b.network
            is Some && a.network != b.network),
        a.mismatches(b) <==> b.mismatches(a),
{
}

/// Two change sets agree exactly when no index of any descriptor has two different scripts.
pub proof fn lemma_agreement_is_one_script_per_index(
    a: WalletChangeSetView,
    b: WalletChangeSetView,
)
    ensures
        a.agrees(b) <==> (forall|id: Seq<u8>, index: u32|
            #![trigger a.indexer.spk_cache[id][index]]
            #![trigger b.indexer.spk_cache[id][index]]
            a.indexer.spk_cache.contains_key(id) && b.indexer.spk_cache.contains_key(id)
                && a.indexer.spk_cache[id].contains_key(index)
                && b.indexer.spk_cache[id].contains_key(index) ==> a.indexer.spk_cache[id][index]
                == b.indexer.spk_cache[id][index]),
{
    let x = a.indexer.spk_cache;
    let y = b.indexer.spk_cache;
    if a.agrees(b) {
        assert forall|id: Seq<u8>, index: u32|
            #![trigger x[id][index]]
            #![trigger y[id][index]]
            x.contains_key(id) && y.contains_key(id) && x[id].contains_key(index)
                && y[id].contains_key(index) implies x[id][index] == y[id][index] by {
            assert(script_at(x, id, index) == Some(x[id][index]));
            assert(script_at(y, id, index) == Some(y[id][index]));
        }
    }
}

/// A store that keeps the last write of each part, after one more write.
pub open spec fn store_after(
    store: WalletChangeSetView,
    write: PersistActionView,
) -> WalletChangeSetView {
    match write {
        PersistActionView::Done => store,
        PersistActionView::WriteDescriptor { descriptor } => WalletChangeSetView {
            descriptor: Some(descriptor),
            ..store
        },
        PersistActionView::WriteChangeDescriptor { change_descriptor } => WalletChangeSetView {
            change_descriptor: Some(change_descriptor),
            ..store
        },
        PersistActionView::WriteNetwork { network } => WalletChangeSetView {
            network: Some(network),
            ..store
        },
        PersistActionView::WriteIndexer { indexer } => WalletChangeSetView { indexer, ..store },
        PersistActionView::WriteTxGraph { tx_graph } => WalletChangeSetView { tx_graph, ..store },
        PersistActionView::WriteLocalChain { local_chain } => WalletChangeSetView {
            local_chain,
            ..store
        },
    }
}

/// Changes without the locks, which are not stored.
pub open spec fn without_locks(changes: WalletChangeSetView) -> WalletChangeSetView {
    WalletChangeSetView { locked_outpoints: no_locks(), ..changes }
}

/// A persister with its store, and the write that it asked for last.
#[verifier::ext_equal]
pub struct PersisterRun {
    pub state: PersisterView,
    pub store: WalletChangeSetView,
    pub asked: Option<PersistActionView>,
}

impl PersisterRun {
    /// Whether the event can happen: what is read is what the store holds.
    pub open spec fn admits(self, event: PersisterEvent) -> bool {
        match event {
            PersisterEvent::Read { stored } => self.state.latest is None && without_locks(stored)
                == without_locks(self.store),
            PersisterEvent::Stash { .. } => true,
            PersisterEvent::Persist { .. } => true,
            PersisterEvent::Written => self.state.awaiting is Some,
        }
    }

    /// After the event: a write that succeeds reaches the store as it was asked for.
    pub open spec fn after(self, event: PersisterEvent) -> PersisterRun {
        match event {
            PersisterEvent::Read { stored } => PersisterRun {
                state: self.state.initialized(stored),
                ..self
            },
            PersisterEvent::Stash { change_set } => PersisterRun {
                state: self.state.stashed(change_set),
                ..self
            },
            PersisterEvent::Persist { change_set } => {
                let (state, outcome) = self.state.persisting(change_set);
                PersisterRun { state, asked: outcome.ok(), ..self }
            },
            PersisterEvent::Written => {
                let (state, outcome) = self.state.written().step();
                PersisterRun {
                    state,
                    store: store_after(self.store, self.asked->0),
                    asked: outcome.ok(),
                }
            },
        }
    }

    /// Whether the events can happen one after the other.
    pub open spec fn admits_all(self, events: Seq<PersisterEvent>) -> bool
        decreases events.len(),
    {
        events.len() > 0 ==> self.admits(events[0]) && self.after(events[0]).admits_all(
            events.drop_first(),
        )
    }

    /// After the events, one after the other.
    pub open spec fn after_all(self, events: Seq<PersisterEvent>) -> PersisterRun
        decreases events.len(),
    {
        if events.len() == 0 {
            self
        } else {
            self.after(events[0]).after_all(events.drop_first())
        }
    }

    /// Whether the store together with the pending changes holds everything that is known, and the
    /// write that was asked for last is that of the part that is being written.
    pub open spec fn synced(self) -> bool {
        &&& self.state.recorded()
        &&& self.state.latest is Some ==> without_locks(self.store.merged(self.state.pending))
            == self.state.total()
        &&& self.state.awaiting matches Some(component) ==> {
            let latest = self.state.latest->0;
            self.asked == Some(
                match component {
                    Component::Descriptor => PersistActionView::WriteDescriptor {
                        descriptor: latest.descriptor->0,
                    },
                    Component::ChangeDescriptor => PersistActionView::WriteChangeDescriptor {
                        change_descriptor: latest.change_descriptor->0,
                    },
                    Component::Network => PersistActionView::WriteNetwork {
                        network: latest.network->0,
                    },
                    Component::Indexer => PersistActionView::WriteIndexer {
                        indexer: latest.indexer,
                    },
                    Component::TxGraph => PersistActionView::WriteTxGraph {
                        tx_graph: latest.tx_graph,
                    },
                    Component::LocalChain => PersistActionView::WriteLocalChain {
                        local_chain: latest.local_chain,
                    },
                },
            )
        }
    }
}

/// A step asks for a write that brings the store up to date with the part being written.
proof fn lemma_step_keeps_store_synced(run: PersisterRun)
    requires
        run.state.recorded(),
        run.state.latest is Some ==> without_locks(run.store.merged(run.state.pending))
            == run.state.total(),
    ensures
        ({
            let (state, outcome) = run.state.step();
            (PersisterRun { state, asked: outcome.ok(), ..run }).synced()
        }),
{
    let (state, outcome) = run.state.step();
    lemma_nothing_lost(run.state);
    lemma_step_recorded(run.state);
    if run.state.latest is Some {
        assert(without_locks(run.store.merged(state.pending)) =~= without_locks(
            run.store.merged(run.state.pending),
        ));
    }
}

/// A write that succeeds leaves the store, together with what is still pending, with everything.
proof fn lemma_write_keeps_store_synced(run: PersisterRun)
    requires
        run.synced(),
        run.state.awaiting is Some,
    ensures
        without_locks(
            store_after(run.store, run.asked->0).merged(run.state.written().pending),
        ) == run.state.written().total(),
{
    let latest = run.state.latest->0;
    let pending = run.state.pending;
    let left = run.state.written().pending;
    let store = store_after(run.store, run.asked->0);
    lemma_merged_with_empty(latest);
    let known = run.state.total();
    let merged = without_locks(run.store.merged(pending));
    assert(merged.descriptor == known.descriptor);
    assert(merged.change_descriptor == known.change_descriptor);
    assert(merged.network == known.network);
    assert(merged.indexer == known.indexer);
    assert(merged.tx_graph == known.tx_graph);
    assert(merged.local_chain == known.local_chain);
    assert(without_locks(store.merged(left)) =~= without_locks(latest.merged(left)));
}

/// Whatever happens, in whatever order, and whichever writes fail: what the store holds, together
/// with the pending changes, is everything that was ever read or handed over. So whenever nothing is
/// pending, all of it is in the store.
pub proof fn lemma_store_is_never_behind(run: PersisterRun, events: Seq<PersisterEvent>)
    requires
        run.synced(),
        run.admits_all(events),
    ensures
        run.after_all(events).synced(),
        ({
            let after = run.after_all(events);
            &&& after.state.total() == with_events(run.state.total(), events)
            &&& after.state.latest is Some ==> without_locks(
                after.store.merged(after.state.pending),
            ) == after.state.total()
            &&& after.state.latest is Some && after.state.pending == WalletChangeSetView::empty()
                ==> without_locks(after.store) == with_events(run.state.total(), events)
        }),
    decreases events.len(),
{
    if events.len() > 0 {
        let event = events[0];
        lemma_event_loses_nothing(run.state, event);
        match event {
            PersisterEvent::Read { stored } => {
                let after = run.after(event);
                let pending = run.state.pending;
                assert(run.state.awaiting is None);
                assert(without_locks(run.store) == without_locks(stored));
                assert(without_locks(run.store).indexer == without_locks(stored).indexer);
                assert(without_locks(run.store).tx_graph == without_locks(stored).tx_graph);
                assert(without_locks(run.store).local_chain == without_locks(stored).local_chain);
                assert(without_locks(run.store).descriptor == without_locks(stored).descriptor);
                assert(without_locks(run.store).change_descriptor == without_locks(
                    stored,
                ).change_descriptor);
                assert(without_locks(run.store).network == without_locks(stored).network);
                assert(without_locks(run.store.merged(pending)) =~= without_locks(
                    stored.merged(pending),
                ));
            },
            PersisterEvent::Stash { change_set } => {
                lemma_stash_keeps_store_synced(run, change_set);
            },
            PersisterEvent::Persist { change_set } => {
                lemma_stash_keeps_store_synced(run, change_set);
                lemma_step_keeps_store_synced(
                    PersisterRun { state: run.state.stashed(change_set), ..run },
                );
            },
            PersisterEvent::Written => {
                lemma_write_keeps_store_synced(run);
                lemma_step_keeps_store_synced(
                    PersisterRun {
                        state: run.state.written(),
                        store: store_after(run.store, run.asked->0),
                        ..run
                    },
                );
            },
        }
        lemma_store_is_never_behind(run.after(event), events.drop_first());
    } else {
        lemma_merged_with_empty(run.store);
    }
}

/// Taking in changes leaves the store, together with what is pending, with everything.
proof fn lemma_stash_keeps_store_synced(run: PersisterRun, change_set: WalletChangeSetView)
    requires
        run.synced(),
    ensures
        (PersisterRun { state: run.state.stashed(change_set), ..run }).synced(),
{
    let stashed = run.state.stashed(change_set);
    if let Some(latest) = run.state.latest {
        lemma_merged_in_any_grouping(latest, run.state.pending, change_set);
        lemma_merged_in_any_grouping(run.store, run.state.pending, change_set);
        let a = latest.merged(run.state.pending);
        let b = run.store.merged(run.state.pending);
        assert(without_locks(a) == without_locks(b));
        assert(without_locks(a).indexer == without_locks(b).indexer);
        assert(without_locks(a).tx_graph == without_locks(b).tx_graph);
        assert(without_locks(a).local_chain == without_locks(b).local_chain);
        assert(without_locks(a).descriptor == without_locks(b).descriptor);
        assert(without_locks(a).change_descriptor == without_locks(b).change_descriptor);
        assert(without_locks(a).network == without_locks(b).network);
        assert(without_locks(a.merged(change_set)) =~= without_locks(b.merged(change_set)));
    }
}

/// What a store that keeps the last write of each part holds once persisting has ended, where every
/// write succeeds.
pub open spec fn store_at_finish(
    state: PersisterView,
    store: WalletChangeSetView,
) -> WalletChangeSetView
    decreases writes_left(state.pending),
{
    let (next, outcome) = state.step();
    match outcome {
        Err(e) => store,
        Ok(PersistActionView::Done) => store,
        Ok(write) => store_at_finish(next.written(), store_after(store, write)),
    }
}

/// Where every write succeeds and nothing is refused, a store that held the stored state holds
/// everything that was known.
pub proof fn lemma_store_holds_everything_at_finish(
    state: PersisterView,
    store: WalletChangeSetView,
)
    requires
        state.awaiting is None,
        state.latest is Some,
        without_locks(store.merged(state.pending)) == state.total(),
        state.finish().1 is Ok,
    ensures
        without_locks(store_at_finish(state, store)) == state.total(),
    decreases writes_left(state.pending),
{
    let run = PersisterRun { state, store, asked: None };
    let (next, outcome) = state.step();
    lemma_step_keeps_store_synced(run);
    match outcome {
        Err(e) => {},
        Ok(PersistActionView::Done) => {
            lemma_done_is_drained(state);
            lemma_merged_with_empty(store);
            assert(without_locks(store.merged(state.pending)) =~= without_locks(
                store.merged(WalletChangeSetView::empty()),
            ));
        },
        Ok(write) => {
            let asked = PersisterRun { state: next, store, asked: Some(write) };
            lemma_write_keeps_store_synced(asked);
            lemma_nothing_lost(state);
            lemma_nothing_lost(next);
            lemma_store_holds_everything_at_finish(next.written(), store_after(store, write));
        },
    }
}

/// A view of a change set keeps all of it.
pub proof fn lemma_change_set_view_keeps_everything(changes: WalletChangeSet)
    ensures
        changes.descriptor matches Some(text) ==> changes@.descriptor == Some(text@),
        changes.descriptor is None ==> changes@.descriptor is None,
        changes.change_descriptor matches Some(text) ==> changes@.change_descriptor == Some(text@),
        changes.change_descriptor is None ==> changes@.change_descriptor is None,
        changes@.network == changes.network,
        changes@.local_chain == chain_blocks(changes.local_chain),
        changes@.locked_outpoints == lock_status(changes.locked_outpoints),
        changes@.indexer.last_revealed == last_revealed(changes.indexer),
        changes@.indexer.spk_cache == spk_cache(changes.indexer),
        changes@.tx_graph.txs == graph_txs(changes.tx_graph),
        changes@.tx_graph.txouts == graph_txouts(changes.tx_graph),
        changes@.tx_graph.anchors == graph_anchors(changes.tx_graph),
        changes@.tx_graph.first_seen == graph_first_seen(changes.tx_graph),
        changes@.tx_graph.last_seen == graph_last_seen(changes.tx_graph),
        changes@.tx_graph.last_evicted == graph_last_evicted(changes.tx_graph),
{
}

/// A view of what is to be done keeps all of it.
pub proof fn lemma_persist_action_view_keeps_everything(action: PersistAction, error: PersistError)
    ensures
        match action {
            PersistAction::Done => action@ is Done,
            PersistAction::WriteDescriptor { descriptor } => action@ is WriteDescriptor
                && action@->descriptor == descriptor@,
            PersistAction::WriteChangeDescriptor { change_descriptor } => action@
                is WriteChangeDescriptor && action@->change_descriptor == change_descriptor@,
            PersistAction::WriteNetwork { network } => action@ is WriteNetwork && action@->network
                == network,
            PersistAction::WriteIndexer { indexer } => {
                &&& action@ is WriteIndexer
                &&& action@->indexer.last_revealed == last_revealed(indexer)
                &&& action@->indexer.spk_cache == spk_cache(indexer)
            },
            PersistAction::WriteTxGraph { tx_graph } => {
                &&& action@ is WriteTxGraph
                &&& action@->tx_graph.txs == graph_txs(tx_graph)
                &&& action@->tx_graph.txouts == graph_txouts(tx_graph)
                &&& action@->tx_graph.anchors == graph_anchors(tx_graph)
                &&& action@->tx_graph.first_seen == graph_first_seen(tx_graph)
                &&& action@->tx_graph.last_seen == graph_last_seen(tx_graph)
                &&& action@->tx_graph.last_evicted == graph_last_evicted(tx_graph)
            },
            PersistAction::WriteLocalChain { local_chain } => action@ is WriteLocalChain
                && action@->local_chain == chain_blocks(local_chain),
        },
        outcome_view(Ok(action)) == Ok::<PersistActionView, PersistError>(action@),
        outcome_view(Err(error)) == Err::<PersistActionView, PersistError>(error),
{
}

} // verus!
