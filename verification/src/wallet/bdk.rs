//! The change sets that BDK keeps for the parts of a wallet, and what is relied on of them.

use bdk_chain::indexer::keychain_txout;
use bdk_chain::{local_chain, tx_graph, ConfirmationBlockTime, Merge};
use bdk_wallet::locked_outpoints;
use vstd::prelude::*;

use crate::primitives::{same_bytes, OutPoint, TxOutView};

verus! {

/// `bdk_chain::keychain_txout::ChangeSet`: changes to the indices and scripts that the wallet has
/// revealed.
#[verifier::external_type_specification]
#[verifier::external_body]
pub struct ExIndexerChangeSet(keychain_txout::ChangeSet);

/// `bdk_chain::tx_graph::ChangeSet`: changes to the transactions that the wallet knows of.
#[verifier::external_type_specification]
#[verifier::external_body]
#[verifier::reject_recursive_types(A)]
pub struct ExTxGraphChangeSet<A>(tx_graph::ChangeSet<A>);

/// `bdk_chain::ConfirmationBlockTime`: the block that confirms a transaction, and its time.
#[verifier::external_type_specification]
#[verifier::external_body]
pub struct ExConfirmationBlockTime(ConfirmationBlockTime);

/// `bdk_chain::local_chain::ChangeSet`: changes to the blocks that the wallet has seen.
#[verifier::external_type_specification]
#[verifier::external_body]
pub struct ExLocalChainChangeSet(local_chain::ChangeSet);

/// `bdk_wallet::locked_outpoints::ChangeSet`: changes to which outputs are locked.
#[verifier::external_type_specification]
#[verifier::external_body]
pub struct ExLockedOutpointsChangeSet(locked_outpoints::ChangeSet);

/// The field `last_revealed`: the last revealed index of each descriptor, by the bytes of the
/// descriptor's id.
pub uninterp spec fn last_revealed(changes: keychain_txout::ChangeSet) -> Map<Seq<u8>, u32>;

/// The field `spk_cache`: the bytes of the cached scripts of each descriptor, by the bytes of the
/// descriptor's id and the index.
pub uninterp spec fn spk_cache(
    changes: keychain_txout::ChangeSet,
) -> Map<Seq<u8>, Map<u32, Seq<u8>>>;

/// The field `txs`: the added transactions, in their consensus encoding.
pub uninterp spec fn graph_txs(changes: tx_graph::ChangeSet<ConfirmationBlockTime>) -> Set<Seq<u8>>;

/// The field `txouts`: the added outputs.
pub uninterp spec fn graph_txouts(
    changes: tx_graph::ChangeSet<ConfirmationBlockTime>,
) -> Map<OutPoint, TxOutView>;

/// The field `anchors`: the height and the hash of the block, the time of the confirmation, and the
/// id of the transaction of each added anchor.
pub uninterp spec fn graph_anchors(
    changes: tx_graph::ChangeSet<ConfirmationBlockTime>,
) -> Set<(u32, Seq<u8>, u64, Seq<u8>)>;

/// The field `first_seen`: when each transaction was first seen, by its id.
pub uninterp spec fn graph_first_seen(
    changes: tx_graph::ChangeSet<ConfirmationBlockTime>,
) -> Map<Seq<u8>, u64>;

/// The field `last_seen`: when each transaction was last seen, by its id.
pub uninterp spec fn graph_last_seen(
    changes: tx_graph::ChangeSet<ConfirmationBlockTime>,
) -> Map<Seq<u8>, u64>;

/// The field `last_evicted`: when each transaction was last evicted from the mempool, by its id.
pub uninterp spec fn graph_last_evicted(
    changes: tx_graph::ChangeSet<ConfirmationBlockTime>,
) -> Map<Seq<u8>, u64>;

/// The field `blocks`: the hash of the block at each changed height, or nothing where a block was
/// removed.
pub uninterp spec fn chain_blocks(changes: local_chain::ChangeSet) -> Map<u32, Option<Seq<u8>>>;

/// The field `outpoints`: whether each changed output is locked.
pub uninterp spec fn lock_status(changes: locked_outpoints::ChangeSet) -> Map<OutPoint, bool>;

/// What changes to the revealed indices and scripts hold.
#[verifier::ext_equal]
pub struct IndexerView {
    pub last_revealed: Map<Seq<u8>, u32>,
    pub spk_cache: Map<Seq<u8>, Map<u32, Seq<u8>>>,
}

/// What changes to the known transactions hold.
#[verifier::ext_equal]
pub struct TxGraphView {
    pub txs: Set<Seq<u8>>,
    pub txouts: Map<OutPoint, TxOutView>,
    pub anchors: Set<(u32, Seq<u8>, u64, Seq<u8>)>,
    pub first_seen: Map<Seq<u8>, u64>,
    pub last_seen: Map<Seq<u8>, u64>,
    pub last_evicted: Map<Seq<u8>, u64>,
}

/// What changes to the revealed indices and scripts hold.
pub open spec fn indexer_view(changes: keychain_txout::ChangeSet) -> IndexerView {
    IndexerView { last_revealed: last_revealed(changes), spk_cache: spk_cache(changes) }
}

/// What changes to the known transactions hold.
pub open spec fn tx_graph_view(
    changes: tx_graph::ChangeSet<ConfirmationBlockTime>,
) -> TxGraphView {
    TxGraphView {
        txs: graph_txs(changes),
        txouts: graph_txouts(changes),
        anchors: graph_anchors(changes),
        first_seen: graph_first_seen(changes),
        last_seen: graph_last_seen(changes),
        last_evicted: graph_last_evicted(changes),
    }
}

/// The indices of both, with the greater one where both have one.
pub open spec fn greatest_indices(a: Map<Seq<u8>, u32>, b: Map<Seq<u8>, u32>) -> Map<
    Seq<u8>,
    u32,
> {
    Map::new(
        |key: Seq<u8>| a.contains_key(key) || b.contains_key(key),
        |key: Seq<u8>|
            if !a.contains_key(key) || b.contains_key(key) && a[key] < b[key] {
                b[key]
            } else {
                a[key]
            },
    )
}

/// The times of both, with the later one where both have one.
pub open spec fn latest_times(a: Map<Seq<u8>, u64>, b: Map<Seq<u8>, u64>) -> Map<Seq<u8>, u64> {
    Map::new(
        |key: Seq<u8>| a.contains_key(key) || b.contains_key(key),
        |key: Seq<u8>|
            if !a.contains_key(key) || b.contains_key(key) && a[key] < b[key] {
                b[key]
            } else {
                a[key]
            },
    )
}

/// The times of both, with the earlier one where both have one.
pub open spec fn earliest_times(a: Map<Seq<u8>, u64>, b: Map<Seq<u8>, u64>) -> Map<Seq<u8>, u64> {
    Map::new(
        |key: Seq<u8>| a.contains_key(key) || b.contains_key(key),
        |key: Seq<u8>|
            if !a.contains_key(key) || b.contains_key(key) && b[key] < a[key] {
                b[key]
            } else {
                a[key]
            },
    )
}

/// The scripts of both, with that of `b` where both have one.
pub open spec fn all_scripts(
    a: Map<Seq<u8>, Map<u32, Seq<u8>>>,
    b: Map<Seq<u8>, Map<u32, Seq<u8>>>,
) -> Map<Seq<u8>, Map<u32, Seq<u8>>> {
    Map::new(
        |id: Seq<u8>| a.contains_key(id) || b.contains_key(id),
        |id: Seq<u8>|
            if !a.contains_key(id) {
                b[id]
            } else if !b.contains_key(id) {
                a[id]
            } else {
                a[id].union_prefer_right(b[id])
            },
    )
}

/// The script at an index of a descriptor, if there is one.
pub open spec fn script_at(
    cache: Map<Seq<u8>, Map<u32, Seq<u8>>>,
    id: Seq<u8>,
    index: u32,
) -> Option<Seq<u8>> {
    if cache.contains_key(id) && cache[id].contains_key(index) {
        Some(cache[id][index])
    } else {
        None
    }
}

/// Whether no index of any descriptor has two different scripts in the two.
pub open spec fn scripts_agree(
    a: Map<Seq<u8>, Map<u32, Seq<u8>>>,
    b: Map<Seq<u8>, Map<u32, Seq<u8>>>,
) -> bool {
    forall|id: Seq<u8>, index: u32|
        #![trigger script_at(a, id, index)]
        #![trigger script_at(b, id, index)]
        script_at(a, id, index) is Some && script_at(b, id, index) is Some ==> script_at(
            a,
            id,
            index,
        ) == script_at(b, id, index)
}

/// Changes to the revealed indices and scripts that come to both, one after the other.
pub open spec fn merged_indexer(a: IndexerView, b: IndexerView) -> IndexerView {
    IndexerView {
        last_revealed: greatest_indices(a.last_revealed, b.last_revealed),
        spk_cache: all_scripts(a.spk_cache, b.spk_cache),
    }
}

/// Changes to the known transactions that come to both, one after the other.
pub open spec fn merged_tx_graph(a: TxGraphView, b: TxGraphView) -> TxGraphView {
    TxGraphView {
        txs: a.txs.union(b.txs),
        txouts: a.txouts.union_prefer_right(b.txouts),
        anchors: a.anchors.union(b.anchors),
        first_seen: earliest_times(a.first_seen, b.first_seen),
        last_seen: latest_times(a.last_seen, b.last_seen),
        last_evicted: latest_times(a.last_evicted, b.last_evicted),
    }
}

impl IndexerView {
    /// No changes.
    pub open spec fn empty() -> IndexerView {
        IndexerView { last_revealed: Map::empty(), spk_cache: Map::empty() }
    }
}

impl TxGraphView {
    /// No changes.
    pub open spec fn empty() -> TxGraphView {
        TxGraphView {
            txs: Set::empty(),
            txouts: Map::empty(),
            anchors: Set::empty(),
            first_seen: Map::empty(),
            last_seen: Map::empty(),
            last_evicted: Map::empty(),
        }
    }
}

/// No changes to the blocks that the wallet has seen.
pub open spec fn no_blocks() -> Map<u32, Option<Seq<u8>>> {
    Map::empty()
}

/// No changes to which outputs are locked.
pub open spec fn no_locks() -> Map<OutPoint, bool> {
    Map::empty()
}

/// `merge` of `bdk_chain::keychain_txout::ChangeSet`: of two last revealed indices the greater one
/// stays, and the cached scripts of `other` are added. It must not be given two scripts for the
/// same index of a descriptor.
#[verifier::external_body]
pub(crate) fn merge_indexer(target: &mut keychain_txout::ChangeSet, other: keychain_txout::ChangeSet)
    requires
        scripts_agree(spk_cache(*old(target)), spk_cache(other)),
    ensures
        last_revealed(*final(target)) == greatest_indices(
            last_revealed(*old(target)),
            last_revealed(other),
        ),
        spk_cache(*final(target)) == all_scripts(spk_cache(*old(target)), spk_cache(other)),
{
    Merge::merge(target, other)
}

/// `is_empty` of `bdk_chain::keychain_txout::ChangeSet`: whether there is neither an index nor a
/// descriptor with cached scripts.
#[verifier::external_body]
pub(crate) fn indexer_is_empty(changes: &keychain_txout::ChangeSet) -> (res: bool)
    ensures
        res == (indexer_view(*changes) == IndexerView::empty()),
{
    Merge::is_empty(changes)
}

/// `clone` of `bdk_chain::keychain_txout::ChangeSet`: the copy holds the same.
#[verifier::external_body]
pub(crate) fn clone_indexer(changes: &keychain_txout::ChangeSet) -> (res: keychain_txout::ChangeSet)
    ensures
        indexer_view(res) == indexer_view(*changes),
{
    changes.clone()
}

/// `default` of `bdk_chain::keychain_txout::ChangeSet`: it holds nothing.
#[verifier::external_body]
pub(crate) fn empty_indexer() -> (res: keychain_txout::ChangeSet)
    ensures
        indexer_view(res) == IndexerView::empty(),
{
    Default::default()
}

/// `merge` of `bdk_chain::tx_graph::ChangeSet`: transactions, outputs and anchors are added, the
/// output of `other` wins, a transaction keeps the earliest time of being first seen and the latest
/// ones of being last seen and last evicted.
#[verifier::external_body]
pub(crate) fn merge_tx_graph(
    target: &mut tx_graph::ChangeSet<ConfirmationBlockTime>,
    other: tx_graph::ChangeSet<ConfirmationBlockTime>,
)
    ensures
        graph_txs(*final(target)) == graph_txs(*old(target)).union(graph_txs(other)),
        graph_txouts(*final(target)) == graph_txouts(*old(target)).union_prefer_right(
            graph_txouts(other),
        ),
        graph_anchors(*final(target)) == graph_anchors(*old(target)).union(graph_anchors(other)),
        graph_first_seen(*final(target)) == earliest_times(
            graph_first_seen(*old(target)),
            graph_first_seen(other),
        ),
        graph_last_seen(*final(target)) == latest_times(
            graph_last_seen(*old(target)),
            graph_last_seen(other),
        ),
        graph_last_evicted(*final(target)) == latest_times(
            graph_last_evicted(*old(target)),
            graph_last_evicted(other),
        ),
{
    Merge::merge(target, other)
}

/// `is_empty` of `bdk_chain::tx_graph::ChangeSet`: whether it holds nothing of any kind.
#[verifier::external_body]
pub(crate) fn tx_graph_is_empty(changes: &tx_graph::ChangeSet<ConfirmationBlockTime>) -> (res: bool)
    ensures
        res == (tx_graph_view(*changes) == TxGraphView::empty()),
{
    Merge::is_empty(changes)
}

/// `clone` of `bdk_chain::tx_graph::ChangeSet`: the copy holds the same.
#[verifier::external_body]
pub(crate) fn clone_tx_graph(changes: &tx_graph::ChangeSet<ConfirmationBlockTime>) -> (res:
    tx_graph::ChangeSet<ConfirmationBlockTime>)
    ensures
        tx_graph_view(res) == tx_graph_view(*changes),
{
    changes.clone()
}

/// `default` of `bdk_chain::tx_graph::ChangeSet`: it holds nothing.
#[verifier::external_body]
pub(crate) fn empty_tx_graph() -> (res: tx_graph::ChangeSet<ConfirmationBlockTime>)
    ensures
        tx_graph_view(res) == TxGraphView::empty(),
{
    Default::default()
}

/// `merge` of `bdk_chain::local_chain::ChangeSet`: what `other` says of a height wins.
#[verifier::external_body]
pub(crate) fn merge_local_chain(target: &mut local_chain::ChangeSet, other: local_chain::ChangeSet)
    ensures
        chain_blocks(*final(target)) == chain_blocks(*old(target)).union_prefer_right(
            chain_blocks(other),
        ),
{
    Merge::merge(target, other)
}

/// `is_empty` of `bdk_chain::local_chain::ChangeSet`: whether it says nothing of any height.
#[verifier::external_body]
pub(crate) fn local_chain_is_empty(changes: &local_chain::ChangeSet) -> (res: bool)
    ensures
        res == (chain_blocks(*changes) == no_blocks()),
{
    Merge::is_empty(changes)
}

/// `clone` of `bdk_chain::local_chain::ChangeSet`: the copy holds the same.
#[verifier::external_body]
pub(crate) fn clone_local_chain(changes: &local_chain::ChangeSet) -> (res: local_chain::ChangeSet)
    ensures
        chain_blocks(res) == chain_blocks(*changes),
{
    changes.clone()
}

/// `default` of `bdk_chain::local_chain::ChangeSet`: it says nothing of any height.
#[verifier::external_body]
pub(crate) fn empty_local_chain() -> (res: local_chain::ChangeSet)
    ensures
        chain_blocks(res) == no_blocks(),
{
    Default::default()
}

/// `merge` of `bdk_wallet::locked_outpoints::ChangeSet`: what `other` says of an output wins.
#[verifier::external_body]
pub(crate) fn merge_locked_outpoints(
    target: &mut locked_outpoints::ChangeSet,
    other: locked_outpoints::ChangeSet,
)
    ensures
        lock_status(*final(target)) == lock_status(*old(target)).union_prefer_right(
            lock_status(other),
        ),
{
    Merge::merge(target, other)
}

/// `is_empty` of `bdk_wallet::locked_outpoints::ChangeSet`: whether it says nothing of any output.
#[verifier::external_body]
pub(crate) fn locked_outpoints_is_empty(changes: &locked_outpoints::ChangeSet) -> (res: bool)
    ensures
        res == (lock_status(*changes) == no_locks()),
{
    Merge::is_empty(changes)
}

/// `clone` of `bdk_wallet::locked_outpoints::ChangeSet`: the copy holds the same.
#[verifier::external_body]
pub(crate) fn clone_locked_outpoints(changes: &locked_outpoints::ChangeSet) -> (res:
    locked_outpoints::ChangeSet)
    ensures
        lock_status(res) == lock_status(*changes),
{
    changes.clone()
}

/// `default` of `bdk_wallet::locked_outpoints::ChangeSet`: it says nothing of any output.
#[verifier::external_body]
pub(crate) fn empty_locked_outpoints() -> (res: locked_outpoints::ChangeSet)
    ensures
        lock_status(res) == no_locks(),
{
    Default::default()
}

/// A script that is cached for an index of a descriptor.
struct CachedScript {
    /// The id of the descriptor.
    descriptor_id: [u8; 32],
    /// The index.
    index: u32,
    /// The bytes of the script.
    script: Vec<u8>,
}

/// Whether a list holds the cached scripts, all of them and nothing else.
spec fn lists_scripts(
    scripts: Seq<CachedScript>,
    cache: Map<Seq<u8>, Map<u32, Seq<u8>>>,
) -> bool {
    &&& forall|k: int|
        0 <= k < scripts.len() ==> script_at(
            cache,
            (#[trigger] scripts[k]).descriptor_id@,
            scripts[k].index,
        ) == Some(scripts[k].script@)
    &&& forall|id: Seq<u8>, index: u32| #[trigger]
        script_at(cache, id, index) is Some ==> (exists|k: int|
            0 <= k < scripts.len() && (#[trigger] scripts[k]).descriptor_id@ == id
                && scripts[k].index == index)
}

/// The field `spk_cache` of `bdk_chain::keychain_txout::ChangeSet`, handed out script by script.
#[verifier::external_body]
fn cached_scripts(changes: &keychain_txout::ChangeSet) -> (res: Vec<CachedScript>)
    ensures
        lists_scripts(res@, spk_cache(*changes)),
{
    let cache = changes.spk_cache.iter();
    let scripts = cache.flat_map(|(id, spks)| spks.iter().map(move |(index, spk)| (id, index, spk)));
    scripts.map(|(id, index, spk)| CachedScript {
        descriptor_id: bitcoin::hashes::Hash::to_byte_array(*id),
        index: *index,
        script: spk.to_bytes(),
    }).collect()
}

/// Whether two ids are the same.
fn same_id(a: &[u8; 32], b: &[u8; 32]) -> (res: bool)
    ensures
        res == (a@ == b@),
{
    let mut i: usize = 0;
    while i < 32
        invariant
            i <= 32,
            forall|j: int| 0 <= j < i ==> a[j] == b[j],
        decreases 32 - i,
    {
        if a[i] != b[i] {
            assert(a@[i as int] != b@[i as int]);
            return false;
        }
        i += 1;
    }
    assert(a@ =~= b@);
    true
}

/// Whether no script in the list is for the index of the descriptor that `other` is for without
/// being the same script.
fn fits_among(scripts: &Vec<CachedScript>, other: &CachedScript) -> (res: bool)
    ensures
        res == (forall|k: int|
            0 <= k < scripts.len() && (#[trigger] scripts[k]).descriptor_id@ == other.descriptor_id@
                && scripts[k].index == other.index ==> scripts[k].script@ == other.script@),
{
    let mut i: usize = 0;
    while i < scripts.len()
        invariant
            i <= scripts.len(),
            forall|k: int|
                0 <= k < i && (#[trigger] scripts[k]).descriptor_id@ == other.descriptor_id@
                    && scripts[k].index == other.index ==> scripts[k].script@ == other.script@,
        decreases scripts.len() - i,
    {
        if scripts[i].index == other.index && same_id(
            &scripts[i].descriptor_id,
            &other.descriptor_id,
        ) && !same_bytes(&scripts[i].script, &other.script) {
            return false;
        }
        i += 1;
    }
    true
}

/// Whether no index of any descriptor has two different cached scripts in the two.
pub fn caches_agree(a: &keychain_txout::ChangeSet, b: &keychain_txout::ChangeSet) -> (res: bool)
    ensures
        res == scripts_agree(spk_cache(*a), spk_cache(*b)),
{
    let ours = cached_scripts(a);
    let theirs = cached_scripts(b);
    let ghost cache_a = spk_cache(*a);
    let ghost cache_b = spk_cache(*b);
    let mut i: usize = 0;
    while i < theirs.len()
        invariant
            i <= theirs.len(),
            lists_scripts(ours@, cache_a),
            lists_scripts(theirs@, cache_b),
            cache_a == spk_cache(*a),
            cache_b == spk_cache(*b),
            forall|j: int, k: int|
                0 <= j < i && 0 <= k < ours.len() && (#[trigger] ours[k]).descriptor_id@ == (
                #[trigger] theirs[j]).descriptor_id@ && ours[k].index == theirs[j].index
                    ==> ours[k].script@ == theirs[j].script@,
        decreases theirs.len() - i,
    {
        if !fits_among(&ours, &theirs[i]) {
            proof {
                let k = choose|k: int|
                    0 <= k < ours.len() && (#[trigger] ours[k]).descriptor_id@
                        == theirs[i as int].descriptor_id@ && ours[k].index
                        == theirs[i as int].index && ours[k].script@ != theirs[i as int].script@;
                let id = ours[k].descriptor_id@;
                let index = ours[k].index;
                assert(script_at(cache_a, id, index) == Some(ours[k].script@));
                assert(script_at(cache_b, id, index) == Some(theirs[i as int].script@));
            }
            return false;
        }
        i += 1;
    }
    assert forall|id: Seq<u8>, index: u32|
        #![trigger script_at(cache_a, id, index)]
        script_at(cache_a, id, index) is Some && script_at(cache_b, id, index)
            is Some implies script_at(cache_a, id, index) == script_at(cache_b, id, index) by {
        let k = choose|k: int|
            0 <= k < ours.len() && (#[trigger] ours[k]).descriptor_id@ == id && ours[k].index
                == index;
        let j = choose|j: int|
            0 <= j < theirs.len() && (#[trigger] theirs[j]).descriptor_id@ == id
                && theirs[j].index == index;
        assert(ours[k].script@ == theirs[j].script@);
    }
    true
}

} // verus!
