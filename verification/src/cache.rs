//! GPU resource cache: per-species device buffers, reconciled each frame
//! against the host's declarative species list.
//!
//! The cache owns, per live species, one agents storage buffer and one
//! qualities uniform buffer, both named by handles the cache assigns. The
//! host performs the actual device work the outcome of a [`ResourceCache::sync`]
//! call asks for — allocate these buffers, write these qualities, release
//! those handles — so every decision of the reconciliation is made, and
//! verified, here.
//!
//! Reconciliation detects three events: a new id appears (allocate, mark
//! uninitialized), an existing id's agent count changed (full replacement:
//! old buffers dropped, fresh ones allocated, re-marked uninitialized), and
//! an id disappeared (entry removed, buffers freed). An unchanged id reuses
//! its buffers; changed qualities alone are re-uploaded into the same
//! uniform buffer.

use vstd::prelude::*;

use crate::species::{
    InitState, NumAgents, Qualities, RegistrySnapshot, SpeciesBundle, SpeciesId, snapshot_ids,
    snapshot_wf,
};

verus! {

/// Bytes one agent occupies in the agents storage buffer:
/// two position floats, one heading float, four bytes of padding.
pub const AGENT_STRIDE: u64 = 16;

/// Bytes of the qualities uniform buffer: seven floats and five of padding,
/// holding the layout to a multiple of 16 bytes.
pub const QUALITIES_SIZE: u64 = 48;

/// Handle and byte size of one species' agents storage buffer.
#[derive(Clone, Copy, PartialEq, Eq, Structural, Debug)]
pub struct AgentsBuffer {
    pub handle: u64,
    pub size: u64,
}

/// Handle of one species' qualities uniform buffer.
#[derive(Clone, Copy, PartialEq, Eq, Structural, Debug)]
pub struct QualitiesBuffer {
    pub handle: u64,
}

/// Everything the cache holds for one live species.
#[derive(Clone, Copy, PartialEq, Eq, Structural, Debug)]
pub struct CacheEntry {
    pub agents: AgentsBuffer,
    pub qualities: QualitiesBuffer,
    /// The agent count and qualities the device-side buffers reflect.
    pub bundle: SpeciesBundle,
    /// Whether the agents buffer still awaits its `init` pass.
    pub state: InitState,
}

/// What the frame driver needs of one live species: its buffers and whether
/// this frame must run `init` rather than `update`.
#[derive(Clone, Copy, PartialEq, Eq, Structural, Debug)]
pub struct SpeciesBinding {
    pub id: SpeciesId,
    pub agents: AgentsBuffer,
    pub qualities: QualitiesBuffer,
    pub num_agents: NumAgents,
    pub needs_init: bool,
}

/// Which kind of device buffer an allocation request is for.
#[derive(Clone, Copy, PartialEq, Eq, Structural, Debug)]
pub enum BufferKind {
    /// Storage buffer holding the flat agent array.
    AgentsStorage,
    /// Uniform buffer holding the species qualities.
    QualitiesUniform,
}

/// One device allocation the host must perform: a buffer of `size` bytes,
/// known from now on by `handle`.
#[derive(Clone, Copy, PartialEq, Eq, Structural, Debug)]
pub struct BufferAlloc {
    pub kind: BufferKind,
    pub handle: u64,
    pub size: u64,
}

/// One write of qualities data into an existing uniform buffer.
#[derive(Clone, Copy, PartialEq, Eq, Structural, Debug)]
pub struct QualitiesUpload {
    pub handle: u64,
    pub qualities: Qualities,
}

/// Everything one `sync` call decided: the live bindings in snapshot order,
/// the device work to perform, and the handles whose buffers are now free.
pub struct SyncOutcome {
    pub bindings: Vec<SpeciesBinding>,
    pub allocations: Vec<BufferAlloc>,
    pub uploads: Vec<QualitiesUpload>,
    pub freed: Vec<u64>,
}

/// The first cache row carrying `id`, if any.
pub open spec fn find_row(rows: Seq<(SpeciesId, CacheEntry)>, id: SpeciesId) -> Option<CacheEntry>
    decreases rows.len(),
{
    if rows.len() == 0 {
        None
    } else if rows.first().0 == id {
        Some(rows.first().1)
    } else {
        find_row(rows.drop_first(), id)
    }
}

/// A snapshot row reuses the cached buffers exactly when its id is cached
/// with the same agent count.
pub open spec fn reuses(rows0: Seq<(SpeciesId, CacheEntry)>, row: (SpeciesId, SpeciesBundle)) -> bool {
    &&& find_row(rows0, row.0) is Some
    &&& find_row(rows0, row.0)->Some_0.bundle.num_agents == row.1.num_agents
}

/// How many rows of `snap` do not reuse cached buffers and therefore
/// allocate a fresh pair.
pub open spec fn count_fresh(
    rows0: Seq<(SpeciesId, CacheEntry)>,
    snap: Seq<(SpeciesId, SpeciesBundle)>,
) -> int
    decreases snap.len(),
{
    if snap.len() == 0 {
        0
    } else {
        count_fresh(rows0, snap.drop_last()) + if reuses(rows0, snap.last()) {
            0int
        } else {
            1int
        }
    }
}

/// The entry a fresh allocation creates: an agents buffer at `base`, a
/// qualities buffer at `base + 1`, marked uninitialized.
pub open spec fn fresh_entry(base: int, bundle: SpeciesBundle) -> CacheEntry {
    CacheEntry {
        agents: AgentsBuffer {
            handle: base as u64,
            size: (bundle.num_agents.0 * AGENT_STRIDE) as u64,
        },
        qualities: QualitiesBuffer { handle: (base + 1) as u64 },
        bundle,
        state: InitState::Uninitialized,
    }
}

/// The entry a reusing row keeps: same buffers, same init state, qualities
/// brought up to date.
pub open spec fn reused_entry(old_entry: CacheEntry, bundle: SpeciesBundle) -> CacheEntry {
    CacheEntry {
        agents: old_entry.agents,
        qualities: old_entry.qualities,
        bundle,
        state: old_entry.state,
    }
}

/// The entry row `i` of the snapshot ends up with: its old buffers if it
/// reuses them, else the `count_fresh(..)`-th fresh pair.
pub open spec fn entry_for(
    rows0: Seq<(SpeciesId, CacheEntry)>,
    next0: int,
    snap: Seq<(SpeciesId, SpeciesBundle)>,
    i: int,
) -> CacheEntry {
    if reuses(rows0, snap[i]) {
        reused_entry(find_row(rows0, snap[i].0)->Some_0, snap[i].1)
    } else {
        fresh_entry(next0 + 2 * count_fresh(rows0, snap.take(i)), snap[i].1)
    }
}

/// The cache rows after a sync: one per snapshot row, in snapshot order.
pub open spec fn new_rows(
    rows0: Seq<(SpeciesId, CacheEntry)>,
    next0: int,
    snap: Seq<(SpeciesId, SpeciesBundle)>,
) -> Seq<(SpeciesId, CacheEntry)> {
    Seq::new(snap.len(), |i: int| (snap[i].0, entry_for(rows0, next0, snap, i)))
}

/// The binding a sync reports for an entry.
pub open spec fn binding_of(id: SpeciesId, e: CacheEntry) -> SpeciesBinding {
    SpeciesBinding {
        id,
        agents: e.agents,
        qualities: e.qualities,
        num_agents: e.bundle.num_agents,
        needs_init: e.state is Uninitialized,
    }
}

/// The bindings a sync reports, in snapshot order.
pub open spec fn bindings_spec(
    rows0: Seq<(SpeciesId, CacheEntry)>,
    next0: int,
    snap: Seq<(SpeciesId, SpeciesBundle)>,
) -> Seq<SpeciesBinding> {
    Seq::new(snap.len(), |i: int| binding_of(snap[i].0, entry_for(rows0, next0, snap, i)))
}

/// The handle counter after a sync: two handles per fresh pair.
pub open spec fn next_after(
    rows0: Seq<(SpeciesId, CacheEntry)>,
    next0: int,
    snap: Seq<(SpeciesId, SpeciesBundle)>,
) -> int {
    next0 + 2 * count_fresh(rows0, snap)
}

/// The allocation requests a sync emits, in snapshot order: for each row
/// that does not reuse, its agents buffer then its qualities buffer.
pub open spec fn alloc_seq(
    rows0: Seq<(SpeciesId, CacheEntry)>,
    next0: int,
    snap: Seq<(SpeciesId, SpeciesBundle)>,
) -> Seq<BufferAlloc>
    decreases snap.len(),
{
    if snap.len() == 0 {
        Seq::empty()
    } else {
        let prev = alloc_seq(rows0, next0, snap.drop_last());
        if reuses(rows0, snap.last()) {
            prev
        } else {
            let base = next0 + 2 * count_fresh(rows0, snap.drop_last());
            prev.push(
                BufferAlloc {
                    kind: BufferKind::AgentsStorage,
                    handle: base as u64,
                    size: (snap.last().1.num_agents.0 * AGENT_STRIDE) as u64,
                },
            ).push(
                BufferAlloc {
                    kind: BufferKind::QualitiesUniform,
                    handle: (base + 1) as u64,
                    size: QUALITIES_SIZE,
                },
            )
        }
    }
}

/// Whether a snapshot row needs its qualities written to the device: always
/// for a fresh pair, and on a change of the bits for a reusing row.
pub open spec fn row_uploads(rows0: Seq<(SpeciesId, CacheEntry)>, row: (SpeciesId, SpeciesBundle)) -> bool {
    !(reuses(rows0, row) && find_row(rows0, row.0)->Some_0.bundle.qualities == row.1.qualities)
}

/// The qualities writes a sync emits, in snapshot order.
pub open spec fn upload_seq(
    rows0: Seq<(SpeciesId, CacheEntry)>,
    next0: int,
    snap: Seq<(SpeciesId, SpeciesBundle)>,
) -> Seq<QualitiesUpload>
    decreases snap.len(),
{
    if snap.len() == 0 {
        Seq::empty()
    } else {
        let prev = upload_seq(rows0, next0, snap.drop_last());
        if row_uploads(rows0, snap.last()) {
            prev.push(
                QualitiesUpload {
                    handle: entry_for(rows0, next0, snap, snap.len() - 1).qualities.handle,
                    qualities: snap.last().1.qualities,
                },
            )
        } else {
            prev
        }
    }
}

/// Handles freed because their species' agent count changed: the old pair of
/// each replaced row, in snapshot order.
pub open spec fn replaced_freed(
    rows0: Seq<(SpeciesId, CacheEntry)>,
    snap: Seq<(SpeciesId, SpeciesBundle)>,
) -> Seq<u64>
    decreases snap.len(),
{
    if snap.len() == 0 {
        Seq::empty()
    } else {
        let prev = replaced_freed(rows0, snap.drop_last());
        if find_row(rows0, snap.last().0) is Some && !reuses(rows0, snap.last()) {
            let e = find_row(rows0, snap.last().0)->Some_0;
            prev.push(e.agents.handle).push(e.qualities.handle)
        } else {
            prev
        }
    }
}

/// Handles freed because their species left the registry: the pair of each
/// cached row whose id the snapshot no longer names, in cache order.
pub open spec fn removed_freed(
    rows0: Seq<(SpeciesId, CacheEntry)>,
    snap: Seq<(SpeciesId, SpeciesBundle)>,
) -> Seq<u64>
    decreases rows0.len(),
{
    if rows0.len() == 0 {
        Seq::empty()
    } else {
        let prev = removed_freed(rows0.drop_last(), snap);
        if snapshot_ids(snap).contains(rows0.last().0) {
            prev
        } else {
            prev.push(rows0.last().1.agents.handle).push(rows0.last().1.qualities.handle)
        }
    }
}

/// Every handle a sync frees, replaced rows first.
pub open spec fn freed_seq(
    rows0: Seq<(SpeciesId, CacheEntry)>,
    snap: Seq<(SpeciesId, SpeciesBundle)>,
) -> Seq<u64> {
    replaced_freed(rows0, snap) + removed_freed(rows0, snap)
}

/// Well-formedness of a row list against a handle counter: ids are unique,
/// each agents buffer is sized for its bundle, every handle is below the
/// counter, and no two buffers share a handle.
pub open spec fn rows_wf(rows: Seq<(SpeciesId, CacheEntry)>, next: int) -> bool {
    &&& forall|i: int, j: int| 0 <= i < j < rows.len() ==> (#[trigger] rows[i]).0 != (#[trigger] rows[j]).0
    &&& forall|i: int|
        0 <= i < rows.len() ==> {
            let e = (#[trigger] rows[i]).1;
            &&& e.agents.size == e.bundle.num_agents.0 * AGENT_STRIDE
            &&& e.agents.handle < next
            &&& e.qualities.handle < next
            &&& e.agents.handle != e.qualities.handle
        }
    &&& forall|i: int, j: int|
        0 <= i < j < rows.len() ==> {
            let a = (#[trigger] rows[i]).1;
            let b = (#[trigger] rows[j]).1;
            &&& a.agents.handle != b.agents.handle
            &&& a.agents.handle != b.qualities.handle
            &&& a.qualities.handle != b.agents.handle
            &&& a.qualities.handle != b.qualities.handle
        }
}

/// Whether the snapshot names `id` as live.
pub fn snapshot_contains(snap: &RegistrySnapshot, id: SpeciesId) -> (r: bool)
    ensures
        r == snapshot_ids(snap@).contains(id),
{
    let n = snap.len();
    let mut i: usize = 0;
    while i < n
        invariant
            i <= n,
            n == snap@.len(),
            forall|j: int| 0 <= j < i ==> (#[trigger] snap@[j]).0 != id,
        decreases n - i,
    {
        if snap[i].0 == id {
            proof {
                assert(snapshot_ids(snap@)[i as int] == id);
            }
            return true;
        }
        i = i + 1;
    }
    proof {
        assert forall|j: int| 0 <= j < snapshot_ids(snap@).len() implies #[trigger] snapshot_ids(
            snap@,
        )[j] != id by {
            assert(snapshot_ids(snap@)[j] == snap@[j].0);
        }
    }
    false
}

/// A found row really is one of the rows.
pub proof fn lemma_find_row_some(rows: Seq<(SpeciesId, CacheEntry)>, id: SpeciesId)
    requires
        find_row(rows, id) is Some,
    ensures
        exists|k: int| 0 <= k < rows.len() && rows[k] == (id, find_row(rows, id)->Some_0),
    decreases rows.len(),
{
    if rows.first().0 == id {
        assert(rows[0] == (id, find_row(rows, id)->Some_0));
    } else {
        lemma_find_row_some(rows.drop_first(), id);
        let k = choose|k: int|
            0 <= k < rows.drop_first().len() && rows.drop_first()[k] == (
            id,
            find_row(rows.drop_first(), id)->Some_0,
            );
        assert(rows[k + 1] == (id, find_row(rows, id)->Some_0));
    }
}

/// With unique ids, the row at index `k` is what a search for its id finds.
pub proof fn lemma_find_row_at(rows: Seq<(SpeciesId, CacheEntry)>, k: int)
    requires
        0 <= k < rows.len(),
        forall|i: int, j: int|
            0 <= i < j < rows.len() ==> (#[trigger] rows[i]).0 != (#[trigger] rows[j]).0,
    ensures
        find_row(rows, rows[k].0) == Some(rows[k].1),
    decreases rows.len(),
{
    if k == 0 {
    } else {
        assert(rows[0].0 != rows[k].0);
        assert(forall|i: int, j: int|
            0 <= i < j < rows.drop_first().len() ==> (#[trigger] rows.drop_first()[i]).0 != (
            #[trigger] rows.drop_first()[j]).0) by {
            assert(forall|i: int|
                0 <= i < rows.drop_first().len() ==> #[trigger] rows.drop_first()[i] == rows[i
                    + 1]);
        }
        lemma_find_row_at(rows.drop_first(), k - 1);
        assert(rows.drop_first()[k - 1] == rows[k]);
    }
}

/// A search for an id no row carries finds nothing.
pub proof fn lemma_find_row_none(rows: Seq<(SpeciesId, CacheEntry)>, id: SpeciesId)
    requires
        forall|k: int| 0 <= k < rows.len() ==> (#[trigger] rows[k]).0 != id,
    ensures
        find_row(rows, id) is None,
    decreases rows.len(),
{
    if rows.len() > 0 {
        assert(forall|k: int|
            0 <= k < rows.drop_first().len() ==> (#[trigger] rows.drop_first()[k]).0 != id) by {
            assert(forall|k: int|
                0 <= k < rows.drop_first().len() ==> #[trigger] rows.drop_first()[k] == rows[k
                    + 1]);
        }
        lemma_find_row_none(rows.drop_first(), id);
    }
}

/// The number of fresh pairs never exceeds the number of snapshot rows.
pub proof fn lemma_count_fresh_bounds(
    rows0: Seq<(SpeciesId, CacheEntry)>,
    snap: Seq<(SpeciesId, SpeciesBundle)>,
)
    ensures
        0 <= count_fresh(rows0, snap) <= snap.len(),
    decreases snap.len(),
{
    if snap.len() > 0 {
        lemma_count_fresh_bounds(rows0, snap.drop_last());
    }
}

/// Longer snapshot prefixes allocate at least as many fresh pairs.
pub proof fn lemma_count_fresh_mono(
    rows0: Seq<(SpeciesId, CacheEntry)>,
    snap: Seq<(SpeciesId, SpeciesBundle)>,
    i: int,
    j: int,
)
    requires
        0 <= i <= j <= snap.len(),
    ensures
        count_fresh(rows0, snap.take(i)) <= count_fresh(rows0, snap.take(j)),
    decreases j - i,
{
    if i < j {
        lemma_count_fresh_mono(rows0, snap, i, j - 1);
        assert(snap.take(j).drop_last() =~= snap.take(j - 1));
    }
}

/// One snapshot row more counts one fresh pair more exactly when that row
/// does not reuse.
pub proof fn lemma_count_fresh_step(
    rows0: Seq<(SpeciesId, CacheEntry)>,
    snap: Seq<(SpeciesId, SpeciesBundle)>,
    i: int,
)
    requires
        0 <= i < snap.len(),
    ensures
        count_fresh(rows0, snap.take(i + 1)) == count_fresh(rows0, snap.take(i)) + if reuses(
            rows0,
            snap[i],
        ) {
            0int
        } else {
            1int
        },
{
    assert(snap.take(i + 1).drop_last() =~= snap.take(i));
    assert(snap.take(i + 1).last() == snap[i]);
}

/// Reconciliation preserves the cache invariant: the new rows are uniquely
/// keyed by the snapshot ids, sized for their bundles, and no two buffers —
/// reused or fresh — share a handle.
pub proof fn lemma_new_rows_wf(
    rows0: Seq<(SpeciesId, CacheEntry)>,
    next0: int,
    snap: Seq<(SpeciesId, SpeciesBundle)>,
)
    requires
        rows_wf(rows0, next0),
        snapshot_wf(snap),
        0 <= next0,
        next0 + 2 * snap.len() <= u64::MAX,
    ensures
        rows_wf(new_rows(rows0, next0, snap), next_after(rows0, next0, snap)),
{
    let rows1 = new_rows(rows0, next0, snap);
    let next1 = next_after(rows0, next0, snap);
    lemma_count_fresh_bounds(rows0, snap);

    // Where a fresh pair's handles lie: at and above its base, below the
    // final counter, and the base never exceeds what 2 handles per earlier
    // row admits.
    assert forall|i: int| 0 <= i < snap.len() && !reuses(rows0, snap[i]) implies {
        let base = next0 + 2 * count_fresh(rows0, snap.take(i));
        &&& next0 <= base
        &&& base + 2 <= next1
        &&& base + 2 <= next0 + 2 * snap.len()
    } by {
        lemma_count_fresh_bounds(rows0, snap.take(i));
        lemma_count_fresh_step(rows0, snap, i);
        lemma_count_fresh_mono(rows0, snap, i + 1, snap.len() as int);
        assert(snap.take(snap.len() as int) =~= snap);
        assert(count_fresh(rows0, snap.take(i)) <= snap.take(i).len()) by {
            lemma_count_fresh_bounds(rows0, snap.take(i));
        }
    }

    // Where a reused entry's handles lie: they are some old row's, so below
    // the old counter, distinct within the row, and rightly sized.
    assert forall|i: int| 0 <= i < snap.len() && reuses(rows0, snap[i]) implies {
        let e = find_row(rows0, snap[i].0)->Some_0;
        &&& e.agents.handle < next0
        &&& e.qualities.handle < next0
        &&& e.agents.handle != e.qualities.handle
        &&& e.agents.size == snap[i].1.num_agents.0 * AGENT_STRIDE
    } by {
        lemma_find_row_some(rows0, snap[i].0);
        let k = choose|k: int|
            0 <= k < rows0.len() && rows0[k] == (snap[i].0, find_row(rows0, snap[i].0)->Some_0);
        assert(rows0[k].1 == find_row(rows0, snap[i].0)->Some_0);
    }

    // Distinct rows reuse distinct old rows, whose handles the old
    // invariant keeps apart.
    assert forall|i: int, j: int|
        0 <= i < j < snap.len() && reuses(rows0, snap[i]) && reuses(rows0, snap[j]) implies {
        let a = find_row(rows0, snap[i].0)->Some_0;
        let b = find_row(rows0, snap[j].0)->Some_0;
        &&& a.agents.handle != b.agents.handle
        &&& a.agents.handle != b.qualities.handle
        &&& a.qualities.handle != b.agents.handle
        &&& a.qualities.handle != b.qualities.handle
    } by {
        lemma_find_row_some(rows0, snap[i].0);
        lemma_find_row_some(rows0, snap[j].0);
        let ki = choose|k: int|
            0 <= k < rows0.len() && rows0[k] == (snap[i].0, find_row(rows0, snap[i].0)->Some_0);
        let kj = choose|k: int|
            0 <= k < rows0.len() && rows0[k] == (snap[j].0, find_row(rows0, snap[j].0)->Some_0);
        assert(snap[i].0 != snap[j].0);
        assert(ki != kj);
        if ki < kj {
            assert(rows0[ki].1.agents.handle != rows0[kj].1.agents.handle);
        } else {
            assert(rows0[kj].1.agents.handle != rows0[ki].1.agents.handle);
        }
    }

    // Two fresh pairs of distinct rows draw from disjoint handle ranges.
    assert forall|i: int, j: int|
        0 <= i < j < snap.len() && !reuses(rows0, snap[i]) && !reuses(rows0, snap[j]) implies
        count_fresh(rows0, snap.take(i)) + 1 <= count_fresh(rows0, snap.take(j)) by {
        lemma_count_fresh_step(rows0, snap, i);
        lemma_count_fresh_mono(rows0, snap, i + 1, j);
    }

    assert(rows_wf(rows1, next1)) by {
        assert(forall|i: int| 0 <= i < rows1.len() ==> #[trigger] rows1[i] == (
        snap[i].0,
        entry_for(rows0, next0, snap, i),
        ));
    }
}

/// When every snapshot row reuses its cached buffers and none changes its
/// qualities, a sync decides nothing: no fresh pair, no allocation, no
/// upload, no replacement.
proof fn lemma_all_reuse(
    rows: Seq<(SpeciesId, CacheEntry)>,
    next: int,
    snap: Seq<(SpeciesId, SpeciesBundle)>,
)
    requires
        forall|i: int|
            0 <= i < snap.len() ==> reuses(rows, #[trigger] snap[i]) && !row_uploads(
                rows,
                snap[i],
            ),
    ensures
        count_fresh(rows, snap) == 0,
        alloc_seq(rows, next, snap) == Seq::<BufferAlloc>::empty(),
        upload_seq(rows, next, snap) == Seq::<QualitiesUpload>::empty(),
        replaced_freed(rows, snap) == Seq::<u64>::empty(),
    decreases snap.len(),
{
    if snap.len() > 0 {
        assert(forall|i: int|
            0 <= i < snap.drop_last().len() ==> #[trigger] snap.drop_last()[i] == snap[i]);
        lemma_all_reuse(rows, next, snap.drop_last());
    }
}

/// When the snapshot still names every cached id, nothing is freed for
/// removal.
proof fn lemma_none_removed(
    rows: Seq<(SpeciesId, CacheEntry)>,
    snap: Seq<(SpeciesId, SpeciesBundle)>,
)
    requires
        forall|k: int|
            0 <= k < rows.len() ==> snapshot_ids(snap).contains((#[trigger] rows[k]).0),
    ensures
        removed_freed(rows, snap) == Seq::<u64>::empty(),
    decreases rows.len(),
{
    if rows.len() > 0 {
        assert(forall|k: int|
            0 <= k < rows.drop_last().len() ==> #[trigger] rows.drop_last()[k] == rows[k]);
        lemma_none_removed(rows.drop_last(), snap);
    }
}

/// Syncing is idempotent: against the rows a sync left behind, the same
/// snapshot allocates nothing, uploads nothing, frees nothing, leaves the
/// rows and the handle counter exactly as they are, and reports the same
/// bindings — in particular the same buffer handles — as the first sync did.
pub proof fn lemma_sync_idempotent(
    rows0: Seq<(SpeciesId, CacheEntry)>,
    next0: int,
    snap: Seq<(SpeciesId, SpeciesBundle)>,
)
    requires
        rows_wf(rows0, next0),
        snapshot_wf(snap),
        0 <= next0,
        next0 + 2 * snap.len() <= u64::MAX,
    ensures
        ({
            let rows1 = new_rows(rows0, next0, snap);
            let next1 = next_after(rows0, next0, snap);
            &&& alloc_seq(rows1, next1, snap) == Seq::<BufferAlloc>::empty()
            &&& upload_seq(rows1, next1, snap) == Seq::<QualitiesUpload>::empty()
            &&& freed_seq(rows1, snap) == Seq::<u64>::empty()
            &&& new_rows(rows1, next1, snap) == rows1
            &&& next_after(rows1, next1, snap) == next1
            &&& bindings_spec(rows1, next1, snap) == bindings_spec(rows0, next0, snap)
        }),
{
    let rows1 = new_rows(rows0, next0, snap);
    let next1 = next_after(rows0, next0, snap);
    assert(forall|i: int| 0 <= i < rows1.len() ==> #[trigger] rows1[i] == (
    snap[i].0,
    entry_for(rows0, next0, snap, i),
    ));
    assert forall|i: int| 0 <= i < snap.len() implies {
        &&& find_row(rows1, snap[i].0) == Some(rows1[i].1)
        &&& rows1[i].1.bundle == snap[i].1
    } by {
        lemma_find_row_at(rows1, i);
    }
    assert forall|i: int| 0 <= i < snap.len() implies reuses(rows1, #[trigger] snap[i])
        && !row_uploads(rows1, snap[i]) by {
        assert(find_row(rows1, snap[i].0)->Some_0 == rows1[i].1);
    }
    lemma_all_reuse(rows1, next1, snap);
    assert forall|k: int| 0 <= k < rows1.len() implies snapshot_ids(snap).contains(
        (#[trigger] rows1[k]).0,
    ) by {
        assert(snapshot_ids(snap)[k] == snap[k].0);
    }
    lemma_none_removed(rows1, snap);
    assert(freed_seq(rows1, snap) =~= Seq::<u64>::empty());
    assert forall|i: int| 0 <= i < snap.len() implies entry_for(rows1, next1, snap, i)
        == rows1[i].1 by {
        assert(reused_entry(rows1[i].1, snap[i].1) == rows1[i].1);
    }
    assert(new_rows(rows1, next1, snap) =~= rows1);
    assert(bindings_spec(rows1, next1, snap) =~= bindings_spec(rows0, next0, snap));
}

/// A replaced row's old buffers are among the freed handles.
proof fn lemma_replaced_freed_contains(
    rows0: Seq<(SpeciesId, CacheEntry)>,
    snap: Seq<(SpeciesId, SpeciesBundle)>,
    i: int,
)
    requires
        0 <= i < snap.len(),
        find_row(rows0, snap[i].0) is Some,
        !reuses(rows0, snap[i]),
    ensures
        replaced_freed(rows0, snap).contains(find_row(rows0, snap[i].0)->Some_0.agents.handle),
        replaced_freed(rows0, snap).contains(find_row(rows0, snap[i].0)->Some_0.qualities.handle),
    decreases snap.len(),
{
    let e = find_row(rows0, snap[i].0)->Some_0;
    let whole = replaced_freed(rows0, snap);
    let prev = replaced_freed(rows0, snap.drop_last());
    if i == snap.len() - 1 {
        assert(whole[whole.len() - 2] == e.agents.handle);
        assert(whole[whole.len() - 1] == e.qualities.handle);
    } else {
        assert(snap.drop_last()[i] == snap[i]);
        lemma_replaced_freed_contains(rows0, snap.drop_last(), i);
        let ka = choose|k: int| 0 <= k < prev.len() && prev[k] == e.agents.handle;
        let kq = choose|k: int| 0 <= k < prev.len() && prev[k] == e.qualities.handle;
        assert(whole[ka] == e.agents.handle);
        assert(whole[kq] == e.qualities.handle);
    }
}

/// A removed row's buffers are among the freed handles.
proof fn lemma_removed_freed_contains(
    rows0: Seq<(SpeciesId, CacheEntry)>,
    snap: Seq<(SpeciesId, SpeciesBundle)>,
    k: int,
)
    requires
        0 <= k < rows0.len(),
        !snapshot_ids(snap).contains(rows0[k].0),
    ensures
        removed_freed(rows0, snap).contains(rows0[k].1.agents.handle),
        removed_freed(rows0, snap).contains(rows0[k].1.qualities.handle),
    decreases rows0.len(),
{
    let e = rows0[k].1;
    let whole = removed_freed(rows0, snap);
    let prev = removed_freed(rows0.drop_last(), snap);
    if k == rows0.len() - 1 {
        assert(whole[whole.len() - 2] == e.agents.handle);
        assert(whole[whole.len() - 1] == e.qualities.handle);
    } else {
        assert(rows0.drop_last()[k] == rows0[k]);
        lemma_removed_freed_contains(rows0.drop_last(), snap, k);
        let ka = choose|j: int| 0 <= j < prev.len() && prev[j] == e.agents.handle;
        let kq = choose|j: int| 0 <= j < prev.len() && prev[j] == e.qualities.handle;
        assert(whole[ka] == e.agents.handle);
        assert(whole[kq] == e.qualities.handle);
    }
}

/// Changing a live species' agent count replaces its resources: the sync
/// gives it a fresh agents buffer — a handle no cached buffer had — sized
/// for the new count, marks it uninitialized again so `init` rather than
/// `update` runs next frame, and frees both old buffers.
pub proof fn lemma_realloc_on_count_change(
    rows0: Seq<(SpeciesId, CacheEntry)>,
    next0: int,
    snap: Seq<(SpeciesId, SpeciesBundle)>,
    i: int,
)
    requires
        rows_wf(rows0, next0),
        snapshot_wf(snap),
        0 <= next0,
        next0 + 2 * snap.len() <= u64::MAX,
        0 <= i < snap.len(),
        find_row(rows0, snap[i].0) is Some,
        find_row(rows0, snap[i].0)->Some_0.bundle.num_agents != snap[i].1.num_agents,
    ensures
        ({
            let e = new_rows(rows0, next0, snap)[i].1;
            let old_e = find_row(rows0, snap[i].0)->Some_0;
            &&& e.state is Uninitialized
            &&& e.agents.size == snap[i].1.num_agents.0 * AGENT_STRIDE
            &&& e.agents.handle >= next0
            &&& e.qualities.handle >= next0
            &&& bindings_spec(rows0, next0, snap)[i].needs_init
            &&& freed_seq(rows0, snap).contains(old_e.agents.handle)
            &&& freed_seq(rows0, snap).contains(old_e.qualities.handle)
        }),
{
    let e = new_rows(rows0, next0, snap)[i].1;
    let old_e = find_row(rows0, snap[i].0)->Some_0;
    lemma_count_fresh_bounds(rows0, snap.take(i));
    assert(count_fresh(rows0, snap.take(i)) <= snap.take(i).len()) by {
        lemma_count_fresh_bounds(rows0, snap.take(i));
    }
    lemma_replaced_freed_contains(rows0, snap, i);
    let fr = replaced_freed(rows0, snap);
    let ka = choose|j: int| 0 <= j < fr.len() && fr[j] == old_e.agents.handle;
    let kq = choose|j: int| 0 <= j < fr.len() && fr[j] == old_e.qualities.handle;
    assert(freed_seq(rows0, snap)[ka] == old_e.agents.handle);
    assert(freed_seq(rows0, snap)[kq] == old_e.qualities.handle);
}

/// Removing a species id from the registry drops its cache entry and frees
/// its buffers: the rows a sync leaves behind have no entry — hence no
/// handle — for an id the snapshot no longer names, the bindings name only
/// snapshot ids, and both of the removed species' handles are freed.
pub proof fn lemma_removal_frees(
    rows0: Seq<(SpeciesId, CacheEntry)>,
    next0: int,
    snap: Seq<(SpeciesId, SpeciesBundle)>,
    k: int,
)
    requires
        rows_wf(rows0, next0),
        snapshot_wf(snap),
        0 <= k < rows0.len(),
        !snapshot_ids(snap).contains(rows0[k].0),
    ensures
        find_row(new_rows(rows0, next0, snap), rows0[k].0) is None,
        forall|i: int|
            0 <= i < snap.len() ==> #[trigger] bindings_spec(rows0, next0, snap)[i].id != rows0[
                k].0,
        freed_seq(rows0, snap).contains(rows0[k].1.agents.handle),
        freed_seq(rows0, snap).contains(rows0[k].1.qualities.handle),
{
    let rows1 = new_rows(rows0, next0, snap);
    assert forall|j: int| 0 <= j < rows1.len() implies (#[trigger] rows1[j]).0 != rows0[k].0 by {
        assert(snapshot_ids(snap)[j] == snap[j].0);
    }
    lemma_find_row_none(rows1, rows0[k].0);
    assert forall|i: int| 0 <= i < snap.len() implies #[trigger] bindings_spec(
        rows0,
        next0,
        snap,
    )[i].id != rows0[k].0 by {
        assert(snapshot_ids(snap)[i] == snap[i].0);
    }
    lemma_removed_freed_contains(rows0, snap, k);
    let rm = removed_freed(rows0, snap);
    let off = replaced_freed(rows0, snap).len();
    let ka = choose|j: int| 0 <= j < rm.len() && rm[j] == rows0[k].1.agents.handle;
    let kq = choose|j: int| 0 <= j < rm.len() && rm[j] == rows0[k].1.qualities.handle;
    assert(freed_seq(rows0, snap)[off + ka] == rows0[k].1.agents.handle);
    assert(freed_seq(rows0, snap)[off + kq] == rows0[k].1.qualities.handle);
}

/// The rows with any entry for `id` taken out, order kept.
pub open spec fn rows_without(
    rows: Seq<(SpeciesId, CacheEntry)>,
    id: SpeciesId,
) -> Seq<(SpeciesId, CacheEntry)>
    decreases rows.len(),
{
    if rows.len() == 0 {
        Seq::empty()
    } else {
        let prev = rows_without(rows.drop_last(), id);
        if rows.last().0 == id {
            prev
        } else {
            prev.push(rows.last())
        }
    }
}

/// Every kept row is one of the original rows.
proof fn lemma_rows_without_origin(
    rows: Seq<(SpeciesId, CacheEntry)>,
    id: SpeciesId,
    a: int,
)
    requires
        0 <= a < rows_without(rows, id).len(),
    ensures
        exists|b: int| 0 <= b < rows.len() && rows[b] == rows_without(rows, id)[a],
    decreases rows.len(),
{
    let kept = rows_without(rows, id);
    let prev = rows_without(rows.drop_last(), id);
    if rows.last().0 != id && a == kept.len() - 1 {
        assert(rows[rows.len() - 1] == kept[a]);
    } else {
        lemma_rows_without_origin(rows.drop_last(), id, a);
        let b = choose|b: int| 0 <= b < rows.drop_last().len() && rows.drop_last()[b] == prev[a];
        assert(rows[b] == kept[a]);
    }
}

/// Taking one species' row out keeps the invariant: the rows that stay are
/// original rows in their original order, so their ids stay unique and
/// their handles stay in bounds and apart.
proof fn lemma_rows_without_wf(rows: Seq<(SpeciesId, CacheEntry)>, next: int, id: SpeciesId)
    requires
        rows_wf(rows, next),
    ensures
        rows_wf(rows_without(rows, id), next),
    decreases rows.len(),
{
    if rows.len() > 0 {
        let kept = rows_without(rows, id);
        let prev = rows_without(rows.drop_last(), id);
        assert(forall|k: int|
            0 <= k < rows.drop_last().len() ==> #[trigger] rows.drop_last()[k] == rows[k]);
        lemma_rows_without_wf(rows.drop_last(), next, id);
        if rows.last().0 != id {
            // The appended last row is apart from every kept earlier row,
            // because each of those is an earlier original row.
            assert forall|a: int| 0 <= a < prev.len() implies {
                let p = #[trigger] prev[a];
                let q = rows.last();
                &&& p.0 != q.0
                &&& p.1.agents.handle != q.1.agents.handle
                &&& p.1.agents.handle != q.1.qualities.handle
                &&& p.1.qualities.handle != q.1.agents.handle
                &&& p.1.qualities.handle != q.1.qualities.handle
            } by {
                lemma_rows_without_origin(rows.drop_last(), id, a);
                let b = choose|b: int|
                    0 <= b < rows.drop_last().len() && rows.drop_last()[b] == prev[a];
                assert(rows[b] == prev[a]);
            }
        }
    }
}

/// The rows with every entry latched to `Active`.
pub open spec fn activated_rows(rows: Seq<(SpeciesId, CacheEntry)>) -> Seq<(SpeciesId, CacheEntry)> {
    rows.map_values(|r: (SpeciesId, CacheEntry)| (r.0, CacheEntry { state: InitState::Active, ..r.1 }))
}

/// The device-side resource cache: one entry per live species, plus the
/// counter the next fresh handle comes from.
pub struct ResourceCache {
    entries: Vec<(SpeciesId, CacheEntry)>,
    next_handle: u64,
}

impl ResourceCache {
    /// The cached rows, in order.
    pub closed spec fn rows(self) -> Seq<(SpeciesId, CacheEntry)> {
        self.entries@
    }

    /// The handle counter: every handle ever assigned is below it.
    pub closed spec fn next_spec(self) -> int {
        self.next_handle as int
    }

    /// The cache invariant.
    pub open spec fn wf(self) -> bool {
        rows_wf(self.rows(), self.next_spec())
    }

    /// An empty cache.
    pub fn new() -> (r: Self)
        ensures
            r.rows() == Seq::<(SpeciesId, CacheEntry)>::empty(),
            r.next_spec() == 0,
            r.wf(),
    {
        let r = ResourceCache { entries: Vec::new(), next_handle: 0 };
        proof {
            assert(r.rows() =~= Seq::<(SpeciesId, CacheEntry)>::empty());
        }
        r
    }

    /// The cached entry for `id`, if the species is live.
    pub fn lookup(&self, id: SpeciesId) -> (r: Option<CacheEntry>)
        ensures
            r == find_row(self.rows(), id),
    {
        let n = self.entries.len();
        let mut i: usize = 0;
        proof {
            assert(self.rows().skip(0) =~= self.rows());
        }
        while i < n
            invariant
                i <= n,
                n == self.entries.len(),
                find_row(self.rows(), id) == find_row(self.rows().skip(i as int), id),
            decreases n - i,
        {
            let candidate = self.entries[i].0;
            proof {
                assert(self.rows().skip(i as int).first() == self.rows()[i as int]);
                assert(self.rows().skip(i as int).drop_first() =~= self.rows().skip(i as int + 1));
            }
            if candidate.0 == id.0 {
                proof {
                    assert(candidate == id);
                }
                return Some(self.entries[i].1);
            }
            i = i + 1;
        }
        proof {
            assert(self.rows().skip(n as int) =~= Seq::<(SpeciesId, CacheEntry)>::empty());
        }
        None
    }

    /// Reconciles the cache against the host's registry snapshot.
    ///
    /// Afterwards the cache holds exactly one entry per snapshot row, in
    /// snapshot order: an unchanged id keeps its buffers and its init state;
    /// a new id, or one whose agent count changed, gets a fresh pair of
    /// buffers and is marked uninitialized; every other entry is dropped.
    /// The outcome lists the per-species bindings, the allocations and
    /// qualities writes the host must perform, and every handle now free.
    pub fn sync(&mut self, snap: &RegistrySnapshot) -> (out: SyncOutcome)
        requires
            old(self).wf(),
            snapshot_wf(snap@),
            old(self).next_spec() + 2 * snap@.len() <= u64::MAX,
        ensures
            final(self).wf(),
            final(self).rows() == new_rows(old(self).rows(), old(self).next_spec(), snap@),
            final(self).next_spec() == next_after(old(self).rows(), old(self).next_spec(), snap@),
            out.bindings@ == bindings_spec(old(self).rows(), old(self).next_spec(), snap@),
            out.allocations@ == alloc_seq(old(self).rows(), old(self).next_spec(), snap@),
            out.uploads@ == upload_seq(old(self).rows(), old(self).next_spec(), snap@),
            out.freed@ == freed_seq(old(self).rows(), snap@),
    {
        let ghost rows0 = self.entries@;
        let ghost next0 = self.next_handle as int;
        let n = snap.len();
        let mut bindings: Vec<SpeciesBinding> = Vec::new();
        let mut allocations: Vec<BufferAlloc> = Vec::new();
        let mut uploads: Vec<QualitiesUpload> = Vec::new();
        let mut freed: Vec<u64> = Vec::new();
        let mut updated: Vec<(SpeciesId, CacheEntry)> = Vec::new();
        let mut next: u64 = self.next_handle;
        let mut i: usize = 0;
        proof {
            assert(snap@.take(0) =~= Seq::<(SpeciesId, SpeciesBundle)>::empty());
        }
        while i < n
            invariant
                i <= n,
                n == snap@.len(),
                self.entries@ == rows0,
                self.next_handle as int == next0,
                snapshot_wf(snap@),
                next0 + 2 * n <= u64::MAX,
                count_fresh(rows0, snap@.take(i as int)) <= i,
                next as int == next0 + 2 * count_fresh(rows0, snap@.take(i as int)),
                updated@.len() == i,
                forall|j: int|
                    0 <= j < i ==> #[trigger] updated@[j] == (
                    snap@[j].0,
                    entry_for(rows0, next0, snap@, j),
                ),
                bindings@.len() == i,
                forall|j: int|
                    0 <= j < i ==> #[trigger] bindings@[j] == binding_of(
                    snap@[j].0,
                    entry_for(rows0, next0, snap@, j),
                ),
                allocations@ == alloc_seq(rows0, next0, snap@.take(i as int)),
                uploads@ == upload_seq(rows0, next0, snap@.take(i as int)),
                freed@ == replaced_freed(rows0, snap@.take(i as int)),
            decreases n - i,
        {
            let (id, bundle) = snap[i];
            let found = self.lookup(id);
            proof {
                assert(snap@.take(i as int + 1).drop_last() =~= snap@.take(i as int));
                assert(snap@.take(i as int + 1).last() == snap@[i as int]);
                lemma_count_fresh_step(rows0, snap@, i as int);
            }
            let reuse = match &found {
                Some(e) => e.bundle.num_agents.0 == bundle.num_agents.0,
                None => false,
            };
            if reuse {
                let e = found.unwrap();
                proof {
                    assert(e.bundle.num_agents == bundle.num_agents);
                    assert(reuses(rows0, snap@[i as int]));
                }
                let entry = CacheEntry {
                    agents: e.agents,
                    qualities: e.qualities,
                    bundle,
                    state: e.state,
                };
                updated.push((id, entry));
                bindings.push(
                    SpeciesBinding {
                        id,
                        agents: e.agents,
                        qualities: e.qualities,
                        num_agents: bundle.num_agents,
                        needs_init: matches!(e.state, InitState::Uninitialized),
                    },
                );
                if e.bundle.qualities != bundle.qualities {
                    uploads.push(QualitiesUpload { handle: e.qualities.handle, qualities: bundle.qualities });
                }
            } else {
                proof {
                    assert(!reuses(rows0, snap@[i as int]));
                }
                if let Some(e) = found {
                    freed.push(e.agents.handle);
                    freed.push(e.qualities.handle);
                }
                let agents = AgentsBuffer {
                    handle: next,
                    size: (bundle.num_agents.0 as u64) * AGENT_STRIDE,
                };
                let qualities = QualitiesBuffer { handle: next + 1 };
                allocations.push(
                    BufferAlloc { kind: BufferKind::AgentsStorage, handle: next, size: agents.size },
                );
                allocations.push(
                    BufferAlloc {
                        kind: BufferKind::QualitiesUniform,
                        handle: next + 1,
                        size: QUALITIES_SIZE,
                    },
                );
                uploads.push(QualitiesUpload { handle: next + 1, qualities: bundle.qualities });
                let entry = CacheEntry {
                    agents,
                    qualities,
                    bundle,
                    state: InitState::Uninitialized,
                };
                updated.push((id, entry));
                bindings.push(
                    SpeciesBinding { id, agents, qualities, num_agents: bundle.num_agents, needs_init: true },
                );
                next = next + 2;
            }
            i = i + 1;
        }
        proof {
            assert(snap@.take(n as int) =~= snap@);
            assert(rows0.take(0) =~= Seq::<(SpeciesId, CacheEntry)>::empty());
        }
        let m = self.entries.len();
        let mut k: usize = 0;
        while k < m
            invariant
                k <= m,
                m == self.entries.len(),
                self.entries@ == rows0,
                n == snap@.len(),
                freed@ == replaced_freed(rows0, snap@) + removed_freed(rows0.take(k as int), snap@),
            decreases m - k,
        {
            let (id, e) = self.entries[k];
            proof {
                assert(rows0.take(k as int + 1).drop_last() =~= rows0.take(k as int));
                assert(rows0.take(k as int + 1).last() == rows0[k as int]);
            }
            if !snapshot_contains(snap, id) {
                freed.push(e.agents.handle);
                freed.push(e.qualities.handle);
            }
            k = k + 1;
        }
        self.entries = updated;
        self.next_handle = next;
        proof {
            assert(rows0.take(m as int) =~= rows0);
            assert(final(self).rows() =~= new_rows(rows0, next0, snap@));
            assert(bindings@ =~= bindings_spec(rows0, next0, snap@));
            lemma_new_rows_wf(rows0, next0, snap@);
        }
        SyncOutcome { bindings, allocations, uploads, freed }
    }

    /// Forgets a species whose device allocation failed this frame: its
    /// entry vanishes as if never created, so the next sync allocates it
    /// afresh — the retry is automatic and per frame. The species simply
    /// does not render meanwhile.
    pub fn drop_failed(&mut self, id: SpeciesId)
        ensures
            final(self).rows() == rows_without(old(self).rows(), id),
            final(self).next_spec() == old(self).next_spec(),
            old(self).wf() ==> final(self).wf(),
    {
        let ghost rows0 = self.entries@;
        let n = self.entries.len();
        let mut kept: Vec<(SpeciesId, CacheEntry)> = Vec::new();
        let mut i: usize = 0;
        proof {
            assert(rows0.take(0) =~= Seq::<(SpeciesId, CacheEntry)>::empty());
        }
        while i < n
            invariant
                i <= n,
                n == self.entries.len(),
                self.entries@ == rows0,
                kept@ == rows_without(rows0.take(i as int), id),
            decreases n - i,
        {
            let row = self.entries[i];
            proof {
                assert(rows0.take(i as int + 1).drop_last() =~= rows0.take(i as int));
                assert(rows0.take(i as int + 1).last() == rows0[i as int]);
            }
            if row.0.0 != id.0 {
                proof {
                    assert(row.0 != id);
                    assert(rows_without(rows0.take(i as int + 1), id) =~= rows_without(
                        rows0.take(i as int),
                        id,
                    ).push(rows0[i as int]));
                }
                kept.push(row);
            } else {
                proof {
                    assert(row.0 == id);
                }
            }
            i = i + 1;
        }
        self.entries = kept;
        proof {
            assert(rows0.take(n as int) =~= rows0);
            if rows_wf(rows0, self.next_handle as int) {
                lemma_rows_without_wf(rows0, self.next_handle as int, id);
            }
        }
    }

    /// Latches every live species to `Active`: the frame that consumed the
    /// bindings has run `init` for each species that needed it.
    pub fn activate_all(&mut self)
        ensures
            final(self).rows() == activated_rows(old(self).rows()),
            final(self).next_spec() == old(self).next_spec(),
            old(self).wf() ==> final(self).wf(),
    {
        let ghost rows0 = self.entries@;
        let n = self.entries.len();
        let mut updated: Vec<(SpeciesId, CacheEntry)> = Vec::new();
        let mut i: usize = 0;
        while i < n
            invariant
                i <= n,
                n == self.entries.len(),
                self.entries@ == rows0,
                updated@.len() == i,
                forall|j: int|
                    0 <= j < i ==> #[trigger] updated@[j] == (
                    rows0[j].0,
                    CacheEntry { state: InitState::Active, ..rows0[j].1 },
                ),
            decreases n - i,
        {
            let (id, e) = self.entries[i];
            updated.push((id, CacheEntry { state: InitState::Active, ..e }));
            i = i + 1;
        }
        self.entries = updated;
        proof {
            assert(final(self).rows() =~= activated_rows(rows0));
        }
    }
}

} // verus!
