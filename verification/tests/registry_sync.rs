use slime::cache::{BufferKind, ResourceCache};
use slime::species::{NumAgents, Qualities, SpeciesBundle, SpeciesId};

fn qualities(seed: u32) -> Qualities {
    Qualities {
        color_r: 1.0f32.to_bits(),
        color_g: 0.5f32.to_bits(),
        color_b: 0.25f32.to_bits(),
        speed: 6e-6f32.to_bits(),
        turn_speed: 1e-3f32.to_bits(),
        view_distance: 2e-2f32.to_bits(),
        field_of_view: f32::from_bits(seed.wrapping_add(0x3f00_0000)).to_bits(),
    }
}

fn bundle(count: u32, q: Qualities) -> SpeciesBundle {
    SpeciesBundle { num_agents: NumAgents(count), qualities: q }
}

#[test]
fn first_sync_allocates_each_species() {
    let mut cache = ResourceCache::new();
    let snap = vec![
        (SpeciesId(7), bundle(100, qualities(0))),
        (SpeciesId(9), bundle(50, qualities(1))),
    ];
    let out = cache.sync(&snap);
    assert_eq!(out.bindings.len(), 2);
    assert_eq!(out.allocations.len(), 4);
    assert_eq!(out.uploads.len(), 2);
    assert_eq!(out.freed.len(), 0);

    assert_eq!(out.bindings[0].id, SpeciesId(7));
    assert!(out.bindings[0].needs_init);
    assert_eq!(out.bindings[0].agents.size, 100 * 16);
    assert_eq!(out.bindings[1].id, SpeciesId(9));
    assert_eq!(out.bindings[1].agents.size, 50 * 16);

    assert_eq!(out.allocations[0].kind, BufferKind::AgentsStorage);
    assert_eq!(out.allocations[0].size, 1600);
    assert_eq!(out.allocations[1].kind, BufferKind::QualitiesUniform);
    assert_eq!(out.allocations[1].size, 48);

    // No two live buffers share a handle.
    let mut handles = vec![
        out.bindings[0].agents.handle,
        out.bindings[0].qualities.handle,
        out.bindings[1].agents.handle,
        out.bindings[1].qualities.handle,
    ];
    handles.sort();
    handles.dedup();
    assert_eq!(handles.len(), 4);
}

#[test]
fn idempotent_sync_allocates_nothing_and_keeps_handles() {
    let mut cache = ResourceCache::new();
    let snap = vec![
        (SpeciesId(1), bundle(100, qualities(0))),
        (SpeciesId(2), bundle(7, qualities(1))),
    ];
    let first = cache.sync(&snap);
    let second = cache.sync(&snap);

    assert_eq!(second.allocations.len(), 0);
    assert_eq!(second.uploads.len(), 0);
    assert_eq!(second.freed.len(), 0);
    assert_eq!(second.bindings.len(), first.bindings.len());
    for (a, b) in first.bindings.iter().zip(second.bindings.iter()) {
        assert_eq!(a.id, b.id);
        assert_eq!(a.agents.handle, b.agents.handle);
        assert_eq!(a.agents.size, b.agents.size);
        assert_eq!(a.qualities.handle, b.qualities.handle);
        assert_eq!(a.needs_init, b.needs_init);
    }
}

#[test]
fn count_change_reallocates_and_resets_init() {
    let mut cache = ResourceCache::new();
    let q = qualities(0);
    let before = cache.sync(&vec![(SpeciesId(3), bundle(100, q))]);
    cache.activate_all();

    // The species ran its init pass; an unchanged sync keeps it active.
    let steady = cache.sync(&vec![(SpeciesId(3), bundle(100, q))]);
    assert!(!steady.bindings[0].needs_init);

    // Changing the count to 250 replaces the buffers entirely.
    let after = cache.sync(&vec![(SpeciesId(3), bundle(250, q))]);
    assert_eq!(after.bindings.len(), 1);
    assert!(after.bindings[0].needs_init);
    assert_eq!(after.bindings[0].agents.size, 250 * 16);
    assert_ne!(after.bindings[0].agents.handle, before.bindings[0].agents.handle);
    assert_eq!(after.allocations.len(), 2);
    assert!(after.freed.contains(&before.bindings[0].agents.handle));
    assert!(after.freed.contains(&before.bindings[0].qualities.handle));
}

#[test]
fn removal_frees_resources_and_forgets_the_id() {
    let mut cache = ResourceCache::new();
    let keep = (SpeciesId(10), bundle(5, qualities(0)));
    let drop_me = (SpeciesId(11), bundle(6, qualities(1)));
    let first = cache.sync(&vec![keep, drop_me]);
    let dropped = first.bindings[1];

    let second = cache.sync(&vec![keep]);
    assert_eq!(second.bindings.len(), 1);
    assert_eq!(second.bindings[0].id, SpeciesId(10));
    assert!(second.freed.contains(&dropped.agents.handle));
    assert!(second.freed.contains(&dropped.qualities.handle));
    assert!(cache.lookup(SpeciesId(11)).is_none());
    assert!(cache.lookup(SpeciesId(10)).is_some());

    // A third sync with the id still absent returns no handle for it.
    let third = cache.sync(&vec![keep]);
    assert!(third.bindings.iter().all(|b| b.id != SpeciesId(11)));
}

#[test]
fn qualities_change_reuploads_without_reallocating() {
    let mut cache = ResourceCache::new();
    let first = cache.sync(&vec![(SpeciesId(4), bundle(8, qualities(0)))]);
    let changed = cache.sync(&vec![(SpeciesId(4), bundle(8, qualities(99)))]);
    assert_eq!(changed.allocations.len(), 0);
    assert_eq!(changed.uploads.len(), 1);
    assert_eq!(changed.uploads[0].handle, first.bindings[0].qualities.handle);
    assert_eq!(changed.uploads[0].qualities, qualities(99));
    assert_eq!(changed.bindings[0].agents.handle, first.bindings[0].agents.handle);
}

#[test]
fn empty_snapshot_frees_everything() {
    let mut cache = ResourceCache::new();
    let first = cache.sync(&vec![
        (SpeciesId(1), bundle(3, qualities(0))),
        (SpeciesId(2), bundle(4, qualities(1))),
    ]);
    let cleared = cache.sync(&vec![]);
    assert!(cleared.bindings.is_empty());
    assert!(cleared.allocations.is_empty());
    assert_eq!(cleared.freed.len(), 4);
    for b in first.bindings.iter() {
        assert!(cleared.freed.contains(&b.agents.handle));
        assert!(cleared.freed.contains(&b.qualities.handle));
        assert!(cache.lookup(b.id).is_none());
    }
}

#[test]
fn largest_agent_count_sizes_its_buffer_exactly() {
    let mut cache = ResourceCache::new();
    let out = cache.sync(&vec![(SpeciesId(1), bundle(u32::MAX, qualities(0)))]);
    assert_eq!(out.bindings[0].agents.size, u32::MAX as u64 * 16);
}

#[test]
fn failed_allocation_is_retried_next_frame() {
    // A species whose device allocation failed has its entry dropped as if
    // never created; the species stays declared, and the next sync
    // allocates it afresh.
    let mut cache = ResourceCache::new();
    let snap = vec![
        (SpeciesId(5), bundle(12, qualities(0))),
        (SpeciesId(6), bundle(13, qualities(1))),
    ];
    let first = cache.sync(&snap);
    cache.drop_failed(SpeciesId(5));
    assert!(cache.lookup(SpeciesId(5)).is_none());
    assert!(cache.lookup(SpeciesId(6)).is_some());

    let retried = cache.sync(&snap);
    assert_eq!(retried.allocations.len(), 2);
    assert!(retried.bindings[0].needs_init);
    assert_ne!(
        retried.bindings[0].agents.handle,
        first.bindings[0].agents.handle
    );
    // The species that allocated fine is untouched.
    assert_eq!(
        retried.bindings[1].agents.handle,
        first.bindings[1].agents.handle
    );
}
