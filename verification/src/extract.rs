//! The per-frame extraction phase: mirroring the scene's copy requests into
//! the render-side snapshot.
//!
//! The host engine runs this once per frame, before any command recording,
//! and guarantees that recording never overlaps it; the mirror is written
//! here and only read afterwards within the same frame.

use vstd::prelude::*;

use crate::scene::Scene;
use crate::scene::TextureCopier;

verus! {

/// The ids of the scene elements, in scene order.
pub open spec fn scene_ids(entries: Seq<(u64, TextureCopier)>) -> Seq<u64> {
    entries.map_values(|p: (u64, TextureCopier)| p.0)
}

/// The copy request of the first snapshot entry for element `e`, or `None`
/// when the element is no longer present in the snapshot.
pub open spec fn lookup_copier(snapshot: Seq<(u64, TextureCopier)>, e: u64) -> Option<
    TextureCopier,
>
    decreases snapshot.len(),
{
    if snapshot.len() == 0 {
        None
    } else if snapshot[0].0 == e {
        Some(snapshot[0].1)
    } else {
        lookup_copier(snapshot.skip(1), e)
    }
}

/// A found request comes from some entry of the snapshot.
pub proof fn lemma_lookup_copier_some(snapshot: Seq<(u64, TextureCopier)>, e: u64)
    requires
        lookup_copier(snapshot, e) is Some,
    ensures
        exists|k: int|
            0 <= k < snapshot.len() && snapshot[k].0 == e && snapshot[k].1 == lookup_copier(
                snapshot,
                e,
            )->Some_0,
    decreases snapshot.len(),
{
    if snapshot.len() == 0 {
    } else if snapshot[0].0 == e {
        assert(snapshot[0].0 == e && snapshot[0].1 == lookup_copier(snapshot, e)->Some_0);
    } else {
        lemma_lookup_copier_some(snapshot.skip(1), e);
        let k = choose|k: int|
            0 <= k < snapshot.skip(1).len() && snapshot.skip(1)[k].0 == e && snapshot.skip(1)[k].1
                == lookup_copier(snapshot.skip(1), e)->Some_0;
        assert(snapshot[k + 1].0 == e && snapshot[k + 1].1 == lookup_copier(snapshot, e)->Some_0);
    }
}

/// The Request Mirror: the ids of the scene elements whose copy requests
/// were mirrored this frame, in extraction order. It is cleared and rebuilt
/// at the start of every frame and has no identity across frames.
pub struct TextureCopiers(pub Vec<u64>);

/// The render-side view of the world for one frame: the snapshot of the
/// mirrored copy requests, and the mirror listing them.
pub struct RenderWorldState {
    /// The copy requests copied out of the scene this frame, keyed by the
    /// id of the scene element that owns each.
    pub snapshot: Vec<(u64, TextureCopier)>,
    /// The Request Mirror for this frame.
    pub copiers: TextureCopiers,
}

impl RenderWorldState {
    /// The render world before any frame ran: nothing mirrored.
    pub fn new() -> (r: RenderWorldState)
        ensures
            r.snapshot@ == Seq::<(u64, TextureCopier)>::empty(),
            r.copiers.0@ == Seq::<u64>::empty(),
    {
        RenderWorldState { snapshot: Vec::new(), copiers: TextureCopiers(Vec::new()) }
    }
}

/// The extraction system: clear the previous frame's mirror, then copy every
/// copy request currently in the scene into the render-side snapshot and
/// record its owner's id in the mirror.
///
/// The rebuild is complete: afterwards, mirror and snapshot are exactly the
/// current scene contents in scene order, whatever the previous frame left
/// behind.
pub fn extract_gpu_image_copier(scene: &Scene, render: &mut RenderWorldState)
    ensures
        final(render).copiers.0@ == scene_ids(scene.entries@),
        final(render).snapshot@ == scene.entries@,
{
    render.copiers.0.clear();
    render.snapshot.clear();
    let n = scene.entries.len();
    let mut i: usize = 0;
    while i < n
        invariant
            i <= n,
            n == scene.entries@.len(),
            render.snapshot@ == scene.entries@.take(i as int),
            render.copiers.0@ == scene_ids(scene.entries@.take(i as int)),
        decreases n - i,
    {
        let (e, c) = scene.entries[i];
        render.snapshot.push((e, c));
        render.copiers.0.push(e);
        proof {
            assert(scene.entries@.take(i as int + 1) =~= scene.entries@.take(i as int).push(
                scene.entries@[i as int],
            ));
            assert(scene_ids(scene.entries@.take(i as int + 1)) =~= scene_ids(
                scene.entries@.take(i as int),
            ).push(e));
        }
        i = i + 1;
    }
    proof {
        assert(scene.entries@.take(n as int) =~= scene.entries@);
    }
}

} // verus!
