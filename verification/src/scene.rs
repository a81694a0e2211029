//! The scene side of the pipeline: copy requests attached to scene
//! elements, and the scene store they live in.

use vstd::prelude::*;

use crate::resources::lookup_image;
use crate::resources::RenderResources;
use crate::texture::texture_byte_len;
use crate::texture::PixelFormat;
use crate::texture::TextureDescriptor;

verus! {

/// A copy request: each frame, the contents of the `source` texture are to
/// be copied into the texture backing the `target` image.
///
/// `source` is the id of a device texture created for compute output;
/// `target` is the handle of an engine-managed image. Both refer to
/// resources the engine owns; the request never owns GPU memory.
#[derive(Clone, Copy, PartialEq, Eq, Structural, Debug)]
pub struct TextureCopier {
    /// Id of the device texture the copy reads.
    pub source: usize,
    /// Handle of the image whose backing texture the copy writes.
    pub target: u64,
}

impl TextureCopier {
    /// Convenience factory: allocate a storage-capable source texture and a
    /// parallel engine image of the same width, height and format, both with
    /// a single mip level and every pixel set to `pixel`, and return them
    /// already wired together as a request.
    ///
    /// Allocation failure in the device is fatal to the host engine and has
    /// no representation here; the requires clauses only state that one mip
    /// level of the requested size fits in memory and that the asset system
    /// can still issue a handle.
    pub fn new_2d_fill(
        res: &mut RenderResources,
        width: u32,
        height: u32,
        format: PixelFormat,
        pixel: &Vec<u8>,
    ) -> (r: TextureCopier)
        requires
            old(res).wf(),
            pixel@.len() == format.spec_bytes_per_pixel(),
            (width as int) * (height as int) * (format.spec_bytes_per_pixel() as int)
                <= usize::MAX,
            old(res).next_handle < u64::MAX,
        ensures
            final(res).wf(),
            final(res).textures@.len() == old(res).textures@.len() + 2,
            final(res).next_handle == old(res).next_handle + 1,
            forall|j: int|
                0 <= j < old(res).textures@.len() ==> final(res).textures@[j] == old(
                    res,
                ).textures@[j],
            r.source == old(res).textures@.len(),
            r.target == old(res).next_handle,
            final(res).images@ == old(res).images@.push(
                (r.target, (old(res).textures@.len() + 1) as usize),
            ),
            lookup_image(final(res).images@, r.target) == Some(
                (old(res).textures@.len() + 1) as usize,
            ),
            final(res).textures@[r.source as int].desc == new_2d_descriptor(width, height, format),
            final(res).textures@[r.source as int + 1].desc == new_2d_descriptor(
                width,
                height,
                format,
            ),
            final(res).textures@[r.source as int].data@ == crate::texture::fill_bytes(
                pixel@,
                texture_byte_len(new_2d_descriptor(width, height, format)),
            ),
            final(res).textures@[r.source as int + 1].data@ == crate::texture::fill_bytes(
                pixel@,
                texture_byte_len(new_2d_descriptor(width, height, format)),
            ),
    {
        let desc = TextureDescriptor { width, height, mip_level_count: 1, format };
        let source = res.create_texture(desc, pixel);
        let target = res.add_target_image(desc, pixel);
        TextureCopier { source, target }
    }
}

/// The descriptor both halves of a freshly built request share: the given
/// size and format, two-dimensional, with a single mip level.
pub open spec fn new_2d_descriptor(width: u32, height: u32, format: PixelFormat)
    -> TextureDescriptor {
    TextureDescriptor { width, height, mip_level_count: 1, format }
}

/// The entries of the scene that remain once the element `e` is removed,
/// in their original order.
pub open spec fn scene_without(entries: Seq<(u64, TextureCopier)>, e: u64) -> Seq<
    (u64, TextureCopier),
> {
    entries.filter(|p: (u64, TextureCopier)| p.0 != e)
}

/// The scene store: user-visible elements, each carrying the copy request
/// that was attached to it when it was spawned.
pub struct Scene {
    /// The id the next spawned element will get.
    pub next_id: u64,
    /// The live elements with their requests, in spawn order.
    pub entries: Vec<(u64, TextureCopier)>,
}

impl Scene {
    /// Every live element has an id the store already issued.
    pub open spec fn wf(self) -> bool {
        forall|k: int| 0 <= k < self.entries@.len() ==> (#[trigger] self.entries@[k]).0 < self.next_id
    }

    /// An empty scene.
    pub fn new() -> (r: Scene)
        ensures
            r.wf(),
            r.entries@ == Seq::<(u64, TextureCopier)>::empty(),
            r.next_id == 0,
    {
        Scene { next_id: 0, entries: Vec::new() }
    }

    /// Spawn a scene element carrying the given copy request and return its
    /// id, which no live element shares.
    pub fn spawn(&mut self, copier: TextureCopier) -> (e: u64)
        requires
            old(self).wf(),
            old(self).next_id < u64::MAX,
        ensures
            final(self).wf(),
            e == old(self).next_id,
            final(self).next_id == old(self).next_id + 1,
            final(self).entries@ == old(self).entries@.push((e, copier)),
            forall|k: int|
                0 <= k < old(self).entries@.len() ==> (#[trigger] old(self).entries@[k]).0 != e,
    {
        let e = self.next_id;
        self.entries.push((e, copier));
        self.next_id = self.next_id + 1;
        e
    }

    /// Remove the scene element with id `e`, and with it the copy request it
    /// owns. Removing an id that is not live leaves the scene unchanged.
    pub fn despawn(&mut self, e: u64)
        requires
            old(self).wf(),
        ensures
            final(self).wf(),
            final(self).next_id == old(self).next_id,
            final(self).entries@ == scene_without(old(self).entries@, e),
            forall|j: int| 0 <= j < final(self).entries@.len() ==> (#[trigger] final(self).entries@[j]).0 != e,
    {
        let n = self.entries.len();
        let mut out: Vec<(u64, TextureCopier)> = Vec::new();
        let mut i: usize = 0;
        proof {
            assert(self.entries@.take(0) =~= Seq::<(u64, TextureCopier)>::empty());
            reveal(Seq::filter);
        }
        while i < n
            invariant
                i <= n,
                n == self.entries@.len(),
                self.wf(),
                out@ == scene_without(self.entries@.take(i as int), e),
                forall|j: int| 0 <= j < out@.len() ==> (#[trigger] out@[j]).0 != e,
                forall|j: int| 0 <= j < out@.len() ==> (#[trigger] out@[j]).0 < self.next_id,
            decreases n - i,
        {
            let (id, c) = self.entries[i];
            proof {
                lemma_scene_without_push(
                    self.entries@.take(i as int),
                    self.entries@[i as int],
                    e,
                );
                assert(self.entries@.take(i as int + 1).drop_last() =~= self.entries@.take(
                    i as int,
                ));
                assert(self.entries@.take(i as int + 1) =~= self.entries@.take(i as int).push(
                    self.entries@[i as int],
                ));
            }
            if id != e {
                out.push((id, c));
            }
            i = i + 1;
        }
        proof {
            assert(self.entries@.take(n as int) =~= self.entries@);
        }
        self.entries = out;
    }
}

/// Removing `e` from a scene extended by one entry keeps the entry exactly
/// when it does not belong to `e`.
proof fn lemma_scene_without_push(s: Seq<(u64, TextureCopier)>, x: (u64, TextureCopier), e: u64)
    ensures
        scene_without(s.push(x), e) == if x.0 != e {
            scene_without(s, e).push(x)
        } else {
            scene_without(s, e)
        },
{
    reveal(Seq::filter);
    assert(s.push(x).drop_last() =~= s);
    assert(s.push(x).last() == x);
}

} // verus!
