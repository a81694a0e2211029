//! The render-side resource model: the device's texture store and the
//! engine's table from image handles to the GPU textures that back them.
//!
//! The host engine owns both in reality; the model holds them as an
//! indirection table so that the copy logic can be stated and proved over
//! plain values. A texture id is an index into the store; an image handle is
//! an opaque number the table resolves, and resolution can fail when the
//! image was never backed by a device texture.

use vstd::prelude::*;

use crate::texture::fill_bytes;
use crate::texture::texture_byte_len;
use crate::texture::GpuTexture;
use crate::texture::TextureDescriptor;

verus! {

/// The first texture id that `handle` resolves to in the table, or `None`
/// when no entry backs it.
pub open spec fn lookup_image(entries: Seq<(u64, usize)>, handle: u64) -> Option<usize>
    decreases entries.len(),
{
    if entries.len() == 0 {
        None
    } else if entries[0].0 == handle {
        Some(entries[0].1)
    } else {
        lookup_image(entries.skip(1), handle)
    }
}

/// A successful resolution comes from some entry of the table.
pub proof fn lemma_lookup_image_some(entries: Seq<(u64, usize)>, handle: u64)
    requires
        lookup_image(entries, handle) is Some,
    ensures
        exists|k: int|
            0 <= k < entries.len() && entries[k].0 == handle && entries[k].1 == lookup_image(
                entries,
                handle,
            )->Some_0,
    decreases entries.len(),
{
    if entries.len() == 0 {
    } else if entries[0].0 == handle {
        assert(entries[0].0 == handle && entries[0].1 == lookup_image(entries, handle)->Some_0);
    } else {
        lemma_lookup_image_some(entries.skip(1), handle);
        let k = choose|k: int|
            0 <= k < entries.skip(1).len() && entries.skip(1)[k].0 == handle && entries.skip(1)[
                k
            ].1 == lookup_image(entries.skip(1), handle)->Some_0;
        assert(entries[k + 1].0 == handle && entries[k + 1].1 == lookup_image(
            entries,
            handle,
        )->Some_0);
    }
}

/// The device's texture store together with the engine's table from image
/// handles to backing textures.
pub struct RenderResources {
    /// Every texture the device has created, indexed by texture id.
    /// Textures are never destroyed while the plugin runs, so ids stay
    /// valid.
    pub textures: Vec<GpuTexture>,
    /// The resource table: which texture backs each image handle.
    pub images: Vec<(u64, usize)>,
    /// The next image handle the asset system will issue.
    pub next_handle: u64,
}

impl RenderResources {
    /// Every table entry resolves to a texture the device created, handles
    /// are issued at most once, and every texture holds exactly its first
    /// mip level.
    pub open spec fn wf(self) -> bool {
        &&& forall|k: int|
            0 <= k < self.images@.len() ==> (#[trigger] self.images@[k]).1 < self.textures@.len()
        &&& forall|k: int| 0 <= k < self.images@.len() ==> (#[trigger] self.images@[k]).0 < self.next_handle
        &&& forall|k1: int, k2: int|
            0 <= k1 < self.images@.len() && 0 <= k2 < self.images@.len() && k1 != k2
                ==> (#[trigger] self.images@[k1]).0 != (#[trigger] self.images@[k2]).0
        &&& forall|j: int| 0 <= j < self.textures@.len() ==> (#[trigger] self.textures@[j]).wf()
    }

    /// An empty device and an empty resource table.
    pub fn new() -> (r: RenderResources)
        ensures
            r.wf(),
            r.textures@ == Seq::<GpuTexture>::empty(),
            r.images@ == Seq::<(u64, usize)>::empty(),
            r.next_handle == 0,
    {
        RenderResources { textures: Vec::new(), images: Vec::new(), next_handle: 0 }
    }

    /// Create a device texture of the given descriptor, with every pixel set
    /// to `pixel`, and return its id.
    pub fn create_texture(&mut self, desc: TextureDescriptor, pixel: &Vec<u8>) -> (id: usize)
        requires
            old(self).wf(),
            pixel@.len() == desc.format.spec_bytes_per_pixel(),
            texture_byte_len(desc) <= usize::MAX,
        ensures
            final(self).wf(),
            id == old(self).textures@.len(),
            final(self).textures@.len() == old(self).textures@.len() + 1,
            final(self).textures@[id as int].desc == desc,
            final(self).textures@[id as int].data@ == fill_bytes(pixel@, texture_byte_len(desc)),
            forall|j: int|
                0 <= j < old(self).textures@.len() ==> final(self).textures@[j] == old(
                    self,
                ).textures@[j],
            final(self).images@ == old(self).images@,
            final(self).next_handle == old(self).next_handle,
    {
        let tex = GpuTexture::new_filled(desc, pixel);
        let id = self.textures.len();
        self.textures.push(tex);
        id
    }

    /// Create an engine image of the given descriptor, filled with `pixel`,
    /// already backed by a fresh device texture, and return its handle.
    pub fn add_target_image(&mut self, desc: TextureDescriptor, pixel: &Vec<u8>) -> (handle: u64)
        requires
            old(self).wf(),
            pixel@.len() == desc.format.spec_bytes_per_pixel(),
            texture_byte_len(desc) <= usize::MAX,
            old(self).next_handle < u64::MAX,
        ensures
            final(self).wf(),
            handle == old(self).next_handle,
            final(self).next_handle == old(self).next_handle + 1,
            final(self).images@ == old(self).images@.push((handle, old(self).textures@.len() as usize)),
            lookup_image(final(self).images@, handle) == Some(old(self).textures@.len() as usize),
            final(self).textures@.len() == old(self).textures@.len() + 1,
            final(self).textures@[old(self).textures@.len() as int].desc == desc,
            final(self).textures@[old(self).textures@.len() as int].data@ == fill_bytes(
                pixel@,
                texture_byte_len(desc),
            ),
            forall|j: int|
                0 <= j < old(self).textures@.len() ==> final(self).textures@[j] == old(
                    self,
                ).textures@[j],
    {
        let id = self.create_texture(desc, pixel);
        let handle = self.next_handle;
        self.images.push((handle, id));
        self.next_handle = self.next_handle + 1;
        proof {
            lemma_lookup_image_pushed(old(self).images@, handle, id);
        }
        handle
    }

    /// Resolve an image handle to the id of the device texture that backs
    /// it, as the engine's resource table does. `None` means the image was
    /// never backed.
    pub fn get_gpu_image(&self, handle: u64) -> (r: Option<usize>)
        ensures
            r == lookup_image(self.images@, handle),
    {
        let n = self.images.len();
        let mut i: usize = 0;
        proof {
            assert(self.images@.skip(0) =~= self.images@);
        }
        while i < n
            invariant
                i <= n,
                n == self.images@.len(),
                lookup_image(self.images@.skip(i as int), handle) == lookup_image(
                    self.images@,
                    handle,
                ),
            decreases n - i,
        {
            let (h, id) = self.images[i];
            if h == handle {
                proof {
                    assert(self.images@.skip(i as int)[0] == self.images@[i as int]);
                }
                return Some(id);
            }
            proof {
                assert(self.images@.skip(i as int).skip(1) =~= self.images@.skip(i as int + 1));
                assert(self.images@.skip(i as int)[0] == self.images@[i as int]);
            }
            i = i + 1;
        }
        proof {
            assert(self.images@.skip(n as int) =~= Seq::<(u64, usize)>::empty());
        }
        None
    }
}

/// A handle that no entry of the table carries resolves, after one entry
/// for it is appended, to that entry.
proof fn lemma_lookup_image_pushed(entries: Seq<(u64, usize)>, handle: u64, id: usize)
    requires
        forall|k: int| 0 <= k < entries.len() ==> (#[trigger] entries[k]).0 != handle,
    ensures
        lookup_image(entries.push((handle, id)), handle) == Some(id),
    decreases entries.len(),
{
    let pushed = entries.push((handle, id));
    if entries.len() == 0 {
        assert(pushed[0] == (handle, id));
    } else {
        assert(pushed[0] == entries[0]);
        assert(pushed.skip(1) =~= entries.skip(1).push((handle, id)));
        assert(forall|k: int|
            0 <= k < entries.skip(1).len() ==> (#[trigger] entries.skip(1)[k]).0 != handle);
        lemma_lookup_image_pushed(entries.skip(1), handle, id);
    }
}

} // verus!
