//! A verified model of a plugin that displays the result of a GPU compute
//! pass: each frame it mirrors the scene's copy requests into the render
//! snapshot, validates every source/destination pair, and emits one
//! texture-to-texture copy command per pair before the main render pass.

pub mod extract;
pub mod frame;
pub mod laws;
pub mod node;
pub mod resources;
pub mod scene;
pub mod texture;

pub use extract::extract_gpu_image_copier;
pub use extract::RenderWorldState;
pub use extract::TextureCopiers;
pub use frame::run_frame;
pub use node::plan_copy;
pub use node::CopyCommand;
pub use node::CopyTextureFromComputeNode;
pub use node::NodeRunError;
pub use resources::RenderResources;
pub use scene::Scene;
pub use scene::TextureCopier;
pub use texture::CopyExtent;
pub use texture::GpuTexture;
pub use texture::PixelFormat;
pub use texture::TextureDescriptor;

use vstd::prelude::*;

verus! {

/// The plugin value an integrating application registers with the engine.
///
/// Registering the extraction system and inserting the graph node into the
/// render graph, ordered strictly before the node that starts the main
/// pass, is the host engine's machinery; `build` yields what the plugin
/// installs into the render world: an empty render-side state and a graph
/// node configured for full-extent copies.
pub struct DisplayComputeResultPlugin;

impl DisplayComputeResultPlugin {
    /// Initialize the render world: no request mirrored yet, and the node
    /// in its canonical configuration.
    pub fn build(&self) -> (r: (RenderWorldState, CopyTextureFromComputeNode))
        ensures
            r.0.snapshot@ == Seq::<(u64, TextureCopier)>::empty(),
            r.0.copiers.0@ == Seq::<u64>::empty(),
            r.1.pinned is None,
    {
        (RenderWorldState::new(), CopyTextureFromComputeNode::new())
    }
}

} // verus!
