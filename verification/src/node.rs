//! The copy graph node: the unit of per-frame work that walks the Request
//! Mirror and emits one texture-to-texture copy command per mirrored
//! request, before the main pass of the frame begins.

use vstd::prelude::*;

use crate::extract::lookup_copier;
use crate::extract::lemma_lookup_copier_some;
use crate::extract::RenderWorldState;
use crate::resources::lookup_image;
use crate::resources::lemma_lookup_image_some;
use crate::resources::RenderResources;
use crate::scene::TextureCopier;
use crate::texture::CopyExtent;
use crate::texture::GpuTexture;
use crate::texture::TextureDescriptor;

verus! {

/// One GPU copy command as the node records it: whole-plane,
/// top-left-origin copy of `extent` pixels from the first mip level of the
/// source texture to the first mip level of the target texture.
#[derive(Clone, Copy, PartialEq, Eq, Structural, Debug)]
pub struct CopyCommand {
    /// Id of the device texture the copy reads.
    pub source: usize,
    /// Id of the device texture the copy writes.
    pub target: usize,
    /// The one mip level the copy touches on both sides.
    pub mip_level: u32,
    /// How many pixels are copied.
    pub extent: CopyExtent,
}

/// The fatal conditions of a frame. Both signal a setup bug in the
/// integrating application; neither is recovered from, and no copy command
/// of the frame is issued once one arises.
#[derive(Clone, Copy, PartialEq, Eq, Structural, Debug)]
pub enum NodeRunError {
    /// A mirrored request's destination image has no backing texture in the
    /// resource table.
    MissingDestination,
    /// Source and destination differ in pixel dimensions or format, one of
    /// them has no mip level, or a pinned sub-rectangle exceeds them.
    DimensionMismatch,
}

/// The decision taken for one validated source/destination pair: the extent
/// to copy, or the fatal mismatch. The copy covers the full texture unless a
/// sub-rectangle was pinned; a pinned extent must fit inside both textures,
/// which share their size once validated.
pub open spec fn plan_copy_spec(
    sd: TextureDescriptor,
    td: TextureDescriptor,
    pinned: Option<CopyExtent>,
) -> Result<CopyExtent, NodeRunError> {
    if sd.width != td.width || sd.height != td.height || sd.mip_level_count < 1
        || td.mip_level_count < 1 || sd.format != td.format {
        Err(NodeRunError::DimensionMismatch)
    } else {
        let ext = match pinned {
            Option::None => CopyExtent { width: sd.width, height: sd.height },
            Option::Some(p) => p,
        };
        if ext.width <= sd.width && ext.height <= sd.height {
            Ok(ext)
        } else {
            Err(NodeRunError::DimensionMismatch)
        }
    }
}

/// Validate one source/destination pair and choose the copy extent.
pub fn plan_copy(sd: TextureDescriptor, td: TextureDescriptor, pinned: Option<CopyExtent>) -> (r:
    Result<CopyExtent, NodeRunError>)
    ensures
        r == plan_copy_spec(sd, td, pinned),
{
    if sd.width != td.width || sd.height != td.height || sd.mip_level_count < 1
        || td.mip_level_count < 1 || sd.format != td.format {
        return Err(NodeRunError::DimensionMismatch);
    }
    let ext = match pinned {
        Option::None => CopyExtent { width: sd.width, height: sd.height },
        Option::Some(p) => p,
    };
    if ext.width <= sd.width && ext.height <= sd.height {
        Ok(ext)
    } else {
        Err(NodeRunError::DimensionMismatch)
    }
}

/// What the node does for the mirrored id `e`: skip it silently when its
/// scene element is gone from the snapshot; abort when its destination has
/// no backing texture or the pair fails validation; otherwise emit one copy
/// command for the pair, first mip level only.
pub open spec fn step_spec(
    e: u64,
    snapshot: Seq<(u64, TextureCopier)>,
    images: Seq<(u64, usize)>,
    textures: Seq<GpuTexture>,
    pinned: Option<CopyExtent>,
) -> Result<Option<CopyCommand>, NodeRunError> {
    match lookup_copier(snapshot, e) {
        Option::None => Ok(Option::None),
        Option::Some(c) => match lookup_image(images, c.target) {
            Option::None => Err(NodeRunError::MissingDestination),
            Option::Some(t) => match plan_copy_spec(
                textures[c.source as int].desc,
                textures[t as int].desc,
                pinned,
            ) {
                Err(err) => Err(err),
                Ok(ext) => Ok(
                    Option::Some(
                        CopyCommand { source: c.source, target: t, mip_level: 0, extent: ext },
                    ),
                ),
            },
        },
    }
}

/// What one frame of the node emits for the whole mirror: the commands of
/// the mirrored ids in mirror order, or the first fatal error, in which case
/// no command of the frame is issued.
pub open spec fn run_spec(
    mirror: Seq<u64>,
    snapshot: Seq<(u64, TextureCopier)>,
    images: Seq<(u64, usize)>,
    textures: Seq<GpuTexture>,
    pinned: Option<CopyExtent>,
) -> Result<Seq<CopyCommand>, NodeRunError>
    decreases mirror.len(),
{
    if mirror.len() == 0 {
        Ok(Seq::empty())
    } else {
        match run_spec(mirror.drop_last(), snapshot, images, textures, pinned) {
            Err(err) => Err(err),
            Ok(cmds) => match step_spec(mirror.last(), snapshot, images, textures, pinned) {
                Err(err) => Err(err),
                Ok(Option::None) => Ok(cmds),
                Ok(Option::Some(cmd)) => Ok(cmds.push(cmd)),
            },
        }
    }
}

/// A command the device can execute against `textures`: both ids live, one
/// mip level, a shared format, and an extent inside both textures.
pub open spec fn cmd_valid(cmd: CopyCommand, textures: Seq<GpuTexture>) -> bool {
    &&& cmd.source < textures.len()
    &&& cmd.target < textures.len()
    &&& cmd.mip_level == 0
    &&& textures[cmd.source as int].desc.format == textures[cmd.target as int].desc.format
    &&& cmd.extent.width <= textures[cmd.source as int].desc.width
    &&& cmd.extent.width <= textures[cmd.target as int].desc.width
    &&& cmd.extent.height <= textures[cmd.source as int].desc.height
    &&& cmd.extent.height <= textures[cmd.target as int].desc.height
}

pub open spec fn commands_valid(cmds: Seq<CopyCommand>, textures: Seq<GpuTexture>) -> bool {
    forall|k: int| 0 <= k < cmds.len() ==> cmd_valid(#[trigger] cmds[k], textures)
}

/// Every source texture a snapshot entry names was created by the device.
/// The engine guarantees this: a request holds a live texture reference,
/// and the device never destroys a texture while the plugin runs.
pub open spec fn snapshot_sources_valid(
    snapshot: Seq<(u64, TextureCopier)>,
    n_textures: nat,
) -> bool {
    forall|k: int| 0 <= k < snapshot.len() ==> (#[trigger] snapshot[k]).1.source < n_textures
}

/// Extending the mirror by one id extends what the frame emits by that id's
/// step, errors propagating from the front.
proof fn lemma_run_spec_take_succ(
    mirror: Seq<u64>,
    i: int,
    snapshot: Seq<(u64, TextureCopier)>,
    images: Seq<(u64, usize)>,
    textures: Seq<GpuTexture>,
    pinned: Option<CopyExtent>,
)
    requires
        0 <= i < mirror.len(),
    ensures
        run_spec(mirror.take(i + 1), snapshot, images, textures, pinned) == (match run_spec(
            mirror.take(i),
            snapshot,
            images,
            textures,
            pinned,
        ) {
            Err(err) => Err(err),
            Ok(cmds) => match step_spec(mirror[i], snapshot, images, textures, pinned) {
                Err(err) => Err(err),
                Ok(Option::None) => Ok(cmds),
                Ok(Option::Some(cmd)) => Ok(cmds.push(cmd)),
            },
        }),
{
    assert(mirror.take(i + 1).drop_last() =~= mirror.take(i));
    assert(mirror.take(i + 1).last() == mirror[i]);
}

/// A fatal error in a prefix of the mirror is the fate of the whole frame.
proof fn lemma_run_spec_err_extends(
    mirror: Seq<u64>,
    i: int,
    snapshot: Seq<(u64, TextureCopier)>,
    images: Seq<(u64, usize)>,
    textures: Seq<GpuTexture>,
    pinned: Option<CopyExtent>,
    err: NodeRunError,
)
    requires
        0 <= i <= mirror.len(),
        run_spec(mirror.take(i), snapshot, images, textures, pinned) == Err::<
            Seq<CopyCommand>,
            NodeRunError,
        >(err),
    ensures
        run_spec(mirror, snapshot, images, textures, pinned) == Err::<
            Seq<CopyCommand>,
            NodeRunError,
        >(err),
    decreases mirror.len() - i,
{
    if i == mirror.len() {
        assert(mirror.take(i) =~= mirror);
    } else {
        lemma_run_spec_take_succ(mirror, i, snapshot, images, textures, pinned);
        lemma_run_spec_err_extends(mirror, i + 1, snapshot, images, textures, pinned, err);
    }
}

/// The first snapshot entry for `e`, or `None` when the scene element is no
/// longer present, as the node's query reports it.
fn find_copier(snapshot: &Vec<(u64, TextureCopier)>, e: u64) -> (r: Option<TextureCopier>)
    ensures
        r == lookup_copier(snapshot@, e),
{
    let n = snapshot.len();
    let mut i: usize = 0;
    proof {
        assert(snapshot@.skip(0) =~= snapshot@);
    }
    while i < n
        invariant
            i <= n,
            n == snapshot@.len(),
            lookup_copier(snapshot@.skip(i as int), e) == lookup_copier(snapshot@, e),
        decreases n - i,
    {
        let (id, c) = snapshot[i];
        if id == e {
            proof {
                assert(snapshot@.skip(i as int)[0] == snapshot@[i as int]);
            }
            return Some(c);
        }
        proof {
            assert(snapshot@.skip(i as int).skip(1) =~= snapshot@.skip(i as int + 1));
            assert(snapshot@.skip(i as int)[0] == snapshot@[i as int]);
        }
        i = i + 1;
    }
    proof {
        assert(snapshot@.skip(n as int) =~= Seq::<(u64, TextureCopier)>::empty());
    }
    None
}

/// The graph node. It is constructed once, when the plugin initializes the
/// render world, and runs once per frame, ordered strictly before the start
/// of the main pass so the copied pixels are visible to that pass's draws.
pub struct CopyTextureFromComputeNode {
    /// `None`: every copy covers its full texture extent. `Some`: the
    /// integrating application pinned a fixed sub-rectangle, and only that
    /// region is overwritten each frame.
    pub pinned: Option<CopyExtent>,
}

impl CopyTextureFromComputeNode {
    /// The canonical node: full-extent copies.
    pub fn new() -> (r: CopyTextureFromComputeNode)
        ensures
            r.pinned is None,
    {
        CopyTextureFromComputeNode { pinned: None }
    }

    /// The explicitly configured variant: every copy is pinned to the given
    /// fixed sub-rectangle, and the rest of each destination keeps whatever
    /// it previously contained.
    pub fn new_pinned(extent: CopyExtent) -> (r: CopyTextureFromComputeNode)
        ensures
            r.pinned == Some(extent),
    {
        CopyTextureFromComputeNode { pinned: Some(extent) }
    }

    /// One frame of command recording: walk the mirror, skip requests whose
    /// scene element is gone, abort on the first unbacked destination or
    /// invalid pair, and otherwise record one copy command per request, in
    /// mirror order.
    pub fn run(&self, render: &RenderWorldState, res: &RenderResources) -> (r: Result<
        Vec<CopyCommand>,
        NodeRunError,
    >)
        requires
            res.wf(),
            snapshot_sources_valid(render.snapshot@, res.textures@.len()),
        ensures
            (r matches Ok(cmds) ==> run_spec(
                render.copiers.0@,
                render.snapshot@,
                res.images@,
                res.textures@,
                self.pinned,
            ) == Ok::<Seq<CopyCommand>, NodeRunError>(cmds@)),
            (r matches Err(err) ==> run_spec(
                render.copiers.0@,
                render.snapshot@,
                res.images@,
                res.textures@,
                self.pinned,
            ) == Err::<Seq<CopyCommand>, NodeRunError>(err)),
            (r matches Ok(cmds) ==> commands_valid(cmds@, res.textures@)),
    {
        let ghost mirror = render.copiers.0@;
        let n = render.copiers.0.len();
        let mut cmds: Vec<CopyCommand> = Vec::new();
        let mut i: usize = 0;
        proof {
            assert(mirror.take(0) =~= Seq::<u64>::empty());
        }
        while i < n
            invariant
                i <= n,
                n == mirror.len(),
                mirror == render.copiers.0@,
                res.wf(),
                snapshot_sources_valid(render.snapshot@, res.textures@.len()),
                run_spec(mirror.take(i as int), render.snapshot@, res.images@, res.textures@, self.pinned)
                    == Ok::<Seq<CopyCommand>, NodeRunError>(cmds@),
                commands_valid(cmds@, res.textures@),
            decreases n - i,
        {
            let e = render.copiers.0[i];
            proof {
                lemma_run_spec_take_succ(
                    mirror,
                    i as int,
                    render.snapshot@,
                    res.images@,
                    res.textures@,
                    self.pinned,
                );
            }
            match find_copier(&render.snapshot, e) {
                None => {},
                Some(c) => {
                    proof {
                        lemma_lookup_copier_some(render.snapshot@, e);
                        assert(c.source < res.textures@.len());
                    }
                    match res.get_gpu_image(c.target) {
                        None => {
                            proof {
                                lemma_run_spec_err_extends(
                                    mirror,
                                    i as int + 1,
                                    render.snapshot@,
                                    res.images@,
                                    res.textures@,
                                    self.pinned,
                                    NodeRunError::MissingDestination,
                                );
                            }
                            return Err(NodeRunError::MissingDestination);
                        },
                        Some(t) => {
                            proof {
                                lemma_lookup_image_some(res.images@, c.target);
                                assert(t < res.textures@.len());
                            }
                            let sd = res.textures[c.source].desc;
                            let td = res.textures[t].desc;
                            match plan_copy(sd, td, self.pinned) {
                                Err(err) => {
                                    proof {
                                        lemma_run_spec_err_extends(
                                            mirror,
                                            i as int + 1,
                                            render.snapshot@,
                                            res.images@,
                                            res.textures@,
                                            self.pinned,
                                            err,
                                        );
                                    }
                                    return Err(err);
                                },
                                Ok(ext) => {
                                    let cmd = CopyCommand {
                                        source: c.source,
                                        target: t,
                                        mip_level: 0,
                                        extent: ext,
                                    };
                                    cmds.push(cmd);
                                    proof {
                                        assert(cmd_valid(cmd, res.textures@));
                                    }
                                },
                            }
                        },
                    }
                },
            }
            i = i + 1;
        }
        proof {
            assert(mirror.take(n as int) =~= mirror);
        }
        Ok(cmds)
    }
}

} // verus!
