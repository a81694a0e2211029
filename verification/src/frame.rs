//! One whole frame: extraction, command recording, and the device's
//! execution of the recorded copy commands against the texture store.

use vstd::prelude::*;

use crate::extract::extract_gpu_image_copier;
use crate::extract::scene_ids;
use crate::extract::RenderWorldState;
use crate::node::cmd_valid;
use crate::node::commands_valid;
use crate::node::run_spec;
use crate::node::snapshot_sources_valid;
use crate::node::CopyCommand;
use crate::node::CopyTextureFromComputeNode;
use crate::node::NodeRunError;
use crate::resources::RenderResources;
use crate::scene::Scene;
use crate::texture::copy_region_exec;
use crate::texture::region_copied;
use crate::texture::GpuTexture;
use crate::texture::TextureDescriptor;

verus! {

/// The texture store as contents: each texture's descriptor and the bytes
/// of its first mip level.
pub open spec fn textures_view(textures: Seq<GpuTexture>) -> Seq<(TextureDescriptor, Seq<u8>)> {
    textures.map_values(|t: GpuTexture| (t.desc, t.data@))
}

/// The store after the device executes one copy command: the target's first
/// mip level takes the copied region, everything else is untouched.
pub open spec fn apply_one(v: Seq<(TextureDescriptor, Seq<u8>)>, cmd: CopyCommand) -> Seq<
    (TextureDescriptor, Seq<u8>),
> {
    let src = v[cmd.source as int];
    let dst = v[cmd.target as int];
    v.update(cmd.target as int, (dst.0, region_copied(src.0, src.1, dst.0, dst.1, cmd.extent)))
}

/// The store after the device executes the commands in recording order.
pub open spec fn apply_spec(v: Seq<(TextureDescriptor, Seq<u8>)>, cmds: Seq<CopyCommand>) -> Seq<
    (TextureDescriptor, Seq<u8>),
>
    decreases cmds.len(),
{
    if cmds.len() == 0 {
        v
    } else {
        apply_one(apply_spec(v, cmds.drop_last()), cmds.last())
    }
}

/// Execute the recorded copy commands against the texture store, in order,
/// as the device does once the frame's command buffer is submitted.
pub fn apply_commands(res: &mut RenderResources, cmds: &Vec<CopyCommand>)
    requires
        old(res).wf(),
        commands_valid(cmds@, old(res).textures@),
    ensures
        final(res).wf(),
        final(res).images@ == old(res).images@,
        final(res).next_handle == old(res).next_handle,
        final(res).textures@.len() == old(res).textures@.len(),
        forall|j: int|
            0 <= j < old(res).textures@.len() ==> (#[trigger] final(res).textures@[j]).desc == old(
                res,
            ).textures@[j].desc,
        textures_view(final(res).textures@) == apply_spec(
            textures_view(old(res).textures@),
            cmds@,
        ),
{
    let n = cmds.len();
    let mut i: usize = 0;
    proof {
        assert(cmds@.take(0) =~= Seq::<CopyCommand>::empty());
    }
    while i < n
        invariant
            i <= n,
            n == cmds@.len(),
            res.wf(),
            res.images@ == old(res).images@,
            res.next_handle == old(res).next_handle,
            res.textures@.len() == old(res).textures@.len(),
            forall|j: int|
                0 <= j < old(res).textures@.len() ==> (#[trigger] res.textures@[j]).desc == old(
                    res,
                ).textures@[j].desc,
            commands_valid(cmds@, old(res).textures@),
            textures_view(res.textures@) == apply_spec(
                textures_view(old(res).textures@),
                cmds@.take(i as int),
            ),
        decreases n - i,
    {
        let ghost pre = res.textures@;
        let cmd = cmds[i];
        proof {
            assert(cmd_valid(cmd, old(res).textures@));
        }
        let new_data = copy_region_exec(&res.textures, cmd.source, cmd.target, cmd.extent);
        let mut tex = res.textures.remove(cmd.target);
        tex.data = new_data;
        res.textures.insert(cmd.target, tex);
        proof {
            assert(res.textures@ =~= pre.update(cmd.target as int, res.textures@[cmd.target as int]));
            assert(textures_view(res.textures@) =~= apply_one(textures_view(pre), cmd));
            assert(cmds@.take(i as int + 1).drop_last() =~= cmds@.take(i as int));
            assert(cmds@.take(i as int + 1).last() == cmds@[i as int]);
        }
        i = i + 1;
    }
    proof {
        assert(cmds@.take(n as int) =~= cmds@);
    }
}

/// One frame, end to end: the extraction phase rebuilds the mirror and the
/// snapshot from the scene, the node records the frame's copy commands, and
/// the device executes them. On a fatal error the frame aborts with the
/// texture store untouched: no copy command of the frame is issued.
///
/// The returned commands are what the node recorded, for the frame's log;
/// their effect on the store is already applied.
pub fn run_frame(
    scene: &Scene,
    render: &mut RenderWorldState,
    node: &CopyTextureFromComputeNode,
    res: &mut RenderResources,
) -> (r: Result<Vec<CopyCommand>, NodeRunError>)
    requires
        old(res).wf(),
        snapshot_sources_valid(scene.entries@, old(res).textures@.len()),
    ensures
        final(render).copiers.0@ == scene_ids(scene.entries@),
        final(render).snapshot@ == scene.entries@,
        final(res).wf(),
        final(res).images@ == old(res).images@,
        final(res).next_handle == old(res).next_handle,
        final(res).textures@.len() == old(res).textures@.len(),
        forall|j: int|
            0 <= j < old(res).textures@.len() ==> (#[trigger] final(res).textures@[j]).desc == old(
                res,
            ).textures@[j].desc,
        (r matches Ok(cmds) ==> run_spec(
            scene_ids(scene.entries@),
            scene.entries@,
            old(res).images@,
            old(res).textures@,
            node.pinned,
        ) == Ok::<Seq<CopyCommand>, NodeRunError>(cmds@) && textures_view(final(res).textures@)
            == apply_spec(textures_view(old(res).textures@), cmds@)),
        (r matches Err(err) ==> run_spec(
            scene_ids(scene.entries@),
            scene.entries@,
            old(res).images@,
            old(res).textures@,
            node.pinned,
        ) == Err::<Seq<CopyCommand>, NodeRunError>(err) && *final(res) == *old(res)),
{
    extract_gpu_image_copier(scene, render);
    let r = node.run(render, res);
    match r {
        Ok(cmds) => {
            apply_commands(res, &cmds);
            Ok(cmds)
        },
        Err(err) => Err(err),
    }
}

} // verus!
