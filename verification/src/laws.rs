//! The guarantees of the pipeline that relate its pieces across a frame,
//! stated and proved over the same spec functions the functions' own
//! contracts use.

use vstd::prelude::*;

use vstd::arithmetic::div_mod::lemma_fundamental_div_mod;
use vstd::arithmetic::div_mod::lemma_fundamental_div_mod_converse_div;
use vstd::arithmetic::div_mod::lemma_fundamental_div_mod_converse_mod;
use vstd::arithmetic::div_mod::lemma_mod_bound;

use crate::extract::scene_ids;
use crate::node::run_spec;
use crate::node::step_spec;
use crate::node::CopyCommand;
use crate::node::NodeRunError;
use crate::scene::Scene;
use crate::scene::TextureCopier;
use crate::texture::region_copied;
use crate::texture::texture_byte_len;
use crate::texture::CopyExtent;
use crate::texture::GpuTexture;
use crate::texture::TextureDescriptor;

verus! {

/// When every mirrored request is valid — its scene element is still in the
/// snapshot, its destination resolves, and the pair passes validation — the
/// frame issues exactly one copy command per request, in mirror order; each
/// command touches only the first mip level and covers the pinned
/// sub-rectangle when one is configured, and otherwise the full extent of
/// its source texture.
pub proof fn lemma_one_command_per_request(
    mirror: Seq<u64>,
    snapshot: Seq<(u64, TextureCopier)>,
    images: Seq<(u64, usize)>,
    textures: Seq<GpuTexture>,
    pinned: Option<CopyExtent>,
)
    requires
        forall|k: int|
            0 <= k < mirror.len() ==> (#[trigger] step_spec(
                mirror[k],
                snapshot,
                images,
                textures,
                pinned,
            )) matches Ok(Some(_)),
    ensures
        run_spec(mirror, snapshot, images, textures, pinned) matches Ok(cmds) && cmds.len()
            == mirror.len() && (forall|k: int|
            0 <= k < mirror.len() ==> step_spec(mirror[k], snapshot, images, textures, pinned)
                == Ok::<Option<CopyCommand>, NodeRunError>(Some(cmds[k]))) && (forall|k: int|
            0 <= k < mirror.len() ==> (#[trigger] cmds[k]).mip_level == 0 && (match pinned {
                Option::Some(p) => cmds[k].extent == p,
                Option::None => cmds[k].extent == CopyExtent {
                    width: textures[cmds[k].source as int].desc.width,
                    height: textures[cmds[k].source as int].desc.height,
                },
            })),
    decreases mirror.len(),
{
    if mirror.len() == 0 {
    } else {
        let rest = mirror.drop_last();
        assert(forall|k: int| 0 <= k < rest.len() ==> rest[k] == mirror[k]);
        lemma_one_command_per_request(rest, snapshot, images, textures, pinned);
        assert(step_spec(mirror.last(), snapshot, images, textures, pinned) matches Ok(Some(_)));
    }
}

/// A frame with any invalid mirrored request — an unbacked destination or a
/// pair that fails validation — aborts: the node reports an error, and no
/// copy command of the frame is issued.
pub proof fn lemma_invalid_request_aborts(
    mirror: Seq<u64>,
    snapshot: Seq<(u64, TextureCopier)>,
    images: Seq<(u64, usize)>,
    textures: Seq<GpuTexture>,
    pinned: Option<CopyExtent>,
    k: int,
)
    requires
        0 <= k < mirror.len(),
        step_spec(mirror[k], snapshot, images, textures, pinned) is Err,
    ensures
        run_spec(mirror, snapshot, images, textures, pinned) is Err,
    decreases mirror.len(),
{
    if k == mirror.len() - 1 {
    } else {
        let rest = mirror.drop_last();
        assert(rest[k] == mirror[k]);
        lemma_invalid_request_aborts(rest, snapshot, images, textures, pinned, k);
    }
}

/// A scene whose every entry belongs to some other element mirrors nothing
/// for `e`: once the scene element owning a request is removed (as `despawn`
/// ensures of its result), the next extraction's mirror does not carry its
/// id, so no frame issues a command for it thereafter.
pub proof fn lemma_removed_request_absent(entries: Seq<(u64, TextureCopier)>, e: u64)
    requires
        forall|j: int| 0 <= j < entries.len() ==> (#[trigger] entries[j]).0 != e,
    ensures
        !scene_ids(entries).contains(e),
{
    if scene_ids(entries).contains(e) {
        let j = choose|j: int| 0 <= j < scene_ids(entries).len() && scene_ids(entries)[j] == e;
        assert(entries[j].0 == e);
    }
}

/// The mirror is a full per-frame rebuild: extraction leaves it equal to the
/// ids of the scene as it stands, whatever any earlier frame left behind. So
/// an element spawned after a frame's extraction is absent from that frame's
/// mirror, and present in the next frame's.
pub proof fn lemma_mirror_fully_replaced(
    s1: Scene,
    entries2: Seq<(u64, TextureCopier)>,
    e: u64,
    c: TextureCopier,
)
    requires
        s1.wf(),
        e == s1.next_id,
        entries2 == s1.entries@.push((e, c)),
    ensures
        !scene_ids(s1.entries@).contains(e),
        scene_ids(entries2).contains(e),
{
    if scene_ids(s1.entries@).contains(e) {
        let j = choose|j: int|
            0 <= j < scene_ids(s1.entries@).len() && scene_ids(s1.entries@)[j] == e;
        assert(s1.entries@[j].0 == e);
    }
    assert(scene_ids(entries2)[s1.entries@.len() as int] == e);
}

/// A copy whose extent is the full size of a pair of equal dimensions and
/// format replaces the destination's first mip level with the source's,
/// byte for byte.
pub proof fn lemma_full_extent_copy_replaces(
    sd: TextureDescriptor,
    sdata: Seq<u8>,
    dd: TextureDescriptor,
    ddata: Seq<u8>,
)
    requires
        sd.width == dd.width,
        sd.height == dd.height,
        sd.format == dd.format,
        sdata.len() == texture_byte_len(sd),
        ddata.len() == texture_byte_len(dd),
    ensures
        region_copied(sd, sdata, dd, ddata, CopyExtent { width: sd.width, height: sd.height })
            == sdata,
{
    let bpp = dd.format.spec_bytes_per_pixel() as int;
    let drb = (dd.width as int) * bpp;
    let ext = CopyExtent { width: sd.width, height: sd.height };
    let r = region_copied(sd, sdata, dd, ddata, ext);
    assert(bpp >= 1);
    assert forall|i: int| 0 <= i < ddata.len() implies r[i] == sdata[i] by {
        assert(drb >= 1 && (dd.width as int) * (dd.height as int) * bpp == (dd.height as int)
            * drb) by (nonlinear_arith)
            requires
                (dd.width as int) * (dd.height as int) * bpp > i,
                i >= 0,
                dd.width >= 0,
                dd.height >= 0,
                bpp >= 1,
                drb == (dd.width as int) * bpp,
        ;
        lemma_fundamental_div_mod(i, drb);
        lemma_mod_bound(i, drb);
        assert(i / drb < dd.height as int) by (nonlinear_arith)
            requires
                i == drb * (i / drb) + (i % drb),
                0 <= i % drb < drb,
                i < (dd.height as int) * drb,
                drb >= 1,
                i / drb >= 0,
        ;
        assert((i / drb) * drb + (i % drb) == i) by (nonlinear_arith)
            requires
                i == drb * (i / drb) + (i % drb),
        ;
    }
    assert(r =~= sdata);
}

/// One mirrored request whose pair is valid and of equal size, with no
/// pinned sub-rectangle: the frame issues exactly one full-extent command,
/// and executing it leaves the destination's first mip level equal to the
/// source's contents at the time of the copy, all other textures untouched.
pub proof fn lemma_single_request_frame_copies_source(
    e: u64,
    c: TextureCopier,
    t: usize,
    snapshot: Seq<(u64, TextureCopier)>,
    images: Seq<(u64, usize)>,
    textures: Seq<GpuTexture>,
)
    requires
        crate::extract::lookup_copier(snapshot, e) == Some(c),
        crate::resources::lookup_image(images, c.target) == Some(t),
        c.source < textures.len(),
        t < textures.len(),
        textures[c.source as int].wf(),
        textures[t as int].wf(),
        textures[c.source as int].desc.width == textures[t as int].desc.width,
        textures[c.source as int].desc.height == textures[t as int].desc.height,
        textures[c.source as int].desc.format == textures[t as int].desc.format,
        textures[c.source as int].desc.mip_level_count >= 1,
        textures[t as int].desc.mip_level_count >= 1,
    ensures
        ({
            let sd = textures[c.source as int].desc;
            let cmd = CopyCommand {
                source: c.source,
                target: t,
                mip_level: 0,
                extent: CopyExtent { width: sd.width, height: sd.height },
            };
            &&& run_spec(seq![e], snapshot, images, textures, Option::None) == Ok::<
                Seq<CopyCommand>,
                NodeRunError,
            >(seq![cmd])
            &&& crate::frame::apply_spec(crate::frame::textures_view(textures), seq![cmd])
                == crate::frame::textures_view(textures).update(
                t as int,
                (textures[t as int].desc, textures[c.source as int].data@),
            )
        }),
{
    let sd = textures[c.source as int].desc;
    let td = textures[t as int].desc;
    let cmd = CopyCommand {
        source: c.source,
        target: t,
        mip_level: 0,
        extent: CopyExtent { width: sd.width, height: sd.height },
    };
    let mirror = seq![e];
    assert(mirror.len() == 1);
    assert(mirror.last() == e);
    assert(mirror.drop_last() =~= Seq::<u64>::empty());
    assert(run_spec(Seq::<u64>::empty(), snapshot, images, textures, Option::None) == Ok::<
        Seq<CopyCommand>,
        NodeRunError,
    >(Seq::<CopyCommand>::empty()));
    assert(step_spec(e, snapshot, images, textures, Option::None) == Ok::<
        Option<CopyCommand>,
        NodeRunError,
    >(Some(cmd)));
    assert(Seq::<CopyCommand>::empty().push(cmd) =~= seq![cmd]);
    assert(run_spec(mirror, snapshot, images, textures, Option::None) == Ok::<
        Seq<CopyCommand>,
        NodeRunError,
    >(seq![cmd]));
    let v = crate::frame::textures_view(textures);
    let cmds = seq![cmd];
    assert(cmds.len() == 1);
    assert(cmds.last() == cmd);
    assert(cmds.drop_last() =~= Seq::<CopyCommand>::empty());
    assert(crate::frame::apply_spec(v, Seq::<CopyCommand>::empty()) == v);
    assert(crate::frame::apply_spec(v, cmds) == crate::frame::apply_one(v, cmd));
    assert(v[t as int].0 == td && v[t as int].1 == textures[t as int].data@);
    assert(v[c.source as int].0 == sd && v[c.source as int].1 == textures[c.source as int].data@);
    lemma_full_extent_copy_replaces(
        sd,
        textures[c.source as int].data@,
        td,
        textures[t as int].data@,
    );
}

/// The pixel-coordinate reading of a pinned copy: for a valid pair and an
/// extent inside both textures, every byte of a destination pixel inside
/// the pinned rectangle equals the corresponding source byte, and every
/// byte of a pixel outside it retains its prior value.
pub proof fn lemma_pinned_copy_pixel(
    sd: TextureDescriptor,
    sdata: Seq<u8>,
    dd: TextureDescriptor,
    ddata: Seq<u8>,
    ext: CopyExtent,
    x: int,
    y: int,
    b: int,
)
    requires
        sd.format == dd.format,
        ext.width <= sd.width,
        ext.width <= dd.width,
        ext.height <= sd.height,
        ext.height <= dd.height,
        sdata.len() == texture_byte_len(sd),
        ddata.len() == texture_byte_len(dd),
        0 <= x < dd.width as int,
        0 <= y < dd.height as int,
        0 <= b < dd.format.spec_bytes_per_pixel() as int,
    ensures
        ({
            let bpp = dd.format.spec_bytes_per_pixel() as int;
            let i = (y * (dd.width as int) + x) * bpp + b;
            &&& 0 <= i < ddata.len()
            &&& (x < ext.width as int && y < ext.height as int ==> region_copied(
                sd,
                sdata,
                dd,
                ddata,
                ext,
            )[i] == sdata[(y * (sd.width as int) + x) * bpp + b])
            &&& (!(x < ext.width as int && y < ext.height as int) ==> region_copied(
                sd,
                sdata,
                dd,
                ddata,
                ext,
            )[i] == ddata[i])
        }),
{
    let bpp = dd.format.spec_bytes_per_pixel() as int;
    let dw = dd.width as int;
    let dh = dd.height as int;
    let sw = sd.width as int;
    let drb = dw * bpp;
    let i = (y * dw + x) * bpp + b;
    assert(bpp >= 1);
    assert(i == y * drb + (x * bpp + b) && 0 <= x * bpp + b < drb && i < dh * drb && dh * drb
        == texture_byte_len(dd)) by (nonlinear_arith)
        requires
            i == (y * dw + x) * bpp + b,
            drb == dw * bpp,
            texture_byte_len(dd) == dw * dh * bpp,
            0 <= x < dw,
            0 <= y < dh,
            0 <= b < bpp,
    ;
    lemma_fundamental_div_mod_converse_div(i, drb, y, x * bpp + b);
    lemma_fundamental_div_mod_converse_mod(i, drb, y, x * bpp + b);
    assert((x < ext.width as int) <==> (x * bpp + b < (ext.width as int) * bpp))
        by (nonlinear_arith)
        requires
            0 <= b < bpp,
            x >= 0,
            ext.width >= 0,
    ;
    assert(y * (sw * bpp) + (x * bpp + b) == (y * sw + x) * bpp + b) by (nonlinear_arith);
}

} // verus!
