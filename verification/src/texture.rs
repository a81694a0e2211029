//! The texture model: pixel formats, descriptors, and GPU-resident texture
//! contents as plain bytes.
//!
//! The host engine owns the real GPU memory; this library only ever holds
//! references to it. The model therefore represents a texture as its
//! descriptor (dimensions, mip count, format) together with the byte
//! contents of its first mip level, which is the only level the copy ever
//! touches.

use vstd::prelude::*;

verus! {

/// A pixel format, reduced to what the copy logic needs: the number of
/// bytes each pixel occupies in the first mip level.
#[derive(Clone, Copy, PartialEq, Eq, Structural, Debug)]
pub enum PixelFormat {
    /// Four 8-bit channels: 4 bytes per pixel.
    Rgba8Unorm,
    /// Four 32-bit float channels: 16 bytes per pixel.
    Rgba32Float,
}

impl PixelFormat {
    pub open spec fn spec_bytes_per_pixel(self) -> nat {
        match self {
            PixelFormat::Rgba8Unorm => 4,
            PixelFormat::Rgba32Float => 16,
        }
    }

    pub fn bytes_per_pixel(self) -> (r: usize)
        ensures
            r == self.spec_bytes_per_pixel(),
    {
        match self {
            PixelFormat::Rgba8Unorm => 4,
            PixelFormat::Rgba32Float => 16,
        }
    }
}

/// The width and height of a copy, in pixels. The third dimension of a copy
/// is always a single layer.
#[derive(Clone, Copy, PartialEq, Eq, Structural, Debug)]
pub struct CopyExtent {
    pub width: u32,
    pub height: u32,
}

/// What the engine records about a texture when it is created: its pixel
/// dimensions, how many mip levels it has, and its pixel format.
#[derive(Clone, Copy, PartialEq, Eq, Structural, Debug)]
pub struct TextureDescriptor {
    pub width: u32,
    pub height: u32,
    pub mip_level_count: u32,
    pub format: PixelFormat,
}

/// The number of bytes in the first mip level of a texture with descriptor
/// `d`: one row is `width` pixels, and there are `height` rows.
pub open spec fn texture_byte_len(d: TextureDescriptor) -> nat {
    (d.width as nat) * (d.height as nat) * d.format.spec_bytes_per_pixel()
}

/// The contents of a freshly created texture of `n` bytes filled with the
/// single pixel `pixel`, repeated row-major.
pub open spec fn fill_bytes(pixel: Seq<u8>, n: nat) -> Seq<u8> {
    Seq::new(n, |i: int| pixel[i % (pixel.len() as int)])
}

/// A GPU-resident texture as the model sees it: its descriptor and the byte
/// contents of its first mip level.
pub struct GpuTexture {
    pub desc: TextureDescriptor,
    pub data: Vec<u8>,
}

impl GpuTexture {
    /// The contents hold exactly one first mip level of the declared size.
    pub open spec fn wf(self) -> bool {
        self.data@.len() == texture_byte_len(self.desc)
    }

    /// Allocate a texture of the given descriptor whose contents are `pixel`
    /// repeated over every pixel.
    pub fn new_filled(desc: TextureDescriptor, pixel: &Vec<u8>) -> (r: GpuTexture)
        requires
            pixel@.len() == desc.format.spec_bytes_per_pixel(),
            texture_byte_len(desc) <= usize::MAX,
        ensures
            r.desc == desc,
            r.wf(),
            r.data@ == fill_bytes(pixel@, texture_byte_len(desc)),
    {
        let w = desc.width as usize;
        let h = desc.height as usize;
        let bpp = desc.format.bytes_per_pixel();
        proof {
            assert((w as int) * (h as int) <= (w as int) * (h as int) * (bpp as int))
                by (nonlinear_arith)
                requires bpp >= 1, w >= 0, h >= 0;
        }
        let total: usize = w * h * bpp;
        let mut data: Vec<u8> = Vec::new();
        let mut i: usize = 0;
        while i < total
            invariant
                i <= total,
                total == texture_byte_len(desc),
                bpp == desc.format.spec_bytes_per_pixel(),
                pixel@.len() == bpp,
                bpp >= 1,
                data@.len() == i,
                forall|j: int| 0 <= j < i ==> data@[j] == pixel@[j % (pixel@.len() as int)],
            decreases total - i,
        {
            let b = pixel[i % bpp];
            data.push(b);
            i = i + 1;
        }
        proof {
            assert(data@ =~= fill_bytes(pixel@, texture_byte_len(desc)));
        }
        GpuTexture { desc, data }
    }
}

/// The first-mip contents of the destination after a copy of `ext` pixels
/// from the top-left corner of the source to the top-left corner of the
/// destination. Byte `i` of the destination lies in row `i / row_bytes` at
/// row offset `i % row_bytes`; inside the copied rectangle it takes the
/// source byte at the same pixel position, outside it keeps its prior value.
pub open spec fn region_copied(
    sd: TextureDescriptor,
    sdata: Seq<u8>,
    dd: TextureDescriptor,
    ddata: Seq<u8>,
    ext: CopyExtent,
) -> Seq<u8> {
    let bpp = dd.format.spec_bytes_per_pixel() as int;
    let drb = (dd.width as int) * bpp;
    let srb = (sd.width as int) * bpp;
    Seq::new(
        ddata.len(),
        |i: int|
            if i / drb < ext.height as int && i % drb < (ext.width as int) * bpp {
                sdata[(i / drb) * srb + (i % drb)]
            } else {
                ddata[i]
            },
    )
}

/// Copy `ext` pixels from the top-left of texture `s` to the top-left of
/// texture `t`, both held in `textures`, and return the new contents of the
/// destination's first mip level. The result is built in a fresh buffer
/// while both textures stay unchanged, so `s == t` behaves as a copy from a
/// snapshot of the source.
pub fn copy_region_exec(textures: &Vec<GpuTexture>, s: usize, t: usize, ext: CopyExtent) -> (r:
    Vec<u8>)
    requires
        s < textures@.len(),
        t < textures@.len(),
        textures@[s as int].wf(),
        textures@[t as int].wf(),
        textures@[s as int].desc.format == textures@[t as int].desc.format,
        ext.width <= textures@[s as int].desc.width,
        ext.width <= textures@[t as int].desc.width,
        ext.height <= textures@[s as int].desc.height,
        ext.height <= textures@[t as int].desc.height,
    ensures
        r@ == region_copied(
            textures@[s as int].desc,
            textures@[s as int].data@,
            textures@[t as int].desc,
            textures@[t as int].data@,
            ext,
        ),
{
    let ghost sdata = textures@[s as int].data@;
    let ghost ddata = textures@[t as int].data@;
    let sd = textures[s].desc;
    let dd = textures[t].desc;
    let dlen = textures[t].data.len();
    let mut out: Vec<u8> = Vec::new();
    if dlen == 0 {
        proof {
            assert(out@ =~= region_copied(sd, sdata, dd, ddata, ext));
        }
        return out;
    }
    let bpp = dd.format.bytes_per_pixel();
    proof {
        assert(dd.width >= 1 && dd.height >= 1) by (nonlinear_arith)
            requires
                (dd.width as int) * (dd.height as int) * (bpp as int) > 0,
                dd.width >= 0,
                dd.height >= 0,
                bpp >= 0,
        ;
        assert((dd.width as int) * (bpp as int) <= (dd.width as int) * (dd.height as int) * (
        bpp as int)) by (nonlinear_arith)
            requires
                dd.width >= 0,
                bpp >= 0,
                dd.height >= 1,
        ;
    }
    let drb: usize = (dd.width as usize) * bpp;
    proof {
        assert((ext.width as int) * (bpp as int) <= (dd.width as int) * (bpp as int))
            by (nonlinear_arith)
            requires
                ext.width <= dd.width,
                ext.width >= 0,
                bpp >= 0,
        ;
    }
    let ewb: usize = (ext.width as usize) * bpp;
    if ext.width == 0 || ext.height == 0 {
        let mut i: usize = 0;
        while i < dlen
            invariant
                i <= dlen,
                dlen == ddata.len(),
                ddata == textures@[t as int].data@,
                t < textures@.len(),
                out@.len() == i,
                forall|j: int| 0 <= j < i ==> out@[j] == ddata[j],
            decreases dlen - i,
        {
            let b = textures[t].data[i];
            out.push(b);
            i = i + 1;
        }
        proof {
            assert forall|j: int| 0 <= j < ddata.len() implies region_copied(
                sd,
                sdata,
                dd,
                ddata,
                ext,
            )[j] == ddata[j] by {
                let drbi = (dd.width as int) * (dd.format.spec_bytes_per_pixel() as int);
                assert(drbi >= 1);
                assert(j / drbi >= 0 && j % drbi >= 0) by (nonlinear_arith)
                    requires
                        j >= 0,
                        drbi >= 1,
                ;
            }
            assert(out@ =~= region_copied(sd, sdata, dd, ddata, ext));
        }
        return out;
    }
    // The copied rectangle is at least one pixel wide and high, so the
    // source is too, and its row stride fits in its byte length.
    let slen = textures[s].data.len();
    proof {
        assert((sd.width as int) * (bpp as int) <= (sd.width as int) * (sd.height as int) * (
        bpp as int)) by (nonlinear_arith)
            requires
                sd.width >= 0,
                bpp >= 0,
                sd.height >= 1,
        ;
        assert((ext.width as int) * (bpp as int) <= (sd.width as int) * (bpp as int))
            by (nonlinear_arith)
            requires
                ext.width <= sd.width,
                ext.width >= 0,
                bpp >= 0,
        ;
    }
    let srb: usize = (sd.width as usize) * bpp;
    let mut i: usize = 0;
    while i < dlen
        invariant
            i <= dlen,
            s < textures@.len(),
            t < textures@.len(),
            sdata == textures@[s as int].data@,
            ddata == textures@[t as int].data@,
            dlen == ddata.len(),
            slen == sdata.len(),
            bpp == dd.format.spec_bytes_per_pixel(),
            bpp == sd.format.spec_bytes_per_pixel(),
            bpp >= 1,
            drb == (dd.width as int) * (bpp as int),
            srb == (sd.width as int) * (bpp as int),
            ewb == (ext.width as int) * (bpp as int),
            drb >= 1,
            ext.height >= 1,
            ext.width >= 1,
            ext.height <= sd.height,
            ewb <= srb,
            slen == texture_byte_len(sd),
            out@.len() == i,
            forall|j: int|
                0 <= j < i ==> out@[j] == region_copied(sd, sdata, dd, ddata, ext)[j],
        decreases dlen - i,
    {
        let row = i / drb;
        let col = i % drb;
        if row < ext.height as usize && col < ewb {
            proof {
                assert(0 <= (row as int) * (srb as int) + (col as int) < (sd.width as int) * (
                sd.height as int) * (bpp as int)) by (nonlinear_arith)
                    requires
                        0 <= row < ext.height as int,
                        ext.height <= sd.height,
                        0 <= col < ewb,
                        ewb <= srb,
                        srb == (sd.width as int) * (bpp as int),
                        bpp >= 0,
                        sd.width >= 0,
                ;
            }
            let si = row * srb + col;
            let b = textures[s].data[si];
            out.push(b);
        } else {
            let b = textures[t].data[i];
            out.push(b);
        }
        i = i + 1;
    }
    proof {
        assert(out@ =~= region_copied(sd, sdata, dd, ddata, ext));
    }
    out
}

} // verus!
