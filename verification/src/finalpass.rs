//! The final pass of the DS 3D engine: edge marking, fog and
//! anti-aliasing over one scanline of the colour / attribute / depth buffers,
//! and the fog density of a depth value.
//!
//! The buffers hold two layers: the top pixel of column `x` at
//! `base + x` and the pixel below it at `base + x + buffer_size`, where
//! `base = first_pixel_offset + y * scanline_width`.

use vstd::prelude::*;
use crate::renderpixel::{chan6, widen, lemma_chan6_range};
use crate::arith::{lemma_and_le_u32, lemma_shr_u32};

verus! {

/// Scalar parameters of the final pass.
pub struct FinalPassParams {
    pub buffer_size: i32,
    pub scanline_width: i32,
    pub first_pixel_offset: i32,
    pub y: i32,
    pub disp_cnt: u32,
    pub fog_color: u32,
    pub fog_offset: u32,
    pub fog_shift: u32,
}

/// Index of the first pixel of the scanline.
pub open spec fn fp_base(p: FinalPassParams) -> int {
    p.first_pixel_offset + p.y * p.scanline_width
}

/// What the final pass needs: a scanline that lies inside the buffers with
/// both layers, and room around it for the neighbours edge marking reads.
pub open spec fn final_pass_requires(p: FinalPassParams, color_len: int, depth_len: int, attr_len: int) -> bool {
    let base = fp_base(p);
    &&& color_len == depth_len
    &&& color_len == attr_len
    &&& p.buffer_size >= 256
    &&& i32::MIN <= p.y * p.scanline_width <= i32::MAX
    &&& 0 <= base
    &&& base + 256 + p.buffer_size <= color_len
    &&& base + 256 <= p.buffer_size
    &&& (p.disp_cnt & 0x20 != 0 ==> 1 <= p.scanline_width && p.scanline_width <= base && base + 256
        + p.scanline_width <= color_len)
}

/// Edge marking looks the edge colour up by polygon id in an 8-entry table
/// (one entry per 8 ids), so marked pixels need a 6-bit polygon id.
pub open spec fn edge_ids_in_range(p: FinalPassParams, attr: Seq<u32>, depth: Seq<u32>) -> bool {
    p.disp_cnt & 0x20 != 0 ==> forall|j: int|
        fp_base(p) <= j < fp_base(p) + 256 && is_edge(attr, depth, j, p.scanline_width as int)
            ==> #[trigger] attr[j] >> 24u32 < 64
}

/// Whether the top pixel at `a` lies on the edge of its polygon: it is
/// opaque-covered and a neighbour (left, right, above, below) belongs to
/// another polygon and is farther away.
pub open spec fn is_edge(attr: Seq<u32>, depth: Seq<u32>, a: int, sw: int) -> bool {
    let polyid = attr[a] >> 24u32;
    let z = depth[a];
    &&& attr[a] & 0xF != 0
    &&& {
        ||| (polyid != attr[a - 1] >> 24u32 && z < depth[a - 1])
        ||| (polyid != attr[a + 1] >> 24u32 && z < depth[a + 1])
        ||| (polyid != attr[a - sw] >> 24u32 && z < depth[a - sw])
        ||| (polyid != attr[a + sw] >> 24u32 && z < depth[a + sw])
    }
}

/// The edge colour for polygon id `polyid`, as 6-bit channels.
pub open spec fn edge_rgb(edge_table: Seq<u16>, polyid: u32) -> u32 {
    let c = edge_table[(polyid >> 3u32) as int];
    (chan6(c, 0) as u32) | ((chan6(c, 5) as u32) << 8u32) | ((chan6(c, 10) as u32) << 16u32)
}

/// Colour buffer after edge marking.
pub open spec fn edge_color(p: FinalPassParams, color: Seq<u32>, attr: Seq<u32>, depth: Seq<u32>, edge_table: Seq<u16>) -> Seq<u32> {
    edge_color_n(p, color, attr, depth, edge_table, 256)
}

/// Colour buffer after edge marking the first `n` columns.
pub open spec fn edge_color_n(p: FinalPassParams, color: Seq<u32>, attr: Seq<u32>, depth: Seq<u32>, edge_table: Seq<u16>, n: int) -> Seq<u32> {
    let base = fp_base(p);
    Seq::new(
        color.len(),
        |j: int|
            if base <= j < base + n && p.disp_cnt & 0x20 != 0 && is_edge(
                attr,
                depth,
                j,
                p.scanline_width as int,
            ) {
                edge_rgb(edge_table, attr[j] >> 24u32) | (color[j] & 0xFF000000)
            } else {
                color[j]
            },
    )
}

/// Attribute buffer after edge marking: an edge pixel's coverage field is
/// set to 0x10.
pub open spec fn edge_attr(p: FinalPassParams, attr: Seq<u32>, depth: Seq<u32>) -> Seq<u32> {
    edge_attr_n(p, attr, depth, 256)
}

/// Attribute buffer after edge marking the first `n` columns.
pub open spec fn edge_attr_n(p: FinalPassParams, attr: Seq<u32>, depth: Seq<u32>, n: int) -> Seq<u32> {
    let base = fp_base(p);
    Seq::new(
        attr.len(),
        |j: int|
            if base <= j < base + n && p.disp_cnt & 0x20 != 0 && is_edge(
                attr,
                depth,
                j,
                p.scanline_width as int,
            ) {
                (attr[j] & 0xFFFFE0FF) | 0x1000
            } else {
                attr[j]
            },
    )
}

/// Fog density (0..=128) at depth `z`: a linear interpolation between two
/// entries of the 34-entry density table, saturated to 128 from 127 up.
pub open spec fn fog_density_spec(z: u32, fog_offset: u32, fog_shift: u32, table: Seq<u8>) -> u32 {
    let (id, frac) = if z < fog_offset {
        (0int, 0int)
    } else {
        let zz: u32 = ((z - fog_offset) as u32 >> 2u32).wrapping_shl(fog_shift);
        if zz >> 17u32 >= 32 {
            (32int, 0int)
        } else {
            ((zz >> 17u32) as int, (zz & 0x1FFFF) as int)
        }
    };
    let d = (table[id] * (0x20000 - frac) + table[id + 1] * frac) / 0x20000;
    if d >= 127 { 128 } else { d as u32 }
}

/// The fog density (0..=128) of the pixel at `addr`.
fn fog_density(depth: &[u32], pixeladdr: usize, fog_offset: u32, fog_shift: u32, table: &[u8]) -> (res: u32)
    requires
        pixeladdr < depth@.len(),
        table@.len() >= 34,
    ensures
        res == fog_density_spec(depth@[pixeladdr as int], fog_offset, fog_shift, table@),
        res <= 128,
{
    let mut z: u32 = depth[pixeladdr];
    let densityid: usize;
    let densityfrac: u32;
    if z < fog_offset {
        densityid = 0;
        densityfrac = 0;
    } else {
        z = z - fog_offset;
        z = (z >> 2).wrapping_shl(fog_shift);
        let id: u32 = z >> 17;
        if id >= 32 {
            densityid = 32;
            densityfrac = 0;
        } else {
            densityid = id as usize;
            densityfrac = z & 0x1FFFF;
        }
    }
    proof {
        lemma_and_le_u32(z, 0x1FFFF);
    }
    let t0: u32 = table[densityid] as u32;
    let t1: u32 = table[densityid + 1] as u32;
    assert(t0 * (0x20000 - densityfrac) <= 255 * 0x20000 && t1 * densityfrac <= 255 * 0x20000)
        by (nonlinear_arith)
        requires
            t0 <= 255,
            t1 <= 255,
            densityfrac <= 0x20000,
    ;
    let sum: u32 = (t0 * (0x20000 - densityfrac)) + (t1 * densityfrac);
    assert(sum >> 17u32 == sum / 0x20000) by {
        lemma_shr_u32(sum, 17);
    }
    let mut density: u32 = sum >> 17;
    if density >= 127 {
        density = 128;
    }
    density
}

/// A pixel fogged with density `d` (of 128): the alpha always moves toward
/// the fog alpha, the colour only when `fogcolor` is set.
pub open spec fn fog_blend_spec(c: u32, d: u32, fogcolor: bool, fog_color: u32) -> u32 {
    let fr = chan6(fog_color as u16, 0) as u32;
    let fg = chan6(fog_color as u16, 5) as u32;
    let fb = chan6(fog_color as u16, 10) as u32;
    let fa = (fog_color >> 16u32) & 0x1F;
    let sr = c & 0x3F;
    let sg = (c >> 8u32) & 0x3F;
    let sb = (c >> 16u32) & 0x3F;
    let sa = (c >> 24u32) & 0x1F;
    let r: u32 = if fogcolor { ((fr * d + sr * (128 - d)) / 128) as u32 } else { sr };
    let g: u32 = if fogcolor { ((fg * d + sg * (128 - d)) / 128) as u32 } else { sg };
    let b: u32 = if fogcolor { ((fb * d + sb * (128 - d)) / 128) as u32 } else { sb };
    let a: u32 = ((fa * d + sa * (128 - d)) / 128) as u32;
    r | (g << 8u32) | (b << 16u32) | (a << 24u32)
}

/// Colour buffer after the fog pass (`attr` is the buffer after edge
/// marking): fogged top pixels, and fogged lower pixels under covered top
/// pixels.
pub open spec fn fog_color_pass(p: FinalPassParams, color: Seq<u32>, attr: Seq<u32>, depth: Seq<u32>, table: Seq<u8>) -> Seq<u32> {
    fog_color_pass_n(p, color, attr, depth, table, 256)
}

/// Colour buffer after fogging the first `n` columns.
pub open spec fn fog_color_pass_n(p: FinalPassParams, color: Seq<u32>, attr: Seq<u32>, depth: Seq<u32>, table: Seq<u8>, n: int) -> Seq<u32> {
    let base = fp_base(p);
    let bs = p.buffer_size as int;
    let fogcolor = p.disp_cnt & 0x40 == 0;
    Seq::new(
        color.len(),
        |j: int|
            if p.disp_cnt & 0x80 == 0 {
                color[j]
            } else if base <= j < base + n && attr[j] & 0x8000 != 0 {
                fog_blend_spec(
                    color[j],
                    fog_density_spec(depth[j], p.fog_offset, p.fog_shift, table),
                    fogcolor,
                    p.fog_color,
                )
            } else if base + bs <= j < base + bs + n && attr[j - bs] & 0xF != 0 && attr[j]
                & 0x8000 != 0 {
                fog_blend_spec(
                    color[j],
                    fog_density_spec(depth[j], p.fog_offset, p.fog_shift, table),
                    fogcolor,
                    p.fog_color,
                )
            } else {
                color[j]
            },
    )
}

/// The top pixel blended over the lower one by `coverage` (of 32); the
/// colour only where the lower pixel is not transparent.
pub open spec fn aa_blend_spec(top: u32, bot: u32, coverage: u32) -> u32 {
    let tr = top & 0x3F;
    let tg = (top >> 8u32) & 0x3F;
    let tb = (top >> 16u32) & 0x3F;
    let ta = (top >> 24u32) & 0x1F;
    let br = bot & 0x3F;
    let bg = (bot >> 8u32) & 0x3F;
    let bb = (bot >> 16u32) & 0x3F;
    let ba = (bot >> 24u32) & 0x1F;
    let r: u32 = if ba > 0 { ((tr * coverage + br * (32 - coverage)) / 32) as u32 } else { tr };
    let g: u32 = if ba > 0 { ((tg * coverage + bg * (32 - coverage)) / 32) as u32 } else { tg };
    let b: u32 = if ba > 0 { ((tb * coverage + bb * (32 - coverage)) / 32) as u32 } else { tb };
    let a: u32 = ((ta * coverage + ba * (32 - coverage)) / 32) as u32;
    r | (g << 8u32) | (b << 16u32) | (a << 24u32)
}

/// Colour buffer after anti-aliasing: a covered top pixel with partial
/// coverage is blended with the pixel below it (coverage 0 takes the lower
/// pixel outright).
pub open spec fn aa_color_pass(p: FinalPassParams, color: Seq<u32>, attr: Seq<u32>) -> Seq<u32> {
    aa_color_pass_n(p, color, attr, 256)
}

/// Colour buffer after anti-aliasing the first `n` columns.
pub open spec fn aa_color_pass_n(p: FinalPassParams, color: Seq<u32>, attr: Seq<u32>, n: int) -> Seq<u32> {
    let base = fp_base(p);
    let bs = p.buffer_size as int;
    Seq::new(
        color.len(),
        |j: int|
            if p.disp_cnt & 0x10 != 0 && base <= j < base + n && attr[j] & 0xF != 0 && (attr[j]
                >> 8u32) & 0x1F != 0x1F {
                if (attr[j] >> 8u32) & 0x1F == 0 {
                    color[j + bs]
                } else {
                    aa_blend_spec(color[j], color[j + bs], (((attr[j] >> 8u32) & 0x1F) + 1) as u32)
                }
            } else {
                color[j]
            },
    )
}

/// The colour buffer after the whole final pass.
pub open spec fn final_pass_color(
    p: FinalPassParams,
    color: Seq<u32>,
    depth: Seq<u32>,
    attr: Seq<u32>,
    edge_table: Seq<u16>,
    fog_table: Seq<u8>,
) -> Seq<u32> {
    let c1 = edge_color(p, color, attr, depth, edge_table);
    let a1 = edge_attr(p, attr, depth);
    let c2 = fog_color_pass(p, c1, a1, depth, fog_table);
    aa_color_pass(p, c2, a1)
}

/// Edge marking only rewrites an attribute's coverage field: its polygon id
/// and edge flags stay.
proof fn lemma_edge_attr_bits(a: u32)
    ensures
        ((a & 0xFFFFE0FF) | 0x1000) >> 24u32 == a >> 24u32,
        ((a & 0xFFFFE0FF) | 0x1000) & 0xF == a & 0xF,
        ((a & 0xFFFFE0FF) | 0x1000) & 0x8000 == a & 0x8000,
{
    assert(((a & 0xFFFFE0FF) | 0x1000) >> 24u32 == a >> 24u32 && ((a & 0xFFFFE0FF) | 0x1000) & 0xF
        == a & 0xF && ((a & 0xFFFFE0FF) | 0x1000) & 0x8000 == a & 0x8000) by (bit_vector);
}

/// Edge-marking step for one pixel.
fn edge_mark_pixel(
    color: &mut [u32],
    attr: &mut [u32],
    depth: &[u32],
    edge_table: &[u16],
    pixeladdr: usize,
    sw: usize,
)
    requires
        old(color)@.len() == old(attr)@.len(),
        old(attr)@.len() == depth@.len(),
        1 <= sw <= pixeladdr,
        pixeladdr + sw < depth@.len(),
        edge_table@.len() >= 8,
        is_edge(old(attr)@, depth@, pixeladdr as int, sw as int) ==> old(attr)@[pixeladdr as int]
            >> 24u32 < 64,
    ensures
        final(color)@.len() == old(color)@.len(),
        final(attr)@.len() == old(attr)@.len(),
        is_edge(old(attr)@, depth@, pixeladdr as int, sw as int) ==> final(color)@ == old(
            color,
        )@.update(
            pixeladdr as int,
            edge_rgb(edge_table@, old(attr)@[pixeladdr as int] >> 24u32) | (old(color)@[pixeladdr as int]
                & 0xFF000000),
        ) && final(attr)@ == old(attr)@.update(
            pixeladdr as int,
            (old(attr)@[pixeladdr as int] & 0xFFFFE0FF) | 0x1000,
        ),
        !is_edge(old(attr)@, depth@, pixeladdr as int, sw as int) ==> final(color)@ == old(color)@
            && final(attr)@ == old(attr)@,
{
    let a: u32 = attr[pixeladdr];
    if a & 0xF == 0 {
        return;
    }
    let polyid: u32 = a >> 24;
    let z: u32 = depth[pixeladdr];
    if ((polyid != (attr[pixeladdr - 1] >> 24)) && (z < depth[pixeladdr - 1])) || ((polyid != (
    attr[pixeladdr + 1] >> 24)) && (z < depth[pixeladdr + 1])) || ((polyid != (attr[pixeladdr
        - sw] >> 24)) && (z < depth[pixeladdr - sw])) || ((polyid != (attr[pixeladdr + sw] >> 24))
        && (z < depth[pixeladdr + sw])) {
        assert(polyid >> 3u32 < 8) by {
            lemma_shr_u32(polyid, 3);
        }
        let edgecolor: u16 = edge_table[(polyid >> 3) as usize];
        let edge_r: u32 = widen(edgecolor, 0) as u32;
        let edge_g: u32 = widen(edgecolor, 5) as u32;
        let edge_b: u32 = widen(edgecolor, 10) as u32;
        color[pixeladdr] = edge_r | (edge_g << 8) | (edge_b << 16) | (color[pixeladdr] & 0xFF000000);
        attr[pixeladdr] = (attr[pixeladdr] & 0xFFFFE0FF) | 0x00001000;
    }
}

/// Edge detection only looks at polygon ids, edge flags and depths, which
/// edge marking leaves as they were.
proof fn lemma_is_edge_same(a0: Seq<u32>, cur: Seq<u32>, depth: Seq<u32>, j: int, sw: int)
    requires
        a0.len() == cur.len(),
        forall|k: int|
            0 <= k < a0.len() ==> #[trigger] (cur[k] >> 24u32) == a0[k] >> 24u32 && cur[k] & 0xF
                == a0[k] & 0xF,
        1 <= sw <= j,
        j + sw < a0.len(),
    ensures
        is_edge(cur, depth, j, sw) == is_edge(a0, depth, j, sw),
{
    assert(cur[j] >> 24u32 == a0[j] >> 24u32);
    assert(cur[j - 1] >> 24u32 == a0[j - 1] >> 24u32);
    assert(cur[j + 1] >> 24u32 == a0[j + 1] >> 24u32);
    assert(cur[j - sw] >> 24u32 == a0[j - sw] >> 24u32);
    assert(cur[j + sw] >> 24u32 == a0[j + sw] >> 24u32);
}

/// The edge-marking loop over the scanline.
fn edge_pass(
    p: &FinalPassParams,
    color: &mut [u32],
    attr: &mut [u32],
    depth: &[u32],
    edge_table: &[u16],
)
    requires
        final_pass_requires(*p, old(color)@.len() as int, depth@.len() as int, old(attr)@.len() as int),
        p.disp_cnt & 0x20 != 0,
        edge_table@.len() >= 8,
        edge_ids_in_range(*p, old(attr)@, depth@),
    ensures
        final(color)@ == edge_color(*p, old(color)@, old(attr)@, depth@, edge_table@),
        final(attr)@ == edge_attr(*p, old(attr)@, depth@),
{
    let ghost c0 = color@;
    let ghost a0 = attr@;
    let base: usize = (p.first_pixel_offset + p.y * p.scanline_width) as usize;
    let sw: usize = p.scanline_width as usize;
    assert(color@ =~= edge_color_n(*p, c0, a0, depth@, edge_table@, 0));
    assert(attr@ =~= edge_attr_n(*p, a0, depth@, 0));
    let mut x: usize = 0;
    while x < 256
        invariant
            x <= 256,
            final_pass_requires(*p, c0.len() as int, depth@.len() as int, a0.len() as int),
            p.disp_cnt & 0x20 != 0,
            edge_table@.len() >= 8,
            edge_ids_in_range(*p, a0, depth@),
            base == fp_base(*p),
            sw == p.scanline_width,
            color@ == edge_color_n(*p, c0, a0, depth@, edge_table@, x as int),
            attr@ == edge_attr_n(*p, a0, depth@, x as int),
        decreases 256 - x,
    {
        let pixeladdr: usize = base + x;
        assert forall|k: int| 0 <= k < a0.len() implies #[trigger] (attr@[k] >> 24u32) == a0[k]
            >> 24u32 && attr@[k] & 0xF == a0[k] & 0xF by {
            lemma_edge_attr_bits(a0[k]);
        }
        proof {
            lemma_is_edge_same(a0, attr@, depth@, pixeladdr as int, sw as int);
            lemma_edge_attr_bits(a0[pixeladdr as int]);
        }
        assert(attr@[pixeladdr as int] == a0[pixeladdr as int]);
        assert(color@[pixeladdr as int] == c0[pixeladdr as int]);
        edge_mark_pixel(color, attr, depth, edge_table, pixeladdr, sw);
        assert(color@ =~= edge_color_n(*p, c0, a0, depth@, edge_table@, x + 1));
        assert(attr@ =~= edge_attr_n(*p, a0, depth@, x + 1));
        x = x + 1;
    }
}

/// One fogged pixel; `fr`, `fg`, `fb`, `fa` are the fog colour's
/// channels.
fn fog_blend(c: u32, density: u32, fogcolor: bool, fog_color: u32, fr: u32, fg: u32, fb: u32, fa: u32) -> (res: u32)
    requires
        density <= 128,
        fr == chan6(fog_color as u16, 0) as u32,
        fg == chan6(fog_color as u16, 5) as u32,
        fb == chan6(fog_color as u16, 10) as u32,
        fa == (fog_color >> 16u32) & 0x1F,
    ensures
        res == fog_blend_spec(c, density, fogcolor, fog_color),
{
    let mut src_r: u32 = c & 0x3F;
    let mut src_g: u32 = (c >> 8) & 0x3F;
    let mut src_b: u32 = (c >> 16) & 0x3F;
    let mut src_a: u32 = (c >> 24) & 0x1F;
    assert(src_r <= 63 && src_g <= 63 && src_b <= 63 && src_a <= 31 && fa <= 31) by {
        lemma_and_le_u32(c, 0x3F);
        lemma_and_le_u32(c >> 8u32, 0x3F);
        lemma_and_le_u32(c >> 16u32, 0x3F);
        lemma_and_le_u32(c >> 24u32, 0x1F);
        lemma_and_le_u32(fog_color >> 16u32, 0x1F);
    }
    proof {
        lemma_chan6_range(fog_color as u16, 0);
        lemma_chan6_range(fog_color as u16, 5);
        lemma_chan6_range(fog_color as u16, 10);
        lemma_mix_bound(fr, src_r, density, 128);
        lemma_mix_bound(fg, src_g, density, 128);
        lemma_mix_bound(fb, src_b, density, 128);
        lemma_mix_bound(fa, src_a, density, 128);
    }
    if fogcolor {
        src_r = ((fr * density) + (src_r * (128 - density))) >> 7;
        src_g = ((fg * density) + (src_g * (128 - density))) >> 7;
        src_b = ((fb * density) + (src_b * (128 - density))) >> 7;
    }
    src_a = ((fa * density) + (src_a * (128 - density))) >> 7;
    src_r | (src_g << 8) | (src_b << 16) | (src_a << 24)
}

/// `(a * w + b * (total - w)) >> log2(total)` stays in range and equals the
/// division.
proof fn lemma_mix_bound(a: u32, b: u32, w: u32, total: u32)
    requires
        a <= 63,
        b <= 63,
        w <= total,
        total == 128 || total == 32,
    ensures
        a * w + b * (total - w) <= 63 * total,
        total == 128 ==> ((a * w + b * (total - w)) as u32) >> 7u32 == (a * w + b * (total - w))
            / 128,
        total == 32 ==> ((a * w + b * (total - w)) as u32) >> 5u32 == (a * w + b * (total - w))
            / 32,
{
    assert(a * w + b * (total - w) <= 63 * total) by (nonlinear_arith)
        requires
            a <= 63,
            b <= 63,
            w <= total,
    ;
    let x: u32 = (a * w + b * (total - w)) as u32;
    lemma_shr_u32(x, 7);
    lemma_shr_u32(x, 5);
}

/// The fog loop over the scanline.
fn fog_pass(p: &FinalPassParams, color: &mut [u32], attr: &[u32], depth: &[u32], fog_table: &[u8])
    requires
        final_pass_requires(*p, old(color)@.len() as int, depth@.len() as int, attr@.len() as int),
        p.disp_cnt & 0x80 != 0,
        fog_table@.len() >= 34,
    ensures
        final(color)@ == fog_color_pass(*p, old(color)@, attr@, depth@, fog_table@),
{
    let ghost c0 = color@;
    let base: usize = (p.first_pixel_offset + p.y * p.scanline_width) as usize;
    let buffer_size: usize = p.buffer_size as usize;
    let fogcolor: bool = p.disp_cnt & 0x40 == 0;
    let fr: u32 = widen(p.fog_color as u16, 0) as u32;
    let fg: u32 = widen(p.fog_color as u16, 5) as u32;
    let fb: u32 = widen(p.fog_color as u16, 10) as u32;
    let fa: u32 = (p.fog_color >> 16) & 0x1F;
    assert(color@ =~= fog_color_pass_n(*p, c0, attr@, depth@, fog_table@, 0));
    let mut x: usize = 0;
    while x < 256
        invariant
            x <= 256,
            final_pass_requires(*p, c0.len() as int, depth@.len() as int, attr@.len() as int),
            p.disp_cnt & 0x80 != 0,
            fog_table@.len() >= 34,
            base == fp_base(*p),
            buffer_size == p.buffer_size,
            fogcolor == (p.disp_cnt & 0x40 == 0),
            fr == chan6(p.fog_color as u16, 0) as u32,
            fg == chan6(p.fog_color as u16, 5) as u32,
            fb == chan6(p.fog_color as u16, 10) as u32,
            fa == (p.fog_color >> 16u32) & 0x1F,
            color@ == fog_color_pass_n(*p, c0, attr@, depth@, fog_table@, x as int),
        decreases 256 - x,
    {
        let pixeladdr: usize = base + x;
        let a: u32 = attr[pixeladdr];
        if a & 0x8000 != 0 {
            let density: u32 = fog_density(depth, pixeladdr, p.fog_offset, p.fog_shift, fog_table);
            let v: u32 = fog_blend(color[pixeladdr], density, fogcolor, p.fog_color, fr, fg, fb, fa);
            color[pixeladdr] = v;
        }
        // lower pixel
        if a & 0xF != 0 {
            let lower: usize = pixeladdr + buffer_size;
            if attr[lower] & 0x8000 != 0 {
                let density: u32 = fog_density(depth, lower, p.fog_offset, p.fog_shift, fog_table);
                let v: u32 = fog_blend(color[lower], density, fogcolor, p.fog_color, fr, fg, fb, fa);
                color[lower] = v;
            }
        }
        assert(color@ =~= fog_color_pass_n(*p, c0, attr@, depth@, fog_table@, x + 1));
        x = x + 1;
    }
}

/// One anti-aliased pixel.
fn aa_blend(top: u32, bot: u32, coverage: u32) -> (res: u32)
    requires
        1 <= coverage <= 32,
    ensures
        res == aa_blend_spec(top, bot, coverage),
{
    let mut top_r: u32 = top & 0x3F;
    let mut top_g: u32 = (top >> 8) & 0x3F;
    let mut top_b: u32 = (top >> 16) & 0x3F;
    let mut top_a: u32 = (top >> 24) & 0x1F;
    let bot_r: u32 = bot & 0x3F;
    let bot_g: u32 = (bot >> 8) & 0x3F;
    let bot_b: u32 = (bot >> 16) & 0x3F;
    let bot_a: u32 = (bot >> 24) & 0x1F;
    assert(top_r <= 63 && top_g <= 63 && top_b <= 63 && top_a <= 31 && bot_r <= 63 && bot_g <= 63
        && bot_b <= 63 && bot_a <= 31) by {
        lemma_and_le_u32(top, 0x3F);
        lemma_and_le_u32(top >> 8u32, 0x3F);
        lemma_and_le_u32(top >> 16u32, 0x3F);
        lemma_and_le_u32(top >> 24u32, 0x1F);
        lemma_and_le_u32(bot, 0x3F);
        lemma_and_le_u32(bot >> 8u32, 0x3F);
        lemma_and_le_u32(bot >> 16u32, 0x3F);
        lemma_and_le_u32(bot >> 24u32, 0x1F);
    }
    proof {
        lemma_mix_bound(top_r, bot_r, coverage, 32);
        lemma_mix_bound(top_g, bot_g, coverage, 32);
        lemma_mix_bound(top_b, bot_b, coverage, 32);
        lemma_mix_bound(top_a, bot_a, coverage, 32);
    }
    if bot_a > 0 {
        top_r = ((top_r * coverage) + (bot_r * (32 - coverage))) >> 5;
        top_g = ((top_g * coverage) + (bot_g * (32 - coverage))) >> 5;
        top_b = ((top_b * coverage) + (bot_b * (32 - coverage))) >> 5;
    }
    top_a = ((top_a * coverage) + (bot_a * (32 - coverage))) >> 5;
    top_r | (top_g << 8) | (top_b << 16) | (top_a << 24)
}

/// The anti-aliasing loop over the scanline.
fn aa_pass(p: &FinalPassParams, color: &mut [u32], attr: &[u32])
    requires
        final_pass_requires(*p, old(color)@.len() as int, old(color)@.len() as int, attr@.len() as int),
        p.disp_cnt & 0x10 != 0,
    ensures
        final(color)@ == aa_color_pass(*p, old(color)@, attr@),
{
    let ghost c0 = color@;
    let base: usize = (p.first_pixel_offset + p.y * p.scanline_width) as usize;
    let buffer_size: usize = p.buffer_size as usize;
    assert(color@ =~= aa_color_pass_n(*p, c0, attr@, 0));
    let mut x: usize = 0;
    while x < 256
        invariant
            x <= 256,
            final_pass_requires(*p, c0.len() as int, c0.len() as int, attr@.len() as int),
            p.disp_cnt & 0x10 != 0,
            base == fp_base(*p),
            buffer_size == p.buffer_size,
            color@ == aa_color_pass_n(*p, c0, attr@, x as int),
        decreases 256 - x,
    {
        let pixeladdr: usize = base + x;
        let a: u32 = attr[pixeladdr];
        if a & 0xF != 0 {
            let coverage: u32 = (a >> 8) & 0x1F;
            assert(coverage <= 0x1F) by {
                lemma_and_le_u32(a >> 8u32, 0x1F);
            }
            if coverage != 0x1F {
                if coverage == 0 {
                    color[pixeladdr] = color[pixeladdr + buffer_size];
                } else {
                    let v: u32 = aa_blend(color[pixeladdr], color[pixeladdr + buffer_size], coverage + 1);
                    color[pixeladdr] = v;
                }
            }
        }
        assert(color@ =~= aa_color_pass_n(*p, c0, attr@, x + 1));
        x = x + 1;
    }
}

/// The 3D final pass over one scanline: edge marking, then fog, then anti-aliasing,
/// each as enabled by DISPCNT bits 5, 7 and 4.
pub fn melonink_scanline_final_pass(
    p: &FinalPassParams,
    color: &mut [u32],
    depth: &[u32],
    attr: &mut [u32],
    edge_table: &[u16],
    fog_density_table: &[u8],
)
    requires
        final_pass_requires(*p, old(color)@.len() as int, depth@.len() as int, old(attr)@.len() as int),
        edge_table@.len() >= 8,
        fog_density_table@.len() >= 34,
        edge_ids_in_range(*p, old(attr)@, depth@),
    ensures
        final(color)@ == final_pass_color(
            *p,
            old(color)@,
            depth@,
            old(attr)@,
            edge_table@,
            fog_density_table@,
        ),
        final(attr)@ == edge_attr(*p, old(attr)@, depth@),
{
    let ghost c0 = color@;
    let ghost a0 = attr@;
    if p.disp_cnt & 0x20 != 0 {
        edge_pass(p, color, attr, depth, edge_table);
    } else {
        assert(color@ =~= edge_color(*p, c0, a0, depth@, edge_table@));
        assert(attr@ =~= edge_attr(*p, a0, depth@));
    }
    let ghost c1 = color@;
    if p.disp_cnt & 0x80 != 0 {
        fog_pass(p, color, attr, depth, fog_density_table);
    } else {
        assert(color@ =~= fog_color_pass(*p, c1, attr@, depth@, fog_density_table@));
    }
    let ghost c2 = color@;
    if p.disp_cnt & 0x10 != 0 {
        aa_pass(p, color, attr);
    } else {
        assert(color@ =~= aa_color_pass(*p, c2, attr@));
    }
}

/// Whether the final pass's inputs meet what it needs
/// (`final_pass_requires` and `edge_ids_in_range`), decided on the
/// parameters and buffers.
pub fn check_final_pass(p: &FinalPassParams, color_len: usize, depth: &[u32], attr: &[u32]) -> (res: bool)
    ensures
        res == (final_pass_requires(*p, color_len as int, depth@.len() as int, attr@.len() as int)
            && edge_ids_in_range(*p, attr@, depth@)),
{
    let n: usize = depth.len();
    if !(color_len == n && attr.len() == n && p.buffer_size >= 256) {
        return false;
    }
    let y: i64 = p.y as i64;
    let sw: i64 = p.scanline_width as i64;
    assert(-0x4000_0000_0000_0000 <= y * sw <= 0x4000_0000_0000_0000) by (nonlinear_arith)
        requires
            -0x8000_0000 <= y <= 0x7FFF_FFFF,
            -0x8000_0000 <= sw <= 0x7FFF_FFFF,
    ;
    let prod: i64 = y * sw;
    if !((i32::MIN as i64) <= prod && prod <= (i32::MAX as i64)) {
        return false;
    }
    let base: i64 = (p.first_pixel_offset as i64) + prod;
    let bsz: i64 = p.buffer_size as i64;
    if !(0 <= base && (base + 256 + bsz) as u64 <= n as u64 && base + 256 <= bsz) {
        return false;
    }
    if p.disp_cnt & 0x20 == 0 {
        return true;
    }
    if !(1 <= sw && sw <= base && (base + 256 + sw) as u64 <= n as u64) {
        return false;
    }
    let b: usize = base as usize;
    let w: usize = sw as usize;
    assert(final_pass_requires(*p, color_len as int, depth@.len() as int, attr@.len() as int));
    let mut x: usize = 0;
    while x < 256
        invariant
            x <= 256,
            b == fp_base(*p),
            w == p.scanline_width,
            1 <= w <= b,
            b + 256 + w <= n,
            n == depth@.len(),
            n == attr@.len(),
            final_pass_requires(*p, color_len as int, depth@.len() as int, attr@.len() as int),
            p.disp_cnt & 0x20 != 0,
            forall|j: int| b <= j < b + x && is_edge(attr@, depth@, j, w as int) ==> #[trigger] attr@[j] >> 24u32 < 64,
        decreases 256 - x,
    {
        let a: usize = b + x;
        let at: u32 = attr[a];
        let polyid: u32 = at >> 24;
        let z: u32 = depth[a];
        let edge: bool = at & 0xF != 0 && ((polyid != attr[a - 1] >> 24 && z < depth[a - 1]) || (polyid != attr[a
            + 1] >> 24 && z < depth[a + 1]) || (polyid != attr[a - w] >> 24 && z < depth[a - w]) || (polyid
            != attr[a + w] >> 24 && z < depth[a + w]));
        assert(edge == is_edge(attr@, depth@, a as int, w as int));
        if edge && polyid >= 64 {
            return false;
        }
        x = x + 1;
    }
    true
}

/// Edge marking colours an edge pixel of polygon id `id` with entry
/// `id / 8` of the edge table (one entry for each group of eight ids),
/// widened to 6-bit channels, keeping the pixel's alpha byte; with fog and
/// anti-aliasing off, that is the pixel the final pass leaves.
pub proof fn lemma_edge_colour_per_id_group(
    p: FinalPassParams,
    color: Seq<u32>,
    depth: Seq<u32>,
    attr: Seq<u32>,
    edge_table: Seq<u16>,
    fog_table: Seq<u8>,
    j: int,
)
    requires
        p.disp_cnt & 0x20 != 0,
        fp_base(p) <= j < fp_base(p) + 256,
        0 <= j < color.len(),
        color.len() == attr.len(),
        is_edge(attr, depth, j, p.scanline_width as int),
    ensures
        ({
            let c = edge_table[((attr[j] >> 24u32) / 8) as int];
            let want = (chan6(c, 0) as u32) | ((chan6(c, 5) as u32) << 8u32) | ((chan6(c, 10) as u32) << 16u32) | (
            color[j] & 0xFF000000);
            &&& edge_color(p, color, attr, depth, edge_table)[j] == want
            &&& (p.disp_cnt & 0x80 == 0 && p.disp_cnt & 0x10 == 0) ==> final_pass_color(p, color, depth, attr, edge_table, fog_table)[j] == want
        }),
{
    lemma_shr_u32(attr[j] >> 24u32, 3);
    assert(((attr[j] >> 24u32) >> 3u32) as int == (attr[j] >> 24u32) / 8);
    let c1 = edge_color(p, color, attr, depth, edge_table);
    let a1 = edge_attr(p, attr, depth);
    let c2 = fog_color_pass(p, c1, a1, depth, fog_table);
    if p.disp_cnt & 0x80 == 0 && p.disp_cnt & 0x10 == 0 {
        assert(c2[j] == c1[j]);
        assert(aa_color_pass(p, c2, a1)[j] == c2[j]);
    }
}

} // verus!
