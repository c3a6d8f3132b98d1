//! The affine-family 2D background pixel loops (affine, extended and
//! large backgrounds): a per-pixel walk of the rotated and
//! scaled coordinates `(rot_x, rot_y)` (8 fractional bits), optional X
//! mosaic, window masking and overflow masking, sampling tiled or bitmap
//! VRAM in one of five modes.

use vstd::prelude::*;
use crate::arith::{wrap32, lemma_wrap_add, lemma_and_le_i32, lemma_and_le_u16, lemma_shr_u16};
use crate::line::{
    expand_spec, expand_color, push_line, writes_upto, draw_pixel, lemma_push_step,
    lemma_push_none, lemma_push_all, vram8, vram16, read8, read16, wrap_i32,
    lemma_i32_wrapping_add, lemma_i32_wrapping_sub, lemma_i32_wrapping_mul, lemma_wrap_i32_add,
};

verus! {

/// Affine background: 8-bit tile map, 256-colour tiles.
pub const MODE_AFFINE_TILED: u32 = 0;
/// Extended background, direct-colour bitmap.
pub const MODE_EXT_BITMAP_DIRECT: u32 = 1;
/// Extended background, 256-colour bitmap.
pub const MODE_EXT_BITMAP_256: u32 = 2;
/// Extended background, 16-bit tile map with flips (and extended palettes).
pub const MODE_EXT_MIXED: u32 = 3;
/// Large background: 256-colour large bitmap.
pub const MODE_LARGE_256: u32 = 4;

/// Scalar parameters of an affine background scanline.
pub struct BgAffineParams {
    pub bgvrammask: u32,
    pub bgnum: u32,
    pub mode: u32,
    pub tileset_addr: u32,
    pub tilemap_addr: u32,
    /// Coordinate mask (tiled modes) or X mask (bitmap modes).
    pub mask_x: u32,
    /// Y mask (bitmap modes).
    pub mask_y: u32,
    pub yshift: u32,
    /// Overflow mask (tiled modes) or X overflow mask (bitmap modes).
    pub ovmask_x: u32,
    /// Y overflow mask (bitmap modes).
    pub ovmask_y: u32,
    pub rot_x: i32,
    pub rot_y: i32,
    pub rot_a: i32,
    pub rot_c: i32,
    pub mosaic: u8,
    pub accel: u8,
    pub extpal: u8,
}

/// What an affine scanline needs of its inputs.
pub open spec fn affine_requires(
    p: BgAffineParams,
    bgvram_len: int,
    pal_len: int,
    extpal_len: int,
    wmask_len: int,
    bgobj_len: int,
    mosaic_len: int,
) -> bool {
    &&& bgvram_len > p.bgvrammask
    &&& p.bgvrammask < u32::MAX
    &&& pal_len >= 256
    &&& extpal_len >= 16 * 256
    &&& wmask_len >= 256
    &&& bgobj_len >= 768
    &&& mosaic_len >= 256
    &&& p.bgnum < 8
    &&& p.yshift < 32
}

/// The affine coordinates sampled at column `i`: the walk `rot + i * step`
/// (wrapping), pulled back to the start of the mosaic block when mosaic is on.
pub open spec fn affine_coords(p: BgAffineParams, mosaic_table: Seq<u8>, i: int) -> (i32, i32) {
    let rx = wrap_i32(p.rot_x + i * p.rot_a);
    let ry = wrap_i32(p.rot_y + i * p.rot_c);
    if p.mosaic != 0 {
        let im = mosaic_table[i] as i32;
        (wrap_i32(rx - wrap_i32(im * p.rot_a)), wrap_i32(ry - wrap_i32(im * p.rot_c)))
    } else {
        (rx, ry)
    }
}

/// The BGR555 colour (if any) the affine background shows at coordinates
/// `(final_x, final_y)`.
pub open spec fn affine_color(
    p: BgAffineParams,
    bgvram: Seq<u8>,
    pal: Seq<u16>,
    extpal: Seq<u16>,
    final_x: i32,
    final_y: i32,
) -> Option<u16> {
    let fx = final_x as u32;
    let fy = final_y as u32;
    let m = p.bgvrammask;
    if p.mode == MODE_AFFINE_TILED {
        if (fx | fy) & p.ovmask_x == 0 {
            let curtile = vram8(
                bgvram,
                m,
                wrap32(
                    p.tilemap_addr + wrap32(
                        (((fy & p.mask_x) >> 11u32) << p.yshift) + ((fx & p.mask_x) >> 11u32),
                    ),
                ),
            ) as u32;
            let tilexoff = ((final_x >> 8u32) & 0x7) as u32;
            let tileyoff = ((final_y >> 8u32) & 0x7) as u32;
            let color = vram8(
                bgvram,
                m,
                wrap32(p.tileset_addr + curtile * 64 + tileyoff * 8 + tilexoff),
            );
            if color != 0 { Some(pal[color as int]) } else { None }
        } else {
            None
        }
    } else if p.mode == MODE_EXT_BITMAP_DIRECT {
        if fx & p.ovmask_x == 0 && fy & p.ovmask_y == 0 {
            let off: u32 = wrap32(
                (((fy & p.mask_y) >> 8u32) << p.yshift) + ((fx & p.mask_x) >> 8u32),
            ) << 1u32;
            let color = vram16(bgvram, m, wrap32(p.tilemap_addr + off));
            if color & 0x8000 != 0 { Some(color) } else { None }
        } else {
            None
        }
    } else if p.mode == MODE_EXT_BITMAP_256 {
        if fx & p.ovmask_x == 0 && fy & p.ovmask_y == 0 {
            let off: u32 = wrap32(
                (((fy & p.mask_y) >> 8u32) << p.yshift) + ((fx & p.mask_x) >> 8u32),
            );
            let color = vram8(bgvram, m, wrap32(p.tilemap_addr + off));
            if color != 0 { Some(pal[color as int]) } else { None }
        } else {
            None
        }
    } else if p.mode == MODE_EXT_MIXED {
        if (fx | fy) & p.ovmask_x == 0 {
            let off: u32 = wrap32(
                (((fy & p.mask_x) >> 11u32) << p.yshift) + ((fx & p.mask_x) >> 11u32),
            ) << 1u32;
            let curtile = vram16(bgvram, m, wrap32(p.tilemap_addr + off));
            let tx = ((final_x >> 8u32) & 0x7) as u32;
            let ty = ((final_y >> 8u32) & 0x7) as u32;
            let tilexoff: u32 = if curtile & 0x0400 != 0 { (7 - tx) as u32 } else { tx };
            let tileyoff: u32 = if curtile & 0x0800 != 0 { (7 - ty) as u32 } else { ty };
            let color = vram8(
                bgvram,
                m,
                wrap32(p.tileset_addr + (curtile & 0x03FF) * 64 + tileyoff * 8 + tilexoff),
            );
            if color == 0 {
                None
            } else if p.extpal != 0 {
                Some(extpal[(curtile >> 12u16) * 256 + color])
            } else {
                Some(pal[color as int])
            }
        } else {
            None
        }
    } else if p.mode == MODE_LARGE_256 {
        if fx & p.ovmask_x == 0 && fy & p.ovmask_y == 0 {
            let addr: u32 = wrap32(
                (((fy & p.mask_y) >> 8u32) << p.yshift) + ((fx & p.mask_x) >> 8u32),
            );
            let color = vram8(bgvram, m, addr);
            if color != 0 { Some(pal[color as int]) } else { None }
        } else {
            None
        }
    } else {
        None
    }
}

/// The pixels an affine background scanline draws.
pub open spec fn affine_writes(
    p: BgAffineParams,
    bgvram: Seq<u8>,
    pal: Seq<u16>,
    extpal: Seq<u16>,
    wmask: Seq<u8>,
    mosaic_table: Seq<u8>,
) -> Seq<Option<u32>> {
    Seq::new(
        256,
        |i: int|
            if wmask[i] & ((1u8 << (p.bgnum as u8)) as u8) != 0 {
                let (fx, fy) = affine_coords(p, mosaic_table, i);
                match affine_color(p, bgvram, pal, extpal, fx, fy) {
                    Some(c) => Some(expand_spec(c, 0x01000000u32 << p.bgnum)),
                    None => None,
                }
            } else {
                None
            },
    )
}

/// `(((v & mask) >> shr) << yshift) + ((u & mask2) >> shr)`, wrapping.
fn affine_offset(v: u32, u: u32, mask_v: u32, mask_u: u32, shr: u32, yshift: u32) -> (res: u32)
    requires
        shr == 8 || shr == 11,
        yshift < 32,
    ensures
        res == wrap32((((v & mask_v) >> shr) << yshift) + ((u & mask_u) >> shr)),
{
    let a: u32 = ((v & mask_v) >> shr) << yshift;
    let b: u32 = (u & mask_u) >> shr;
    proof {
        lemma_wrap_add(a, b);
    }
    a.wrapping_add(b)
}

/// The colour the background shows at one pair of coordinates.
fn affine_pixel(
    p: &BgAffineParams,
    bgvram: &[u8],
    pal: &[u16],
    extpal: &[u16],
    final_x: i32,
    final_y: i32,
) -> (res: Option<u16>)
    requires
        bgvram@.len() > p.bgvrammask,
        p.bgvrammask < u32::MAX,
        pal@.len() >= 256,
        extpal@.len() >= 16 * 256,
        p.yshift < 32,
    ensures
        res == affine_color(*p, bgvram@, pal@, extpal@, final_x, final_y),
{
    let fx: u32 = final_x as u32;
    let fy: u32 = final_y as u32;
    let m: u32 = p.bgvrammask;
    if p.mode == MODE_AFFINE_TILED {
        if (fx | fy) & p.ovmask_x == 0 {
            let off: u32 = affine_offset(fy, fx, p.mask_x, p.mask_x, 11, p.yshift);
            proof {
                lemma_wrap_add(p.tilemap_addr, off);
            }
            let curtile: u32 = read8(bgvram, m, p.tilemap_addr.wrapping_add(off)) as u32;
            let tilexoff: u32 = ((final_x >> 8) & 0x7) as u32;
            let tileyoff: u32 = ((final_y >> 8) & 0x7) as u32;
            proof {
                lemma_and_le_i32(final_x >> 8u32, 0x7);
                lemma_and_le_i32(final_y >> 8u32, 0x7);
            }
            let toff: u32 = curtile * 64 + tileyoff * 8 + tilexoff;
            proof {
                lemma_wrap_add(p.tileset_addr, toff);
            }
            let color: u8 = read8(bgvram, m, p.tileset_addr.wrapping_add(toff));
            if color != 0 {
                Some(pal[color as usize])
            } else {
                None
            }
        } else {
            None
        }
    } else if p.mode == MODE_EXT_BITMAP_DIRECT {
        if fx & p.ovmask_x == 0 && fy & p.ovmask_y == 0 {
            let off: u32 = affine_offset(fy, fx, p.mask_y, p.mask_x, 8, p.yshift) << 1;
            proof {
                lemma_wrap_add(p.tilemap_addr, off);
            }
            let color: u16 = read16(bgvram, m, p.tilemap_addr.wrapping_add(off));
            if color & 0x8000 != 0 {
                Some(color)
            } else {
                None
            }
        } else {
            None
        }
    } else if p.mode == MODE_EXT_BITMAP_256 {
        if fx & p.ovmask_x == 0 && fy & p.ovmask_y == 0 {
            let off: u32 = affine_offset(fy, fx, p.mask_y, p.mask_x, 8, p.yshift);
            proof {
                lemma_wrap_add(p.tilemap_addr, off);
            }
            let color: u8 = read8(bgvram, m, p.tilemap_addr.wrapping_add(off));
            if color != 0 {
                Some(pal[color as usize])
            } else {
                None
            }
        } else {
            None
        }
    } else if p.mode == MODE_EXT_MIXED {
        if (fx | fy) & p.ovmask_x == 0 {
            let off: u32 = affine_offset(fy, fx, p.mask_x, p.mask_x, 11, p.yshift) << 1;
            proof {
                lemma_wrap_add(p.tilemap_addr, off);
            }
            let curtile: u16 = read16(bgvram, m, p.tilemap_addr.wrapping_add(off));
            let mut tilexoff: u32 = ((final_x >> 8) & 0x7) as u32;
            let mut tileyoff: u32 = ((final_y >> 8) & 0x7) as u32;
            proof {
                lemma_and_le_i32(final_x >> 8u32, 0x7);
                lemma_and_le_i32(final_y >> 8u32, 0x7);
            }
            if curtile & 0x0400 != 0 {
                tilexoff = 7 - tilexoff;
            }
            if curtile & 0x0800 != 0 {
                tileyoff = 7 - tileyoff;
            }
            proof {
                lemma_and_le_u16(curtile, 0x03FF);
                lemma_shr_u16(curtile, 12);
            }
            let toff: u32 = ((curtile & 0x03FF) as u32) * 64 + tileyoff * 8 + tilexoff;
            proof {
                lemma_wrap_add(p.tileset_addr, toff);
            }
            let color: u8 = read8(bgvram, m, p.tileset_addr.wrapping_add(toff));
            if color == 0 {
                None
            } else if p.extpal != 0 {
                Some(extpal[((curtile >> 12) as usize) * 256 + color as usize])
            } else {
                Some(pal[color as usize])
            }
        } else {
            None
        }
    } else if p.mode == MODE_LARGE_256 {
        if fx & p.ovmask_x == 0 && fy & p.ovmask_y == 0 {
            let addr: u32 = affine_offset(fy, fx, p.mask_y, p.mask_x, 8, p.yshift);
            let color: u8 = read8(bgvram, m, addr);
            if color != 0 {
                Some(pal[color as usize])
            } else {
                None
            }
        } else {
            None
        }
    } else {
        None
    }
}

/// The affine-family background pixel loop: draws one scanline of
/// an affine, extended or large background into the layer line.
pub fn melonink_drawbg_affine(
    p: &BgAffineParams,
    bgvram: &[u8],
    pal: &[u16],
    extpal: &[u16],
    window_mask: &[u8],
    mosaic_table: &[u8],
    bgobj_line: &mut [u32],
)
    requires
        affine_requires(
            *p,
            bgvram@.len() as int,
            pal@.len() as int,
            extpal@.len() as int,
            window_mask@.len() as int,
            old(bgobj_line)@.len() as int,
            mosaic_table@.len() as int,
        ),
    ensures
        final(bgobj_line)@ == push_line(
            old(bgobj_line)@,
            affine_writes(*p, bgvram@, pal@, extpal@, window_mask@, mosaic_table@),
            p.accel != 0,
        ),
{
    let ghost orig = bgobj_line@;
    let ghost w = affine_writes(*p, bgvram@, pal@, extpal@, window_mask@, mosaic_table@);
    let accel: bool = p.accel != 0;
    let mosaic: bool = p.mosaic != 0;
    let flag: u32 = 0x01000000u32 << p.bgnum;
    let winbit: u8 = 1u8 << (p.bgnum as u8);
    let mut rot_x: i32 = p.rot_x;
    let mut rot_y: i32 = p.rot_y;
    proof {
        lemma_push_none(orig, w, accel);
        assert(wrap_i32(p.rot_x + 0 * p.rot_a) == p.rot_x);
        assert(wrap_i32(p.rot_y + 0 * p.rot_c) == p.rot_y);
    }
    let mut i: usize = 0;
    while i < 256
        invariant
            i <= 256,
            affine_requires(
                *p,
                bgvram@.len() as int,
                pal@.len() as int,
                extpal@.len() as int,
                window_mask@.len() as int,
                orig.len() as int,
                mosaic_table@.len() as int,
            ),
            w == affine_writes(*p, bgvram@, pal@, extpal@, window_mask@, mosaic_table@),
            accel == (p.accel != 0),
            mosaic == (p.mosaic != 0),
            flag == 0x01000000u32 << p.bgnum,
            winbit == ((1u8 << (p.bgnum as u8)) as u8),
            rot_x == wrap_i32(p.rot_x + i * p.rot_a),
            rot_y == wrap_i32(p.rot_y + i * p.rot_c),
            bgobj_line@ == push_line(orig, writes_upto(w, i as int), accel),
        decreases 256 - i,
    {
        proof {
            lemma_push_step(orig, bgobj_line@, w, accel, i as int);
        }
        if window_mask[i] & winbit != 0 {
            let (final_x, final_y) = if mosaic {
                let im: i32 = mosaic_table[i] as i32;
                proof {
                    lemma_i32_wrapping_mul(im, p.rot_a);
                    lemma_i32_wrapping_mul(im, p.rot_c);
                    lemma_i32_wrapping_sub(rot_x, im.wrapping_mul(p.rot_a));
                    lemma_i32_wrapping_sub(rot_y, im.wrapping_mul(p.rot_c));
                }
                (rot_x.wrapping_sub(im.wrapping_mul(p.rot_a)), rot_y.wrapping_sub(
                    im.wrapping_mul(p.rot_c),
                ))
            } else {
                (rot_x, rot_y)
            };
            assert((final_x, final_y) == affine_coords(*p, mosaic_table@, i as int));
            let c = affine_pixel(p, bgvram, pal, extpal, final_x, final_y);
            match c {
                Some(color16) => {
                    let px: u32 = expand_color(color16, flag);
                    draw_pixel(bgobj_line, i, px, accel);
                },
                None => {},
            }
        }
        proof {
            lemma_i32_wrapping_add(rot_x, p.rot_a);
            lemma_i32_wrapping_add(rot_y, p.rot_c);
            lemma_wrap_i32_add(p.rot_x + i * p.rot_a, p.rot_a as int);
            lemma_wrap_i32_add(p.rot_y + i * p.rot_c, p.rot_c as int);
            assert(p.rot_x + i * p.rot_a + p.rot_a == p.rot_x + (i + 1) * p.rot_a) by (nonlinear_arith);
            assert(p.rot_y + i * p.rot_c + p.rot_c == p.rot_y + (i + 1) * p.rot_c) by (nonlinear_arith);
        }
        rot_x = rot_x.wrapping_add(p.rot_a);
        rot_y = rot_y.wrapping_add(p.rot_c);
        i = i + 1;
    }
    proof {
        lemma_push_all(orig, w, accel);
    }
}

} // verus!
