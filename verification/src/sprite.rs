//! Sprite rendering of the 2D engine (normal and affine sprites): fills the OBJ line with raw palette indices (or
//! direct colours) plus attribute bits for one sprite on one scanline, or
//! marks the OBJ window for window sprites.

use vstd::prelude::*;
use crate::arith::{
    lemma_i32_as_u32,
    wrap32, lemma_wrap_add, lemma_wrap32_add, lemma_and_le_u32, lemma_and_le_i32, lemma_shr_u32,
    lemma_small_shifts_i32, lemma_small_shifts_u32,
};
use crate::line::{vram8, vram16, read8, read16};

verus! {

/// Bit ranges of the tile number fields used for bitmap sprite addresses.
proof fn lemma_tile_bits(tilenum: u32)
    by (bit_vector)
    ensures
        (tilenum & 0x01F) << 4u32 <= 0x1F0,
        (tilenum & 0x3E0) << 7u32 <= 0x1F000,
        (tilenum & 0x00F) << 4u32 <= 0xF0,
        (tilenum & 0x3F0) << 7u32 <= 0x1F800,
{
}

/// Scalar parameters of one sprite on one scanline.
pub struct SpriteParams {
    pub objvrammask: u32,
    pub disp_cnt: u32,
    pub attrib0: u32,
    pub attrib1: u32,
    pub attrib2: u32,
    pub rot_a: i32,
    pub rot_b: i32,
    pub rot_c: i32,
    pub rot_d: i32,
    pub width: i32,
    pub height: i32,
    pub boundwidth: i32,
    pub boundheight: i32,
    pub xpos: i32,
    pub ypos: i32,
    pub window: u8,
    pub rotscale: u8,
}

/// `v` fits a 32-bit signed integer.
pub open spec fn fits_i32(v: int) -> bool {
    i32::MIN <= v <= i32::MAX
}

/// What drawing a sprite needs: an OBJ VRAM view covering its mask, OBJ
/// line and window of at least 256 entries, a sprite width of 8 to 64, a
/// start column that is no further right than the screen edge (and not
/// `i32::MIN`, whose negation overflows), and, per kind of sprite, that its
/// 32-bit row and coordinate arithmetic does not overflow
/// (`normal_requires`, `rs_requires`).
pub open spec fn sprite_requires(p: SpriteParams, vram_len: int, line_len: int, win_len: int) -> bool {
    &&& vram_len > p.objvrammask
    &&& p.objvrammask < u32::MAX
    &&& line_len >= 256
    &&& win_len >= 256
    &&& 8 <= p.width <= 64
    &&& i32::MIN < p.xpos <= 256
    &&& if p.rotscale != 0 { rs_requires(p) } else { normal_requires(p) }
}

/// Bytes per bitmap-sprite row in the bitmap layout DISPCNT selects.
pub open spec fn bitmap_row_bytes(p: SpriteParams) -> int {
    if p.disp_cnt & 0x40 != 0 {
        p.width * 2
    } else if p.disp_cnt & 0x20 != 0 {
        512
    } else {
        256
    }
}

/// A normal sprite's row arithmetic does not overflow: the vertical flip
/// `height - 1 - ypos`; for a drawn bitmap sprite, the unsigned row offset
/// `row * bytes_per_row` (a negative row would turn into a huge unsigned
/// one); for a tiled sprite, the signed tile-row product.
pub open spec fn normal_requires(p: SpriteParams) -> bool {
    &&& (p.attrib1 & 0x2000 != 0 ==> fits_i32(p.height - 1) && fits_i32(p.height - 1 - p.ypos))
    &&& (sprite_mode(p) == 3 && p.attrib2 >> 12u32 != 0 && !(p.disp_cnt & 0x40 != 0 && p.disp_cnt & 0x20 != 0)
        ==> 0 <= normal_row(p) && normal_row(p) * bitmap_row_bytes(p) <= u32::MAX)
    &&& (sprite_mode(p) != 3 ==> fits_i32(
        (normal_row(p) >> 3u32) * (if p.disp_cnt & 0x10 != 0 { (p.width >> 3u32) as int } else { 0x20int }),
    ))
}

/// Whether the affine coordinates of step `k` fall inside the sprite.
pub open spec fn rs_inside(p: SpriteParams, k: int) -> bool {
    0 <= rs_coords(p, k).0 < p.width * 256 && 0 <= rs_coords(p, k).1 < p.height * 256
}

/// An affine sprite's arithmetic stays in range: a sprite height of 8 to 64
/// and a non-negative bounding-box width; the signed products and sums of
/// the starting coordinates and the coordinates of every step fit 32 bits;
/// and no step right of the screen edge lands inside the sprite (it would
/// be stored past the end of the 256-entry line).
pub open spec fn rs_requires(p: SpriteParams) -> bool {
    let dx = normal_xoff0(p) - p.boundwidth / 2;
    let dy = p.ypos - p.boundheight / 2;
    &&& 8 <= p.height <= 64
    &&& 0 <= p.boundwidth
    &&& (p.xpos >= 0 ==> fits_i32(p.xpos + p.boundwidth))
    &&& fits_i32(dy)
    &&& fits_i32(dx * p.rot_a) && fits_i32(dy * p.rot_b) && fits_i32(dx * p.rot_a + dy * p.rot_b)
    &&& fits_i32(dx * p.rot_c) && fits_i32(dy * p.rot_d) && fits_i32(dx * p.rot_c + dy * p.rot_d)
    &&& forall|k: int| 0 <= k <= rs_count(p) ==> fits_i32(#[trigger] rs_coords(p, k).0) && fits_i32(rs_coords(p, k).1)
    &&& forall|k: int| 0 <= k < rs_count(p) && normal_xs(p) + k >= 256 ==> !#[trigger] rs_inside(p, k)
}

/// The OBJ-line entry after storing a sample: an opaque sample writes its
/// colour and attributes (or, for window sprites, leaves the line alone); a
/// transparent sample only claims an empty entry for its mosaic / priority
/// bits.
pub open spec fn store_line(old: u32, color: u16, opaque: bool, window: bool, pixelattr: u32) -> u32 {
    if opaque {
        if window { old } else { color as u32 | pixelattr }
    } else if !window && old == 0 {
        pixelattr & 0x180000
    } else {
        old
    }
}

/// The OBJ-window entry after storing a sample.
pub open spec fn store_win(old: u8, opaque: bool, window: bool) -> u8 {
    if opaque && window { 1 } else { old }
}

/// The sprite's base attribute bits (priority, mosaic flag).
pub open spec fn base_pixelattr(p: SpriteParams) -> u32 {
    let pa: u32 = ((p.attrib2 & 0x0C00) << 6u32) | 0xC0000;
    if p.attrib0 & 0x1000 != 0 && p.window == 0 { pa | 0x100000 } else { pa }
}

/// The sprite mode (0 normal, 1 semi-transparent, 2 window, 3 bitmap);
/// window sprites draw as mode 0.
pub open spec fn sprite_mode(p: SpriteParams) -> u32 {
    if p.window != 0 { 0 } else { (p.attrib0 >> 10u32) & 0x3 }
}

/// Stores one sample at column `xpos` of the OBJ line / window.
fn store(
    line: &mut [u32],
    win: &mut [u8],
    window: bool,
    xpos: usize,
    color: u16,
    opaque: bool,
    pixelattr: u32,
)
    requires
        xpos < old(line)@.len(),
        xpos < old(win)@.len(),
    ensures
        final(line)@ == old(line)@.update(
            xpos as int,
            store_line(old(line)@[xpos as int], color, opaque, window, pixelattr),
        ),
        final(win)@ == old(win)@.update(xpos as int, store_win(old(win)@[xpos as int], opaque, window)),
{
    if opaque {
        if window {
            win[xpos] = 1;
        } else {
            line[xpos] = color as u32 | pixelattr;
        }
    } else if !window && line[xpos] == 0 {
        line[xpos] = pixelattr & 0x180000;
    }
    assert(line@ =~= old(line)@.update(
        xpos as int,
        store_line(old(line)@[xpos as int], color, opaque, window, pixelattr),
    ));
    assert(win@ =~= old(win)@.update(xpos as int, store_win(old(win)@[xpos as int], opaque, window)));
}

/// The OBJ line after `count` samples stored at columns `xs..xs+count`,
/// sample `k` being `samples(k)` = (colour, opaque).
pub open spec fn run_line(
    old: Seq<u32>,
    xs: int,
    count: int,
    samples: spec_fn(int) -> (u16, bool),
    window: bool,
    pixelattr: u32,
) -> Seq<u32> {
    Seq::new(
        old.len(),
        |c: int|
            if xs <= c < xs + count {
                store_line(old[c], samples(c - xs).0, samples(c - xs).1, window, pixelattr)
            } else {
                old[c]
            },
    )
}

/// The OBJ window after the same samples.
pub open spec fn run_win(old: Seq<u8>, xs: int, count: int, samples: spec_fn(int) -> (u16, bool), window: bool) -> Seq<u8> {
    Seq::new(
        old.len(),
        |c: int|
            if xs <= c < xs + count {
                store_win(old[c], samples(c - xs).1, window)
            } else {
                old[c]
            },
    )
}

/// Sprite row after the vertical flip.
pub open spec fn normal_row(p: SpriteParams) -> i32 {
    if p.attrib1 & 0x2000 != 0 { (p.height - 1 - p.ypos) as i32 } else { p.ypos }
}

/// First sprite column drawn (clipped at the left screen edge).
pub open spec fn normal_xoff0(p: SpriteParams) -> u32 {
    if p.xpos >= 0 { 0 } else { (-p.xpos) as u32 }
}

/// First screen column drawn.
pub open spec fn normal_xs(p: SpriteParams) -> int {
    if p.xpos >= 0 { p.xpos as int } else { 0 }
}

/// One past the last sprite column drawn (clipped at the right screen edge).
pub open spec fn normal_xend(p: SpriteParams) -> u32 {
    if p.xpos >= 0 && p.xpos + p.width > 256 { (256 - p.xpos) as u32 } else { p.width as u32 }
}

/// Number of columns drawn.
pub open spec fn normal_count(p: SpriteParams) -> int {
    if normal_xoff0(p) < normal_xend(p) { normal_xend(p) - normal_xoff0(p) } else { 0 }
}

/// Address of the first bitmap-sprite pixel of the row, or `None` for the
/// reserved bitmap layout.
pub open spec fn bitmap_row_addr(p: SpriteParams, ypos: i32, width: u32, rows_256: bool) -> Option<u32> {
    let tilenum = p.attrib2 & 0x03FF;
    let dispcnt = p.disp_cnt;
    if dispcnt & 0x40 != 0 {
        if dispcnt & 0x20 != 0 {
            None
        } else {
            Some(wrap32((tilenum << ((7 + ((dispcnt >> 22u32) & 0x1)) as u32)) + ypos * width * 2))
        }
    } else if dispcnt & 0x20 != 0 {
        Some(wrap32(((tilenum & 0x01F) << 4u32) + ((tilenum & 0x3E0) << 7u32) + ypos * 256 * 2))
    } else {
        Some(wrap32(((tilenum & 0x00F) << 4u32) + ((tilenum & 0x3F0) << 7u32) + ypos * 128 * 2))
    }
}

/// The attribute bits of a bitmap sprite (alpha from attribute 2).
pub open spec fn bitmap_pixelattr(p: SpriteParams) -> u32 {
    base_pixelattr(p) | (0xC0000000 | ((((p.attrib2 >> 12u32) + 1) as u32) << 24u32))
}

/// The attribute bits of a tiled sprite.
pub open spec fn tiled_pixelattr(p: SpriteParams) -> u32 {
    let pa = base_pixelattr(p) | (if sprite_mode(p) == 1 { 0x80000000u32 } else { 0x10000000u32 });
    if p.window != 0 {
        pa
    } else if p.attrib0 & 0x2000 != 0 {
        if p.disp_cnt & 0x80000000 == 0 { pa | 0x1000 } else { pa | ((p.attrib2 & 0xF000) >> 4u32) }
    } else {
        pa | 0x1000 | ((p.attrib2 & 0xF000) >> 8u32)
    }
}

/// Tile index of the sprite row's first tile (in 32-byte units).
pub open spec fn tiled_row_tile(p: SpriteParams, ypos: i32) -> u32 {
    let tilenum = p.attrib2 & 0x03FF;
    if p.disp_cnt & 0x10 != 0 {
        wrap32(
            (tilenum << ((p.disp_cnt >> 20u32) & 0x3)) + wrap32(
                ((ypos >> 3u32) * (p.width >> 3u32)) * (if p.attrib0 & 0x2000 != 0 { 2int } else { 1int }),
            ),
        )
    } else {
        wrap32(tilenum + (ypos >> 3u32) * 0x20)
    }
}

/// Address of the first sampled byte of a normal 256-colour sprite row.
pub open spec fn normal256_addr0(p: SpriteParams, ypos: i32, xoff0: u32) -> u32 {
    let wmask = (p.width - 8) as u32;
    let a = wrap32((tiled_row_tile(p, ypos) << 5u32) + (ypos & 0x7) * 8);
    if p.attrib1 & 0x1000 != 0 {
        wrap32(a + ((((p.width - 1) as u32) & wmask) << 3u32) + (((p.width - 1) as u32) & 0x7)
            - ((xoff0 & wmask) << 3u32) - (xoff0 & 0x7))
    } else {
        wrap32(a + ((xoff0 & wmask) << 3u32) + (xoff0 & 0x7))
    }
}

/// Address sampled by step `k` of a normal 256-colour sprite row: one byte
/// per column, jumping over the rest of a tile's rows at tile boundaries.
pub open spec fn normal256_addr(a0: u32, flip: bool, xoff0: u32, k: int) -> u32
    decreases k,
{
    if k <= 0 {
        a0
    } else {
        let stride: u32 = if flip { 0xFFFF_FFFF } else { 1 };
        let jump: u32 = if flip { 0xFFFF_FFC8 } else { 56 };
        let a = wrap32(normal256_addr(a0, flip, xoff0, k - 1) + stride);
        if ((xoff0 + k) as u32) & 0x7 == 0 { wrap32(a + jump) } else { a }
    }
}

/// Address of the first sampled byte of a normal 16-colour sprite row.
pub open spec fn normal16_addr0(p: SpriteParams, ypos: i32, xoff0: u32) -> u32 {
    let wmask = (p.width - 8) as u32;
    let a = wrap32((tiled_row_tile(p, ypos) << 5u32) + (ypos & 0x7) * 4);
    if p.attrib1 & 0x1000 != 0 {
        wrap32(a + ((((p.width - 1) as u32) & wmask) << 2u32) + ((((p.width - 1) as u32) & 0x7) >> 1u32)
            - ((xoff0 & wmask) << 2u32) - ((xoff0 & 0x7) >> 1u32))
    } else {
        wrap32(a + ((xoff0 & wmask) << 2u32) + ((xoff0 & 0x7) >> 1u32))
    }
}

/// Address sampled by step `k` of a normal 16-colour sprite row: two
/// columns per byte, jumping over the rest of a tile at tile boundaries.
pub open spec fn normal16_addr(a0: u32, flip: bool, xoff0: u32, k: int) -> u32
    decreases k,
{
    if k <= 0 {
        a0
    } else {
        let prev = normal16_addr(a0, flip, xoff0, k - 1);
        let xo = ((xoff0 + k - 1) as u32);
        let a = if xo & 1 != 0 {
            if flip { wrap32(prev + 0xFFFF_FFFFu32) } else { wrap32(prev + 1) }
        } else {
            prev
        };
        let jump: u32 = if flip { 0xFFFF_FFE4 } else { 28 };
        if ((xo + 1) as u32) & 0x7 == 0 { wrap32(a + jump) } else { a }
    }
}

/// The sample at step `k` of a normal sprite row.
pub open spec fn normal_sample(p: SpriteParams, vram: Seq<u8>, k: int) -> (u16, bool) {
    let ypos = normal_row(p);
    let xoff0 = normal_xoff0(p);
    let flip = p.attrib1 & 0x1000 != 0;
    let m = p.objvrammask;
    if sprite_mode(p) == 3 {
        let a0 = bitmap_row_addr(p, ypos, p.width as u32, false)->0;
        let base: u32 = if flip {
            wrap32(a0 + (((p.width - 1) as u32) << 1u32) - (xoff0 << 1u32))
        } else {
            wrap32(a0 + (xoff0 << 1u32))
        };
        let stride: u32 = if flip { 0xFFFF_FFFE } else { 2 };
        let color = vram16(vram, m, wrap32(base + k * stride));
        (color, color & 0x8000 != 0)
    } else if p.attrib0 & 0x2000 != 0 {
        let a = normal256_addr(normal256_addr0(p, ypos, xoff0), flip, xoff0, k);
        let color = vram8(vram, m, a) as u16;
        (color, color != 0)
    } else {
        let a = normal16_addr(normal16_addr0(p, ypos, xoff0), flip, xoff0, k);
        let b = vram8(vram, m, a);
        let xo = ((xoff0 + k) as u32);
        let color: u8 = if flip {
            if xo & 1 != 0 { b & 0x0F } else { b >> 4u8 }
        } else if xo & 1 != 0 {
            b >> 4u8
        } else {
            b & 0x0F
        };
        (color as u16, color != 0)
    }
}

/// Whether a normal sprite draws at all (bitmap sprites need a non-zero
/// alpha and a non-reserved layout).
pub open spec fn normal_draws(p: SpriteParams) -> bool {
    sprite_mode(p) == 3 ==> (p.attrib2 >> 12u32 != 0 && bitmap_row_addr(
        p,
        normal_row(p),
        p.width as u32,
        false,
    ) is Some)
}

/// The attribute bits a normal sprite stores.
pub open spec fn normal_pixelattr(p: SpriteParams) -> u32 {
    if sprite_mode(p) == 3 { bitmap_pixelattr(p) } else { tiled_pixelattr(p) }
}

/// Tile index of the sprite row's first tile (exec form).
fn tiled_row_tile_exec(p: &SpriteParams, ypos: i32) -> (res: u32)
    requires
        8 <= p.width <= 64,
        fits_i32((ypos >> 3u32) * (if p.disp_cnt & 0x10 != 0 { (p.width >> 3u32) as int } else { 0x20int })),
    ensures
        res == tiled_row_tile(*p, ypos),
{
    let tilenum: u32 = p.attrib2 & 0x03FF;
    let width: i32 = p.width;
    proof {
        lemma_small_shifts_i32(width);
    }
    let dispcnt: u32 = p.disp_cnt;
    proof {
        lemma_and_le_u32(dispcnt >> 20u32, 0x3);
    }
    if p.disp_cnt & 0x10 != 0 {
        let t: u32 = tilenum << ((p.disp_cnt >> 20) & 0x3);
        let rows: i32 = (ypos >> 3) * (width >> 3);
        let r: u32 = rows as u32;
        proof {
            lemma_i32_as_u32(rows);
        }
        let off: u32 = if p.attrib0 & 0x2000 != 0 { r.wrapping_add(r) } else { r };
        assert(off == wrap32((rows as int) * (if p.attrib0 & 0x2000 != 0 { 2int } else { 1int }))) by {
            if p.attrib0 & 0x2000 != 0 {
                lemma_wrap_add(r, r);
                lemma_wrap32_add(rows as int, r as int);
                lemma_wrap32_add(rows as int, rows as int);
            } else {
                crate::arith::lemma_wrap32_small(r as int);
            }
        }
        proof {
            lemma_wrap_add(t, off);
        }
        t.wrapping_add(off)
    } else {
        let rows: i32 = (ypos >> 3) * 0x20;
        let off: u32 = rows as u32;
        proof {
            lemma_i32_as_u32(rows);
            lemma_wrap_add(tilenum, off);
            lemma_wrap32_add(rows as int, tilenum as int);
            lemma_wrap32_add(tilenum as int, rows as int);
        }
        tilenum.wrapping_add(off)
    }
}

/// `a + b + c` with wrapping adds.
fn add2(a: u32, b: u32, c: u32) -> (res: u32)
    ensures
        res == wrap32(a + b + c),
{
    proof {
        lemma_wrap_add(a, b);
        lemma_wrap_add(a.wrapping_add(b), c);
        lemma_wrap32_add(a + b, c as int);
    }
    a.wrapping_add(b).wrapping_add(c)
}

/// `a + b + c - d - e` with wrapping adds and subtracts.
fn sub_add4(a: u32, b: u32, c: u32, d: u32, e: u32) -> (res: u32)
    ensures
        res == wrap32(a + b + c - d - e),
{
    let x: u32 = add2(a, b, c);
    proof {
        crate::arith::lemma_wrap_sub(x, d);
        lemma_wrap32_add(a + b + c, -(d as int));
        crate::arith::lemma_wrap_sub(x.wrapping_sub(d), e);
        lemma_wrap32_add(a + b + c - d, -(e as int));
    }
    x.wrapping_sub(d).wrapping_sub(e)
}

/// Draws one line of a normal (non-affine) sprite.
fn draw_normal(p: &SpriteParams, vram: &[u8], line: &mut [u32], win: &mut [u8])
    requires
        sprite_requires(*p, vram@.len() as int, old(line)@.len() as int, old(win)@.len() as int),
        p.rotscale == 0,
    ensures
        normal_draws(*p) ==> final(line)@ == run_line(
            old(line)@,
            normal_xs(*p),
            normal_count(*p),
            |k: int| normal_sample(*p, vram@, k),
            p.window != 0,
            normal_pixelattr(*p),
        ) && final(win)@ == run_win(
            old(win)@,
            normal_xs(*p),
            normal_count(*p),
            |k: int| normal_sample(*p, vram@, k),
            p.window != 0,
        ),
        !normal_draws(*p) ==> final(line)@ == old(line)@ && final(win)@ == old(win)@,
{
    let ghost line0 = line@;
    let ghost win0 = win@;
    let ghost samples = |k: int| normal_sample(*p, vram@, k);
    let window: bool = p.window != 0;
    let a0: u32 = p.attrib0;
    let a1: u32 = p.attrib1;
    let a2: u32 = p.attrib2;
    let dispcnt: u32 = p.disp_cnt;
    let width: i32 = p.width;
    let height: i32 = p.height;
    let m: u32 = p.objvrammask;
    let mut ypos: i32 = p.ypos;
    let mut xpos: i32 = p.xpos;

    let mut pixelattr: u32 = ((a2 & 0x0C00) << 6) | 0xC0000;
    let tilenum: u32 = a2 & 0x03FF;
    let spritemode: u32 = if window { 0 } else { (a0 >> 10) & 0x3 };
    let wmask: u32 = (width - 8) as u32;

    if (a0 & 0x1000) != 0 && !window {
        pixelattr |= 0x100000;
    }
    assert(pixelattr == base_pixelattr(*p));

    // yflip
    if a1 & 0x2000 != 0 {
        ypos = height - 1 - ypos;
    }
    assert(ypos == normal_row(*p));

    let mut xoff: u32;
    let mut xend: u32 = width as u32;
    if xpos >= 0 {
        xoff = 0;
        if (xpos as u32 + xend) > 256 {
            xend = 256 - xpos as u32;
        }
    } else {
        xoff = (-xpos) as u32;
        xpos = 0;
    }
    let ghost xoff0 = xoff;
    let ghost xs = xpos as int;
    assert(xoff == normal_xoff0(*p) && xend == normal_xend(*p) && xs == normal_xs(*p));
    assert(xend <= 64 && xs + (xend - xoff) <= 256);
    assert(line@ =~= run_line(line0, xs, 0, samples, window, normal_pixelattr(*p)));
    assert(win@ =~= run_win(win0, xs, 0, samples, window));

    if spritemode == 3 {
        // bitmap sprite
        let mut alpha: u32 = a2 >> 12;
        if alpha == 0 {
            return;
        }
        proof {
            lemma_shr_u32(a2, 12);
        }
        alpha += 1;
        pixelattr |= 0xC0000000 | (alpha << 24);

        let mut pixelsaddr: u32 = tilenum;
        proof {
            lemma_and_le_u32(dispcnt >> 22u32, 0x1);
        }
        proof {
            lemma_tile_bits(tilenum);
        }
        let row: u32;
        if dispcnt & 0x40 != 0 {
            if dispcnt & 0x20 != 0 {
                return;  // reserved
            } else {
                assert(0 <= ypos && ypos * (width * 2) <= u32::MAX);
                assert((ypos as int) * (width as int) * 2 == ypos * (width * 2) && ypos * (width * 2) >= (ypos as int) * (width as int))
                    by (nonlinear_arith)
                    requires 0 <= ypos, 8 <= width;
                row = (ypos as u32) * (width as u32) * 2;
                pixelsaddr = pixelsaddr << (7 + ((dispcnt >> 22) & 0x1));
            }
        } else if dispcnt & 0x20 != 0 {
            assert(0 <= ypos && ypos * 512 <= u32::MAX);
            row = (ypos as u32) * 256 * 2;
            pixelsaddr = ((tilenum & 0x01F) << 4) + ((tilenum & 0x3E0) << 7);
        } else {
            assert(0 <= ypos && ypos * 256 <= u32::MAX);
            row = (ypos as u32) * 128 * 2;
            pixelsaddr = ((tilenum & 0x00F) << 4) + ((tilenum & 0x3F0) << 7);
        }
        proof {
            lemma_wrap_add(pixelsaddr, row);
        }
        pixelsaddr = pixelsaddr.wrapping_add(row);
        assert(Some(pixelsaddr) == bitmap_row_addr(*p, ypos, width as u32, false));

        let stride: u32;
        if a1 & 0x1000 != 0 {
            let e: u32 = ((width - 1) as u32) << 1;
            proof {
                lemma_wrap_add(pixelsaddr, e);
                crate::arith::lemma_wrap_sub(pixelsaddr.wrapping_add(e), xoff << 1);
                lemma_wrap32_add(pixelsaddr + e, -((xoff << 1u32) as int));
            }
            pixelsaddr = pixelsaddr.wrapping_add(e);
            pixelsaddr = pixelsaddr.wrapping_sub(xoff << 1);
            stride = 0xFFFF_FFFE;
        } else {
            proof {
                lemma_wrap_add(pixelsaddr, xoff << 1);
            }
            pixelsaddr = pixelsaddr.wrapping_add(xoff << 1);
            stride = 2;
        }
        let ghost base = pixelsaddr;
        assert(pixelattr == normal_pixelattr(*p));
        assert(base == wrap32(base + 0 * stride)) by {
            crate::arith::lemma_wrap32_small(base as int);
        }

        while xoff < xend
            invariant
                xoff0 <= xoff,
                xoff0 < xend ==> xoff <= xend,
                xoff0 >= xend ==> xoff == xoff0,
                xend <= 64,
                xs + (xend - xoff0) <= 256,
                xpos == xs + (xoff - xoff0),
                line@.len() == line0.len(),
                win@.len() == win0.len(),
                line0.len() >= 256,
                win0.len() >= 256,
                vram@.len() > m,
                m == p.objvrammask,
                m < u32::MAX,
                window == (p.window != 0),
                xoff0 == normal_xoff0(*p),
                xend == normal_xend(*p),
                xs == normal_xs(*p),
                sprite_mode(*p) == 3,
                stride == (if p.attrib1 & 0x1000 != 0 { 0xFFFF_FFFEu32 } else { 2u32 }),
                pixelattr == normal_pixelattr(*p),
                base == (if p.attrib1 & 0x1000 != 0 {
                    wrap32(bitmap_row_addr(*p, normal_row(*p), p.width as u32, false)->0
                        + (((p.width - 1) as u32) << 1u32) - (xoff0 << 1u32))
                } else {
                    wrap32(bitmap_row_addr(*p, normal_row(*p), p.width as u32, false)->0 + (xoff0
                        << 1u32))
                }),
                pixelsaddr == wrap32(base + (xoff - xoff0) * stride),
                samples == (|k: int| normal_sample(*p, vram@, k)),
                line@ == run_line(line0, xs, (xoff - xoff0) as int, samples, window, pixelattr),
                win@ == run_win(win0, xs, (xoff - xoff0) as int, samples, window),
            decreases xend - xoff,
        {
            let color: u16 = read16(vram, m, pixelsaddr);
            assert((color, color & 0x8000 != 0) == samples((xoff - xoff0) as int));
            proof {
                lemma_wrap_add(pixelsaddr, stride);
                lemma_wrap32_add(base + (xoff - xoff0) * stride, stride as int);
                assert(base + (xoff - xoff0) * stride + stride == base + (xoff + 1 - xoff0) * stride)
                    by (nonlinear_arith);
            }
            pixelsaddr = pixelsaddr.wrapping_add(stride);
            store(line, win, window, xpos as usize, color, color & 0x8000 != 0, pixelattr);
            assert(line@ =~= run_line(line0, xs, (xoff + 1 - xoff0) as int, samples, window, pixelattr));
            assert(win@ =~= run_win(win0, xs, (xoff + 1 - xoff0) as int, samples, window));
            xoff += 1;
            xpos += 1;
        }
        assert(xoff - xoff0 == normal_count(*p));
    } else {
        let tile: u32 = tiled_row_tile_exec(p, ypos);
        if spritemode == 1 {
            pixelattr |= 0x80000000;
        } else {
            pixelattr |= 0x10000000;
        }
        proof {
        lemma_and_le_i32(ypos, 0x7);
    }
        let yrow: u32 = (ypos & 0x7) as u32;
        let flip: bool = a1 & 0x1000 != 0;
        let w1: u32 = (width - 1) as u32;
        if a0 & 0x2000 != 0 {
            // 256-color
            let a: u32 = tile << 5;
            proof {
                lemma_wrap_add(a, (yrow * 8) as u32);
            }
            let mut pixelsaddr: u32 = a.wrapping_add(yrow * 8);
            if !window {
                if dispcnt & 0x80000000 == 0 {
                    pixelattr |= 0x1000;
                } else {
                    pixelattr |= (a2 & 0xF000) >> 4;
                }
            }
            assert(pixelattr == normal_pixelattr(*p));
            let stride: u32;
            let jump: u32;
            if flip {
                pixelsaddr = sub_add4(pixelsaddr, (w1 & wmask) << 3, w1 & 0x7, (xoff & wmask) << 3, xoff & 0x7);
                stride = 0xFFFF_FFFF;
                jump = 0xFFFF_FFC8;
            } else {
                pixelsaddr = add2(pixelsaddr, (xoff & wmask) << 3, xoff & 0x7);
                stride = 1;
                jump = 56;
            }
            let ghost a0s = pixelsaddr;
            assert(a0s == normal256_addr0(*p, normal_row(*p), xoff0));

            while xoff < xend
                invariant
                    xoff0 <= xoff,
                    xoff0 < xend ==> xoff <= xend,
                    xoff0 >= xend ==> xoff == xoff0,
                    xend <= 64,
                    xs + (xend - xoff0) <= 256,
                    xpos == xs + (xoff - xoff0),
                    line@.len() == line0.len(),
                    win@.len() == win0.len(),
                    line0.len() >= 256,
                    win0.len() >= 256,
                    vram@.len() > m,
                    m == p.objvrammask,
                    m < u32::MAX,
                    window == (p.window != 0),
                    flip == (p.attrib1 & 0x1000 != 0),
                    xoff0 == normal_xoff0(*p),
                    xend == normal_xend(*p),
                    xs == normal_xs(*p),
                    sprite_mode(*p) != 3,
                    p.attrib0 & 0x2000 != 0,
                    stride == (if flip { 0xFFFF_FFFFu32 } else { 1u32 }),
                    jump == (if flip { 0xFFFF_FFC8u32 } else { 56u32 }),
                    pixelattr == normal_pixelattr(*p),
                    a0s == normal256_addr0(*p, normal_row(*p), xoff0),
                    pixelsaddr == normal256_addr(a0s, flip, xoff0, (xoff - xoff0) as int),
                    samples == (|k: int| normal_sample(*p, vram@, k)),
                    line@ == run_line(line0, xs, (xoff - xoff0) as int, samples, window, pixelattr),
                    win@ == run_win(win0, xs, (xoff - xoff0) as int, samples, window),
                decreases xend - xoff,
            {
                let color: u16 = read8(vram, m, pixelsaddr) as u16;
                assert((color, color != 0) == samples((xoff - xoff0) as int));
                proof {
                    lemma_wrap_add(pixelsaddr, stride);
                }
                pixelsaddr = pixelsaddr.wrapping_add(stride);
                store(line, win, window, xpos as usize, color, color != 0, pixelattr);
                assert(line@ =~= run_line(line0, xs, (xoff + 1 - xoff0) as int, samples, window, pixelattr));
                assert(win@ =~= run_win(win0, xs, (xoff + 1 - xoff0) as int, samples, window));
                xoff += 1;
                xpos += 1;
                if xoff & 0x7 == 0 {
                    proof {
                        lemma_wrap_add(pixelsaddr, jump);
                    }
                    pixelsaddr = pixelsaddr.wrapping_add(jump);
                }
                assert(pixelsaddr == normal256_addr(a0s, flip, xoff0, (xoff - xoff0) as int));
            }
            assert(xoff - xoff0 == normal_count(*p));
        } else {
            // 16-color
            let a: u32 = tile << 5;
            proof {
                lemma_wrap_add(a, (yrow * 4) as u32);
            }
            let mut pixelsaddr: u32 = a.wrapping_add(yrow * 4);
            if !window {
                pixelattr |= 0x1000;
                pixelattr |= (a2 & 0xF000) >> 8;
            }
            assert(pixelattr == normal_pixelattr(*p));
            let jump: u32;
            if flip {
                pixelsaddr = sub_add4(pixelsaddr, (w1 & wmask) << 2, (w1 & 0x7) >> 1, (xoff & wmask) << 2, (xoff & 0x7) >> 1);
                jump = 0xFFFF_FFE4;
            } else {
                pixelsaddr = add2(pixelsaddr, (xoff & wmask) << 2, (xoff & 0x7) >> 1);
                jump = 28;
            }
            let ghost a0s = pixelsaddr;
            assert(a0s == normal16_addr0(*p, normal_row(*p), xoff0));

            while xoff < xend
                invariant
                    xoff0 <= xoff,
                    xoff0 < xend ==> xoff <= xend,
                    xoff0 >= xend ==> xoff == xoff0,
                    xend <= 64,
                    xs + (xend - xoff0) <= 256,
                    xpos == xs + (xoff - xoff0),
                    line@.len() == line0.len(),
                    win@.len() == win0.len(),
                    line0.len() >= 256,
                    win0.len() >= 256,
                    vram@.len() > m,
                    m == p.objvrammask,
                    m < u32::MAX,
                    window == (p.window != 0),
                    flip == (p.attrib1 & 0x1000 != 0),
                    xoff0 == normal_xoff0(*p),
                    xend == normal_xend(*p),
                    xs == normal_xs(*p),
                    sprite_mode(*p) != 3,
                    p.attrib0 & 0x2000 == 0,
                    jump == (if flip { 0xFFFF_FFE4u32 } else { 28u32 }),
                    pixelattr == normal_pixelattr(*p),
                    a0s == normal16_addr0(*p, normal_row(*p), xoff0),
                    pixelsaddr == normal16_addr(a0s, flip, xoff0, (xoff - xoff0) as int),
                    samples == (|k: int| normal_sample(*p, vram@, k)),
                    line@ == run_line(line0, xs, (xoff - xoff0) as int, samples, window, pixelattr),
                    win@ == run_win(win0, xs, (xoff - xoff0) as int, samples, window),
                decreases xend - xoff,
            {
                let b: u8 = read8(vram, m, pixelsaddr);
                let color: u8;
                if flip {
                    if xoff & 0x1 != 0 {
                        color = b & 0x0F;
                        proof {
                            lemma_wrap_add(pixelsaddr, 0xFFFF_FFFF);
                        }
                        pixelsaddr = pixelsaddr.wrapping_sub(1);
                        assert(pixelsaddr == wrap32(normal16_addr(a0s, flip, xoff0, (xoff - xoff0) as int) + 0xFFFF_FFFFu32)) by {
                            crate::arith::lemma_wrap_sub(normal16_addr(a0s, flip, xoff0, (xoff - xoff0) as int), 1);
                        }
                    } else {
                        color = b >> 4;
                    }
                } else if xoff & 0x1 != 0 {
                    color = b >> 4;
                    proof {
                        lemma_wrap_add(pixelsaddr, 1);
                    }
                    pixelsaddr = pixelsaddr.wrapping_add(1);
                } else {
                    color = b & 0x0F;
                }
                assert((color as u16, color != 0) == samples((xoff - xoff0) as int));
                store(line, win, window, xpos as usize, color as u16, color != 0, pixelattr);
                assert(line@ =~= run_line(line0, xs, (xoff + 1 - xoff0) as int, samples, window, pixelattr));
                assert(win@ =~= run_win(win0, xs, (xoff + 1 - xoff0) as int, samples, window));
                xoff += 1;
                xpos += 1;
                if xoff & 0x7 == 0 {
                    proof {
                        lemma_wrap_add(pixelsaddr, jump);
                    }
                    pixelsaddr = pixelsaddr.wrapping_add(jump);
                }
                assert(pixelsaddr == normal16_addr(a0s, flip, xoff0, (xoff - xoff0) as int));
            }
            assert(xoff - xoff0 == normal_count(*p));
        }
    }
}

/// The OBJ line after `count` optional samples at columns `xs..xs+count`
/// (`None`: the column is outside the sprite and is left alone).
pub open spec fn run_line_opt(
    old: Seq<u32>,
    xs: int,
    count: int,
    samples: spec_fn(int) -> Option<(u16, bool)>,
    window: bool,
    pixelattr: u32,
) -> Seq<u32> {
    Seq::new(
        old.len(),
        |c: int|
            if xs <= c < xs + count && samples(c - xs) is Some {
                let smp: (u16, bool) = samples(c - xs)->0;
                store_line(old[c], smp.0, smp.1, window, pixelattr)
            } else {
                old[c]
            },
    )
}

/// The OBJ window after the same optional samples.
pub open spec fn run_win_opt(
    old: Seq<u8>,
    xs: int,
    count: int,
    samples: spec_fn(int) -> Option<(u16, bool)>,
    window: bool,
) -> Seq<u8> {
    Seq::new(
        old.len(),
        |c: int|
            if xs <= c < xs + count && samples(c - xs) is Some {
                let smp: (u16, bool) = samples(c - xs)->0;
                store_win(old[c], smp.1, window)
            } else {
                old[c]
            },
    )
}

/// One past the last column of the affine bounding box drawn.
pub open spec fn rs_bound(p: SpriteParams) -> int {
    if p.xpos >= 0 && p.xpos + p.boundwidth > 256 { 256 - p.xpos } else { p.boundwidth as int }
}

/// Number of bounding-box columns drawn.
pub open spec fn rs_count(p: SpriteParams) -> int {
    if normal_xoff0(p) < rs_bound(p) { rs_bound(p) - normal_xoff0(p) } else { 0 }
}

/// Texture coordinates (8 fractional bits) at step `k`: the affine
/// transform of the offset from the bounding box centre, around the
/// sprite centre.
pub open spec fn rs_coords(p: SpriteParams, k: int) -> (int, int) {
    let dx = normal_xoff0(p) + k - (p.boundwidth / 2);
    let dy = p.ypos - (p.boundheight / 2);
    (dx * p.rot_a + dy * p.rot_b + p.width * 128, dx * p.rot_c + dy * p.rot_d + p.height * 128)
}

/// The sample at step `k` of an affine sprite, or `None` where the
/// coordinates fall outside the sprite.
pub open spec fn rs_sample(p: SpriteParams, vram: Seq<u8>, k: int) -> Option<(u16, bool)> {
    let (rx, ry) = rs_coords(p, k);
    let m = p.objvrammask;
    if !(0 <= rx < p.width * 256 && 0 <= ry < p.height * 256) {
        None
    } else if sprite_mode(p) == 3 {
        let ytf: int = if p.disp_cnt & 0x40 != 0 {
            p.width * 2
        } else if p.disp_cnt & 0x20 != 0 {
            512
        } else {
            256
        };
        let base = bitmap_row_addr(p, 0, 0, false)->0;
        let color = vram16(vram, m, wrap32(base + (ry / 256) * ytf + (rx / 256) * 2));
        Some((color, color & 0x8000 != 0))
    } else {
        let tilenum = p.attrib2 & 0x03FF;
        let base: u32 = if p.disp_cnt & 0x10 != 0 {
            tilenum << ((p.disp_cnt >> 20u32) & 0x3)
        } else {
            tilenum
        };
        let ytf: int = if p.disp_cnt & 0x10 != 0 {
            (p.width / 8) * (if p.attrib0 & 0x2000 != 0 { 2int } else { 1int }) * 32
        } else {
            0x400int
        };
        if p.attrib0 & 0x2000 != 0 {
            let a = wrap32((base << 5u32) + (ry / 2048) * ytf + ((ry % 2048) / 256) * 8 + (rx
                / 2048) * 64 + (rx % 2048) / 256);
            let color = vram8(vram, m, a) as u16;
            Some((color, color != 0))
        } else {
            let a = wrap32((base << 5u32) + (ry / 2048) * ytf + ((ry % 2048) / 256) * 4 + (rx
                / 2048) * 32 + (rx % 2048) / 512);
            let b = vram8(vram, m, a);
            let color: u8 = if (rx / 256) % 2 == 1 { b >> 4u8 } else { b & 0x0F };
            Some((color as u16, color != 0))
        }
    }
}

/// Whether an affine sprite draws at all.
pub open spec fn rs_draws(p: SpriteParams) -> bool {
    sprite_mode(p) == 3 ==> (p.attrib2 >> 12u32 != 0 && !(p.disp_cnt & 0x40 != 0 && p.disp_cnt
        & 0x20 != 0))
}

/// The shift/mask forms of the affine coordinate arithmetic.
proof fn lemma_rot_bits(r: i32)
    requires
        0 <= r < 0x4000,
    ensures
        r >> 8u32 == r / 256,
        r >> 11u32 == r / 2048,
        (r & 0x700) >> 5u32 == ((r % 2048) / 256) * 8,
        (r & 0x700) >> 6u32 == ((r % 2048) / 256) * 4,
        (r & 0x700) >> 8u32 == (r % 2048) / 256,
        (r & 0x700) >> 9u32 == (r % 2048) / 512,
        (r & 0x100 != 0) == ((r / 256) % 2 == 1),
{
    assert(0 <= r < 0x4000 ==> r >> 8u32 == r / 256 && r >> 11u32 == r / 2048 && (r & 0x700) >> 5u32
        == ((r % 2048) / 256) * 8 && (r & 0x700) >> 6u32 == ((r % 2048) / 256) * 4 && (r & 0x700)
        >> 8u32 == (r % 2048) / 256 && (r & 0x700) >> 9u32 == (r % 2048) / 512 && (r & 0x100 != 0)
        == ((r / 256) % 2 == 1)) by (bit_vector);
}

/// One affine sample at coordinates `(rot_x, rot_y)` (exec form).
fn rs_sample_exec(
    p: &SpriteParams,
    vram: &[u8],
    rot_x: i32,
    rot_y: i32,
    pixelsaddr: u32,
    ytilefactor: u32,
    k: Ghost<int>,
) -> (res: Option<(u16, bool)>)
    requires
        vram@.len() > p.objvrammask,
        p.objvrammask < u32::MAX,
        8 <= p.width <= 64,
        8 <= p.height <= 64,
        rot_x == rs_coords(*p, k@).0,
        rot_y == rs_coords(*p, k@).1,
        sprite_mode(*p) == 3 ==> pixelsaddr == bitmap_row_addr(*p, 0, 0, false)->0,
        sprite_mode(*p) == 3 ==> ytilefactor == (if p.disp_cnt & 0x40 != 0 {
            p.width * 2
        } else if p.disp_cnt & 0x20 != 0 {
            512
        } else {
            256
        }),
        sprite_mode(*p) != 3 ==> pixelsaddr == (if p.disp_cnt & 0x10 != 0 {
            (p.attrib2 & 0x03FF) << ((p.disp_cnt >> 20u32) & 0x3)
        } else {
            p.attrib2 & 0x03FF
        }) << 5u32,
        sprite_mode(*p) != 3 ==> ytilefactor == (if p.disp_cnt & 0x10 != 0 {
            (p.width / 8) * (if p.attrib0 & 0x2000 != 0 { 2int } else { 1int }) * 32
        } else {
            0x400int
        }),
    ensures
        res == rs_sample(*p, vram@, k@),
{
    let pw: i32 = p.width;
    let ph: i32 = p.height;
    let width: u32 = (pw as u32) << 8;
    let height: u32 = (ph as u32) << 8;
    proof {
        lemma_small_shifts_u32(pw as u32);
        lemma_small_shifts_u32(ph as u32);
    }
    if (rot_x as u32) < width && (rot_y as u32) < height {
        assert(0 <= rot_x < width && 0 <= rot_y < height) by (bit_vector)
            requires
                (rot_x as u32) < width,
                (rot_y as u32) < height,
                width <= 0x4000,
                height <= 0x4000;
        proof {
            lemma_rot_bits(rot_x);
            lemma_rot_bits(rot_y);
        }
        let m: u32 = p.objvrammask;
        assert(ytilefactor <= 1024);
        let ry8: u32 = (rot_y >> 8) as u32;
        let ry11: u32 = (rot_y >> 11) as u32;
        assert(ry8 < 64 && ry11 < 8);
        assert(ry8 * ytilefactor <= 64 * 1024 && ry11 * ytilefactor <= 8 * 1024) by (nonlinear_arith)
            requires ry8 < 64, ry11 < 8, ytilefactor <= 1024;
        if sprite_mode_exec(p) == 3 {
            let rx8: u32 = (rot_x >> 8) as u32;
            proof {
                lemma_small_shifts_u32(rx8);
            }
            let off: u32 = ry8 * ytilefactor + (rx8 << 1);
            proof {
                lemma_wrap_add(pixelsaddr, off);
            }
            let color: u16 = read16(vram, m, pixelsaddr.wrapping_add(off));
            Some((color, color & 0x8000 != 0))
        } else if p.attrib0 & 0x2000 != 0 {
            let off: u32 = ((rot_y >> 11) as u32) * ytilefactor + (((rot_y & 0x700) >> 5) as u32)
                + ((rot_x >> 11) as u32) * 64 + (((rot_x & 0x700) >> 8) as u32);
            proof {
                lemma_wrap_add(pixelsaddr, off);
            }
            let color: u16 = read8(vram, m, pixelsaddr.wrapping_add(off)) as u16;
            Some((color, color != 0))
        } else {
            let off: u32 = ((rot_y >> 11) as u32) * ytilefactor + (((rot_y & 0x700) >> 6) as u32)
                + ((rot_x >> 11) as u32) * 32 + (((rot_x & 0x700) >> 9) as u32);
            proof {
                lemma_wrap_add(pixelsaddr, off);
            }
            let b: u8 = read8(vram, m, pixelsaddr.wrapping_add(off));
            let color: u8 = if rot_x & 0x100 != 0 { b >> 4 } else { b & 0x0F };
            Some((color as u16, color != 0))
        }
    } else {
        assert(!(0 <= rot_x < width && 0 <= rot_y < height)) by (bit_vector)
            requires
                !((rot_x as u32) < width && (rot_y as u32) < height),
                width <= 0x4000,
                height <= 0x4000;
        None
    }
}

/// The sprite mode (exec form).
fn sprite_mode_exec(p: &SpriteParams) -> (res: u32)
    ensures
        res == sprite_mode(*p),
{
    if p.window != 0 { 0 } else { (p.attrib0 >> 10) & 0x3 }
}

/// An arithmetic right shift by one halves, rounding down.
proof fn lemma_half_i32(x: i32)
    ensures
        (x >> 1u32) as int == (x as int) / 2,
{
    assert((x >> 1u32) * 2 + (x & 1) == x && 0 <= (x & 1) <= 1) by (bit_vector);
}

/// What `rs_requires` gives at step `k` of the walk: its coordinates fit
/// 32 bits, and past the screen edge it lands outside the sprite.
proof fn lemma_rs_step(p: SpriteParams, k: int)
    requires
        rs_requires(p),
        0 <= k <= rs_count(p),
    ensures
        fits_i32(rs_coords(p, k).0) && fits_i32(rs_coords(p, k).1),
        k < rs_count(p) && normal_xs(p) + k >= 256 ==> !rs_inside(p, k),
{
}

/// Draws one line of an affine (rotated and scaled) sprite.
fn draw_rotscale(p: &SpriteParams, vram: &[u8], line: &mut [u32], win: &mut [u8])
    requires
        sprite_requires(*p, vram@.len() as int, old(line)@.len() as int, old(win)@.len() as int),
        p.rotscale != 0,
    ensures
        rs_draws(*p) ==> final(line)@ == run_line_opt(
            old(line)@,
            normal_xs(*p),
            rs_count(*p),
            |k: int| rs_sample(*p, vram@, k),
            p.window != 0,
            normal_pixelattr(*p),
        ) && final(win)@ == run_win_opt(
            old(win)@,
            normal_xs(*p),
            rs_count(*p),
            |k: int| rs_sample(*p, vram@, k),
            p.window != 0,
        ),
        !rs_draws(*p) ==> final(line)@ == old(line)@ && final(win)@ == old(win)@,
{
    let ghost line0 = line@;
    let ghost win0 = win@;
    let ghost samples = |k: int| rs_sample(*p, vram@, k);
    let window: bool = p.window != 0;
    let a0: u32 = p.attrib0;
    let a2: u32 = p.attrib2;
    let dispcnt: u32 = p.disp_cnt;
    let width: i32 = p.width;
    let mut boundwidth: i32 = p.boundwidth;
    let boundheight: i32 = p.boundheight;
    let ypos: i32 = p.ypos;
    let mut xpos: i32 = p.xpos;
    let m: u32 = p.objvrammask;

    let mut pixelattr: u32 = ((a2 & 0x0C00) << 6) | 0xC0000;
    let tilenum: u32 = a2 & 0x03FF;
    let spritemode: u32 = sprite_mode_exec(p);

    proof {
        lemma_half_i32(boundwidth);
        lemma_half_i32(boundheight);
    }
    let center_x: i32 = boundwidth >> 1;
    let center_y: i32 = boundheight >> 1;

    if (a0 & 0x1000) != 0 && !window {
        pixelattr |= 0x100000;
    }
    assert(pixelattr == base_pixelattr(*p));

    let mut xoff: u32;
    if xpos >= 0 {
        xoff = 0;
        if (xpos + boundwidth) > 256 {
            boundwidth = 256 - xpos;
        }
    } else {
        xoff = (-xpos) as u32;
        xpos = 0;
    }
    let ghost xoff0 = xoff;
    let ghost xs = xpos as int;
    assert(xoff == normal_xoff0(*p) && boundwidth == rs_bound(*p) && xs == normal_xs(*p));
    assert(0 <= boundwidth && xs + rs_count(*p) <= i32::MAX);

    let height: i32 = p.height;
    proof {
        lemma_small_shifts_i32(width);
        lemma_small_shifts_i32(height);
    }
    let dx: i32 = xoff as i32 - center_x;
    let dy: i32 = ypos - center_y;
    assert(rs_coords(*p, 0).0 == dx * p.rot_a + dy * p.rot_b + width * 128);
    assert(rs_coords(*p, 0).1 == dx * p.rot_c + dy * p.rot_d + height * 128);
    assert(fits_i32(rs_coords(*p, 0).0) && fits_i32(rs_coords(*p, 0).1));
    let mut rot_x: i32 = (dx * p.rot_a) + (dy * p.rot_b) + (width << 7);
    let mut rot_y: i32 = (dx * p.rot_c) + (dy * p.rot_d) + (height << 7);
    assert(rot_x == rs_coords(*p, 0).0 && rot_y == rs_coords(*p, 0).1);

    let ytilefactor: u32;
    let pixelsaddr: u32;
    if spritemode == 3 {
        let mut alpha: u32 = a2 >> 12;
        if alpha == 0 {
            return;
        }
        proof {
            lemma_shr_u32(a2, 12);
        }
        alpha += 1;
        pixelattr |= 0xC0000000 | (alpha << 24);
        proof {
            lemma_and_le_u32(dispcnt >> 22u32, 0x1);
        }
        proof {
            lemma_tile_bits(tilenum);
        }
        if dispcnt & 0x40 != 0 {
            if dispcnt & 0x20 != 0 {
                return;  // reserved
            } else {
                pixelsaddr = tilenum << (7 + ((dispcnt >> 22) & 0x1));
                ytilefactor = (width * 2) as u32;
            }
        } else if dispcnt & 0x20 != 0 {
            pixelsaddr = ((tilenum & 0x01F) << 4) + ((tilenum & 0x3E0) << 7);
            ytilefactor = 256 * 2;
        } else {
            pixelsaddr = ((tilenum & 0x00F) << 4) + ((tilenum & 0x3F0) << 7);
            ytilefactor = 128 * 2;
        }
        assert(pixelsaddr == bitmap_row_addr(*p, 0, 0, false)->0) by {
            crate::arith::lemma_wrap32_small(pixelsaddr as int);
        }
    } else {
        proof {
            lemma_and_le_u32(dispcnt >> 20u32, 0x3);
        }
        let mut pa: u32 = tilenum;
        let mut ytf: u32;
        if dispcnt & 0x10 != 0 {
            pa = pa << ((dispcnt >> 20) & 0x3);
            proof {
                lemma_small_shifts_i32(width);
            }
            ytf = if a0 & 0x2000 != 0 { ((width >> 3) << 1) as u32 } else { (width >> 3) as u32 };
        } else {
            ytf = 0x20;
        }
        if spritemode == 1 {
            pixelattr |= 0x80000000;
        } else {
            pixelattr |= 0x10000000;
        }
        assert(ytf <= 32);
        proof {
            lemma_small_shifts_u32(ytf);
        }
        ytilefactor = ytf << 5;
        pixelsaddr = pa << 5;
        if a0 & 0x2000 != 0 {
            if !window {
                if dispcnt & 0x80000000 == 0 {
                    pixelattr |= 0x1000;
                } else {
                    pixelattr |= (a2 & 0xF000) >> 4;
                }
            }
        } else if !window {
            pixelattr |= 0x1000;
            pixelattr |= (a2 & 0xF000) >> 8;
        }
    }
    assert(pixelattr == normal_pixelattr(*p));
    assert(line@ =~= run_line_opt(line0, xs, 0, samples, window, pixelattr));
    assert(win@ =~= run_win_opt(win0, xs, 0, samples, window));

    while xoff < boundwidth as u32
        invariant
            xoff0 <= xoff,
            xoff0 < boundwidth ==> xoff <= boundwidth,
            xoff0 >= boundwidth ==> xoff == xoff0,
            0 <= boundwidth,
            xs + rs_count(*p) <= i32::MAX,
            xpos == xs + (xoff - xoff0),
            line@.len() == line0.len(),
            win@.len() == win0.len(),
            line0.len() >= 256,
            win0.len() >= 256,
            sprite_requires(*p, vram@.len() as int, line0.len() as int, win0.len() as int),
            p.rotscale != 0,
            window == (p.window != 0),
            xoff0 == normal_xoff0(*p),
            boundwidth == rs_bound(*p),
            xs == normal_xs(*p),
            rot_x == rs_coords(*p, (xoff - xoff0) as int).0,
            rot_y == rs_coords(*p, (xoff - xoff0) as int).1,
            sprite_mode(*p) == 3 ==> pixelsaddr == bitmap_row_addr(*p, 0, 0, false)->0,
            sprite_mode(*p) == 3 ==> ytilefactor == (if p.disp_cnt & 0x40 != 0 {
                p.width * 2
            } else if p.disp_cnt & 0x20 != 0 {
                512
            } else {
                256
            }),
            sprite_mode(*p) != 3 ==> pixelsaddr == (if p.disp_cnt & 0x10 != 0 {
                (p.attrib2 & 0x03FF) << ((p.disp_cnt >> 20u32) & 0x3)
            } else {
                p.attrib2 & 0x03FF
            }) << 5u32,
            sprite_mode(*p) != 3 ==> ytilefactor == (if p.disp_cnt & 0x10 != 0 {
                (p.width / 8) * (if p.attrib0 & 0x2000 != 0 { 2int } else { 1int }) * 32
            } else {
                0x400int
            }),
            pixelattr == normal_pixelattr(*p),
            samples == (|k: int| rs_sample(*p, vram@, k)),
            line@ == run_line_opt(line0, xs, (xoff - xoff0) as int, samples, window, pixelattr),
            win@ == run_win_opt(win0, xs, (xoff - xoff0) as int, samples, window),
        decreases boundwidth - xoff,
    {
        let smp = rs_sample_exec(p, vram, rot_x, rot_y, pixelsaddr, ytilefactor, Ghost((xoff - xoff0) as int));
        match smp {
            Some((color, opaque)) => {
                assert(rs_inside(*p, (xoff - xoff0) as int));
                proof {
                    lemma_rs_step(*p, (xoff - xoff0) as int);
                }
                assert(xpos < 256);
                store(line, win, window, xpos as usize, color, opaque, pixelattr);
            },
            None => {},
        }
        assert(line@ =~= run_line_opt(line0, xs, (xoff + 1 - xoff0) as int, samples, window, pixelattr));
        assert(win@ =~= run_win_opt(win0, xs, (xoff + 1 - xoff0) as int, samples, window));
        proof {
            lemma_rs_step(*p, (xoff + 1 - xoff0) as int);
        }
        assert(rs_coords(*p, (xoff + 1 - xoff0) as int).0 == rot_x + p.rot_a) by (nonlinear_arith)
            requires rot_x == rs_coords(*p, (xoff - xoff0) as int).0;
        assert(rs_coords(*p, (xoff + 1 - xoff0) as int).1 == rot_y + p.rot_c) by (nonlinear_arith)
            requires rot_y == rs_coords(*p, (xoff - xoff0) as int).1;
        rot_x += p.rot_a;
        rot_y += p.rot_c;
        xoff += 1;
        xpos += 1;
    }
    assert(xoff - xoff0 == rs_count(*p));
}

/// The OBJ line after drawing a sprite: the affine or normal walk over the
/// row's columns, or the line as it was for a sprite that draws nothing.
pub open spec fn sprite_line(p: SpriteParams, vram: Seq<u8>, line: Seq<u32>) -> Seq<u32> {
    if p.rotscale != 0 {
        if rs_draws(p) {
            run_line_opt(line, normal_xs(p), rs_count(p), |k: int| rs_sample(p, vram, k), p.window != 0, normal_pixelattr(p))
        } else {
            line
        }
    } else if normal_draws(p) {
        run_line(line, normal_xs(p), normal_count(p), |k: int| normal_sample(p, vram, k), p.window != 0, normal_pixelattr(p))
    } else {
        line
    }
}

/// The OBJ window after drawing a sprite.
pub open spec fn sprite_win(p: SpriteParams, vram: Seq<u8>, win: Seq<u8>) -> Seq<u8> {
    if p.rotscale != 0 {
        if rs_draws(p) {
            run_win_opt(win, normal_xs(p), rs_count(p), |k: int| rs_sample(p, vram, k), p.window != 0)
        } else {
            win
        }
    } else if normal_draws(p) {
        run_win(win, normal_xs(p), normal_count(p), |k: int| normal_sample(p, vram, k), p.window != 0)
    } else {
        win
    }
}

/// A sprite touches only the columns its row covers on screen: nothing
/// left of `max(xpos, 0)` or from column 256 on, and for a normal sprite
/// nothing from `xpos + width` on. A window sprite leaves the OBJ line as
/// it is and only sets OBJ-window entries to 1; a bitmap sprite of alpha 0,
/// or in the reserved bitmap layout, draws nothing.
pub proof fn lemma_sprite_footprint(p: SpriteParams, vram: Seq<u8>, line: Seq<u32>, win: Seq<u8>, c: int)
    requires
        sprite_requires(p, vram.len() as int, line.len() as int, win.len() as int),
        0 <= c < line.len(),
        c < win.len(),
    ensures
        (c < normal_xs(p) || c >= 256 || (p.rotscale == 0 && c >= p.xpos + p.width)) ==> sprite_line(p, vram, line)[c]
            == line[c] && sprite_win(p, vram, win)[c] == win[c],
        p.window != 0 ==> sprite_line(p, vram, line)[c] == line[c],
        p.window != 0 ==> (sprite_win(p, vram, win)[c] == win[c] || sprite_win(p, vram, win)[c] == 1),
        sprite_mode(p) == 3 && (p.attrib2 >> 12u32 == 0 || p.disp_cnt & 0x60 == 0x60) ==> sprite_line(p, vram, line)
            == line && sprite_win(p, vram, win) == win,
{
    if sprite_mode(p) == 3 && p.disp_cnt & 0x60 == 0x60 {
        let d: u32 = p.disp_cnt;
        assert(d & 0x40 != 0 && d & 0x20 != 0) by (bit_vector)
            requires d & 0x60 == 0x60;
    }
    if p.rotscale != 0 && rs_draws(p) && normal_xs(p) <= c < normal_xs(p) + rs_count(p) && c >= 256 {
        assert(!rs_inside(p, c - normal_xs(p)));
        assert(rs_sample(p, vram, c - normal_xs(p)) is None);
    }
}

/// Draws one sprite's pixels on the current scanline into the OBJ line
/// and OBJ window (affine or normal, as the sprite is).
pub fn melonink_draw_sprite(p: &SpriteParams, objvram: &[u8], obj_line: &mut [u32], obj_window: &mut [u8])
    requires
        sprite_requires(*p, objvram@.len() as int, old(obj_line)@.len() as int, old(obj_window)@.len() as int),
    ensures
        final(obj_line)@ == sprite_line(*p, objvram@, old(obj_line)@),
        final(obj_window)@ == sprite_win(*p, objvram@, old(obj_window)@),
{
    if p.rotscale != 0 {
        draw_rotscale(p, objvram, obj_line, obj_window);
    } else {
        draw_normal(p, objvram, obj_line, obj_window);
    }
}

/// Whether a sprite's parameters and buffers meet what drawing it needs
/// (`sprite_requires`), decided on the parameters and buffer lengths.
pub fn check_sprite(p: &SpriteParams, vram_len: usize, line_len: usize, win_len: usize) -> (res: bool)
    ensures
        res == sprite_requires(*p, vram_len as int, line_len as int, win_len as int),
{
    if !(vram_len as u64 > p.objvrammask as u64 && p.objvrammask < u32::MAX && line_len >= 256 && win_len >= 256
        && 8 <= p.width && p.width <= 64 && i32::MIN < p.xpos && p.xpos <= 256) {
        return false;
    }
    if p.rotscale == 0 {
        check_normal(p)
    } else {
        check_rotscale(p)
    }
}

/// `normal_requires`, decided.
fn check_normal(p: &SpriteParams) -> (res: bool)
    requires
        8 <= p.width <= 64,
    ensures
        res == normal_requires(*p),
{
    let h: i64 = p.height as i64;
    let y: i64 = p.ypos as i64;
    let row: i64 = if p.attrib1 & 0x2000 != 0 {
        if !(i32::MIN as i64 <= h - 1 && h - 1 - y >= i32::MIN as i64 && h - 1 - y <= i32::MAX as i64) {
            return false;
        }
        h - 1 - y
    } else {
        y
    };
    assert(row == normal_row(*p) as int);
    let r: i32 = row as i32;
    let mode: u32 = sprite_mode_exec(p);
    if mode == 3 {
        if p.attrib2 >> 12 != 0 && !(p.disp_cnt & 0x40 != 0 && p.disp_cnt & 0x20 != 0) {
            let bytes: i64 = if p.disp_cnt & 0x40 != 0 {
                (p.width as i64) * 2
            } else if p.disp_cnt & 0x20 != 0 {
                512
            } else {
                256
            };
            assert(bytes == bitmap_row_bytes(*p));
            if row < 0 {
                return false;
            }
            assert(0 <= row * bytes <= 0x8000_0000 * 512) by (nonlinear_arith)
                requires 0 <= row <= 0x8000_0000, 0 <= bytes <= 512;
            return row * bytes <= u32::MAX as i64;
        }
        true
    } else {
        let width: i32 = p.width;
        proof {
            lemma_small_shifts_i32(width);
        }
        let m: i64 = if p.disp_cnt & 0x10 != 0 { (width >> 3) as i64 } else { 0x20 };
        let r3: i64 = (r >> 3) as i64;
        assert(-0x1000_0000 <= r3 <= 0x1000_0000) by (bit_vector)
            requires r3 == (r >> 3u32) as i64;
        assert(-0x1000_0000 * 0x20 <= r3 * m <= 0x1000_0000 * 0x20) by (nonlinear_arith)
            requires -0x1000_0000 <= r3 <= 0x1000_0000, 0 <= m <= 0x20;
        let v: i64 = r3 * m;
        i32::MIN as i64 <= v && v <= i32::MAX as i64
    }
}

/// `rs_requires`, decided: the set-up products, then the coordinates of
/// every step of the walk.
#[verifier::rlimit(40)]
fn check_rotscale(p: &SpriteParams) -> (res: bool)
    requires
        8 <= p.width <= 64,
        i32::MIN < p.xpos <= 256,
    ensures
        res == rs_requires(*p),
{
    if !(8 <= p.height && p.height <= 64 && 0 <= p.boundwidth) {
        return false;
    }
    let xpos: i64 = p.xpos as i64;
    let bw: i64 = p.boundwidth as i64;
    if xpos >= 0 && xpos + bw > i32::MAX as i64 {
        return false;
    }
    let xoff0: i64 = if xpos >= 0 { 0 } else { -xpos };
    let xs: i64 = if xpos >= 0 { xpos } else { 0 };
    let bound: i64 = if xpos >= 0 && xpos + bw > 256 { 256 - xpos } else { bw };
    let count: i64 = if xoff0 < bound { bound - xoff0 } else { 0 };
    assert(xoff0 == normal_xoff0(*p) && xs == normal_xs(*p) && bound == rs_bound(*p) && count == rs_count(*p));
    let dx: i64 = xoff0 - bw / 2;
    proof {
        lemma_half_i32(p.boundheight);
    }
    let dy: i64 = (p.ypos as i64) - ((p.boundheight >> 1) as i64);
    if !(i32::MIN as i64 <= dy && dy <= i32::MAX as i64) {
        return false;
    }
    let ra: i64 = p.rot_a as i64;
    let rb: i64 = p.rot_b as i64;
    let rc: i64 = p.rot_c as i64;
    let rd: i64 = p.rot_d as i64;
    assert(-0x8000_0000 <= dx < 0x8000_0000);
    assert(-0x8000_0000_0000_0000 < dx * ra < 0x8000_0000_0000_0000 && -0x8000_0000_0000_0000 < dx * rc
        < 0x8000_0000_0000_0000) by (nonlinear_arith)
        requires -0x8000_0000 <= dx < 0x8000_0000, -0x8000_0000 <= ra < 0x8000_0000,
            -0x8000_0000 <= rc < 0x8000_0000;
    assert(-0x8000_0000_0000_0000 < dy * rb < 0x8000_0000_0000_0000 && -0x8000_0000_0000_0000 < dy * rd
        < 0x8000_0000_0000_0000) by (nonlinear_arith)
        requires -0x8000_0000 <= dy < 0x8000_0000, -0x8000_0000 <= rb < 0x8000_0000,
            -0x8000_0000 <= rd < 0x8000_0000;
    let pa: i64 = dx * ra;
    let pb: i64 = dy * rb;
    let pc: i64 = dx * rc;
    let pd: i64 = dy * rd;
    assert(dx == normal_xoff0(*p) - p.boundwidth / 2 && dy == p.ypos - p.boundheight / 2);
    assert(pa == (normal_xoff0(*p) - p.boundwidth / 2) * p.rot_a);
    assert(pb == (p.ypos - p.boundheight / 2) * p.rot_b);
    assert(pc == (normal_xoff0(*p) - p.boundwidth / 2) * p.rot_c);
    assert(pd == (p.ypos - p.boundheight / 2) * p.rot_d);
    let lo: i64 = i32::MIN as i64;
    let hi: i64 = i32::MAX as i64;
    if !(lo <= pa && pa <= hi && lo <= pb && pb <= hi && lo <= pa + pb && pa + pb <= hi && lo <= pc && pc <= hi
        && lo <= pd && pd <= hi && lo <= pc + pd && pc + pd <= hi) {
        return false;
    }
    let wlim: i64 = (p.width as i64) * 256;
    let hlim: i64 = (p.height as i64) * 256;
    let mut rx: i64 = pa + pb + (p.width as i64) * 128;
    let mut ry: i64 = pc + pd + (p.height as i64) * 128;
    let mut k: i64 = 0;
    assert(rx == rs_coords(*p, 0).0 && ry == rs_coords(*p, 0).1);
    loop
        invariant
            0 <= k <= count,
            count == rs_count(*p),
            xs == normal_xs(*p),
            rx == rs_coords(*p, k as int).0,
            ry == rs_coords(*p, k as int).1,
            -0x1_0000_0000 <= rx <= 0x1_0000_0000,
            -0x1_0000_0000 <= ry <= 0x1_0000_0000,
            ra == p.rot_a && rc == p.rot_c,
            wlim == p.width * 256 && hlim == p.height * 256,
            lo == i32::MIN && hi == i32::MAX,
            forall|j: int| 0 <= j < k ==> fits_i32(#[trigger] rs_coords(*p, j).0) && fits_i32(rs_coords(*p, j).1),
            forall|j: int| 0 <= j < k && xs + j >= 256 ==> !#[trigger] rs_inside(*p, j),
            8 <= p.width <= 64 && 8 <= p.height <= 64,
            (lo <= pa + pb <= hi && lo <= pc + pd <= hi && lo <= pa && pa <= hi && lo <= pb && pb <= hi && lo <= pc
                && pc <= hi && lo <= pd && pd <= hi),
            pa == (normal_xoff0(*p) - p.boundwidth / 2) * p.rot_a,
            pb == (p.ypos - p.boundheight / 2) * p.rot_b,
            pc == (normal_xoff0(*p) - p.boundwidth / 2) * p.rot_c,
            pd == (p.ypos - p.boundheight / 2) * p.rot_d,
            fits_i32(p.ypos - p.boundheight / 2),
            8 <= p.height <= 64 && 0 <= p.boundwidth,
            p.xpos >= 0 ==> fits_i32(p.xpos + p.boundwidth),
        ensures
            rs_requires(*p),
        decreases count - k,
    {
        if !(lo <= rx && rx <= hi && lo <= ry && ry <= hi) {
            return false;
        }
        if k == count {
            break;
        }
        if xs + k >= 256 && 0 <= rx && rx < wlim && 0 <= ry && ry < hlim {
            assert(rs_inside(*p, k as int));
            return false;
        }
        assert(fits_i32(rs_coords(*p, k as int).0) && fits_i32(rs_coords(*p, k as int).1));
        assert(xs + k >= 256 ==> !rs_inside(*p, k as int));
        assert(rs_coords(*p, k + 1).0 == rx + ra && rs_coords(*p, k + 1).1 == ry + rc) by (nonlinear_arith)
            requires rx == rs_coords(*p, k as int).0, ry == rs_coords(*p, k as int).1, ra == p.rot_a, rc == p.rot_c;
        let ghost k0: int = k as int;
        rx = rx + ra;
        ry = ry + rc;
        k = k + 1;
        assert forall|j: int| 0 <= j < k implies fits_i32(#[trigger] rs_coords(*p, j).0) && fits_i32(
            rs_coords(*p, j).1,
        ) by {
            if j < k0 {
            } else {
                assert(j == k0);
            }
        }
    }
    true
}

/// Bit layout of a 16-colour tiled sprite's attribute word.
proof fn lemma_palette_bits(a2: u32, c: u32)
    by (bit_vector)
    requires
        c < 16,
    ensures
        ({
            let x0: u32 = ((a2 & 0x0C00) << 6u32) | 0xC0000;
            let x1: u32 = x0 | 0x100000;
            &&& (x0 | 0x10000000u32) & 0xFFFF == 0
            &&& (x0 | 0x80000000u32) & 0xFFFF == 0
            &&& (x1 | 0x10000000u32) & 0xFFFF == 0
            &&& (x1 | 0x80000000u32) & 0xFFFF == 0
        }),
        forall|x: u32| #![trigger x | 0x1000u32 | ((a2 & 0xF000) >> 8u32)] x & 0xFFFF == 0 ==> {
            let pa: u32 = x | 0x1000u32 | ((a2 & 0xF000) >> 8u32);
            &&& (pa >> 4u32) & 0xF == (a2 >> 12u32) & 0xF
            &&& pa & 0xF == 0
            &&& pa & 0x1000 != 0
            &&& (c | pa) == c + pa
        },
{
}

/// A 16-colour tiled sprite (not a window sprite) stores each opaque texel
/// as its colour index plus the attribute word, whose bits 4..7 carry the
/// sprite's palette number (attribute 2, bits 12..15) and whose bit 12
/// marks the 16-colour layout.
pub proof fn lemma_sprite_16colour_palette(p: SpriteParams, old: u32, c: u16)
    requires
        p.window == 0,
        sprite_mode(p) != 3,
        p.attrib0 & 0x2000 == 0,
        c < 16,
    ensures
        (normal_pixelattr(p) >> 4u32) & 0xF == (p.attrib2 >> 12u32) & 0xF,
        normal_pixelattr(p) & 0x1000 != 0,
        normal_pixelattr(p) & 0xF == 0,
        store_line(old, c, true, false, normal_pixelattr(p)) == c + normal_pixelattr(p),
{
    lemma_palette_bits(p.attrib2, c as u32);
    let pa = base_pixelattr(p) | (if sprite_mode(p) == 1 { 0x80000000u32 } else { 0x10000000u32 });
    assert(pa & 0xFFFF == 0);
}

} // verus!
