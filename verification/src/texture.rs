//! Texture sampling of the DS 3D engine: the texel colour (BGR555) and alpha
//! (0..=31) that a texture parameter word, a palette base and a pair of
//! texture coordinates select, read from the flat texture VRAM (512 KiB,
//! addresses wrap at 0x80000) and texture-palette VRAM (128 KiB, addresses
//! wrap at 0x20000).

use vstd::prelude::*;
use crate::arith::{wrap32, lemma_wrap_add, lemma_wrap32_add, lemma_wrap32_small, lemma_and_le_u16, lemma_and_le_u32, lemma_and_le_i32, lemma_shr_u32, lemma_low_mask_usize, lemma_bytes_to_u16};

verus! {

/// Size of the flat texture VRAM in bytes.
pub const TEX_VRAM_SIZE: usize = 0x80000;
/// Size of the flat texture-palette VRAM in bytes.
pub const PAL_VRAM_SIZE: usize = 0x20000;

/// The two flat VRAM arrays the texture unit reads.
pub struct Vram<'a> {
    pub tex: &'a [u8],
    pub pal: &'a [u8],
}

impl<'a> Vram<'a> {
    /// Both arrays are at least as large as the address spaces they back.
    pub open spec fn wf(&self) -> bool {
        self.tex@.len() >= TEX_VRAM_SIZE && self.pal@.len() >= PAL_VRAM_SIZE
    }
}

/// Byte of texture VRAM at `addr` (wrapping at 512 KiB).
pub open spec fn tex8(tex: Seq<u8>, addr: u32) -> u8 {
    tex[(addr & 0x7FFFF) as int]
}

/// Little-endian halfword of texture VRAM at `addr`; the high byte's address
/// wraps too.
pub open spec fn tex16(tex: Seq<u8>, addr: u32) -> u16 {
    let i = addr & 0x7FFFF;
    (tex[i as int] + 256 * tex[((i + 1) % 0x80000) as int]) as u16
}

/// Little-endian halfword of palette VRAM at `addr` (wrapping at 128 KiB).
pub open spec fn pal16(pal: Seq<u8>, addr: u32) -> u16 {
    let i = addr & 0x1FFFF;
    (pal[i as int] + 256 * pal[((i + 1) % 0x20000) as int]) as u16
}

impl<'a> Vram<'a> {
    /// Byte of texture VRAM at `addr`.
    pub fn tex_u8(&self, addr: u32) -> (res: u8)
        requires
            self.tex@.len() >= TEX_VRAM_SIZE,
        ensures
            res == tex8(self.tex@, addr),
    {
        proof {
            lemma_and_le_u32(addr, 0x7FFFF);
        }
        self.tex[(addr & 0x7FFFF) as usize]
    }

    /// Halfword of texture VRAM at `addr`.
    pub fn tex_u16(&self, addr: u32) -> (res: u16)
        requires
            self.tex@.len() >= TEX_VRAM_SIZE,
        ensures
            res == tex16(self.tex@, addr),
    {
        proof {
            lemma_and_le_u32(addr, 0x7FFFF);
        }
        let i: usize = (addr & 0x7FFFF) as usize;
        let lo: u16 = self.tex[i] as u16;
        proof {
            lemma_low_mask_usize((i + 1) as usize, 19);
        }
        let hi: u16 = self.tex[(i + 1) & 0x7FFFF] as u16;
        proof {
            lemma_bytes_to_u16(self.tex@[i as int], self.tex@[((i + 1) % 0x80000) as int]);
        }
        lo | (hi << 8)
    }

    /// Halfword of palette VRAM at `addr`.
    pub fn pal_u16(&self, addr: u32) -> (res: u16)
        requires
            self.pal@.len() >= PAL_VRAM_SIZE,
        ensures
            res == pal16(self.pal@, addr),
    {
        proof {
            lemma_and_le_u32(addr, 0x1FFFF);
        }
        let i: usize = (addr & 0x1FFFF) as usize;
        let lo: u16 = self.pal[i] as u16;
        proof {
            lemma_low_mask_usize((i + 1) as usize, 17);
        }
        let hi: u16 = self.pal[(i + 1) & 0x1FFFF] as u16;
        proof {
            lemma_bytes_to_u16(self.pal@[i as int], self.pal@[((i + 1) % 0x20000) as int]);
        }
        lo | (hi << 8)
    }
}

/// Texture width or height for a 3-bit size field: 8 << field.
pub open spec fn tex_size(field: u32) -> i32 {
    8i32 << (field & 7)
}

/// A texture coordinate (already in texels) brought into `0..size`: clamped
/// when the axis does not repeat; wrapped when it repeats, with every other
/// period mirrored when it also flips.
pub open spec fn wrap_coord(c: i32, size: i32, repeat: bool, flip: bool) -> i32 {
    if repeat {
        if flip && c & size != 0 {
            (size - 1 - (c & ((size - 1) as i32))) as i32
        } else {
            c & ((size - 1) as i32)
        }
    } else if c < 0 {
        0
    } else if c >= size {
        ((size - 1) as i32) as i32
    } else {
        c
    }
}

/// Texel column of texture coordinate `s` (a 12.4 fixed-point value).
pub open spec fn texel_s(texparam: u32, s: i16) -> i32 {
    wrap_coord(
        (s as i32) >> 4u32,
        tex_size(texparam >> 20u32),
        texparam & 0x10000 != 0,
        texparam & 0x40000 != 0,
    )
}

/// Texel row of texture coordinate `t` (a 12.4 fixed-point value).
pub open spec fn texel_t(texparam: u32, t: i16) -> i32 {
    wrap_coord(
        (t as i32) >> 4u32,
        tex_size(texparam >> 23u32),
        texparam & 0x20000 != 0,
        texparam & 0x80000 != 0,
    )
}

/// Alpha of palette index 0 in the palettised formats: transparent when
/// bit 29 of the parameters is set, opaque otherwise.
pub open spec fn alpha0_spec(texparam: u32) -> u8 {
    if texparam & 0x20000000 != 0 { 0 } else { 31 }
}

/// The 4x4-compressed format's interpolation of two palette colours with
/// weights `wa`/`wb` and right shift `shift`, per BGR555 channel.
pub open spec fn blend_compressed_spec(c0: u16, c1: u16, wa: u32, wb: u32, shift: u32) -> u16 {
    let r: u32 = (((c0 & 0x1F) * wa + (c1 & 0x1F) * wb) as u32) >> shift;
    let g: u32 = ((((c0 & 0x3E0) * wa + (c1 & 0x3E0) * wb) as u32) >> shift) & 0x3E0;
    let b: u32 = ((((c0 & 0x7C00) * wa + (c1 & 0x7C00) * wb) as u32) >> shift) & 0x7C00;
    (r | g | b) as u16
}

/// Colour and alpha of a 4x4-compressed texel.
pub open spec fn compressed_spec(
    tex: Seq<u8>,
    pal: Seq<u8>,
    base: u32,
    texpal: u32,
    width: i32,
    s: i32,
    t: i32,
) -> (u16, u8) {
    let va: u32 = wrap32(base + (t & 0x3FC) * (width >> 2u32) + (s & 0x3FC) + (t & 0x3))
        & 0x7FFFF;
    let slot1: u32 = (0x20000 + ((va & 0x1FFFC) >> 1u32) + (if va >= 0x40000 {
        0x10000int
    } else {
        0int
    })) as u32;
    let val: u8 = if 0x20000 <= va < 0x40000 {
        0
    } else {
        tex8(tex, va) >> ((2 * (s & 0x3)) as u8)
    };
    let palinfo: u16 = tex16(tex, slot1);
    let paloffset: u32 = ((palinfo & 0x3FFF) * 4) as u32;
    let tp: u32 = texpal << 4u32;
    let c0 = pal16(pal, wrap32(tp + paloffset));
    let c1 = pal16(pal, wrap32(tp + paloffset + 2));
    let mode = palinfo >> 14u16;
    if val & 3 == 0 {
        (c0, 31)
    } else if val & 3 == 1 {
        (c1, 31)
    } else if val & 3 == 2 {
        if mode == 1 {
            (blend_compressed_spec(c0, c1, 1, 1, 1), 31)
        } else if mode == 3 {
            (blend_compressed_spec(c0, c1, 5, 3, 3), 31)
        } else {
            (pal16(pal, wrap32(tp + paloffset + 4)), 31)
        }
    } else {
        if mode == 2 {
            (pal16(pal, wrap32(tp + paloffset + 6)), 31)
        } else if mode == 3 {
            (blend_compressed_spec(c0, c1, 3, 5, 3), 31)
        } else {
            (0, 0)
        }
    }
}

/// The texel colour (BGR555) and alpha (0..=31) that texture sampling
/// returns. Format 0 (untextured) gives `(0, 0)`.
pub open spec fn texture_spec(
    tex: Seq<u8>,
    pal: Seq<u8>,
    texparam: u32,
    texpal: u32,
    s_in: i16,
    t_in: i16,
) -> (u16, u8) {
    let base: u32 = (texparam & 0xFFFF) << 3u32;
    let width = tex_size(texparam >> 20u32);
    let s = texel_s(texparam, s_in);
    let t = texel_t(texparam, t_in);
    let idx: int = t * width + s;
    let alpha0 = alpha0_spec(texparam);
    let fmt = (texparam >> 26u32) & 0x7;
    if fmt == 1 {
        // A3I5: 5-bit index, 3-bit alpha
        let px = tex8(tex, wrap32(base + idx));
        let color = pal16(pal, wrap32((texpal << 4u32) + (px & 0x1F) * 2));
        (color, (((px >> 3u8) & 0x1C) + (px >> 6u8)) as u8)
    } else if fmt == 2 {
        // 4 colours, 2 bits per texel
        let px = (tex8(tex, wrap32(base + idx / 4)) >> ((2 * (s & 0x3)) as u8)) & 0x3;
        (pal16(pal, wrap32((texpal << 3u32) + px * 2)), if px == 0 { alpha0 } else { 31 })
    } else if fmt == 3 {
        // 16 colours, 4 bits per texel
        let b = tex8(tex, wrap32(base + idx / 2));
        let px = if s & 1 != 0 { b >> 4u8 } else { b & 0xF };
        (pal16(pal, wrap32((texpal << 4u32) + px * 2)), if px == 0 { alpha0 } else { 31 })
    } else if fmt == 4 {
        // 256 colours
        let px = tex8(tex, wrap32(base + idx));
        (pal16(pal, wrap32((texpal << 4u32) + px * 2)), if px == 0 { alpha0 } else { 31 })
    } else if fmt == 5 {
        compressed_spec(tex, pal, base, texpal, width, s, t)
    } else if fmt == 6 {
        // A5I3: 3-bit index, 5-bit alpha
        let px = tex8(tex, wrap32(base + idx));
        (pal16(pal, wrap32((texpal << 4u32) + (px & 0x7) * 2)), px >> 3u8)
    } else if fmt == 7 {
        // direct colour, bit 15 = opaque
        let color = tex16(tex, wrap32(base + idx * 2));
        (color, if color & 0x8000 != 0 { 31 } else { 0 })
    } else {
        (0, 0)
    }
}

/// Facts about a texture size field: a power of two between 8 and 1024.
pub proof fn lemma_tex_size(field: u32)
    ensures
        8 <= tex_size(field) <= 1024,
        tex_size(field) & ((tex_size(field) - 1) as i32) == 0,
        tex_size(field) >> 2u32 == tex_size(field) / 4,
{
    let f = field & 7;
    lemma_and_le_u32(field, 7);
    assert(f <= 7 ==> 8 <= (8i32 << f) <= 1024 && ((8i32 << f) & (((8i32 << f) - 1) as i32)) == 0
        && (8i32 << f) >> 2u32 == (8i32 << f) / 4) by (bit_vector);
    assert(tex_size(field) == 8i32 << f);
}

/// Masking by `size - 1` for a power-of-two `size` lands in `0..size`.
pub proof fn lemma_mask_in_range(c: i32, size: i32)
    requires
        8 <= size <= 1024,
        size & ((size - 1) as i32) == 0,
    ensures
        0 <= c & ((size - 1) as i32) < size,
{
    assert(8 <= size <= 1024 && size & ((size - 1) as i32) == 0 ==> 0 <= c & ((size - 1) as i32) < size)
        by (bit_vector);
}

/// Every wrapping mode yields a coordinate inside the texture.
pub proof fn lemma_wrap_coord_in_range(c: i32, size: i32, repeat: bool, flip: bool)
    requires
        8 <= size <= 1024,
        size & ((size - 1) as i32) == 0,
    ensures
        0 <= wrap_coord(c, size, repeat, flip) < size,
{
    lemma_mask_in_range(c, size);
}

/// The texel coordinates of every lookup lie inside the texture.
pub proof fn lemma_texel_in_range(texparam: u32, s: i16, t: i16)
    ensures
        0 <= texel_s(texparam, s) < tex_size(texparam >> 20u32),
        0 <= texel_t(texparam, t) < tex_size(texparam >> 23u32),
{
    lemma_tex_size(texparam >> 20u32);
    lemma_tex_size(texparam >> 23u32);
    lemma_wrap_coord_in_range(
        (s as i32) >> 4u32,
        tex_size(texparam >> 20u32),
        texparam & 0x10000 != 0,
        texparam & 0x40000 != 0,
    );
    lemma_wrap_coord_in_range(
        (t as i32) >> 4u32,
        tex_size(texparam >> 23u32),
        texparam & 0x20000 != 0,
        texparam & 0x80000 != 0,
    );
}

/// The compressed format's interpolation of palette colours `paloffset`
/// and `paloffset + 2` of the palette at `texpal`.
fn blend_compressed(vram: &Vram, texpal: u32, paloffset: u32, wa: u32, wb: u32, shift: u32) -> (res:
    u16)
    requires
        vram.wf(),
        wa <= 5,
        wb <= 5,
        shift < 32,
    ensures
        res == blend_compressed_spec(
            pal16(vram.pal@, wrap32(texpal + paloffset)),
            pal16(vram.pal@, wrap32(texpal + paloffset + 2)),
            wa,
            wb,
            shift,
        ),
{
    let a0: u32 = texpal.wrapping_add(paloffset);
    proof {
        lemma_wrap_add(texpal, paloffset);
        lemma_wrap_add(a0, 2);
        lemma_wrap32_add(texpal + paloffset, 2);
    }
    let c0: u16 = vram.pal_u16(a0);
    let c1: u16 = vram.pal_u16(a0.wrapping_add(2));
    let color0: u32 = c0 as u32;
    let color1: u32 = c1 as u32;

    let r0: u32 = color0 & 0x001F;
    let g0: u32 = color0 & 0x03E0;
    let b0: u32 = color0 & 0x7C00;
    let r1: u32 = color1 & 0x001F;
    let g1: u32 = color1 & 0x03E0;
    let b1: u32 = color1 & 0x7C00;
    assert(r0 == (c0 & 0x1F) as u32 && g0 == (c0 & 0x3E0) as u32 && b0 == (c0 & 0x7C00) as u32
        && b0 <= 0x7C00 && r0 <= 0x1F && g0 <= 0x3E0) by (bit_vector)
        requires
            color0 == c0 as u32,
            r0 == color0 & 0x001F,
            g0 == color0 & 0x03E0,
            b0 == color0 & 0x7C00,
    ;
    assert(r1 == (c1 & 0x1F) as u32 && g1 == (c1 & 0x3E0) as u32 && b1 == (c1 & 0x7C00) as u32
        && b1 <= 0x7C00 && r1 <= 0x1F && g1 <= 0x3E0) by (bit_vector)
        requires
            color1 == c1 as u32,
            r1 == color1 & 0x001F,
            g1 == color1 & 0x03E0,
            b1 == color1 & 0x7C00,
    ;
    assert(r0 * wa <= 0x7C00 * 5 && r1 * wb <= 0x7C00 * 5 && g0 * wa <= 0x7C00 * 5 && g1 * wb
        <= 0x7C00 * 5 && b0 * wa <= 0x7C00 * 5 && b1 * wb <= 0x7C00 * 5) by (nonlinear_arith)
        requires
            r0 <= 0x7C00,
            r1 <= 0x7C00,
            g0 <= 0x7C00,
            g1 <= 0x7C00,
            b0 <= 0x7C00,
            b1 <= 0x7C00,
            wa <= 5,
            wb <= 5,
    ;

    let r: u32 = (r0 * wa + r1 * wb) >> shift;
    let g: u32 = ((g0 * wa + g1 * wb) >> shift) & 0x03E0;
    let b: u32 = ((b0 * wa + b1 * wb) >> shift) & 0x7C00;
    (r | g | b) as u16
}

/// Texture sampling: the colour and alpha of the texel that texture
/// coordinates `s_in`/`t_in` (12.4 fixed point) select.
pub fn texture_lookup(vram: &Vram, texparam: u32, texpal: u32, s_in: i16, t_in: i16) -> (res: (
    u16,
    u8,
))
    requires
        vram.wf(),
    ensures
        res == texture_spec(vram.tex@, vram.pal@, texparam, texpal, s_in, t_in),
{
    let mut vramaddr: u32 = (texparam & 0xFFFF) << 3;

    proof {
        lemma_and_le_u32(texparam >> 20u32, 7);
        lemma_and_le_u32(texparam >> 23u32, 7);
    }
    let width: i32 = 8i32 << ((texparam >> 20) & 0x7);
    let height: i32 = 8i32 << ((texparam >> 23) & 0x7);
    proof {
        lemma_tex_size(texparam >> 20u32);
        lemma_tex_size(texparam >> 23u32);
        lemma_texel_in_range(texparam, s_in, t_in);

    }
    assert(width == tex_size(texparam >> 20u32));
    assert(height == tex_size(texparam >> 23u32));

    let mut s: i32 = (s_in as i32) >> 4;
    let mut t: i32 = (t_in as i32) >> 4;
    proof {
        lemma_mask_in_range(s, width);
        lemma_mask_in_range(t, height);
    }

    // texture wrapping (S)
    if texparam & 0x10000 != 0 {
        if texparam & 0x40000 != 0 {
            if s & width != 0 {
                s = (width - 1) - (s & (width - 1));
            } else {
                s &= width - 1;
            }
        } else {
            s &= width - 1;
        }
    } else if s < 0 {
        s = 0;
    } else if s >= width {
        s = width - 1;
    }

    // texture wrapping (T)
    if texparam & 0x20000 != 0 {
        if texparam & 0x80000 != 0 {
            if t & height != 0 {
                t = (height - 1) - (t & (height - 1));
            } else {
                t &= height - 1;
            }
        } else {
            t &= height - 1;
        }
    } else if t < 0 {
        t = 0;
    } else if t >= height {
        t = height - 1;
    }
    assert(s == texel_s(texparam, s_in));
    assert(t == texel_t(texparam, t_in));

    assert(0 <= t * width <= 1023 * 1024) by (nonlinear_arith)
        requires
            0 <= t < height,
            height <= 1024,
            8 <= width <= 1024,
    ;
    let idx: i32 = t * width + s;

    let alpha0: u8 = if texparam & 0x20000000 != 0 { 0 } else { 31 };

    let mut color: u16 = 0;
    let mut alpha: u8 = 0;
    let fmt: u32 = (texparam >> 26) & 0x7;

    if fmt == 1 {
        // A3I5
        proof {
            lemma_wrap_add(vramaddr, idx as u32);
        }
        let pixel: u8 = vram.tex_u8(vramaddr.wrapping_add(idx as u32));
        let tp: u32 = texpal << 4;
        assert(pixel & 0x1F <= 0x1F && (pixel >> 3u8) & 0x1C <= 0x1C && pixel >> 6u8 <= 3)
            by (bit_vector);
        proof {
            lemma_wrap_add(tp, (((pixel & 0x1F) as u32) * 2) as u32);
        }
        color = vram.pal_u16(tp.wrapping_add(((pixel & 0x1F) as u32) * 2));
        alpha = ((pixel >> 3) & 0x1C) + (pixel >> 6);
    } else if fmt == 2 {
        // 4-color
        proof {
            lemma_wrap_add(vramaddr, (idx / 4) as u32);
        }
        let mut pixel: u8 = vram.tex_u8(vramaddr.wrapping_add((idx / 4) as u32));
        proof {
            lemma_and_le_i32(s, 3);
        }
        pixel = pixel >> ((2 * (s & 0x3)) as u8);
        pixel = pixel & 0x3;
        let tp: u32 = texpal << 3;
        proof {
            lemma_wrap_add(tp, ((pixel as u32) * 2) as u32);
        }
        color = vram.pal_u16(tp.wrapping_add((pixel as u32) * 2));
        alpha = if pixel == 0 { alpha0 } else { 31 };
    } else if fmt == 3 {
        // 16-color
        proof {
            lemma_wrap_add(vramaddr, (idx / 2) as u32);
        }
        let mut pixel: u8 = vram.tex_u8(vramaddr.wrapping_add((idx / 2) as u32));
        if s & 0x1 != 0 {
            pixel = pixel >> 4;
        } else {
            pixel = pixel & 0xF;
        }
        let tp: u32 = texpal << 4;
        proof {
            lemma_wrap_add(tp, ((pixel as u32) * 2) as u32);
        }
        color = vram.pal_u16(tp.wrapping_add((pixel as u32) * 2));
        alpha = if pixel == 0 { alpha0 } else { 31 };
    } else if fmt == 4 {
        // 256-color
        proof {
            lemma_wrap_add(vramaddr, idx as u32);
        }
        let pixel: u8 = vram.tex_u8(vramaddr.wrapping_add(idx as u32));
        let tp: u32 = texpal << 4;
        proof {
            lemma_wrap_add(tp, ((pixel as u32) * 2) as u32);
        }
        color = vram.pal_u16(tp.wrapping_add((pixel as u32) * 2));
        alpha = if pixel == 0 { alpha0 } else { 31 };
    } else if fmt == 5 {
        let r = texture_compressed(vram, vramaddr, texpal, width, s, t);
        color = r.0;
        alpha = r.1;
    } else if fmt == 6 {
        // A5I3
        proof {
            lemma_wrap_add(vramaddr, idx as u32);
        }
        let pixel: u8 = vram.tex_u8(vramaddr.wrapping_add(idx as u32));
        let tp: u32 = texpal << 4;
        proof {
            lemma_wrap_add(tp, (((pixel & 0x7) as u32) * 2) as u32);
        }
        color = vram.pal_u16(tp.wrapping_add(((pixel & 0x7) as u32) * 2));
        alpha = pixel >> 3;
    } else if fmt == 7 {
        // direct color
        proof {
            lemma_wrap_add(vramaddr, (idx * 2) as u32);
        }
        color = vram.tex_u16(vramaddr.wrapping_add((idx * 2) as u32));
        alpha = if color & 0x8000 != 0 { 31 } else { 0 };
    }
    // format 0: untextured, colour and alpha stay 0

    (color, alpha)
}

/// The 4x4-compressed branch of texture sampling.
fn texture_compressed(vram: &Vram, base: u32, texpal: u32, width: i32, s: i32, t: i32) -> (res: (
    u16,
    u8,
))
    requires
        vram.wf(),
        8 <= width <= 1024,
        width >> 2u32 == width / 4,
        0 <= s < width,
        0 <= t < 1024,
    ensures
        res == compressed_spec(vram.tex@, vram.pal@, base, texpal, width, s, t),
{
    proof {
        lemma_and_le_i32(t, 0x3FC);
        lemma_and_le_i32(s, 0x3FC);
        lemma_and_le_i32(t, 0x3);
        lemma_and_le_i32(s, 0x3);
    }
    let w4: i32 = width >> 2;
    assert(0 <= (t & 0x3FC) * w4 <= 0x3FC * 256) by (nonlinear_arith)
        requires
            0 <= t & 0x3FC <= 0x3FC,
            0 <= w4 <= 256,
    ;
    let o1: u32 = ((t & 0x3FC) * w4) as u32;
    let o2: u32 = (s & 0x3FC) as u32;
    let o3: u32 = (t & 0x3) as u32;
    let a1: u32 = base.wrapping_add(o1);
    let a2: u32 = a1.wrapping_add(o2);
    let a3: u32 = a2.wrapping_add(o3);
    proof {
        lemma_wrap_add(base, o1);
        lemma_wrap_add(a1, o2);
        lemma_wrap_add(a2, o3);
        lemma_wrap32_add(base + o1, o2 as int);
        lemma_wrap32_add(base + o1 + o2, o3 as int);
    }
    let vramaddr: u32 = a3 & 0x7FFFF;  // wraps around after slot 3

    proof {
        lemma_and_le_u32(vramaddr, 0x1FFFC);
        lemma_shr_u32(vramaddr & 0x1FFFC, 1);
    }
    let mut slot1addr: u32 = 0x20000 + ((vramaddr & 0x1FFFC) >> 1);
    if vramaddr >= 0x40000 {
        slot1addr += 0x10000;
    }

    let val: u8 = if vramaddr >= 0x20000 && vramaddr < 0x40000 {
        // reading slot 1 for texels should always read 0
        0
    } else {
        let v: u8 = vram.tex_u8(vramaddr);
        v >> ((2 * (s & 0x3)) as u8)
    };

    let palinfo: u16 = vram.tex_u16(slot1addr);
    proof {
        lemma_and_le_u16(palinfo, 0x3FFF);
    }
    let paloffset: u32 = ((palinfo & 0x3FFF) as u32) * 4;
    let tp: u32 = texpal << 4;
    let mode: u16 = palinfo >> 14;
    let a0: u32 = tp.wrapping_add(paloffset);
    proof {
        lemma_wrap_add(tp, paloffset);
        lemma_wrap_add(a0, 2);
        lemma_wrap_add(a0, 4);
        lemma_wrap_add(a0, 6);
        lemma_wrap32_add(tp + paloffset, 2);
        lemma_wrap32_add(tp + paloffset, 4);
        lemma_wrap32_add(tp + paloffset, 6);
    }

    let sel: u8 = val & 0x3;
    if sel == 0 {
        (vram.pal_u16(a0), 31)
    } else if sel == 1 {
        (vram.pal_u16(a0.wrapping_add(2)), 31)
    } else if sel == 2 {
        if mode == 1 {
            (blend_compressed(vram, tp, paloffset, 1, 1, 1), 31)
        } else if mode == 3 {
            (blend_compressed(vram, tp, paloffset, 5, 3, 3), 31)
        } else {
            (vram.pal_u16(a0.wrapping_add(4)), 31)
        }
    } else {
        if mode == 2 {
            (vram.pal_u16(a0.wrapping_add(6)), 31)
        } else if mode == 3 {
            (blend_compressed(vram, tp, paloffset, 3, 5, 3), 31)
        } else {
            (0, 0)
        }
    }
}

/// Every lookup yields an alpha in the hardware's 5-bit range 0..=31.
pub proof fn lemma_texture_alpha_range(
    tex: Seq<u8>,
    pal: Seq<u8>,
    texparam: u32,
    texpal: u32,
    s: i16,
    t: i16,
)
    ensures
        texture_spec(tex, pal, texparam, texpal, s, t).1 <= 31,
{
    let base: u32 = (texparam & 0xFFFF) << 3u32;
    let width = tex_size(texparam >> 20u32);
    let sx = texel_s(texparam, s);
    let ty = texel_t(texparam, t);
    let idx: int = ty * width + sx;
    let px = tex8(tex, wrap32(base + idx));
    assert(((px >> 3u8) & 0x1C) + (px >> 6u8) <= 31 && px >> 3u8 <= 31) by (bit_vector);
}

/// Under a mirrored repeat, texel `k` of the first period and texel
/// `2 * size - 1 - k` of the second (mirrored) one map to the same texel.
proof fn lemma_mirror_coord(k: i32, w: i32)
    requires
        8 <= w <= 1024,
        w & ((w - 1) as i32) == 0,
        0 <= k < w,
    ensures
        wrap_coord(k, w, true, true) == k,
        wrap_coord((2 * w - 1 - k) as i32, w, true, true) == k,
{
    let c2: i32 = (2 * w - 1 - k) as i32;
    assert((k & w) == 0 && (k & ((w - 1) as i32)) == k && (c2 & w) != 0 && (c2 & ((w - 1) as i32)) == w - 1 - k)
        by (bit_vector)
        requires
            8 <= w <= 1024,
            w & ((w - 1) as i32) == 0,
            0 <= k < w,
            c2 == 2 * w - 1 - k,
    ;
}

/// Mirrored repeat in S: with S repeat and flip set, the texture
/// coordinate of texel `k` and that of texel `2 * width - 1 - k` sample
/// the same texel, so the lookup returns the same colour and alpha.
pub proof fn lemma_texture_mirrored_repeat_s(
    tex: Seq<u8>,
    pal: Seq<u8>,
    texparam: u32,
    texpal: u32,
    k: int,
    t: i16,
)
    requires
        texparam & 0x10000 != 0,
        texparam & 0x40000 != 0,
        0 <= k < tex_size(texparam >> 20u32),
    ensures
        texture_spec(tex, pal, texparam, texpal, (16 * k) as i16, t) == texture_spec(
            tex,
            pal,
            texparam,
            texpal,
            (16 * (2 * tex_size(texparam >> 20u32) - 1 - k)) as i16,
            t,
        ),
{
    let w = tex_size(texparam >> 20u32);
    lemma_tex_size(texparam >> 20u32);
    let k32: i32 = k as i32;
    let m32: i32 = (2 * w - 1 - k) as i32;
    let a: i16 = (16 * k) as i16;
    let b: i16 = (16 * (2 * w - 1 - k)) as i16;
    let av: i32 = a as i32;
    let bv: i32 = b as i32;
    assert(av == 16 * k32 && bv == 16 * m32);
    assert(av >> 4u32 == k32) by (bit_vector)
        requires av == 16 * k32, 0 <= k32 < 1024;
    assert(bv >> 4u32 == m32) by (bit_vector)
        requires bv == 16 * m32, 0 <= m32 < 2048;
    lemma_mirror_coord(k32, w);
    assert(texel_s(texparam, a) == texel_s(texparam, b));
}

} // verus!
