//! The integer side of the CRT monitor: its 160x120 RGB frame buffer, the
//! 8x8 font drawn into it, the mask and phosphor settings, and the noise
//! generator's state.  The monitor's optics (curvature, scanlines, glow)
//! are floating point and computed by the caller.

use vstd::prelude::*;

verus! {

/// Pixels per row of the monitor.
pub const CRT_WIDTH: usize = 160;

/// Rows of the monitor.
pub const CRT_HEIGHT: usize = 120;

/// The mask in front of the phosphor.
#[derive(Clone, Copy, Debug, PartialEq, Eq, Structural)]
pub enum ShadowMaskType {
    NoMask,
    ApertureGrille,
    ShadowMask,
    SlotMask,
}

/// The colour of the phosphor.
#[derive(Clone, Copy, Debug, PartialEq, Eq, Structural)]
pub enum ColorPhosphorMode {
    FullColor,
    GreenPhosphor,
    AmberPhosphor,
    PaperWhite,
}

/// The rows of the 8x8 glyph of hex digit `g` (0-15), top first, the
/// leftmost pixel in the high bit.
pub open spec fn glyph_rows(g: int) -> Seq<u8> {
    if g == 0 {
        seq![0x3Eu8, 0x66, 0x6E, 0x76, 0x66, 0x66, 0x3E, 0x00]
    } else if g == 1 {
        seq![0x1Cu8, 0x3C, 0x1C, 0x1C, 0x1C, 0x1C, 0x7E, 0x00]
    } else if g == 2 {
        seq![0x3Eu8, 0x66, 0x06, 0x1C, 0x30, 0x60, 0x7E, 0x00]
    } else if g == 3 {
        seq![0x3Eu8, 0x66, 0x06, 0x1E, 0x06, 0x66, 0x3E, 0x00]
    } else if g == 4 {
        seq![0x0Cu8, 0x1C, 0x3C, 0x6C, 0xFE, 0x0C, 0x0C, 0x00]
    } else if g == 5 {
        seq![0x7Eu8, 0x60, 0x7C, 0x06, 0x06, 0x66, 0x3E, 0x00]
    } else if g == 6 {
        seq![0x1Cu8, 0x30, 0x60, 0x7C, 0x66, 0x66, 0x3E, 0x00]
    } else if g == 7 {
        seq![0x7Eu8, 0x66, 0x0C, 0x18, 0x18, 0x18, 0x18, 0x00]
    } else if g == 8 {
        seq![0x3Eu8, 0x66, 0x66, 0x3E, 0x66, 0x66, 0x3E, 0x00]
    } else if g == 9 {
        seq![0x3Eu8, 0x66, 0x66, 0x3E, 0x06, 0x0C, 0x38, 0x00]
    } else if g == 10 {
        seq![0x1Cu8, 0x36, 0x63, 0x7F, 0x63, 0x63, 0x63, 0x00]
    } else if g == 11 {
        seq![0x7Cu8, 0x66, 0x66, 0x7C, 0x66, 0x66, 0x7C, 0x00]
    } else if g == 12 {
        seq![0x3Cu8, 0x66, 0x60, 0x60, 0x60, 0x66, 0x3C, 0x00]
    } else if g == 13 {
        seq![0x78u8, 0x6C, 0x66, 0x66, 0x66, 0x6C, 0x78, 0x00]
    } else if g == 14 {
        seq![0x7Eu8, 0x60, 0x60, 0x78, 0x60, 0x60, 0x7E, 0x00]
    } else {
        seq![0x7Eu8, 0x60, 0x60, 0x78, 0x60, 0x60, 0x60, 0x00]
    }
}

/// The glyph of a character: the hex digits `0`-`9` and `A`-`F` have
/// their own, every other character is drawn as `0`.
pub open spec fn glyph_of(ch: char) -> int {
    if '0' <= ch <= '9' {
        ch as int - '0' as int
    } else if 'A' <= ch <= 'F' {
        ch as int - 'A' as int + 10
    } else {
        0
    }
}

/// Pixel `(x, y)` is lit by the glyph of `ch` drawn at `(sx, sy)`.
pub open spec fn glyph_lit(ch: char, sx: int, sy: int, x: int, y: int) -> bool {
    sx <= x < sx + 8 && sy <= y < sy + 8 && x < 160 && y < 120 && glyph_rows(glyph_of(ch))[y - sy] & (
    0x80u8 >> ((x - sx) as u8)) != 0
}

/// The next state of the noise generator (a linear congruential one).
pub open spec fn lcg_step(seed: u32) -> u32 {
    vstd::wrapping::u32_specs::wrapping_add(vstd::wrapping::u32_specs::wrapping_mul(seed, 1664525), 1013904223)
}

/// The glyph of hex digit `g`.
fn glyph(g: usize) -> (r: [u8; 8])
    requires
        g < 16,
    ensures
        r@ == glyph_rows(g as int),
{
    let r: [u8; 8] = if g == 0 {
        [0x3E, 0x66, 0x6E, 0x76, 0x66, 0x66, 0x3E, 0x00]
    } else if g == 1 {
        [0x1C, 0x3C, 0x1C, 0x1C, 0x1C, 0x1C, 0x7E, 0x00]
    } else if g == 2 {
        [0x3E, 0x66, 0x06, 0x1C, 0x30, 0x60, 0x7E, 0x00]
    } else if g == 3 {
        [0x3E, 0x66, 0x06, 0x1E, 0x06, 0x66, 0x3E, 0x00]
    } else if g == 4 {
        [0x0C, 0x1C, 0x3C, 0x6C, 0xFE, 0x0C, 0x0C, 0x00]
    } else if g == 5 {
        [0x7E, 0x60, 0x7C, 0x06, 0x06, 0x66, 0x3E, 0x00]
    } else if g == 6 {
        [0x1C, 0x30, 0x60, 0x7C, 0x66, 0x66, 0x3E, 0x00]
    } else if g == 7 {
        [0x7E, 0x66, 0x0C, 0x18, 0x18, 0x18, 0x18, 0x00]
    } else if g == 8 {
        [0x3E, 0x66, 0x66, 0x3E, 0x66, 0x66, 0x3E, 0x00]
    } else if g == 9 {
        [0x3E, 0x66, 0x66, 0x3E, 0x06, 0x0C, 0x38, 0x00]
    } else if g == 10 {
        [0x1C, 0x36, 0x63, 0x7F, 0x63, 0x63, 0x63, 0x00]
    } else if g == 11 {
        [0x7C, 0x66, 0x66, 0x7C, 0x66, 0x66, 0x7C, 0x00]
    } else if g == 12 {
        [0x3C, 0x66, 0x60, 0x60, 0x60, 0x66, 0x3C, 0x00]
    } else if g == 13 {
        [0x78, 0x6C, 0x66, 0x66, 0x66, 0x6C, 0x78, 0x00]
    } else if g == 14 {
        [0x7E, 0x60, 0x60, 0x78, 0x60, 0x60, 0x7E, 0x00]
    } else {
        [0x7E, 0x60, 0x60, 0x78, 0x60, 0x60, 0x60, 0x00]
    };
    assert(r@ =~= glyph_rows(g as int));
    r
}

/// The glyph number of `ch` (see `glyph_of`).
pub fn glyph_index(ch: char) -> (g: usize)
    ensures
        g == glyph_of(ch),
        g < 16,
{
    if '0' <= ch && ch <= '9' {
        (ch as u32 - '0' as u32) as usize
    } else if 'A' <= ch && ch <= 'F' {
        (ch as u32 - 'A' as u32 + 10) as usize
    } else {
        0
    }
}

/// Draws the 8x8 glyph of `ch` with its top left corner at
/// `(start_x, start_y)` in colour `color`; pixels off the monitor are
/// skipped and unlit glyph pixels keep their colour.
pub fn draw_char_at(vram_rgb: &mut Vec<[u8; 3]>, ch: char, start_x: usize, start_y: usize, color: [u8; 3])
    requires
        old(vram_rgb)@.len() == CRT_WIDTH * CRT_HEIGHT,
        start_y < CRT_HEIGHT ==> start_x + 7 <= usize::MAX,
        start_y + 7 <= usize::MAX,
    ensures
        final(vram_rgb)@.len() == old(vram_rgb)@.len(),
        forall|x: int, y: int|
            0 <= x < 160 && 0 <= y < 120 ==> #[trigger] final(vram_rgb)@[y * 160 + x] == (if glyph_lit(
                ch,
                start_x as int,
                start_y as int,
                x,
                y,
            ) {
                color
            } else {
                old(vram_rgb)@[y * 160 + x]
            }),
{
    let g = glyph(glyph_index(ch));
    let mut row: usize = 0;
    while row < 8
        invariant
            row <= 8,
            g@ == glyph_rows(glyph_of(ch)),
            start_y < 120 ==> start_x + 7 <= usize::MAX,
            start_y + 7 <= usize::MAX,
            vram_rgb@.len() == 19200,
            forall|x: int, y: int|
                0 <= x < 160 && 0 <= y < 120 ==> #[trigger] vram_rgb@[y * 160 + x] == (if glyph_lit(
                    ch,
                    start_x as int,
                    start_y as int,
                    x,
                    y,
                ) && y < start_y + row {
                    color
                } else {
                    old(vram_rgb)@[y * 160 + x]
                }),
        decreases 8 - row,
    {
        let py = start_y + row;
        if py < CRT_HEIGHT {
            let line = g[row];
            let mut col: usize = 0;
            while col < 8
                invariant
                    row < 8,
                    col <= 8,
                    py == start_y + row,
                    py < 120,
                    line == g@[row as int],
                    g@ == glyph_rows(glyph_of(ch)),
                    start_x + 7 <= usize::MAX,
                    vram_rgb@.len() == 19200,
                    forall|x: int, y: int|
                        0 <= x < 160 && 0 <= y < 120 ==> #[trigger] vram_rgb@[y * 160 + x] == (if glyph_lit(
                            ch,
                            start_x as int,
                            start_y as int,
                            x,
                            y,
                        ) && (y < start_y + row || (y == py && x < start_x + col)) {
                            color
                        } else {
                            old(vram_rgb)@[y * 160 + x]
                        }),
                decreases 8 - col,
            {
                let px = start_x + col;
                if px < CRT_WIDTH {
                    let lit = (line & (0x80u8 >> (col as u8))) != 0;
                    if lit {
                        let idx = py * CRT_WIDTH + px;
                        proof {
                            assert forall|x: int, y: int|
                                #![trigger vram_rgb@[y * 160 + x]]
                                0 <= x < 160 && 0 <= y < 120 && y * 160 + x == idx implies x == px && y == py by {
                                assert(0 <= y * 160 + x) by (nonlinear_arith)
                                    requires
                                        0 <= x,
                                        0 <= y,
                                ;
                                if y < py {
                                    assert(y * 160 + x < py * 160) by (nonlinear_arith)
                                        requires
                                            y < py,
                                            x < 160,
                                    ;
                                } else if y > py {
                                    assert(y * 160 >= py * 160 + 160) by (nonlinear_arith)
                                        requires
                                            y > py,
                                    ;
                                }
                            }
                            assert(idx < 19200) by (nonlinear_arith)
                                requires
                                    idx == py * 160 + px,
                                    py < 120,
                                    px < 160,
                            ;
                        }
                        vram_rgb.set(idx, color);
                    }
                }
                col = col + 1;
            }
        }
        row = row + 1;
    }
}

/// The noise generator's next state.
pub fn lcg_next(seed: u32) -> (r: u32)
    ensures
        r == lcg_step(seed),
{
    seed.wrapping_mul(1664525).wrapping_add(1013904223)
}

} // verus!
