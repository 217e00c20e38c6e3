//! The tile and sprite engine: a 16x16 frame of quat pixels composed in
//! RAM 0x00-0xFF from a 4x4 tile map (RAM 0x90), 4x4-pixel tile patterns
//! (RAM 0xA0, one byte per pattern row, four quats per byte) and four
//! hardware sprites drawn over it.
//!
//! The frame shares RAM with the tile map and the patterns, so composing
//! it overwrites them as it goes; the specification follows the writes in
//! their order.

use vstd::prelude::*;
use crate::kernel::{QuatByte, QuatKernel};

verus! {

/// A hardware sprite: position, tile and flags (bit 0 flip X, bit 1 flip
/// Y, bit 2 transparent).
#[derive(Clone, Copy, Debug)]
pub struct HardwareSprite {
    pub x: u8,
    pub y: u8,
    pub tile_id: u8,
    pub flags: u8,
}

/// The engine.
pub struct QuatGPU {
    pub active_palette: [(u8, u8, u8); 4],
    pub selected_tile: usize,
    pub sprites: [HardwareSprite; 4],
    pub show_grid: bool,
}

/// The four shades of green.
pub open spec fn gpu_palette() -> Seq<(u8, u8, u8)> {
    seq![(15u8, 20u8, 25u8), (0, 110, 70), (0, 200, 100), (180, 255, 120)]
}

/// Quat `px` (0 is the leftmost) of a pattern row.
pub open spec fn row_quat(row: u8, px: int) -> u8 {
    (row >> (((3 - px) * 2) as u8)) & 3u8
}

/// RAM after pixel `p` (rows first) of background tile `k` (tile map
/// entry `k`, rows first) is drawn with the pattern of tile `t`.
pub open spec fn tile_pixel(ram: Seq<QuatByte>, k: int, t: int, p: int) -> Seq<QuatByte> {
    let ty = k / 4;
    let tx = k % 4;
    let py = p / 4;
    let px = p % 4;
    let row = ram[0xA0 + t * 4 + py].0;
    ram.update((ty * 4 + py) * 16 + tx * 4 + px, QuatByte((row_quat(row, px) * 85) as u8))
}

/// RAM after the first `p` pixels of background tile `k` are drawn with
/// the pattern of tile `t`.
pub open spec fn tile_pixels(ram: Seq<QuatByte>, k: int, t: int, p: nat) -> Seq<QuatByte>
    decreases p,
{
    if p == 0 {
        ram
    } else {
        tile_pixel(tile_pixels(ram, k, t, (p - 1) as nat), k, t, p - 1)
    }
}

/// RAM after the first `k` background tiles; each tile's number is read
/// from the tile map once, before the tile is drawn.
pub open spec fn bg_after(ram: Seq<QuatByte>, k: nat) -> Seq<QuatByte>
    decreases k,
{
    if k == 0 {
        ram
    } else {
        let r = bg_after(ram, (k - 1) as nat);
        tile_pixels(r, k - 1, (r[0x90 + k - 1].0 % 16) as int, 16)
    }
}

/// RAM after sprite pixel `m` is drawn: pixel `px`, row `py` of sprite
/// `m / 16`; transparent (quat 0) and off-frame pixels leave it.
pub open spec fn sprite_pixel(ram: Seq<QuatByte>, sprites: Seq<HardwareSprite>, m: int) -> Seq<QuatByte> {
    let s = sprites[m / 16];
    let py = (m / 4) % 4;
    let px = m % 4;
    let tx = s.x + px;
    let ty = s.y + py;
    let row = ram[0xA0 + (s.tile_id % 16) * 4 + py].0;
    let q = row_quat(row, px);
    if tx < 16 && ty < 16 && q > 0 {
        ram.update(ty * 16 + tx, QuatByte((q * 85) as u8))
    } else {
        ram
    }
}

/// RAM after the first `m` sprite pixels.
pub open spec fn sprites_after(ram: Seq<QuatByte>, sprites: Seq<HardwareSprite>, m: nat) -> Seq<QuatByte>
    decreases m,
{
    if m == 0 {
        ram
    } else {
        sprite_pixel(sprites_after(ram, sprites, (m - 1) as nat), sprites, m - 1)
    }
}

/// RAM after a whole frame.
pub open spec fn rendered(ram: Seq<QuatByte>, sprites: Seq<HardwareSprite>) -> Seq<QuatByte> {
    sprites_after(bg_after(ram, 16), sprites, 64)
}

/// `row` with quat `px` stepped to the next colour (3 wraps to 0).
pub open spec fn cycled_row(row: u8, px: int) -> u8 {
    let shift = ((3 - px) * 2) as u8;
    let q = ((row_quat(row, px) + 1) % 4) as u8;
    (row & !(3u8 << shift)) | (q << shift)
}

impl QuatGPU {
    /// The green palette, tile 0 selected, four sprites (tiles 1, 2, 3, 0
    /// at (2, 2), (10, 4), (6, 11), (12, 12)), grid shown.
    pub fn new() -> (g: QuatGPU)
        ensures
            g.active_palette@ == gpu_palette(),
            g.selected_tile == 0,
            g.sprites[0].x == 2 && g.sprites[0].y == 2 && g.sprites[0].tile_id == 1 && g.sprites[0].flags == 0,
            g.sprites[1].x == 10 && g.sprites[1].y == 4 && g.sprites[1].tile_id == 2 && g.sprites[1].flags == 0,
            g.sprites[2].x == 6 && g.sprites[2].y == 11 && g.sprites[2].tile_id == 3 && g.sprites[2].flags == 0,
            g.sprites[3].x == 12 && g.sprites[3].y == 12 && g.sprites[3].tile_id == 0 && g.sprites[3].flags == 0,
            g.show_grid,
    {
        let g = QuatGPU {
            active_palette: [(15, 20, 25), (0, 110, 70), (0, 200, 100), (180, 255, 120)],
            selected_tile: 0,
            sprites: [
                HardwareSprite { x: 2, y: 2, tile_id: 1, flags: 0 },
                HardwareSprite { x: 10, y: 4, tile_id: 2, flags: 0 },
                HardwareSprite { x: 6, y: 11, tile_id: 3, flags: 0 },
                HardwareSprite { x: 12, y: 12, tile_id: 0, flags: 0 },
            ],
            show_grid: true,
        };
        assert(g.active_palette@ =~= gpu_palette());
        g
    }

    /// Composes the frame in RAM 0x00-0xFF: the tile map's tiles, then the
    /// sprites' opaque pixels over them; each quat `q` is stored as
    /// `85 * q`.
    pub fn render_frame(&self, kernel: &mut QuatKernel)
        ensures
            final(kernel).ram@ == rendered(old(kernel).ram@, self.sprites@),
            final(kernel).vram == old(kernel).vram,
            final(kernel).reg_a == old(kernel).reg_a,
            final(kernel).reg_b == old(kernel).reg_b,
            final(kernel).pc == old(kernel).pc,
            final(kernel).is_running == old(kernel).is_running,
            final(kernel).logs == old(kernel).logs,
    {
        let ghost ram0 = kernel.ram@;
        let mut k: usize = 0;
        while k < 16
            invariant
                k <= 16,
                kernel.ram@ == bg_after(ram0, k as nat),
                kernel.vram == old(kernel).vram,
                kernel.reg_a == old(kernel).reg_a,
                kernel.reg_b == old(kernel).reg_b,
                kernel.pc == old(kernel).pc,
                kernel.is_running == old(kernel).is_running,
                kernel.logs == old(kernel).logs,
            decreases 16 - k,
        {
            let tile_y = k / 4;
            let tile_x = k % 4;
            let tile_id = (kernel.ram[0x90 + k].0 % 16) as usize;
            let ghost start = kernel.ram@;
            let mut p: usize = 0;
            while p < 16
                invariant
                    k < 16,
                    p <= 16,
                    tile_y == k / 4,
                    tile_x == k % 4,
                    tile_id < 16,
                    kernel.ram@ == tile_pixels(start, k as int, tile_id as int, p as nat),
                    kernel.vram == old(kernel).vram,
                    kernel.reg_a == old(kernel).reg_a,
                    kernel.reg_b == old(kernel).reg_b,
                    kernel.pc == old(kernel).pc,
                    kernel.is_running == old(kernel).is_running,
                    kernel.logs == old(kernel).logs,
                decreases 16 - p,
            {
                let py = p / 4;
                let px = p % 4;
                let frame_addr = (tile_y * 4 + py) * 16 + tile_x * 4 + px;
                let pattern_addr = 0xA0 + tile_id * 4 + py;
                let row_byte = kernel.ram[pattern_addr].0;
                let color_idx = (row_byte >> (((3 - px) * 2) as u8)) & 0x03;
                assert(color_idx <= 3) by (bit_vector)
                    requires
                        color_idx == (row_byte >> (((3 - px) * 2) as u8)) & 0x03,
                ;
                kernel.ram[frame_addr] = QuatByte(color_idx * 85);
                p = p + 1;
            }
            k = k + 1;
        }
        let mut m: usize = 0;
        while m < 64
            invariant
                m <= 64,
                kernel.ram@ == sprites_after(bg_after(ram0, 16), self.sprites@, m as nat),
                kernel.vram == old(kernel).vram,
                kernel.reg_a == old(kernel).reg_a,
                kernel.reg_b == old(kernel).reg_b,
                kernel.pc == old(kernel).pc,
                kernel.is_running == old(kernel).is_running,
                kernel.logs == old(kernel).logs,
            decreases 64 - m,
        {
            let sprite = self.sprites[m / 16];
            let py = (m / 4) % 4;
            let px = m % 4;
            let sx = sprite.x as usize;
            let sy = sprite.y as usize;
            let tile_id = sprite.tile_id as usize % 16;
            let target_x = sx + px;
            let target_y = sy + py;
            if target_x < 16 && target_y < 16 {
                let pattern_addr = 0xA0 + (tile_id * 4) + py;
                let row_byte = kernel.ram[pattern_addr].0;
                let color_idx = (row_byte >> (((3 - px) * 2) as u8)) & 0x03;
                assert(color_idx <= 3) by (bit_vector)
                    requires
                        color_idx == (row_byte >> (((3 - px) * 2) as u8)) & 0x03,
                ;
                if color_idx > 0 {
                    let frame_addr = target_y * 16 + target_x;
                    kernel.ram[frame_addr] = QuatByte(color_idx * 85);
                }
            }
            m = m + 1;
        }
    }

    /// A click on pixel `(px, py)` of the selected tile's pattern steps
    /// its colour (0, 1, 2, 3, 0, ...).
    pub fn cycle_pattern_pixel(&self, kernel: &mut QuatKernel, px: usize, py: usize)
        requires
            0xA0 + self.selected_tile * 4 + py < 256,
            px < 4,
        ensures
            ({
                let addr = 0xA0 + self.selected_tile * 4 + py;
                final(kernel).ram@ == old(kernel).ram@.update(
                    addr,
                    QuatByte(cycled_row(old(kernel).ram@[addr].0, px as int)),
                )
            }),
            final(kernel).vram == old(kernel).vram,
            final(kernel).pc == old(kernel).pc,
            final(kernel).reg_a == old(kernel).reg_a,
            final(kernel).reg_b == old(kernel).reg_b,
            final(kernel).is_running == old(kernel).is_running,
            final(kernel).logs == old(kernel).logs,
    {
        let row_addr = 0xA0 + self.selected_tile * 4 + py;
        let row_byte = kernel.ram[row_addr].0;
        let shift = ((3 - px) * 2) as u8;
        let pixel_val = (row_byte >> shift) & 0x03;
        assert(pixel_val <= 3) by (bit_vector)
            requires
                pixel_val == (row_byte >> shift) & 0x03,
        ;
        let next = (pixel_val + 1) % 4;
        let new_row = (row_byte & !(0x03 << shift)) | (next << shift);
        kernel.ram[row_addr] = QuatByte(new_row);
    }
}

} // verus!
