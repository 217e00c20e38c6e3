//! The VGA adapter in mode 13h: 320x200 pixels of palette indices, a
//! 256-colour palette and built-in demo effects.

use vstd::prelude::*;
use crate::kernel::QuatKernel;

verus! {

/// Pixels per row.
pub const VGA_WIDTH: usize = 320;

/// Rows.
pub const VGA_HEIGHT: usize = 200;

/// Bytes of video memory.
pub const VRAM_SIZE: usize = 64000;

/// The adapter.  `demo_mode`: 0 off, 1 plasma, 2 fire, 3 starfield.
pub struct QuatVGA {
    pub vram: Vec<u8>,
    pub palette: [(u8, u8, u8); 256],
    pub demo_mode: usize,
    pub frame_counter: usize,
}

/// The sixteen CGA/EGA colours.
pub open spec fn cga_colours() -> Seq<(u8, u8, u8)> {
    seq![
        (0u8, 0u8, 0u8),
        (0, 0, 170),
        (0, 170, 0),
        (0, 170, 170),
        (170, 0, 0),
        (170, 0, 170),
        (170, 85, 0),
        (170, 170, 170),
        (85, 85, 85),
        (85, 85, 255),
        (85, 255, 85),
        (85, 255, 255),
        (255, 85, 85),
        (255, 85, 255),
        (255, 255, 85),
        (255, 255, 255),
    ]
}

/// The intensity of level `v` (0-5) of the colour cube.
pub open spec fn cube_level(v: int) -> u8 {
    if v == 0 {
        0
    } else {
        (v * 40 + 55) as u8
    }
}

/// The standard palette: the CGA colours, a 6x6x6 colour cube from 16 on
/// (red slowest), and 24 greys from 232 on.
pub open spec fn default_colour(i: int) -> (u8, u8, u8) {
    if i < 16 {
        cga_colours()[i]
    } else if i < 232 {
        let k = i - 16;
        (cube_level(k / 36), cube_level((k / 6) % 6), cube_level(k % 6))
    } else {
        let g = ((i - 232) * 10 + 15) as u8;
        (g, g, g)
    }
}

/// The adapter has a full screen of video memory.
pub open spec fn vga_wf(v: QuatVGA) -> bool {
    v.vram@.len() == VRAM_SIZE
}

/// `v` with the pixel `(x, y)` set to `c` when it lies on the screen.
pub open spec fn with_pixel(v: Seq<u8>, x: int, y: int, c: u8) -> Seq<u8> {
    if 0 <= x < 320 && 0 <= y < 200 {
        v.update(y * 320 + x, c)
    } else {
        v
    }
}

/// The pixel at index `i` lies in the rectangle at `(x, y)` of size
/// `w` x `h`.
pub open spec fn in_rect(i: int, x: int, y: int, w: int, h: int) -> bool {
    x <= i % 320 < x + w && y <= i / 320 < y + h
}

/// Drawing the rectangle would step a coordinate past the largest `usize`.
pub open spec fn rect_overflows(x: usize, y: usize, w: usize, h: usize) -> bool {
    w > 0 && h > 0 && (x + w - 1 > usize::MAX || y + h - 1 > usize::MAX)
}

/// The fuel at the bottom of the fire in column `x` on frame `fc`.
pub open spec fn fire_seed(fc: usize, x: int) -> u8 {
    if vstd::wrapping::usize_specs::wrapping_mul(fc, (x + 13) as usize) % 2 == 0 {
        255
    } else {
        200
    }
}

/// How much the flame from `(x, y)` cools (0-2) on frame `fc`.
pub open spec fn fire_decay(fc: usize, x: int, y: int) -> u8 {
    (vstd::wrapping::usize_specs::wrapping_add(fc, (x + y) as usize) % 3) as u8
}

/// The pixel `(x, y)` at the start of the fire pass: the new fuel in the
/// bottom row, the old picture elsewhere.
pub open spec fn fire_src(v: Seq<u8>, fc: usize, x: int, y: int) -> u8 {
    if y == 199 {
        fire_seed(fc, x)
    } else {
        v[y * 320 + x]
    }
}

/// What the flame at `(x, y)` leaves in the row above.
pub open spec fn fire_out(v: Seq<u8>, fc: usize, x: int, y: int) -> u8 {
    let p = fire_src(v, fc, x, y);
    if p == 0 {
        0
    } else if p < fire_decay(fc, x, y) * 4 {
        0
    } else {
        (p - fire_decay(fc, x, y) * 4) as u8
    }
}

/// The column of the row above that the flame at `(x, y)` rises to: one to
/// the left when it cools by 1, else straight up.
pub open spec fn fire_dst(v: Seq<u8>, fc: usize, x: int, y: int) -> int {
    if fire_src(v, fc, x, y) != 0 && x > 0 && fire_decay(fc, x, y) == 1 {
        x - 1
    } else {
        x
    }
}

/// Pixel `p` of row `y - 1` once the flames of columns `0..k` of row `y`
/// have risen: the right neighbour's flame wins over the pixel's own.
pub open spec fn fire_risen(v: Seq<u8>, fc: usize, p: int, y: int, k: int) -> u8 {
    if p + 1 < k && fire_dst(v, fc, p + 1, y) == p {
        fire_out(v, fc, p + 1, y)
    } else if p < k && fire_dst(v, fc, p, y) == p {
        fire_out(v, fc, p, y)
    } else {
        v[(y - 1) * 320 + p]
    }
}

/// The picture after one frame of the fire effect.
pub open spec fn fire_frame(v: Seq<u8>, fc: usize) -> Seq<u8> {
    Seq::new(
        64000,
        |i: int|
            if i / 320 == 199 {
                fire_seed(fc, i % 320)
            } else {
                fire_risen(v, fc, i % 320, i / 320 + 1, 320)
            },
    )
}

/// The column of star `i` at speed `s`.
pub open spec fn star_x(i: int, s: usize) -> int {
    (i * 37 + s * (i % 4 + 1)) % 320
}

/// The row of star `i`.
pub open spec fn star_y(i: int) -> int {
    (i * 91) % 200
}

/// The colour of star `i`: bright white, light grey or dark grey.
pub open spec fn star_colour(i: int) -> u8 {
    if i % 3 == 0 {
        15
    } else if i % 3 == 1 {
        7
    } else {
        8
    }
}

/// A black screen with the first `n` stars drawn in order.
pub open spec fn star_field(s: usize, n: nat) -> Seq<u8>
    decreases n,
{
    if n == 0 {
        Seq::new(64000, |i: int| 0u8)
    } else {
        with_pixel(star_field(s, (n - 1) as nat), star_x(n - 1, s), star_y(n - 1), star_colour(n - 1))
    }
}

/// No star coordinate of the starfield at speed `s` passes the largest
/// `usize` while it is computed.
pub open spec fn stars_fit(s: usize) -> bool {
    forall|i: int| 0 <= i < 150 ==> #[trigger] (i * 37 + s * (i % 4 + 1)) <= usize::MAX
}

/// The frame counter after `fc`.
pub open spec fn next_frame(fc: usize) -> usize {
    vstd::wrapping::usize_specs::wrapping_add(fc, 1)
}

proof fn lemma_index(r: int, p: int)
    requires
        0 <= r,
        0 <= p < 320,
    ensures
        (r * 320 + p) / 320 == r,
        (r * 320 + p) % 320 == p,
{
    assert((r * 320 + p) / 320 == r && (r * 320 + p) % 320 == p) by (nonlinear_arith)
        requires
            0 <= r,
            0 <= p < 320,
    ;
}

proof fn lemma_index_bound(r: int, p: int)
    requires
        0 <= r < 200,
        0 <= p < 320,
    ensures
        0 <= r * 320 + p < 64000,
{
    assert(0 <= r * 320 + p < 64000) by (nonlinear_arith)
        requires
            0 <= r < 200,
            0 <= p < 320,
    ;
}

proof fn lemma_cube_index(r: int, g: int, b: int)
    requires
        0 <= r < 6,
        0 <= g < 6,
        0 <= b < 6,
    ensures
        (r * 36 + g * 6 + b) / 36 == r,
        ((r * 36 + g * 6 + b) / 6) % 6 == g,
        (r * 36 + g * 6 + b) % 6 == b,
{
    assert((r * 36 + g * 6 + b) / 36 == r && ((r * 36 + g * 6 + b) / 6) % 6 == g && (r * 36 + g * 6 + b)
        % 6 == b) by (nonlinear_arith)
        requires
            0 <= r < 6,
            0 <= g < 6,
            0 <= b < 6,
    ;
}

impl QuatVGA {
    /// A black screen, the standard palette, no demo, frame 0.
    pub fn new() -> (v: QuatVGA)
        ensures
            vga_wf(v),
            forall|i: int| 0 <= i < 64000 ==> #[trigger] v.vram@[i] == 0,
            forall|i: int| 0 <= i < 256 ==> #[trigger] v.palette@[i] == default_colour(i),
            v.demo_mode == 0,
            v.frame_counter == 0,
    {
        let mut vram: Vec<u8> = Vec::new();
        let mut i: usize = 0;
        while i < VRAM_SIZE
            invariant
                i <= VRAM_SIZE,
                vram@.len() == i,
            decreases VRAM_SIZE - i,
        {
            vram.push(0);
            i = i + 1;
        }
        let mut vga = QuatVGA { vram, palette: [(0, 0, 0); 256], demo_mode: 0, frame_counter: 0 };
        vga.init_default_palette();
        vga.clear(0);
        vga
    }

    /// Loads the standard palette.
    fn init_default_palette(&mut self)
        ensures
            forall|i: int| 0 <= i < 256 ==> #[trigger] final(self).palette@[i] == default_colour(i),
            final(self).vram == old(self).vram,
            final(self).demo_mode == old(self).demo_mode,
            final(self).frame_counter == old(self).frame_counter,
    {
        let cga_colors: [(u8, u8, u8); 16] = [
            (0, 0, 0),
            (0, 0, 170),
            (0, 170, 0),
            (0, 170, 170),
            (170, 0, 0),
            (170, 0, 170),
            (170, 85, 0),
            (170, 170, 170),
            (85, 85, 85),
            (85, 85, 255),
            (85, 255, 85),
            (85, 255, 255),
            (255, 85, 85),
            (255, 85, 255),
            (255, 255, 85),
            (255, 255, 255),
        ];
        assert(cga_colors@ =~= cga_colours());
        let mut i: usize = 0;
        while i < 16
            invariant
                i <= 16,
                cga_colors@ == cga_colours(),
                forall|k: int| 0 <= k < i ==> #[trigger] self.palette@[k] == default_colour(k),
                self.vram == old(self).vram,
                self.demo_mode == old(self).demo_mode,
                self.frame_counter == old(self).frame_counter,
            decreases 16 - i,
        {
            self.palette[i] = cga_colors[i];
            i = i + 1;
        }
        let mut idx: usize = 16;
        let mut r: u8 = 0;
        while r < 6
            invariant
                r <= 6,
                idx == 16 + r * 36,
                forall|k: int| 0 <= k < idx ==> #[trigger] self.palette@[k] == default_colour(k),
                self.vram == old(self).vram,
                self.demo_mode == old(self).demo_mode,
                self.frame_counter == old(self).frame_counter,
            decreases 6 - r,
        {
            let mut g: u8 = 0;
            while g < 6
                invariant
                    r < 6,
                    g <= 6,
                    idx == 16 + r * 36 + g * 6,
                    forall|k: int| 0 <= k < idx ==> #[trigger] self.palette@[k] == default_colour(k),
                    self.vram == old(self).vram,
                    self.demo_mode == old(self).demo_mode,
                    self.frame_counter == old(self).frame_counter,
                decreases 6 - g,
            {
                let mut b: u8 = 0;
                while b < 6
                    invariant
                        r < 6,
                        g < 6,
                        b <= 6,
                        idx == 16 + r * 36 + g * 6 + b,
                        forall|k: int| 0 <= k < idx ==> #[trigger] self.palette@[k] == default_colour(k),
                        self.vram == old(self).vram,
                        self.demo_mode == old(self).demo_mode,
                        self.frame_counter == old(self).frame_counter,
                    decreases 6 - b,
                {
                    let cr: u8 = if r == 0 {
                        0
                    } else {
                        r * 40 + 55
                    };
                    let cg: u8 = if g == 0 {
                        0
                    } else {
                        g * 40 + 55
                    };
                    let cb: u8 = if b == 0 {
                        0
                    } else {
                        b * 40 + 55
                    };
                    proof {
                        lemma_cube_index(r as int, g as int, b as int);
                    }
                    self.palette[idx] = (cr, cg, cb);
                    idx = idx + 1;
                    b = b + 1;
                }
                g = g + 1;
            }
            r = r + 1;
        }
        let mut j: usize = 0;
        while j < 24
            invariant
                j <= 24,
                forall|k: int| 0 <= k < 232 + j ==> #[trigger] self.palette@[k] == default_colour(k),
                self.vram == old(self).vram,
                self.demo_mode == old(self).demo_mode,
                self.frame_counter == old(self).frame_counter,
            decreases 24 - j,
        {
            let gray = (j * 10 + 15) as u8;
            self.palette[232 + j] = (gray, gray, gray);
            j = j + 1;
        }
    }

    /// Fills the whole screen with colour `color_idx`.
    pub fn clear(&mut self, color_idx: u8)
        ensures
            final(self).vram@ == Seq::new(old(self).vram@.len(), |i: int| color_idx),
            final(self).palette == old(self).palette,
            final(self).demo_mode == old(self).demo_mode,
            final(self).frame_counter == old(self).frame_counter,
    {
        let n = self.vram.len();
        let mut i: usize = 0;
        while i < n
            invariant
                i <= n,
                n == self.vram@.len(),
                n == old(self).vram@.len(),
                forall|k: int| 0 <= k < i ==> #[trigger] self.vram@[k] == color_idx,
                self.palette == old(self).palette,
                self.demo_mode == old(self).demo_mode,
                self.frame_counter == old(self).frame_counter,
            decreases n - i,
        {
            self.vram.set(i, color_idx);
            i = i + 1;
        }
        assert(self.vram@ =~= Seq::new(old(self).vram@.len(), |i: int| color_idx));
    }

    /// Sets pixel `(x, y)` to `color_idx`; off-screen pixels are ignored.
    pub fn put_pixel(&mut self, x: usize, y: usize, color_idx: u8)
        requires
            vga_wf(*old(self)),
        ensures
            final(self).vram@ == with_pixel(old(self).vram@, x as int, y as int, color_idx),
            final(self).palette == old(self).palette,
            final(self).demo_mode == old(self).demo_mode,
            final(self).frame_counter == old(self).frame_counter,
    {
        if x < VGA_WIDTH && y < VGA_HEIGHT {
            proof {
                lemma_index_bound(y as int, x as int);
            }
            self.vram.set(y * VGA_WIDTH + x, color_idx);
        }
    }

    /// Fills the on-screen part of the `w` x `h` rectangle whose top left
    /// corner is `(x, y)` with colour `color_idx`.
    pub fn draw_rect(&mut self, x: usize, y: usize, w: usize, h: usize, color_idx: u8)
        requires
            vga_wf(*old(self)),
            !rect_overflows(x, y, w, h),
        ensures
            vga_wf(*final(self)),
            forall|i: int|
                0 <= i < 64000 ==> #[trigger] final(self).vram@[i] == (if in_rect(
                    i,
                    x as int,
                    y as int,
                    w as int,
                    h as int,
                ) {
                    color_idx
                } else {
                    old(self).vram@[i]
                }),
            final(self).palette == old(self).palette,
            final(self).demo_mode == old(self).demo_mode,
            final(self).frame_counter == old(self).frame_counter,
    {
        if w == 0 || h == 0 || x >= VGA_WIDTH || y >= VGA_HEIGHT {
            proof {
                assert forall|i: int| 0 <= i < 64000 implies !in_rect(i, x as int, y as int, w as int, h as int) by {
                    lemma_index(i / 320, i % 320);
                }
            }
            return;
        }
        let x_end: usize = if w > VGA_WIDTH - x {
            VGA_WIDTH
        } else {
            x + w
        };
        let y_end: usize = if h > VGA_HEIGHT - y {
            VGA_HEIGHT
        } else {
            y + h
        };
        let mut yy: usize = y;
        while yy < y_end
            invariant
                y <= yy <= y_end <= 200,
                x < x_end <= 320,
                x_end == x + w || (x_end == 320 && x + w > 320),
                y_end == y + h || (y_end == 200 && y + h > 200),
                vga_wf(*self),
                forall|i: int|
                    0 <= i < 64000 ==> #[trigger] self.vram@[i] == (if in_rect(
                        i,
                        x as int,
                        y as int,
                        w as int,
                        (yy - y) as int,
                    ) {
                        color_idx
                    } else {
                        old(self).vram@[i]
                    }),
                self.palette == old(self).palette,
                self.demo_mode == old(self).demo_mode,
                self.frame_counter == old(self).frame_counter,
            decreases y_end - yy,
        {
            let mut xx: usize = x;
            while xx < x_end
                invariant
                    y <= yy < y_end <= 200,
                    x <= xx <= x_end <= 320,
                    x_end == x + w || (x_end == 320 && x + w > 320),
                    vga_wf(*self),
                    forall|i: int|
                        0 <= i < 64000 ==> #[trigger] self.vram@[i] == (if in_rect(
                            i,
                            x as int,
                            y as int,
                            w as int,
                            (yy - y) as int,
                        ) || (i / 320 == yy && x <= i % 320 < xx) {
                            color_idx
                        } else {
                            old(self).vram@[i]
                        }),
                    self.palette == old(self).palette,
                    self.demo_mode == old(self).demo_mode,
                    self.frame_counter == old(self).frame_counter,
                decreases x_end - xx,
            {
                proof {
                    lemma_index_bound(yy as int, xx as int);
                    lemma_index(yy as int, xx as int);
                }
                self.vram.set(yy * VGA_WIDTH + xx, color_idx);
                proof {
                    assert forall|i: int| #![trigger self.vram@[i]] 0 <= i < 64000 && i != yy * 320 + xx implies !(i / 320 == yy && i % 320
                        == xx) by {
                        lemma_index(i / 320, i % 320);
                    }
                }
                xx = xx + 1;
            }
            proof {
                assert forall|i: int| 0 <= i < 64000 implies #[trigger] in_rect(
                    i,
                    x as int,
                    y as int,
                    w as int,
                    (yy + 1 - y) as int,
                ) == (in_rect(i, x as int, y as int, w as int, (yy - y) as int) || (i / 320 == yy && x <= i
                    % 320 < x_end)) by {
                    lemma_index(i / 320, i % 320);
                }
            }
            yy = yy + 1;
        }
        proof {
            assert forall|i: int| 0 <= i < 64000 implies #[trigger] in_rect(
                i,
                x as int,
                y as int,
                w as int,
                h as int,
            ) == in_rect(i, x as int, y as int, w as int, (y_end - y) as int) by {
                lemma_index(i / 320, i % 320);
            }
        }
    }
}

impl QuatVGA {
    /// One frame: the frame counter advances (wrapping), then the fire
    /// (mode 2) or the starfield (mode 3) redraws the screen.  The plasma
    /// (mode 1) is computed in floating point; its caller draws it after
    /// this tick.
    pub fn tick(&mut self, _kernel: &mut QuatKernel)
        requires
            vga_wf(*old(self)),
            old(self).demo_mode == 3 ==> stars_fit(next_frame(old(self).frame_counter)),
        ensures
            vga_wf(*final(self)),
            final(self).frame_counter == next_frame(old(self).frame_counter),
            final(self).vram@ == (if old(self).demo_mode == 2 {
                fire_frame(old(self).vram@, final(self).frame_counter)
            } else if old(self).demo_mode == 3 {
                star_field(final(self).frame_counter, 150)
            } else {
                old(self).vram@
            }),
            final(self).palette == old(self).palette,
            final(self).demo_mode == old(self).demo_mode,
            *final(_kernel) == *old(_kernel),
    {
        self.frame_counter = self.frame_counter.wrapping_add(1);
        if self.demo_mode == 2 {
            self.render_retro_fire_demo();
        } else if self.demo_mode == 3 {
            self.render_starfield_demo();
        }
    }

    /// The fire effect: new fuel in the bottom row, every flame rises one
    /// row, cooling by 0, 4 or 8 and drifting left when it cools by 4.
    fn render_retro_fire_demo(&mut self)
        requires
            vga_wf(*old(self)),
        ensures
            vga_wf(*final(self)),
            final(self).vram@ == fire_frame(old(self).vram@, old(self).frame_counter),
            final(self).palette == old(self).palette,
            final(self).demo_mode == old(self).demo_mode,
            final(self).frame_counter == old(self).frame_counter,
    {
        let ghost v0 = self.vram@;
        let fc = self.frame_counter;
        let mut x: usize = 0;
        while x < VGA_WIDTH
            invariant
                x <= 320,
                fc == self.frame_counter,
                vga_wf(*self),
                forall|i: int|
                    0 <= i < 64000 ==> #[trigger] self.vram@[i] == (if i / 320 == 199 && i % 320 < x {
                        fire_seed(fc, i % 320)
                    } else {
                        v0[i]
                    }),
                self.palette == old(self).palette,
                self.demo_mode == old(self).demo_mode,
                self.frame_counter == old(self).frame_counter,
            decreases 320 - x,
        {
            let c: u8 = if fc.wrapping_mul(x + 13) % 2 == 0 {
                255
            } else {
                200
            };
            proof {
                lemma_index(199, x as int);
                assert forall|i: int| #![trigger self.vram@[i]] 0 <= i < 64000 && i != 199 * 320 + x implies !(i
                    / 320 == 199 && i % 320 == x) by {
                    lemma_index(i / 320, i % 320);
                }
            }
            self.vram.set((VGA_HEIGHT - 1) * VGA_WIDTH + x, c);
            x = x + 1;
        }
        let mut y: usize = 1;
        while y < VGA_HEIGHT
            invariant
                1 <= y <= 200,
                fc == self.frame_counter,
                vga_wf(*self),
                v0.len() == 64000,
                forall|i: int|
                    0 <= i < 64000 ==> #[trigger] self.vram@[i] == (if i / 320 == 199 {
                        fire_seed(fc, i % 320)
                    } else if i / 320 < y - 1 {
                        fire_risen(v0, fc, i % 320, i / 320 + 1, 320)
                    } else {
                        v0[i]
                    }),
                self.palette == old(self).palette,
                self.demo_mode == old(self).demo_mode,
                self.frame_counter == old(self).frame_counter,
            decreases 200 - y,
        {
            let mut x: usize = 0;
            while x < VGA_WIDTH
                invariant
                    1 <= y < 200,
                    x <= 320,
                    fc == self.frame_counter,
                    vga_wf(*self),
                    v0.len() == 64000,
                    forall|i: int|
                        0 <= i < 64000 ==> #[trigger] self.vram@[i] == (if i / 320 == 199 {
                            fire_seed(fc, i % 320)
                        } else if i / 320 < y - 1 {
                            fire_risen(v0, fc, i % 320, i / 320 + 1, 320)
                        } else if i / 320 == y - 1 {
                            fire_risen(v0, fc, i % 320, y as int, x as int)
                        } else {
                            v0[i]
                        }),
                    self.palette == old(self).palette,
                    self.demo_mode == old(self).demo_mode,
                    self.frame_counter == old(self).frame_counter,
                decreases 320 - x,
            {
                proof {
                    lemma_index_bound(y as int, x as int);
                    lemma_index(y as int, x as int);
                }
                let src_idx = y * VGA_WIDTH + x;
                let pixel = self.vram[src_idx];
                assert(pixel == fire_src(v0, fc, x as int, y as int));
                let ghost before = self.vram@;
                let dst: usize;
                let value: u8;
                if pixel == 0 {
                    dst = x;
                    value = 0;
                } else {
                    let decay = (fc.wrapping_add(x + y) % 3) as u8;
                    dst = if x > 0 && decay == 1 {
                        x - 1
                    } else {
                        x
                    };
                    value = pixel.saturating_sub(decay * 4);
                }
                assert(dst == fire_dst(v0, fc, x as int, y as int));
                assert(value == fire_out(v0, fc, x as int, y as int));
                proof {
                    lemma_index_bound((y - 1) as int, dst as int);
                    lemma_index((y - 1) as int, dst as int);
                }
                self.vram.set((y - 1) * VGA_WIDTH + dst, value);
                proof {
                    assert forall|i: int| 0 <= i < 64000 implies #[trigger] self.vram@[i] == (if i / 320 == 199 {
                        fire_seed(fc, i % 320)
                    } else if i / 320 < y - 1 {
                        fire_risen(v0, fc, i % 320, i / 320 + 1, 320)
                    } else if i / 320 == y - 1 {
                        fire_risen(v0, fc, i % 320, y as int, x + 1)
                    } else {
                        v0[i]
                    }) by {
                        lemma_index(i / 320, i % 320);
                        assert(before[i] == (if i / 320 == 199 {
                            fire_seed(fc, i % 320)
                        } else if i / 320 < y - 1 {
                            fire_risen(v0, fc, i % 320, i / 320 + 1, 320)
                        } else if i / 320 == y - 1 {
                            fire_risen(v0, fc, i % 320, y as int, x as int)
                        } else {
                            v0[i]
                        }));
                    }
                }
                x = x + 1;
            }
            y = y + 1;
        }
        proof {
            assert forall|i: int| 0 <= i < 64000 implies #[trigger] self.vram@[i] == fire_frame(v0, fc)[i] by {
                lemma_index(i / 320, i % 320);
            }
        }
        assert(self.vram@ =~= fire_frame(v0, fc));
    }

    /// The starfield: a black screen with 150 stars, each moving right at
    /// its own speed (1-4 pixels a frame).
    fn render_starfield_demo(&mut self)
        requires
            vga_wf(*old(self)),
            stars_fit(old(self).frame_counter),
        ensures
            vga_wf(*final(self)),
            final(self).vram@ == star_field(old(self).frame_counter, 150),
            final(self).palette == old(self).palette,
            final(self).demo_mode == old(self).demo_mode,
            final(self).frame_counter == old(self).frame_counter,
    {
        self.clear(0);
        assert(self.vram@ =~= star_field(self.frame_counter, 0));
        let speed = self.frame_counter;
        let mut i: usize = 0;
        while i < 150
            invariant
                i <= 150,
                speed == self.frame_counter,
                stars_fit(speed),
                vga_wf(*self),
                self.vram@ == star_field(speed, i as nat),
                self.palette == old(self).palette,
                self.demo_mode == old(self).demo_mode,
                self.frame_counter == old(self).frame_counter,
            decreases 150 - i,
        {
            assert((i * 37 + speed * (i % 4 + 1)) <= usize::MAX);
            let star_x = (i * 37 + speed * (i % 4 + 1)) % VGA_WIDTH;
            let star_y = (i * 91) % VGA_HEIGHT;
            let star_color: u8 = if i % 3 == 0 {
                15
            } else if i % 3 == 1 {
                7
            } else {
                8
            };
            self.put_pixel(star_x, star_y, star_color);
            i = i + 1;
        }
    }
}

} // verus!
