//! The sprite studio: a bank of four 8x8 sprites of quat colours (0-3),
//! their transformations and a flood fill, plus a 16x16 tile map.

use vstd::prelude::*;
use crate::text::{dec_str, hex_pad, push_char, push_radix, lemma_radix_nonempty};

verus! {

/// The drawing tools.
#[derive(Clone, Copy, Debug, PartialEq, Eq, Structural)]
pub enum SpriteTool {
    Pencil,
    Eraser,
    BucketFill,
    Picker,
}

/// The studio's tabs.
#[derive(Clone, Copy, Debug, PartialEq, Eq, Structural)]
pub enum ActiveTab {
    SpriteEditor,
    TilemapEditor,
    ExportCode,
}

/// An 8x8 sprite, rows first.
pub type Sprite = [[u8; 8]; 8];

/// The colour of the sprite at column `x`, row `y`.
pub open spec fn cell(s: Sprite, x: int, y: int) -> u8 {
    s@[y]@[x]
}

/// Column `x`, row `y` lies on the 8x8 grid.
pub open spec fn on_grid(x: int, y: int) -> bool {
    0 <= x < 8 && 0 <= y < 8
}

/// Every colour of the sprite is a quat (0-3).
pub open spec fn quat_colours(s: Sprite) -> bool {
    forall|x: int, y: int| on_grid(x, y) ==> #[trigger] cell(s, x, y) <= 3
}

/// The sprite mirrored left to right.
pub open spec fn flipped_h(s: Sprite, t: Sprite) -> bool {
    forall|x: int, y: int| on_grid(x, y) ==> #[trigger] cell(t, x, y) == cell(s, 7 - x, y)
}

/// The sprite mirrored top to bottom.
pub open spec fn flipped_v(s: Sprite, t: Sprite) -> bool {
    forall|x: int, y: int| on_grid(x, y) ==> #[trigger] cell(t, x, y) == cell(s, x, 7 - y)
}

/// The sprite turned a quarter clockwise: the pixel at `(x, y)` moves to
/// column `7 - y`, row `x`.
pub open spec fn rotated(s: Sprite, t: Sprite) -> bool {
    forall|x: int, y: int| on_grid(x, y) ==> #[trigger] cell(t, x, y) == cell(s, y, 7 - x)
}

/// Each colour `c` replaced by `3 - c`.
pub open spec fn inverted(s: Sprite, t: Sprite) -> bool {
    forall|x: int, y: int| on_grid(x, y) ==> #[trigger] cell(t, x, y) == 3 - cell(s, x, y)
}

/// Two sprites with the same pixels.
pub open spec fn same_pixels(s: Sprite, t: Sprite) -> bool {
    forall|x: int, y: int| on_grid(x, y) ==> #[trigger] cell(t, x, y) == cell(s, x, y)
}

/// The cell `(x, y)` can be reached from `(sx, sy)` in at most `n` steps
/// between edge neighbours, over cells that all have colour `c` in `g`.
pub open spec fn reaches(g: Sprite, c: u8, sx: int, sy: int, x: int, y: int, n: nat) -> bool
    decreases n,
{
    if n == 0 {
        x == sx && y == sy && on_grid(x, y) && cell(g, x, y) == c
    } else {
        reaches(g, c, sx, sy, x, y, (n - 1) as nat) || (on_grid(x, y) && cell(g, x, y) == c && (
        reaches(g, c, sx, sy, x - 1, y, (n - 1) as nat) || reaches(g, c, sx, sy, x + 1, y, (n - 1) as nat)
            || reaches(g, c, sx, sy, x, y - 1, (n - 1) as nat) || reaches(
            g,
            c,
            sx,
            sy,
            x,
            y + 1,
            (n - 1) as nat,
        )))
    }
}

/// The region of the flood fill from `(sx, sy)`: the cells of the start
/// cell's colour connected to it through edge neighbours of that colour.
pub open spec fn in_region(g: Sprite, sx: int, sy: int, x: int, y: int) -> bool {
    reaches(g, cell(g, sx, sy), sx, sy, x, y, 64)
}

/// The studio.
pub struct QuatSpriteStudio {
    pub active_tab: ActiveTab,
    pub current_tool: SpriteTool,
    pub selected_quat_color: u8,
    pub sprite_bank: [[[u8; 8]; 8]; 4],
    pub active_sprite_idx: usize,
    pub tilemap: [[u8; 16]; 16],
    pub selected_tile_to_place: u8,
    pub grid_visible: bool,
    pub status_message: String,
}

/// The sprite being edited.
pub open spec fn active_sprite(s: QuatSpriteStudio) -> Sprite {
    s.sprite_bank@[s.active_sprite_idx as int]
}

/// Only the active sprite may have changed.
pub open spec fn others_kept(a: QuatSpriteStudio, b: QuatSpriteStudio) -> bool {
    &&& b.active_sprite_idx == a.active_sprite_idx
    &&& forall|i: int| 0 <= i < 4 && i != a.active_sprite_idx ==> #[trigger] b.sprite_bank@[i] == a.sprite_bank@[i]
    &&& b.tilemap == a.tilemap
    &&& b.active_tab == a.active_tab
    &&& b.current_tool == a.current_tool
    &&& b.selected_quat_color == a.selected_quat_color
    &&& b.selected_tile_to_place == a.selected_tile_to_place
    &&& b.grid_visible == a.grid_visible
}

/// The RGB shade of a quat colour (anything above 3 is black).
pub open spec fn quat_rgb(q: u8) -> (u8, u8, u8) {
    if q == 0 {
        (15, 15, 20)
    } else if q == 1 {
        (70, 90, 120)
    } else if q == 2 {
        (0, 200, 150)
    } else if q == 3 {
        (240, 240, 240)
    } else {
        (0, 0, 0)
    }
}

/// The RGB shade of a quat colour.
pub fn quat_to_rgb(quat: u8) -> (r: (u8, u8, u8))
    ensures
        r == quat_rgb(quat),
{
    match quat {
        0 => (15, 15, 20),
        1 => (70, 90, 120),
        2 => (0, 200, 150),
        3 => (240, 240, 240),
        _ => (0, 0, 0),
    }
}

/// Writes colour `v` at column `x`, row `y`.
fn set_cell(s: &mut Sprite, x: usize, y: usize, v: u8)
    requires
        x < 8,
        y < 8,
    ensures
        forall|i: int, j: int|
            on_grid(i, j) ==> #[trigger] cell(*final(s), i, j) == (if i == x && j == y {
                v
            } else {
                cell(*old(s), i, j)
            }),
{
    let mut row = s[y];
    row[x] = v;
    s[y] = row;
}

/// The cells before `(x, y)` in row-major order.
pub open spec fn before_cell(i: int, j: int, x: int, y: int) -> bool {
    j < y || (j == y && i < x)
}

impl QuatSpriteStudio {
    /// Blank sprites and tile map, pencil tool, colour 3.
    pub fn new() -> (s: QuatSpriteStudio)
        ensures
            s.active_tab == ActiveTab::SpriteEditor,
            s.current_tool == SpriteTool::Pencil,
            s.selected_quat_color == 3,
            forall|i: int, x: int, y: int| 0 <= i < 4 && on_grid(x, y) ==> #[trigger] cell(s.sprite_bank@[i], x, y) == 0,
            s.active_sprite_idx == 0,
            forall|x: int, y: int| 0 <= x < 16 && 0 <= y < 16 ==> #[trigger] s.tilemap@[y]@[x] == 0,
            s.selected_tile_to_place == 0,
            s.grid_visible,
    {
        QuatSpriteStudio {
            active_tab: ActiveTab::SpriteEditor,
            current_tool: SpriteTool::Pencil,
            selected_quat_color: 3,
            sprite_bank: [[[0; 8]; 8]; 4],
            active_sprite_idx: 0,
            tilemap: [[0; 16]; 16],
            selected_tile_to_place: 0,
            grid_visible: true,
            status_message: String::from_str("QuatSprite Studio spreman za crtanje."),
        }
    }

    /// Mirrors the active sprite left to right.
    pub fn flip_horizontal(&mut self)
        requires
            old(self).active_sprite_idx < 4,
        ensures
            flipped_h(active_sprite(*old(self)), active_sprite(*final(self))),
            others_kept(*old(self), *final(self)),
            final(self).status_message@ == "Sprajt obrnut horizontalno."@,
    {
        let idx = self.active_sprite_idx;
        let orig = self.sprite_bank[idx];
        let mut sprite = orig;
        let mut y: usize = 0;
        while y < 8
            invariant
                y <= 8,
                forall|i: int, j: int| on_grid(i, j) ==> #[trigger] cell(sprite, i, j) == (if j < y {
                    cell(orig, 7 - i, j)
                } else {
                    cell(orig, i, j)
                }),
            decreases 8 - y,
        {
            let mut x: usize = 0;
            while x < 8
                invariant
                    x <= 8,
                    y < 8,
                    forall|i: int, j: int| on_grid(i, j) ==> #[trigger] cell(sprite, i, j) == (if before_cell(i, j, x as int, y as int) {
                        cell(orig, 7 - i, j)
                    } else {
                        cell(orig, i, j)
                    }),
                decreases 8 - x,
            {
                set_cell(&mut sprite, x, y, orig[y][7 - x]);
                x = x + 1;
            }
            y = y + 1;
        }
        self.sprite_bank[idx] = sprite;
        self.status_message = String::from_str("Sprajt obrnut horizontalno.");
    }

    /// Mirrors the active sprite top to bottom.
    pub fn flip_vertical(&mut self)
        requires
            old(self).active_sprite_idx < 4,
        ensures
            flipped_v(active_sprite(*old(self)), active_sprite(*final(self))),
            others_kept(*old(self), *final(self)),
            final(self).status_message@ == "Sprajt obrnut vertikalno."@,
    {
        let idx = self.active_sprite_idx;
        let orig = self.sprite_bank[idx];
        let mut sprite = orig;
        let mut y: usize = 0;
        while y < 8
            invariant
                y <= 8,
                forall|i: int, j: int| on_grid(i, j) ==> #[trigger] cell(sprite, i, j) == (if j < y {
                    cell(orig, i, 7 - j)
                } else {
                    cell(orig, i, j)
                }),
            decreases 8 - y,
        {
            let mut x: usize = 0;
            while x < 8
                invariant
                    x <= 8,
                    y < 8,
                    forall|i: int, j: int| on_grid(i, j) ==> #[trigger] cell(sprite, i, j) == (if before_cell(i, j, x as int, y as int) {
                        cell(orig, i, 7 - j)
                    } else {
                        cell(orig, i, j)
                    }),
                decreases 8 - x,
            {
                set_cell(&mut sprite, x, y, orig[7 - y][x]);
                x = x + 1;
            }
            y = y + 1;
        }
        self.sprite_bank[idx] = sprite;
        self.status_message = String::from_str("Sprajt obrnut vertikalno.");
    }

    /// Turns the active sprite a quarter clockwise.
    pub fn rotate_90(&mut self)
        requires
            old(self).active_sprite_idx < 4,
        ensures
            rotated(active_sprite(*old(self)), active_sprite(*final(self))),
            others_kept(*old(self), *final(self)),
            final(self).status_message@ == "Sprajt rotiran za 90°."@,
    {
        let idx = self.active_sprite_idx;
        let sprite = self.sprite_bank[idx];
        let mut new_sprite = [[0u8; 8]; 8];
        let mut y: usize = 0;
        while y < 8
            invariant
                y <= 8,
                forall|i: int, j: int| on_grid(i, j) && 7 - y < i ==> #[trigger] cell(new_sprite, i, j) == cell(sprite, j, 7 - i),
            decreases 8 - y,
        {
            let mut x: usize = 0;
            while x < 8
                invariant
                    x <= 8,
                    y < 8,
                    forall|i: int, j: int| on_grid(i, j) && (7 - y < i || (i == 7 - y && j < x)) ==> #[trigger] cell(new_sprite, i, j) == cell(sprite, j, 7 - i),
                decreases 8 - x,
            {
                set_cell(&mut new_sprite, 7 - y, x, sprite[y][x]);
                x = x + 1;
            }
            y = y + 1;
        }
        self.sprite_bank[idx] = new_sprite;
        self.status_message = String::from_str("Sprajt rotiran za 90°.");
    }

    /// Replaces each colour `c` of the active sprite by `3 - c`.
    pub fn invert_quats(&mut self)
        requires
            old(self).active_sprite_idx < 4,
            quat_colours(active_sprite(*old(self))),
        ensures
            inverted(active_sprite(*old(self)), active_sprite(*final(self))),
            others_kept(*old(self), *final(self)),
            final(self).status_message@ == "Kvatne boje invertovane."@,
    {
        let idx = self.active_sprite_idx;
        let orig = self.sprite_bank[idx];
        let mut sprite = orig;
        let mut y: usize = 0;
        while y < 8
            invariant
                y <= 8,
                quat_colours(orig),
                forall|i: int, j: int| on_grid(i, j) ==> #[trigger] cell(sprite, i, j) == (if j < y {
                    3 - cell(orig, i, j)
                } else {
                    cell(orig, i, j) as int
                }),
            decreases 8 - y,
        {
            let mut x: usize = 0;
            while x < 8
                invariant
                    x <= 8,
                    y < 8,
                    quat_colours(orig),
                    forall|i: int, j: int| on_grid(i, j) ==> #[trigger] cell(sprite, i, j) == (if before_cell(i, j, x as int, y as int) {
                        3 - cell(orig, i, j)
                    } else {
                        cell(orig, i, j) as int
                    }),
                decreases 8 - x,
            {
                assert(cell(orig, x as int, y as int) <= 3);
                set_cell(&mut sprite, x, y, 3 - orig[y][x]);
                x = x + 1;
            }
            y = y + 1;
        }
        self.sprite_bank[idx] = sprite;
        self.status_message = String::from_str("Kvatne boje invertovane.");
    }
}

/// The number of cells among the first `n` (row-major) with colour `c`.
pub open spec fn count_colour(g: Sprite, c: u8, n: nat) -> nat
    decreases n,
{
    if n == 0 {
        0
    } else {
        count_colour(g, c, (n - 1) as nat) + (if cell(g, (n - 1) % 8, (n - 1) / 8) == c {
            1nat
        } else {
            0nat
        })
    }
}

proof fn lemma_count_bound(g: Sprite, c: u8, n: nat)
    ensures
        count_colour(g, c, n) <= n,
    decreases n,
{
    if n > 0 {
        lemma_count_bound(g, c, (n - 1) as nat);
    }
}

proof fn lemma_count_recolour(g1: Sprite, g2: Sprite, c: u8, x: int, y: int, n: nat)
    requires
        on_grid(x, y),
        n <= 64,
        cell(g1, x, y) == c,
        cell(g2, x, y) != c,
        forall|i: int, j: int| on_grid(i, j) && !(i == x && j == y) ==> #[trigger] cell(g2, i, j) == cell(g1, i, j),
    ensures
        count_colour(g2, c, n) == count_colour(g1, c, n) - (if y * 8 + x < n {
            1int
        } else {
            0int
        }),
    decreases n,
{
    if n > 0 {
        lemma_count_recolour(g1, g2, c, x, y, (n - 1) as nat);
        let k = n - 1;
        if k != y * 8 + x {
            assert(!(k % 8 == x && k / 8 == y));
            assert(cell(g2, k % 8, k / 8) == cell(g1, k % 8, k / 8));
        } else {
            assert(k % 8 == x && k / 8 == y);
        }
    }
}

proof fn lemma_reaches_mono(g: Sprite, c: u8, sx: int, sy: int, x: int, y: int, n: nat, m: nat)
    requires
        n <= m,
        reaches(g, c, sx, sy, x, y, n),
    ensures
        reaches(g, c, sx, sy, x, y, m),
    decreases m - n,
{
    if n < m {
        lemma_reaches_mono(g, c, sx, sy, x, y, n, (m - 1) as nat);
    }
}

proof fn lemma_push_keeps(q: Seq<(usize, usize)>, e: (usize, usize))
    ensures
        q.push(e).contains(e),
        forall|a: (usize, usize)| q.contains(a) ==> #[trigger] q.push(e).contains(a),
        forall|k: int| 0 <= k < q.len() ==> #[trigger] q.push(e)[k] == q[k],
{
    assert(q.push(e)[q.len() as int] == e);
    assert forall|a: (usize, usize)| q.contains(a) implies #[trigger] q.push(e).contains(a) by {
        let k = choose|k: int| 0 <= k < q.len() && q[k] == a;
        assert(q.push(e)[k] == a);
    }
}

/// Cell `(x, y)` has been filled: it had colour `oc` and no longer has.
pub open spec fn filled(cur: Sprite, orig: Sprite, oc: u8, x: int, y: int) -> bool {
    on_grid(x, y) && cell(orig, x, y) == oc && cell(cur, x, y) != oc
}

/// Some edge neighbour of `(x, y)` has been filled.
pub open spec fn next_to_filled(cur: Sprite, orig: Sprite, oc: u8, x: int, y: int) -> bool {
    filled(cur, orig, oc, x - 1, y) || filled(cur, orig, oc, x + 1, y) || filled(cur, orig, oc, x, y - 1)
        || filled(cur, orig, oc, x, y + 1)
}

/// Cell `(x, y)` still has colour `oc` and is due to be filled: it is the
/// start cell or lies next to a filled cell.
pub open spec fn awaits(cur: Sprite, orig: Sprite, oc: u8, sx: int, sy: int, x: int, y: int) -> bool {
    on_grid(x, y) && cell(cur, x, y) == oc && ((x == sx && y == sy) || next_to_filled(cur, orig, oc, x, y))
}

proof fn lemma_fill_complete(cur: Sprite, orig: Sprite, oc: u8, sx: int, sy: int, x: int, y: int, n: nat)
    requires
        filled(cur, orig, oc, sx, sy),
        forall|i: int, j: int|
            on_grid(i, j) && cell(orig, i, j) == oc && #[trigger] next_to_filled(cur, orig, oc, i, j)
                ==> filled(cur, orig, oc, i, j),
        reaches(orig, oc, sx, sy, x, y, n),
    ensures
        filled(cur, orig, oc, x, y),
    decreases n,
{
    if n > 0 {
        if reaches(orig, oc, sx, sy, x, y, (n - 1) as nat) {
            lemma_fill_complete(cur, orig, oc, sx, sy, x, y, (n - 1) as nat);
        } else if reaches(orig, oc, sx, sy, x - 1, y, (n - 1) as nat) {
            lemma_fill_complete(cur, orig, oc, sx, sy, x - 1, y, (n - 1) as nat);
            assert(next_to_filled(cur, orig, oc, x, y));
        } else if reaches(orig, oc, sx, sy, x + 1, y, (n - 1) as nat) {
            lemma_fill_complete(cur, orig, oc, sx, sy, x + 1, y, (n - 1) as nat);
            assert(next_to_filled(cur, orig, oc, x, y));
        } else if reaches(orig, oc, sx, sy, x, y - 1, (n - 1) as nat) {
            lemma_fill_complete(cur, orig, oc, sx, sy, x, y - 1, (n - 1) as nat);
            assert(next_to_filled(cur, orig, oc, x, y));
        } else {
            lemma_fill_complete(cur, orig, oc, sx, sy, x, y + 1, (n - 1) as nat);
            assert(next_to_filled(cur, orig, oc, x, y));
        }
    }
}

impl QuatSpriteStudio {
    /// Flood fill of the active sprite: starting at `(start_x, start_y)`,
    /// every cell of the start cell's colour connected to it through edge
    /// neighbours of that colour takes `target_color`.  Filling with the
    /// colour already there changes nothing.
    pub fn bucket_fill(&mut self, start_x: usize, start_y: usize, target_color: u8)
        requires
            old(self).active_sprite_idx < 4,
            start_x < 8,
            start_y < 8,
        ensures
            others_kept(*old(self), *final(self)),
            cell(active_sprite(*old(self)), start_x as int, start_y as int) == target_color ==> *final(self)
                == *old(self),
            cell(active_sprite(*old(self)), start_x as int, start_y as int) != target_color ==> {
                &&& forall|x: int, y: int|
                    on_grid(x, y) ==> #[trigger] cell(active_sprite(*final(self)), x, y) == (if in_region(
                        active_sprite(*old(self)),
                        start_x as int,
                        start_y as int,
                        x,
                        y,
                    ) {
                        target_color
                    } else {
                        cell(active_sprite(*old(self)), x, y)
                    })
                &&& final(self).status_message@ == "Površina popunjena bojom."@
            },
    {
        let idx = self.active_sprite_idx;
        let orig = self.sprite_bank[idx];
        let mut sprite = orig;
        let old_color = sprite[start_y][start_x];
        if old_color == target_color {
            return;
        }
        let ghost oc = old_color;
        let ghost sx = start_x as int;
        let ghost sy = start_y as int;
        let mut queue: Vec<(usize, usize)> = Vec::new();
        queue.push((start_x, start_y));
        proof {
            lemma_count_bound(orig, oc, 64);
            assert(queue@[0] == (start_x, start_y));
            assert forall|i: int, j: int|
                #[trigger] awaits(sprite, orig, oc, sx, sy, i, j) implies queue@.contains((i as usize, j as usize)) by {
                if !(i == sx && j == sy) {
                    assert(!filled(sprite, orig, oc, i - 1, j));
                    assert(!filled(sprite, orig, oc, i + 1, j));
                    assert(!filled(sprite, orig, oc, i, j - 1));
                    assert(!filled(sprite, orig, oc, i, j + 1));
                }
            }
        }
        while queue.len() > 0
            invariant
                target_color != oc,
                old_color == oc,
                oc == cell(orig, sx, sy),
                on_grid(sx, sy),
                sx == start_x,
                sy == start_y,
                count_colour(orig, oc, 64) <= 64,
                count_colour(sprite, oc, 64) <= count_colour(orig, oc, 64),
                forall|i: int, j: int|
                    on_grid(i, j) ==> #[trigger] cell(sprite, i, j) == cell(orig, i, j) || (cell(orig, i, j)
                        == oc && cell(sprite, i, j) == target_color),
                forall|i: int, j: int|
                    #[trigger] filled(sprite, orig, oc, i, j) ==> reaches(
                        orig,
                        oc,
                        sx,
                        sy,
                        i,
                        j,
                        (count_colour(orig, oc, 64) - count_colour(sprite, oc, 64)) as nat,
                    ),
                forall|k: int|
                    0 <= k < queue@.len() ==> on_grid(#[trigger] queue@[k].0 as int, queue@[k].1 as int) && (
                    (queue@[k].0 == start_x && queue@[k].1 == start_y) || next_to_filled(
                        sprite,
                        orig,
                        oc,
                        queue@[k].0 as int,
                        queue@[k].1 as int,
                    )),
                forall|i: int, j: int|
                    #[trigger] awaits(sprite, orig, oc, sx, sy, i, j) ==> queue@.contains((i as usize, j as usize)),
            decreases count_colour(sprite, oc, 64) * 5 + queue@.len(),
        {
            let ghost before = sprite;
            let ghost qbefore = queue@;
            let (x, y) = queue.pop().unwrap();
            assert(queue@ =~= qbefore.drop_last());
            assert(qbefore[qbefore.len() - 1] == (x, y));
            assert(on_grid(qbefore[qbefore.len() - 1].0 as int, qbefore[qbefore.len() - 1].1 as int));
            assert(on_grid(x as int, y as int));
            let row = sprite[y];
            let cur = row[x];
            if cur == old_color {
                assert(cell(before, x as int, y as int) == oc);
                set_cell(&mut sprite, x, y, target_color);
                proof {
                    lemma_count_recolour(before, sprite, oc, x as int, y as int, 64);
                    let steps = (count_colour(orig, oc, 64) - count_colour(before, oc, 64)) as nat;
                    assert(reaches(orig, oc, sx, sy, x as int, y as int, steps + 1)) by {
                        if x == start_x && y == start_y {
                            lemma_reaches_mono(orig, oc, sx, sy, sx, sy, 0, steps + 1);
                        } else {
                            assert(next_to_filled(before, orig, oc, x as int, y as int));
                        }
                    }
                    assert forall|i: int, j: int| #[trigger] filled(sprite, orig, oc, i, j) implies reaches(
                        orig,
                        oc,
                        sx,
                        sy,
                        i,
                        j,
                        (count_colour(orig, oc, 64) - count_colour(sprite, oc, 64)) as nat,
                    ) by {
                        if !(i == x && j == y) {
                            assert(filled(before, orig, oc, i, j));
                            lemma_reaches_mono(orig, oc, sx, sy, i, j, steps, steps + 1);
                        }
                    }
                }
                let ghost mid = queue@;
                if x > 0 {
                    proof {
                        lemma_push_keeps(queue@, ((x - 1) as usize, y));
                    }
                    queue.push((x - 1, y));
                }
                if x < 7 {
                    proof {
                        lemma_push_keeps(queue@, ((x + 1) as usize, y));
                    }
                    queue.push((x + 1, y));
                }
                if y > 0 {
                    proof {
                        lemma_push_keeps(queue@, (x, (y - 1) as usize));
                    }
                    queue.push((x, y - 1));
                }
                if y < 7 {
                    proof {
                        lemma_push_keeps(queue@, (x, (y + 1) as usize));
                    }
                    queue.push((x, y + 1));
                }
                assert(queue@.len() >= mid.len());
                assert(forall|k: int| 0 <= k < mid.len() ==> queue@[k] == mid[k]);
                proof {
                    assert forall|k: int| 0 <= k < queue@.len() implies on_grid(
                        #[trigger] queue@[k].0 as int,
                        queue@[k].1 as int,
                    ) && ((queue@[k].0 == start_x && queue@[k].1 == start_y) || next_to_filled(
                        sprite,
                        orig,
                        oc,
                        queue@[k].0 as int,
                        queue@[k].1 as int,
                    )) by {
                        if k < mid.len() {
                            assert(queue@[k] == qbefore[k]);
                            let qx = queue@[k].0 as int;
                            let qy = queue@[k].1 as int;
                            if !(queue@[k].0 == start_x && queue@[k].1 == start_y) {
                                assert(next_to_filled(before, orig, oc, qx, qy));
                                assert(filled(before, orig, oc, qx - 1, qy) ==> filled(sprite, orig, oc, qx - 1, qy));
                                assert(filled(before, orig, oc, qx + 1, qy) ==> filled(sprite, orig, oc, qx + 1, qy));
                                assert(filled(before, orig, oc, qx, qy - 1) ==> filled(sprite, orig, oc, qx, qy - 1));
                                assert(filled(before, orig, oc, qx, qy + 1) ==> filled(sprite, orig, oc, qx, qy + 1));
                            }
                        } else {
                            assert(filled(sprite, orig, oc, x as int, y as int));
                        }
                    }
                    assert forall|i: int, j: int|
                        #[trigger] awaits(sprite, orig, oc, sx, sy, i, j) implies queue@.contains(
                        (i as usize, j as usize),
                    ) by {
                        let near = (i == x - 1 && j == y) || (i == x + 1 && j == y) || (i == x && j == y - 1)
                            || (i == x && j == y + 1);
                        if near {
                            if i == x - 1 && j == y {
                                assert(queue@.contains((i as usize, j as usize)));
                            } else if i == x + 1 && j == y {
                                assert(queue@.contains((i as usize, j as usize)));
                            } else if i == x && j == y - 1 {
                                assert(queue@.contains((i as usize, j as usize)));
                            } else {
                                assert(queue@.contains((i as usize, j as usize)));
                            }
                        } else {
                            assert(!(i == x && j == y));
                            assert(cell(before, i, j) == oc);
                            assert(filled(sprite, orig, oc, i - 1, j) ==> filled(before, orig, oc, i - 1, j));
                            assert(filled(sprite, orig, oc, i + 1, j) ==> filled(before, orig, oc, i + 1, j));
                            assert(filled(sprite, orig, oc, i, j - 1) ==> filled(before, orig, oc, i, j - 1));
                            assert(filled(sprite, orig, oc, i, j + 1) ==> filled(before, orig, oc, i, j + 1));
                            assert(awaits(before, orig, oc, sx, sy, i, j));
                            assert(qbefore.contains((i as usize, j as usize)));
                            let k = choose|k: int| 0 <= k < qbefore.len() && qbefore[k] == (i as usize, j as usize);
                            assert(k != qbefore.len() - 1);
                            assert(queue@[k] == qbefore[k]);
                        }
                    }
                }
            } else {
                proof {
                    assert forall|i: int, j: int|
                        #[trigger] awaits(sprite, orig, oc, sx, sy, i, j) implies queue@.contains(
                        (i as usize, j as usize),
                    ) by {
                        assert(awaits(before, orig, oc, sx, sy, i, j));
                        assert(qbefore.contains((i as usize, j as usize)));
                        let k = choose|k: int| 0 <= k < qbefore.len() && qbefore[k] == (i as usize, j as usize);
                        assert(k != qbefore.len() - 1);
                        assert(queue@[k] == qbefore[k]);
                    }
                    assert forall|k: int| 0 <= k < queue@.len() implies on_grid(
                        #[trigger] queue@[k].0 as int,
                        queue@[k].1 as int,
                    ) && ((queue@[k].0 == start_x && queue@[k].1 == start_y) || next_to_filled(
                        sprite,
                        orig,
                        oc,
                        queue@[k].0 as int,
                        queue@[k].1 as int,
                    )) by {
                        assert(queue@[k] == qbefore[k]);
                    }
                }
            }
        }
        proof {
            assert(!queue@.contains((start_x, start_y)));
            if cell(sprite, sx, sy) == oc {
                assert(awaits(sprite, orig, oc, sx, sy, sx, sy));
                assert(queue@.contains((sx as usize, sy as usize)));
            }
            assert(filled(sprite, orig, oc, sx, sy));
            assert forall|i: int, j: int|
                on_grid(i, j) && cell(orig, i, j) == oc && #[trigger] next_to_filled(sprite, orig, oc, i, j) implies filled(
                sprite,
                orig,
                oc,
                i,
                j,
            ) by {
                if cell(sprite, i, j) == oc {
                    assert(awaits(sprite, orig, oc, sx, sy, i, j));
                    assert(queue@.contains((i as usize, j as usize)));
                }
            }
            assert forall|x: int, y: int| on_grid(x, y) implies #[trigger] cell(sprite, x, y) == (if in_region(
                orig,
                sx,
                sy,
                x,
                y,
            ) {
                target_color
            } else {
                cell(orig, x, y)
            }) by {
                if in_region(orig, sx, sy, x, y) {
                    lemma_fill_complete(sprite, orig, oc, sx, sy, x, y, 64);
                } else if filled(sprite, orig, oc, x, y) {
                    lemma_reaches_mono(
                        orig,
                        oc,
                        sx,
                        sy,
                        x,
                        y,
                        (count_colour(orig, oc, 64) - count_colour(sprite, oc, 64)) as nat,
                        64,
                    );
                }
            }
        }
        self.sprite_bank[idx] = sprite;
        self.status_message = String::from_str("Površina popunjena bojom.");
    }
}

/// Mirroring left to right twice gives back the sprite.
pub proof fn law_flip_h_twice(s: Sprite, t: Sprite, u: Sprite)
    requires
        flipped_h(s, t),
        flipped_h(t, u),
    ensures
        same_pixels(s, u),
{
    assert forall|x: int, y: int| on_grid(x, y) implies #[trigger] cell(u, x, y) == cell(s, x, y) by {
        assert(cell(t, 7 - x, y) == cell(s, x, y));
    }
}

/// Mirroring top to bottom twice gives back the sprite.
pub proof fn law_flip_v_twice(s: Sprite, t: Sprite, u: Sprite)
    requires
        flipped_v(s, t),
        flipped_v(t, u),
    ensures
        same_pixels(s, u),
{
    assert forall|x: int, y: int| on_grid(x, y) implies #[trigger] cell(u, x, y) == cell(s, x, y) by {
        assert(cell(t, x, 7 - y) == cell(s, x, y));
    }
}

/// Four quarter turns give back the sprite.
pub proof fn law_rotate_four_times(s0: Sprite, s1: Sprite, s2: Sprite, s3: Sprite, s4: Sprite)
    requires
        rotated(s0, s1),
        rotated(s1, s2),
        rotated(s2, s3),
        rotated(s3, s4),
    ensures
        same_pixels(s0, s4),
{
    assert forall|x: int, y: int| on_grid(x, y) implies #[trigger] cell(s4, x, y) == cell(s0, x, y) by {
        assert(cell(s4, x, y) == cell(s3, y, 7 - x));
        assert(cell(s3, y, 7 - x) == cell(s2, 7 - x, 7 - y));
        assert(cell(s2, 7 - x, 7 - y) == cell(s1, 7 - y, x));
        assert(cell(s1, 7 - y, x) == cell(s0, x, y));
    }
}

/// Two quarter turns are a mirror left to right and a mirror top to bottom.
pub proof fn law_rotate_twice_is_both_flips(s0: Sprite, s1: Sprite, s2: Sprite, h: Sprite, hv: Sprite)
    requires
        rotated(s0, s1),
        rotated(s1, s2),
        flipped_h(s0, h),
        flipped_v(h, hv),
    ensures
        same_pixels(s2, hv),
{
    assert forall|x: int, y: int| on_grid(x, y) implies #[trigger] cell(hv, x, y) == cell(s2, x, y) by {
        assert(cell(s2, x, y) == cell(s1, y, 7 - x));
        assert(cell(s1, y, 7 - x) == cell(s0, 7 - x, 7 - y));
        assert(cell(hv, x, y) == cell(h, x, 7 - y));
        assert(cell(h, x, 7 - y) == cell(s0, 7 - x, 7 - y));
    }
}

/// Inverting the quat colours twice gives back the sprite, and an inverted
/// sprite of quat colours still has quat colours.
pub proof fn law_invert_twice(s: Sprite, t: Sprite, u: Sprite)
    requires
        quat_colours(s),
        inverted(s, t),
        inverted(t, u),
    ensures
        quat_colours(t),
        same_pixels(s, u),
{
    assert forall|x: int, y: int| on_grid(x, y) implies #[trigger] cell(t, x, y) <= 3 by {
        assert(cell(s, x, y) <= 3);
    }
    assert forall|x: int, y: int| on_grid(x, y) implies #[trigger] cell(u, x, y) == cell(s, x, y) by {
        assert(cell(t, x, y) == 3 - cell(s, x, y));
    }
}

/// The byte that packs the four pixels `4 * chunk .. 4 * chunk + 3` of
/// row `y`, the first pixel in the low quat.
pub open spec fn packed_pixels(s: Sprite, y: int, chunk: int) -> u8 {
    let q0 = cell(s, chunk * 4, y);
    let q1 = cell(s, chunk * 4 + 1, y);
    let q2 = cell(s, chunk * 4 + 2, y);
    let q3 = cell(s, chunk * 4 + 3, y);
    (q3 << 6u8) | (q2 << 4u8) | (q1 << 2u8) | q0
}

/// The assembler line of row `y`.
pub open spec fn export_row(s: Sprite, y: int) -> Seq<char> {
    "  .DB "@ + "0x"@ + hex_pad(packed_pixels(s, y, 0) as nat, 2) + ", "@ + "0x"@ + hex_pad(
        packed_pixels(s, y, 1) as nat,
        2,
    ) + seq!['\n']
}

/// The assembler lines of the first `n` rows.
pub open spec fn export_rows(s: Sprite, n: nat) -> Seq<char>
    decreases n,
{
    if n == 0 {
        Seq::empty()
    } else {
        export_rows(s, (n - 1) as nat) + export_row(s, n - 1)
    }
}

/// The assembler listing of sprite `idx` of the bank.
pub open spec fn export_listing(s: Sprite, idx: nat) -> Seq<char> {
    "; --- QUATSPRITE #"@ + dec_str(idx) + " EXPORT (8x8) ---\n"@ + "SPRITE_DATA:\n"@ + export_rows(s, 8)
}

/// The byte packing pixels `4 * chunk ..` of row `row`.
fn pack_row(row: [u8; 8], chunk: usize) -> (b: u8)
    requires
        chunk < 2,
    ensures
        forall|s: Sprite, y: int| 0 <= y < 8 && s@[y] == row ==> #[trigger] packed_pixels(s, y, chunk as int) == b,
{
    let q0 = row[chunk * 4];
    let q1 = row[chunk * 4 + 1];
    let q2 = row[chunk * 4 + 2];
    let q3 = row[chunk * 4 + 3];
    (q3 << 6) | (q2 << 4) | (q1 << 2) | q0
}

/// The assembler line of row `y`.
fn export_row_text(sprite: &Sprite, y: usize) -> (t: String)
    requires
        y < 8,
    ensures
        t@ == export_row(*sprite, y as int),
{
    let row = sprite[y];
    let b0 = pack_row(row, 0);
    let b1 = pack_row(row, 1);
    assert(packed_pixels(*sprite, y as int, 0) == b0);
    assert(packed_pixels(*sprite, y as int, 1) == b1);
    let mut t = String::from_str("  .DB ");
    t.append("0x");
    push_radix(&mut t, b0 as u64, 16, 2);
    t.append(", ");
    t.append("0x");
    push_radix(&mut t, b1 as u64, 16, 2);
    push_char(&mut t, '\n');
    t
}

impl QuatSpriteStudio {
    /// A click on cell `(x, y)` of the active sprite with the current
    /// tool: the pencil paints the selected colour, the eraser paints 0,
    /// the picker selects the cell's colour, the bucket flood-fills.
    pub fn apply_tool(&mut self, x: usize, y: usize)
        requires
            old(self).active_sprite_idx < 4,
            x < 8,
            y < 8,
        ensures
            final(self).current_tool == old(self).current_tool,
            final(self).active_sprite_idx == old(self).active_sprite_idx,
            final(self).tilemap == old(self).tilemap,
            forall|i: int| 0 <= i < 4 && i != old(self).active_sprite_idx ==> #[trigger] final(self).sprite_bank@[i]
                == old(self).sprite_bank@[i],
            old(self).current_tool == SpriteTool::Pencil || old(self).current_tool == SpriteTool::Eraser ==> {
                let v: u8 = if old(self).current_tool == SpriteTool::Pencil {
                    old(self).selected_quat_color
                } else {
                    0
                };
                &&& forall|i: int, j: int|
                    on_grid(i, j) ==> #[trigger] cell(active_sprite(*final(self)), i, j) == (if i == x && j == y {
                        v
                    } else {
                        cell(active_sprite(*old(self)), i, j)
                    })
                &&& final(self).selected_quat_color == old(self).selected_quat_color
            },
            old(self).current_tool == SpriteTool::Picker ==> {
                &&& final(self).selected_quat_color == cell(active_sprite(*old(self)), x as int, y as int)
                &&& final(self).sprite_bank == old(self).sprite_bank
            },
            old(self).current_tool == SpriteTool::BucketFill ==> {
                let s0 = active_sprite(*old(self));
                let c = old(self).selected_quat_color;
                &&& final(self).selected_quat_color == c
                &&& forall|i: int, j: int|
                    on_grid(i, j) ==> #[trigger] cell(active_sprite(*final(self)), i, j) == (if cell(s0, x as int, y as int)
                        != c && in_region(s0, x as int, y as int, i, j) {
                        c
                    } else {
                        cell(s0, i, j)
                    })
            },
    {
        let idx = self.active_sprite_idx;
        match self.current_tool {
            SpriteTool::Pencil => {
                let mut sprite = self.sprite_bank[idx];
                set_cell(&mut sprite, x, y, self.selected_quat_color);
                self.sprite_bank[idx] = sprite;
            },
            SpriteTool::Eraser => {
                let mut sprite = self.sprite_bank[idx];
                set_cell(&mut sprite, x, y, 0);
                self.sprite_bank[idx] = sprite;
            },
            SpriteTool::Picker => {
                self.selected_quat_color = self.sprite_bank[idx][y][x];
            },
            SpriteTool::BucketFill => {
                let col = self.selected_quat_color;
                self.bucket_fill(x, y, col);
            },
        }
    }

    /// A click on cell `(x, y)` of the tile map places the selected tile.
    pub fn place_tile(&mut self, x: usize, y: usize)
        requires
            x < 16,
            y < 16,
        ensures
            forall|i: int, j: int|
                0 <= i < 16 && 0 <= j < 16 ==> #[trigger] final(self).tilemap@[j]@[i] == (if i == x && j == y {
                    old(self).selected_tile_to_place
                } else {
                    old(self).tilemap@[j]@[i]
                }),
            final(self).sprite_bank == old(self).sprite_bank,
            final(self).selected_tile_to_place == old(self).selected_tile_to_place,
    {
        let mut row = self.tilemap[y];
        row[x] = self.selected_tile_to_place;
        self.tilemap[y] = row;
    }

    /// The assembler listing of the active sprite: a header, the label
    /// `SPRITE_DATA:` and one `.DB` line of two packed bytes per row.
    pub fn export_asm(&self) -> (code: String)
        requires
            self.active_sprite_idx < 4,
        ensures
            code@ == export_listing(active_sprite(*self), self.active_sprite_idx as nat),
    {
        let sprite = self.sprite_bank[self.active_sprite_idx];
        let mut asm_code = String::from_str("; --- QUATSPRITE #");
        push_radix(&mut asm_code, self.active_sprite_idx as u64, 10, 1);
        proof {
            lemma_radix_nonempty(self.active_sprite_idx as nat, 10);
        }
        asm_code.append(" EXPORT (8x8) ---\n");
        asm_code.append("SPRITE_DATA:\n");
        let ghost head = asm_code@;
        let mut y: usize = 0;
        while y < 8
            invariant
                y <= 8,
                sprite == active_sprite(*self),
                asm_code@ == head + export_rows(sprite, y as nat),
            decreases 8 - y,
        {
            let line = export_row_text(&sprite, y);
            let ghost before = asm_code@;
            asm_code.append(line.as_str());
            assert(asm_code@ =~= head + export_rows(sprite, (y + 1) as nat));
            y = y + 1;
        }
        asm_code
    }
}

} // verus!
