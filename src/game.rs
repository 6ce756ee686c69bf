use vstd::prelude::*;

use crate::render::{RenderType, Rgb24};
use crate::worldgen::{biome_color, layer_look, tile_at, tile_of, traversable, ResourceLayer};

verus! {

/// Glyph of the player marker, drawn over the center cell.
pub const PLAYER_GLYPH: char = '@';
/// Color of the player marker.
pub const PLAYER_COLOR: Rgb24 = 0xFFFFFF;

/// The state of a game as plain values: seed, player position, viewport size and the
/// three row-major buffers (background color, foreground color, glyph code).
pub struct GameView {
    pub seed: u32,
    pub px: i32,
    pub py: i32,
    pub width: u32,
    pub height: u32,
    pub bg: Seq<u32>,
    pub fg: Seq<u32>,
    pub glyph: Seq<u32>,
}

/// Foreground color drawn for layer 1: its static color, else 0.
pub open spec fn look_color(l: ResourceLayer) -> u32 {
    match layer_look(l) {
        Option::Some(RenderType::Static { color, .. }) => color,
        _ => 0,
    }
}

/// Glyph code drawn for layer 1: its static glyph, else 0.
pub open spec fn look_glyph(l: ResourceLayer) -> u32 {
    match layer_look(l) {
        Option::Some(RenderType::Static { glyph, .. }) => glyph as u32,
        _ => 0,
    }
}

impl GameView {
    /// The buffers hold exactly one cell per viewport position, and the viewport
    /// fits the signed coordinates that the renderer scans with.
    pub open spec fn well_formed(self) -> bool {
        &&& self.width <= i32::MAX
        &&& self.height <= i32::MAX
        &&& self.width * self.height <= usize::MAX
        &&& self.bg.len() == self.width * self.height
        &&& self.fg.len() == self.width * self.height
        &&& self.glyph.len() == self.width * self.height
    }

    /// World column shown in buffer column `col`: the camera is centered on the player.
    pub open spec fn world_x(self, col: int) -> i32 {
        self.px.wrapping_sub((self.width / 2) as i32).wrapping_add(col as i32)
    }

    /// World row shown in buffer row `row`.
    pub open spec fn world_y(self, row: int) -> i32 {
        self.py.wrapping_sub((self.height / 2) as i32).wrapping_add(row as i32)
    }

    pub open spec fn is_center(self, row: int, col: int) -> bool {
        row == self.height / 2 && col == self.width / 2
    }

    /// Cell `(row, col)` shows the tile under it: its biome's background, and the look
    /// of its layer 1 in front. Layer 2 is not drawn.
    pub open spec fn tile_shown(self, row: int, col: int) -> bool {
        let t = tile_of(self.seed, self.world_x(col), self.world_y(row));
        let i = row * self.width + col;
        &&& self.bg[i] == biome_color(t.biome_layer)
        &&& self.fg[i] == look_color(t.resource_layer)
        &&& self.glyph[i] == look_glyph(t.resource_layer)
    }

    /// Cell `(row, col)` as a finished frame has it: the tile, with the player marker in
    /// front at the center.
    pub open spec fn drawn(self, row: int, col: int) -> bool {
        let t = tile_of(self.seed, self.world_x(col), self.world_y(row));
        let i = row * self.width + col;
        if self.is_center(row, col) {
            &&& self.bg[i] == biome_color(t.biome_layer)
            &&& self.fg[i] == PLAYER_COLOR
            &&& self.glyph[i] == PLAYER_GLYPH as u32
        } else {
            self.tile_shown(row, col)
        }
    }

    /// Seed, position and viewport size agree.
    pub open spec fn same_frame(self, other: GameView) -> bool {
        &&& self.seed == other.seed
        &&& self.px == other.px
        &&& self.py == other.py
        &&& self.width == other.width
        &&& self.height == other.height
    }
}

/// A buffer resized to `len` cells: the old prefix kept, new cells zero.
pub open spec fn resized(old_buf: Seq<u32>, new_buf: Seq<u32>, len: int) -> bool {
    &&& new_buf.len() == len
    &&& forall|i: int|
        0 <= i < len ==> #[trigger] new_buf[i] == if i < old_buf.len() {
            old_buf[i]
        } else {
            0
        }
}

/// A world seen through a player-centered viewport.
pub struct Game {
    seed: u32,
    px: i32,
    py: i32,
    width: u32,
    height: u32,
    bg_rgb_buff: Vec<u32>,
    fg_rgb_buff: Vec<u32>,
    glyph_buff: Vec<u32>,
}

impl View for Game {
    type V = GameView;

    closed spec fn view(&self) -> GameView {
        GameView {
            seed: self.seed,
            px: self.px,
            py: self.py,
            width: self.width,
            height: self.height,
            bg: self.bg_rgb_buff@,
            fg: self.fg_rgb_buff@,
            glyph: self.glyph_buff@,
        }
    }
}

/// Distinct cells of a row-major grid have distinct indices, all below `w * h`.
proof fn lemma_cell_index(r1: int, c1: int, r2: int, c2: int, w: int, h: int)
    requires
        0 <= r1 < h,
        0 <= r2 < h,
        0 <= c1 < w,
        0 <= c2 < w,
    ensures
        r1 * w + c1 < w * h,
        (r1 != r2 || c1 != c2) ==> r1 * w + c1 != r2 * w + c2,
{
    assert(r1 * w + c1 < w * h) by (nonlinear_arith)
        requires
            0 <= r1 < h,
            0 <= c1 < w,
    ;
    if r1 * w + c1 == r2 * w + c2 {
        vstd::arithmetic::div_mod::lemma_fundamental_div_mod_converse(r1 * w + c1, w, r1, c1);
        vstd::arithmetic::div_mod::lemma_fundamental_div_mod_converse(r2 * w + c2, w, r2, c2);
    }
}

impl Game {
    pub open spec fn wf(&self) -> bool {
        self@.well_formed()
    }

    /// A game at the origin with a `screen_w` by `screen_h` viewport and zeroed buffers.
    pub fn new(seed: u32, screen_w: u32, screen_h: u32) -> (r: Game)
        requires
            screen_w <= i32::MAX,
            screen_h <= i32::MAX,
            screen_w * screen_h <= usize::MAX,
        ensures
            r.wf(),
            r@.seed == seed,
            r@.px == 0,
            r@.py == 0,
            r@.width == screen_w,
            r@.height == screen_h,
            forall|i: int| 0 <= i < r@.bg.len() ==> #[trigger] r@.bg[i] == 0,
            forall|i: int| 0 <= i < r@.fg.len() ==> #[trigger] r@.fg[i] == 0,
            forall|i: int| 0 <= i < r@.glyph.len() ==> #[trigger] r@.glyph[i] == 0,
    {
        let len = (screen_w as usize) * (screen_h as usize);
        Game {
            seed,
            px: 0,
            py: 0,
            width: screen_w,
            height: screen_h,
            bg_rgb_buff: vec![0; len],
            fg_rgb_buff: vec![0; len],
            glyph_buff: vec![0; len],
        }
    }

    /// Resizes the viewport; all three buffers follow, together.
    pub fn set_viewport(&mut self, view_w: u32, view_h: u32)
        requires
            view_w <= i32::MAX,
            view_h <= i32::MAX,
            view_w * view_h <= usize::MAX,
        ensures
            final(self).wf(),
            final(self)@.seed == old(self)@.seed,
            final(self)@.px == old(self)@.px,
            final(self)@.py == old(self)@.py,
            final(self)@.width == view_w,
            final(self)@.height == view_h,
            resized(old(self)@.bg, final(self)@.bg, view_w * view_h),
            resized(old(self)@.fg, final(self)@.fg, view_w * view_h),
            resized(old(self)@.glyph, final(self)@.glyph, view_w * view_h),
    {
        self.width = view_w;
        self.height = view_h;
        let len = (view_w as usize) * (view_h as usize);
        self.bg_rgb_buff.resize(len, 0);
        self.fg_rgb_buff.resize(len, 0);
        self.glyph_buff.resize(len, 0);
        proof {
            assert forall|i: int| 0 <= i < len implies #[trigger] self.bg_rgb_buff@[i] == if i < old(self).bg_rgb_buff@.len() {
                old(self).bg_rgb_buff@[i]
            } else {
                0
            } by {
                if len <= old(self).bg_rgb_buff@.len() {
                } else if i < old(self).bg_rgb_buff@.len() {
                    assert(self.bg_rgb_buff@.subrange(0, old(self).bg_rgb_buff@.len() as int)[i] == self.bg_rgb_buff@[i]);
                }
            }
            assert forall|i: int| 0 <= i < len implies #[trigger] self.fg_rgb_buff@[i] == if i < old(self).fg_rgb_buff@.len() {
                old(self).fg_rgb_buff@[i]
            } else {
                0
            } by {
                if len <= old(self).fg_rgb_buff@.len() {
                } else if i < old(self).fg_rgb_buff@.len() {
                    assert(self.fg_rgb_buff@.subrange(0, old(self).fg_rgb_buff@.len() as int)[i] == self.fg_rgb_buff@[i]);
                }
            }
            assert forall|i: int| 0 <= i < len implies #[trigger] self.glyph_buff@[i] == if i < old(self).glyph_buff@.len() {
                old(self).glyph_buff@[i]
            } else {
                0
            } by {
                if len <= old(self).glyph_buff@.len() {
                } else if i < old(self).glyph_buff@.len() {
                    assert(self.glyph_buff@.subrange(0, old(self).glyph_buff@.len() as int)[i] == self.glyph_buff@[i]);
                }
            }
        }
    }

    /// Moves the player by `(dx, dy)` when the destination can be walked onto; a move
    /// onto a fluid is silently refused. Coordinates wrap around the signed 32-bit range.
    pub fn move_by(&mut self, dx: i32, dy: i32)
        ensures
            ({
                let nx = old(self)@.px.wrapping_add(dx);
                let ny = old(self)@.py.wrapping_add(dy);
                if traversable(tile_of(old(self)@.seed, nx, ny)) {
                    final(self)@ == GameView { px: nx, py: ny, ..old(self)@ }
                } else {
                    final(self)@ == old(self)@
                }
            }),
    {
        let nx = self.px.wrapping_add(dx);
        let ny = self.py.wrapping_add(dy);
        let dest = tile_at(self.seed, nx, ny);
        if dest.is_traversable() {
            self.px = nx;
            self.py = ny;
        }
    }

    /// Redraws every cell of the viewport from the world, then puts the player marker
    /// over the center cell.
    pub fn prepare_render_buff(&mut self)
        requires
            old(self).wf(),
            old(self)@.width > 0,
            old(self)@.height > 0,
        ensures
            final(self).wf(),
            final(self)@.same_frame(old(self)@),
            forall|row: int, col: int|
                0 <= row < final(self)@.height && 0 <= col < final(self)@.width ==> #[trigger] final(self)@.drawn(row, col),
    {
        let w = self.width as i32;
        let h = self.height as i32;
        let cam_x = self.px.wrapping_sub(w / 2);
        let cam_y = self.py.wrapping_sub(h / 2);
        let ghost start = self@;
        let mut sy: i32 = 0;
        while sy < h
            invariant
                self.wf(),
                self@.same_frame(start),
                start.width > 0,
                start.height > 0,
                w == start.width,
                h == start.height,
                cam_x == start.px.wrapping_sub((start.width / 2) as i32),
                cam_y == start.py.wrapping_sub((start.height / 2) as i32),
                0 <= sy <= h,
                forall|r: int, c: int| 0 <= r < sy && 0 <= c < w ==> #[trigger] self@.tile_shown(r, c),
            decreases h - sy,
        {
            let mut sx: i32 = 0;
            while sx < w
                invariant
                    self.wf(),
                    self@.same_frame(start),
                    start.width > 0,
                    start.height > 0,
                    w == start.width,
                    h == start.height,
                    cam_x == start.px.wrapping_sub((start.width / 2) as i32),
                    cam_y == start.py.wrapping_sub((start.height / 2) as i32),
                    0 <= sy < h,
                    0 <= sx <= w,
                    forall|r: int, c: int| 0 <= r < sy && 0 <= c < w ==> #[trigger] self@.tile_shown(r, c),
                    forall|c: int| 0 <= c < sx ==> #[trigger] self@.tile_shown(sy as int, c),
                decreases w - sx,
            {
                let wx = cam_x.wrapping_add(sx);
                let wy = cam_y.wrapping_add(sy);
                proof {
                    lemma_cell_index(sy as int, sx as int, 0, 0, w as int, h as int);
                }
                let idx = (sy as usize) * (w as usize) + (sx as usize);
                let tile = tile_at(self.seed, wx, wy);
                let ghost before = self@;
                self.bg_rgb_buff[idx] = tile.biome_layer.bg_color();
                let mut glyph_code: u32 = 0;
                let mut glyph_color: Rgb24 = 0;
                // layer 2 has no look yet: features are not drawn
                match tile.resource_layer.render_data() {
                    Option::Some(RenderType::Static { glyph, color }) => {
                        glyph_code = glyph as u32;
                        glyph_color = color;
                    },
                    _ => {},
                }
                self.fg_rgb_buff[idx] = glyph_color;
                self.glyph_buff[idx] = glyph_code;
                proof {
                    assert forall|r: int, c: int|
                        (0 <= r < sy && 0 <= c < w) || (r == sy && 0 <= c < sx) implies #[trigger] self@.tile_shown(r, c) by {
                        lemma_cell_index(r, c, sy as int, sx as int, w as int, h as int);
                        assert(before.tile_shown(r, c));
                    }
                    assert(self@.tile_shown(sy as int, sx as int));
                }
                sx = sx + 1;
            }
            sy = sy + 1;
        }
        let center_x = (w / 2) as usize;
        let center_y = (h / 2) as usize;
        proof {
            lemma_cell_index(center_y as int, center_x as int, 0, 0, w as int, h as int);
        }
        let center_idx = center_y * (w as usize) + center_x;
        let ghost before = self@;
        self.glyph_buff[center_idx] = PLAYER_GLYPH as u32;
        self.fg_rgb_buff[center_idx] = PLAYER_COLOR;
        proof {
            assert forall|row: int, col: int|
                0 <= row < h && 0 <= col < w implies #[trigger] self@.drawn(row, col) by {
                lemma_cell_index(row, col, center_y as int, center_x as int, w as int, h as int);
                assert(before.tile_shown(row, col));
            }
        }
    }

    pub fn pos_x(&self) -> (r: i32)
        ensures
            r == self@.px,
    {
        self.px
    }

    pub fn pos_y(&self) -> (r: i32)
        ensures
            r == self@.py,
    {
        self.py
    }

    /// Number of cells in each buffer.
    pub fn buff_len(&self) -> (r: usize)
        requires
            self.wf(),
        ensures
            r == self@.width * self@.height,
    {
        (self.width as usize) * (self.height as usize)
    }

    pub fn bg_rgb_buff(&self) -> (r: &[u32])
        ensures
            r@ == self@.bg,
    {
        self.bg_rgb_buff.as_slice()
    }

    pub fn fg_rgb_buff(&self) -> (r: &[u32])
        ensures
            r@ == self@.fg,
    {
        self.fg_rgb_buff.as_slice()
    }

    pub fn glyph_buff(&self) -> (r: &[u32])
        ensures
            r@ == self@.glyph,
    {
        self.glyph_buff.as_slice()
    }
}

} // verus!
