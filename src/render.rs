use vstd::prelude::*;

use std::collections::HashMap;

verus! {

/// A 24-bit RGB color packed in the low bits.
pub type Rgb24 = u32;

/// How one cell of the viewport is drawn.
#[derive(Clone, Copy, Debug, PartialEq, Eq, Structural)]
pub enum RenderType {
    /// A fixed glyph in a fixed color.
    Static { glyph: char, color: Rgb24 },
    /// One cell of a multi-cell sprite from the sprite library.
    SpriteCell { sprite_id: usize, local_x: u8, local_y: u8 },
}

/// The look of a fluid or resource variant.
pub type RenderData = RenderType;

/// The lines of a text as `str::lines` splits them.
pub uninterp spec fn lines_of(s: Seq<char>) -> Seq<Seq<char>>;

/// Relies on `str::lines`: splits the text at each line ending and hands out the lines,
/// each turned into its characters.
#[verifier::external_body]
fn text_lines(ascii: &str) -> (r: Vec<Vec<char>>)
    ensures
        r@.len() == lines_of(ascii@).len(),
        forall|i: int| 0 <= i < r@.len() ==> #[trigger] r@[i]@ == lines_of(ascii@)[i],
{
    ascii.lines().map(|l| l.chars().collect()).collect()
}

/// Relies on `HashMap::get`: the value stored under the key, if any.
#[verifier::external_body]
fn palette_color(palette: &HashMap<char, Rgb24>, ch: char) -> (r: Option<Rgb24>)
    ensures
        r == palette@.get(ch),
{
    palette.get(&ch).copied()
}

/// A multi-cell picture: `width * height` cells of glyphs and colors, row-major.
pub struct SpriteConfig {
    pub width: u16,
    pub height: u16,
    pub glyphs: Vec<char>,
    pub colors: Vec<Rgb24>,
}

/// The length of the longest row.
pub open spec fn widest(rows: Seq<Seq<char>>) -> nat
    decreases rows.len(),
{
    if rows.len() == 0 {
        0
    } else {
        let rest = widest(rows.drop_last());
        if rows.last().len() > rest {
            rows.last().len()
        } else {
            rest
        }
    }
}

/// The characters of each row.
pub open spec fn row_views(rows: Seq<Vec<char>>) -> Seq<Seq<char>> {
    rows.map_values(|r: Vec<char>| r@)
}

/// The character at column `x` of a row, padded with spaces on the right.
pub open spec fn padded(row: Seq<char>, x: int) -> char {
    if x < row.len() {
        row[x]
    } else {
        ' '
    }
}

/// The color of a glyph: its palette entry, else the default.
pub open spec fn shade(palette: Map<char, Rgb24>, ch: char, default_color: Rgb24) -> Rgb24 {
    match palette.get(ch) {
        Option::Some(c) => c,
        Option::None => default_color,
    }
}

impl SpriteConfig {
    /// Every cell inside `width` by `height` has a glyph and a color.
    pub open spec fn wf(&self) -> bool {
        &&& self.width * self.height <= self.glyphs@.len()
        &&& self.width * self.height <= self.colors@.len()
    }

    /// A sprite whose cells are the rows, each padded with spaces to the longest one;
    /// each glyph takes its palette color, or `default_color`. The sizes are stored as
    /// `u16`, modulo 65536.
    pub fn from_rows(rows: &Vec<Vec<char>>, palette: &HashMap<char, Rgb24>, default_color: Rgb24) -> (r: SpriteConfig)
        ensures
            r.wf(),
            r.height == rows@.len() % 0x1_0000,
            r.width == widest(row_views(rows@)) % 0x1_0000,
            r.glyphs@.len() == rows@.len() * r.width,
            r.colors@.len() == rows@.len() * r.width,
            forall|y: int, x: int|
                0 <= y < rows@.len() && 0 <= x < r.width ==> {
                    &&& #[trigger] r.glyphs@[y * r.width + x] == padded(rows@[y]@, x)
                    &&& r.colors@[y * r.width + x] == shade(palette@, padded(rows@[y]@, x), default_color)
                },
    {
        let mut longest: usize = 0;
        let mut i: usize = 0;
        while i < rows.len()
            invariant
                0 <= i <= rows@.len(),
                longest == widest(row_views(rows@).take(i as int)),
            decreases rows@.len() - i,
        {
            assert(row_views(rows@).take(i as int + 1).drop_last() =~= row_views(rows@).take(i as int));
            if rows[i].len() > longest {
                longest = rows[i].len();
            }
            i = i + 1;
        }
        assert(row_views(rows@).take(rows@.len() as int) =~= row_views(rows@));
        let height = (rows.len() % 0x1_0000) as u16;
        let width = (longest % 0x1_0000) as u16;
        let mut glyphs: Vec<char> = Vec::new();
        let mut colors: Vec<Rgb24> = Vec::new();
        let mut y: usize = 0;
        while y < rows.len()
            invariant
                0 <= y <= rows@.len(),
                glyphs@.len() == y * width,
                colors@.len() == y * width,
                forall|yy: int, x: int|
                    0 <= yy < y && 0 <= x < width ==> {
                        &&& #[trigger] glyphs@[yy * width + x] == padded(rows@[yy]@, x)
                        &&& colors@[yy * width + x] == shade(palette@, padded(rows@[yy]@, x), default_color)
                    },
            decreases rows@.len() - y,
        {
            let line = &rows[y];
            let mut x: u16 = 0;
            while x < width
                invariant
                    0 <= y < rows@.len(),
                    line == rows@[y as int],
                    0 <= x <= width,
                    glyphs@.len() == y * width + x,
                    colors@.len() == y * width + x,
                    forall|yy: int, xx: int|
                        (0 <= yy < y && 0 <= xx < width) || (yy == y && 0 <= xx < x) ==> {
                            &&& #[trigger] glyphs@[yy * width + xx] == padded(rows@[yy]@, xx)
                            &&& colors@[yy * width + xx] == shade(palette@, padded(rows@[yy]@, xx), default_color)
                        },
                decreases width - x,
            {
                let ch = if (x as usize) < line.len() {
                    line[x as usize]
                } else {
                    ' '
                };
                let color = match palette_color(palette, ch) {
                    Option::Some(c) => c,
                    Option::None => default_color,
                };
                proof {
                    assert((y * width + x) as int == y as int * width as int + x as int) by (nonlinear_arith);
                }
                let ghost g0 = glyphs@;
                let ghost c0 = colors@;
                glyphs.push(ch);
                colors.push(color);
                proof {
                    assert forall|yy: int, xx: int|
                        (0 <= yy < y && 0 <= xx < width) || (yy == y && 0 <= xx < x + 1) implies {
                            &&& #[trigger] glyphs@[yy * width + xx] == padded(rows@[yy]@, xx)
                            &&& colors@[yy * width + xx] == shade(palette@, padded(rows@[yy]@, xx), default_color)
                        } by {
                        if yy < y {
                            assert(yy * width + xx < y * width) by (nonlinear_arith)
                                requires
                                    yy < y,
                                    xx < width,
                            ;
                            assert(g0[yy * width + xx] == padded(rows@[yy]@, xx));
                        } else if xx < x {
                            assert(g0[yy * width + xx] == padded(rows@[yy]@, xx));
                        }
                    }
                }
                x = x + 1;
            }
            proof {
                assert((y + 1) * width == y * width + width) by (nonlinear_arith);
            }
            y = y + 1;
        }
        proof {
            assert(width * height <= rows@.len() * width) by (nonlinear_arith)
                requires
                    height <= rows@.len(),
            ;
        }
        SpriteConfig { width, height, glyphs, colors }
    }

    /// Builds a sprite from ASCII art: one row per line of `ascii`.
    pub fn from_ascii(ascii: &str, palette: &HashMap<char, Rgb24>, default_color: Rgb24) -> (r: SpriteConfig)
        ensures
            r.wf(),
            r.height == lines_of(ascii@).len() % 0x1_0000,
            r.width == widest(lines_of(ascii@)) % 0x1_0000,
            forall|y: int, x: int|
                0 <= y < lines_of(ascii@).len() && 0 <= x < r.width ==> {
                    &&& #[trigger] r.glyphs@[y * r.width + x] == padded(lines_of(ascii@)[y], x)
                    &&& r.colors@[y * r.width + x] == shade(palette@, padded(lines_of(ascii@)[y], x), default_color)
                },
    {
        let rows = text_lines(ascii);
        assert(row_views(rows@) =~= lines_of(ascii@));
        assert forall|y: int| 0 <= y < rows@.len() implies #[trigger] rows@[y]@ == lines_of(ascii@)[y] by {}
        Self::from_rows(&rows, palette, default_color)
    }

    /// The glyph and color at `(x, y)`, or `None` outside the sprite.
    pub fn glyph_at(&self, x: u16, y: u16) -> (r: Option<(char, Rgb24)>)
        requires
            self.wf(),
        ensures
            r == if x < self.width && y < self.height {
                Option::Some((self.glyphs@[y * self.width + x], self.colors@[y * self.width + x]))
            } else {
                Option::None
            },
    {
        let n = self.glyphs.len();
        let x = x as usize;
        let y = y as usize;
        let w = self.width as usize;
        if x >= w || y >= self.height as usize {
            return Option::None;
        }
        proof {
            assert(y * w + x < w * self.height) by (nonlinear_arith)
                requires
                    x < w,
                    y < self.height,
            ;
        }
        let idx = y * w + x;
        Option::Some((self.glyphs[idx], self.colors[idx]))
    }
}

/// The sprite with index `id` in a sprite library, if there is one.
pub fn get_sprite(library: &Vec<SpriteConfig>, id: usize) -> (r: Option<&SpriteConfig>)
    ensures
        match r {
            Option::Some(s) => id < library@.len() && *s == library@[id as int],
            Option::None => id >= library@.len(),
        },
{
    if id < library.len() {
        Option::Some(&library[id])
    } else {
        Option::None
    }
}

} // verus!
