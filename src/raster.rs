//! Blending of glyph coverage into a row-major buffer of 4-byte pixels whose
//! bytes hold blue, green, red and alpha in that order.
use vstd::prelude::*;
use vstd::arithmetic::div_mod::*;

verus! {

/// One rasterized glyph: its coverage bitmap (row-major, `width` cells per
/// row) and where it sits relative to the pen and the baseline.
pub struct GlyphCoverage {
    /// Horizontal offset of the bitmap's left column from the pen.
    pub xmin: i32,
    /// Offset of the bitmap's bottom row above the baseline.
    pub ymin: i32,
    pub width: usize,
    pub height: usize,
    /// How far the pen moves after this glyph.
    pub advance: u32,
    pub coverage: Vec<u8>,
}

/// A drawing colour, channel by channel.
#[derive(Clone, Copy, Debug, PartialEq, Eq)]
pub struct Color {
    pub blue: u8,
    pub green: u8,
    pub red: u8,
    pub alpha: u8,
}

impl Color {
    /// The channel stored at byte `c` of a pixel.
    pub open spec fn channel(self, c: int) -> u8 {
        if c == 0 {
            self.blue
        } else if c == 1 {
            self.green
        } else if c == 2 {
            self.red
        } else {
            self.alpha
        }
    }

    pub fn channel_at(&self, c: usize) -> (r: u8)
        ensures
            r == self.channel(c as int),
    {
        if c == 0 {
            self.blue
        } else if c == 1 {
            self.green
        } else if c == 2 {
            self.red
        } else {
            self.alpha
        }
    }
}

/// `cov` parts in 255 of `fg`, the rest of `old`, rounded down.
pub open spec fn blend(old: u8, fg: u8, cov: u8) -> u8 {
    ((fg as int * cov as int + old as int * (255 - cov as int)) / 255) as u8
}

/// Number of whole rows of `width` pixels in a buffer of `len` bytes.
pub open spec fn row_count(len: int, width: int) -> int {
    len / 4 / width
}

/// Row of the pixel that holds byte `k`.
pub open spec fn row_of(k: int, width: int) -> int {
    k / 4 / width
}

/// Column of the pixel that holds byte `k`.
pub open spec fn column_of(k: int, width: int) -> int {
    (k / 4) % width
}

/// Byte `k` belongs to a whole pixel row of the buffer.
pub open spec fn in_frame(k: int, len: int, width: int) -> bool {
    width > 0 && 0 <= k < len && row_of(k, width) < row_count(len, width)
}

/// The coverage cell of glyph `g`, placed with its top-left cell at
/// (`left`, `top`), that lands on byte `k`'s pixel, if any.
pub open spec fn cell_of(k: int, width: int, g: GlyphCoverage, left: int, top: int) -> Option<int> {
    let gx = column_of(k, width) - left;
    let gy = row_of(k, width) - top;
    if 0 <= gx < g.width && 0 <= gy < g.height && gy * g.width + gx < g.coverage@.len() {
        Some(gy * g.width + gx)
    } else {
        None
    }
}

/// `buf` with the first `limit` coverage cells of `g` blended in.
pub open spec fn glyph_prefix(
    buf: Seq<u8>,
    width: int,
    g: GlyphCoverage,
    left: int,
    top: int,
    fg: Color,
    limit: int,
) -> Seq<u8> {
    Seq::new(
        buf.len(),
        |k: int|
            if in_frame(k, buf.len() as int, width) && cell_of(k, width, g, left, top) is Some
                && cell_of(k, width, g, left, top)->0 < limit {
                blend(buf[k], fg.channel(k % 4), g.coverage@[cell_of(k, width, g, left, top)->0])
            } else {
                buf[k]
            },
    )
}

/// `buf` with all of glyph `g` blended in; cells off the buffer are dropped.
pub open spec fn apply_glyph(
    buf: Seq<u8>,
    width: int,
    g: GlyphCoverage,
    left: int,
    top: int,
    fg: Color,
) -> Seq<u8> {
    glyph_prefix(buf, width, g, left, top, fg, g.coverage@.len() as int)
}

fn blend_channel(old: u8, fg: u8, cov: u8) -> (r: u8)
    ensures
        r == blend(old, fg, cov),
{
    let f: u32 = fg as u32;
    let c: u32 = cov as u32;
    let o: u32 = old as u32;
    assert(f * c <= 255 * 255 && o * (255 - c) <= 255 * 255) by (nonlinear_arith)
        requires
            f <= 255,
            c <= 255,
            o <= 255,
    ;
    assert(f * c + o * (255 - c) <= 255 * 255) by (nonlinear_arith)
        requires
            f <= 255,
            c <= 255,
            o <= 255,
    ;
    let v: u32 = (f * c + o * (255 - c)) / 255;
    v as u8
}

/// The pixel in column `x` and row `y` lies whole in the buffer, and its
/// byte `c` is in the frame, in that column and row.
proof fn lemma_pixel_byte(len: int, width: int, x: int, y: int, c: int)
    requires
        width > 0,
        0 <= len,
        0 <= x < width,
        0 <= y < row_count(len, width),
        0 <= c < 4,
    ensures
        4 * (y * width + x) + 4 <= len,
        (4 * (y * width + x) + c) / 4 == y * width + x,
        (4 * (y * width + x) + c) % 4 == c,
        row_of(4 * (y * width + x) + c, width) == y,
        column_of(4 * (y * width + x) + c, width) == x,
        in_frame(4 * (y * width + x) + c, len, width),
{
    let rows = row_count(len, width);
    let p = y * width + x;
    lemma_fundamental_div_mod(len / 4, width);
    lemma_fundamental_div_mod(len, 4);
    assert(y * width + x < rows * width) by (nonlinear_arith)
        requires
            0 <= x < width,
            0 <= y < rows,
    ;
    assert(rows * width == width * rows) by (nonlinear_arith);
    assert(0 <= p) by (nonlinear_arith)
        requires
            0 <= x,
            0 <= y,
            width > 0,
            p == y * width + x,
    ;
    lemma_mod_bound(len, 4);
    lemma_mod_bound(len / 4, width);
    let k = 4 * p + c;
    lemma_fundamental_div_mod_converse(k, 4, p, c);
    lemma_fundamental_div_mod_converse(p, width, y, x);
}

/// A byte in column `x` and row `y` belongs to the pixel that starts at
/// byte `4 * (y * width + x)`.
proof fn lemma_byte_in_pixel(k: int, width: int)
    requires
        width > 0,
        0 <= k,
    ensures
        4 * (row_of(k, width) * width + column_of(k, width)) <= k,
        k < 4 * (row_of(k, width) * width + column_of(k, width)) + 4,
{
    lemma_fundamental_div_mod(k, 4);
    lemma_fundamental_div_mod(k / 4, width);
    lemma_mod_bound(k, 4);
    assert(width * (k / 4 / width) == row_of(k, width) * width) by (nonlinear_arith);
}

/// Where cell `i` of a glyph lands on byte `k`, the cell's column and row
/// in the bitmap are the byte's column and row less the glyph's corner.
proof fn lemma_cell_position(k: int, width: int, g: GlyphCoverage, left: int, top: int, i: int)
    requires
        width > 0,
        cell_of(k, width, g, left, top) == Some(i),
    ensures
        g.width > 0,
        i % (g.width as int) == column_of(k, width) - left,
        i / (g.width as int) == row_of(k, width) - top,
{
    let gx = column_of(k, width) - left;
    let gy = row_of(k, width) - top;
    lemma_fundamental_div_mod_converse(i, g.width as int, gy, gx);
}

/// Blends `fg` at coverage `a` into the pixel that starts at byte `4 * p`.
fn blend_pixel(data: &mut Vec<u8>, p: usize, fg: Color, a: u8)
    requires
        4 * p + 4 <= old(data)@.len(),
    ensures
        final(data)@.len() == old(data)@.len(),
        forall|k: int|
            0 <= k < old(data)@.len() ==> #[trigger] final(data)@[k] == if 4 * p <= k < 4 * p + 4 {
                blend(old(data)@[k], fg.channel(k - 4 * p), a)
            } else {
                old(data)@[k]
            },
{
    let total = data.len();
    let base: usize = 4 * p;
    let mut c: usize = 0;
    while c < 4
        invariant
            c <= 4,
            base == 4 * p,
            base + 4 <= old(data)@.len(),
            data@.len() == old(data)@.len(),
            forall|k: int|
                0 <= k < old(data)@.len() ==> #[trigger] data@[k] == if base <= k < base + c {
                    blend(old(data)@[k], fg.channel(k - base), a)
                } else {
                    old(data)@[k]
                },
        decreases 4 - c,
    {
        let v = blend_channel(data[base + c], fg.channel_at(c), a);
        data.set(base + c, v);
        c += 1;
    }
}

/// Blends every coverage cell of `g`, with its top-left cell placed at
/// (`left`, `top`), into the pixels of `data` under it; cells that fall off
/// the buffer are dropped.
fn draw_glyph(data: &mut Vec<u8>, width: usize, g: &GlyphCoverage, left: i128, top: i128, fg: Color)
    requires
        -0x1_0000_0000_0000_0000_0000_0000 <= left <= 0x1_0000_0000_0000_0000_0000_0000,
        -0x1_0000_0000_0000_0000_0000_0000 <= top <= 0x1_0000_0000_0000_0000_0000_0000,
    ensures
        final(data)@ == apply_glyph(old(data)@, width as int, *g, left as int, top as int, fg),
{
    let ghost orig = data@;
    let ghost len = data@.len() as int;
    if width == 0 || g.width == 0 {
        assert(data@ =~= apply_glyph(orig, width as int, *g, left as int, top as int, fg));
        return;
    }
    let total = data.len();
    let rows: usize = total / 4 / width;
    let n = g.coverage.len();
    let mut i: usize = 0;
    assert(data@ =~= glyph_prefix(orig, width as int, *g, left as int, top as int, fg, 0));
    while i < n
        invariant
            i <= n,
            n == g.coverage@.len(),
            -0x1_0000_0000_0000_0000_0000_0000 <= left <= 0x1_0000_0000_0000_0000_0000_0000,
            -0x1_0000_0000_0000_0000_0000_0000 <= top <= 0x1_0000_0000_0000_0000_0000_0000,
            width > 0,
            g.width > 0,
            rows == row_count(len, width as int),
            len == orig.len(),
            len <= usize::MAX,
            data@ == glyph_prefix(orig, width as int, *g, left as int, top as int, fg, i as int),
        decreases n - i,
    {
        let gw = g.width;
        let gx: usize = i % gw;
        assert(gx as int <= usize::MAX && (i / gw) as int <= usize::MAX);
        let gy: usize = i / gw;
        let ghost before = data@;
        proof {
            lemma_fundamental_div_mod(i as int, gw as int);
            lemma_mod_bound(i as int, gw as int);
            assert(gw * gy == gy * gw) by (nonlinear_arith);
        }
        let mut drawn = false;
        if gy < g.height {
            let x: i128 = left + gx as i128;
            let y: i128 = top + gy as i128;
            if 0 <= x && x < width as i128 && 0 <= y && y < rows as i128 {
                let xu: usize = x as usize;
                let yu: usize = y as usize;
                proof {
                    lemma_pixel_byte(len, width as int, xu as int, yu as int, 0);
                    assert(yu * width + xu < 4 * (yu * width + xu) + 4) by (nonlinear_arith)
                        requires
                            yu * width + xu >= 0,
                    ;
                }
                let p: usize = yu * width + xu;
                blend_pixel(data, p, fg, g.coverage[i]);
                drawn = true;
                proof {
                    assert forall|k: int| 0 <= k < len implies #[trigger] data@[k]
                        == glyph_prefix(orig, width as int, *g, left as int, top as int, fg, i + 1)[k] by {
                        if 4 * p <= k < 4 * p + 4 {
                            let c = k - 4 * p;
                            lemma_pixel_byte(len, width as int, xu as int, yu as int, c);
                            assert(k == 4 * (yu * width + xu) + c);
                            assert(column_of(k, width as int) - left == gx);
                            assert(row_of(k, width as int) - top == gy);
                            assert(cell_of(k, width as int, *g, left as int, top as int) == Some(i as int));
                        } else if in_frame(k, len, width as int) && cell_of(k, width as int, *g, left as int, top as int) == Some(i as int) {
                            lemma_cell_position(k, width as int, *g, left as int, top as int, i as int);
                            lemma_byte_in_pixel(k, width as int);
                        }
                    }
                }
            }
        }
        proof {
            if !drawn {
                assert forall|k: int| 0 <= k < len implies #[trigger] data@[k]
                    == glyph_prefix(orig, width as int, *g, left as int, top as int, fg, i + 1)[k] by {
                    if in_frame(k, len, width as int) && cell_of(k, width as int, *g, left as int, top as int) == Some(i as int) {
                        lemma_cell_position(k, width as int, *g, left as int, top as int, i as int);
                        lemma_fundamental_div_mod(k / 4, width as int);
                        lemma_mod_bound(k / 4, width as int);
                    }
                }
            }
            assert(data@ =~= glyph_prefix(orig, width as int, *g, left as int, top as int, fg, i + 1));
        }
        i += 1;
    }
}

/// Where the pen stands after `glyphs`: the sum of their advances.
pub open spec fn pen_after(glyphs: Seq<GlyphCoverage>) -> int
    decreases glyphs.len(),
{
    if glyphs.len() == 0 {
        0
    } else {
        pen_after(glyphs.drop_last()) + glyphs.last().advance
    }
}

/// Row of a glyph's top edge on a line whose top is `offset` rows below the
/// buffer's top and whose baseline lies `ascent` rows below the line's top.
pub open spec fn glyph_top(g: GlyphCoverage, ascent: int, offset: int) -> int {
    offset + ascent - g.ymin - g.height
}

/// `buf` with the run of `glyphs` blended in left to right, starting with
/// the pen at column zero, each glyph's left edge at the pen plus its `xmin`.
pub open spec fn render(
    buf: Seq<u8>,
    width: int,
    glyphs: Seq<GlyphCoverage>,
    ascent: int,
    offset: int,
    fg: Color,
) -> Seq<u8>
    decreases glyphs.len(),
{
    if glyphs.len() == 0 {
        buf
    } else {
        let g = glyphs.last();
        let prev = glyphs.drop_last();
        apply_glyph(
            render(buf, width, prev, ascent, offset, fg),
            width,
            g,
            pen_after(prev) + g.xmin,
            glyph_top(g, ascent, offset),
            fg,
        )
    }
}

/// Draws a line of glyphs into `data`, a buffer of `width`-pixel rows: the
/// line's top lies `offset` rows below the buffer's top and its baseline
/// `ascent` rows below that. Each glyph's coverage is blended over what the
/// buffer holds, in `fg`; parts that run off an edge are dropped.
pub fn rasterize_glyphs(
    glyphs: &Vec<GlyphCoverage>,
    ascent: i32,
    offset: u32,
    data: &mut Vec<u8>,
    width: usize,
    fg: Color,
)
    ensures
        final(data)@ == render(old(data)@, width as int, glyphs@, ascent as int, offset as int, fg),
        glyphs@.len() == 0 ==> final(data)@ == old(data)@,
{
    let ghost orig = data@;
    let n = glyphs.len();
    let mut pen: i128 = 0;
    let mut i: usize = 0;
    assert(glyphs@.subrange(0, 0) =~= Seq::<GlyphCoverage>::empty());
    while i < n
        invariant
            i <= n,
            n == glyphs@.len(),
            0 <= pen <= i * 0x1_0000_0000,
            pen == pen_after(glyphs@.subrange(0, i as int)),
            data@ == render(orig, width as int, glyphs@.subrange(0, i as int), ascent as int, offset as int, fg),
        decreases n - i,
    {
        let g = &glyphs[i];
        assert(i * 0x1_0000_0000 <= 0x1_0000_0000_0000_0000 * 0x1_0000_0000) by (nonlinear_arith)
            requires
                i <= usize::MAX,
        ;
        let left: i128 = pen + g.xmin as i128;
        let top: i128 = offset as i128 + ascent as i128 - g.ymin as i128 - g.height as i128;
        draw_glyph(data, width, g, left, top, fg);
        assert(pen + g.advance <= (i + 1) * 0x1_0000_0000) by (nonlinear_arith)
            requires
                pen <= i * 0x1_0000_0000,
                g.advance < 0x1_0000_0000,
        ;
        pen = pen + g.advance as i128;
        proof {
            let s = glyphs@.subrange(0, i + 1);
            assert(s.drop_last() =~= glyphs@.subrange(0, i as int));
            assert(s.last() == glyphs@[i as int]);
        }
        i += 1;
    }
    assert(glyphs@.subrange(0, n as int) =~= glyphs@);
}

/// Drawing keeps the buffer's length.
pub proof fn lemma_render_len(buf: Seq<u8>, width: int, glyphs: Seq<GlyphCoverage>, ascent: int, offset: int, fg: Color)
    ensures
        render(buf, width, glyphs, ascent, offset, fg).len() == buf.len(),
    decreases glyphs.len(),
{
    if glyphs.len() > 0 {
        lemma_render_len(buf, width, glyphs.drop_last(), ascent, offset, fg);
    }
}

/// What drawing leaves in a byte depends on that byte alone (and on the
/// buffer's length): two buffers that agree on byte `k` still agree there
/// after the same run of glyphs is drawn into both.
pub proof fn lemma_render_pointwise(
    b1: Seq<u8>,
    b2: Seq<u8>,
    width: int,
    glyphs: Seq<GlyphCoverage>,
    ascent: int,
    offset: int,
    fg: Color,
    k: int,
)
    requires
        b1.len() == b2.len(),
        0 <= k < b1.len(),
        b1[k] == b2[k],
    ensures
        render(b1, width, glyphs, ascent, offset, fg)[k] == render(b2, width, glyphs, ascent, offset, fg)[k],
    decreases glyphs.len(),
{
    if glyphs.len() > 0 {
        lemma_render_len(b1, width, glyphs.drop_last(), ascent, offset, fg);
        lemma_render_len(b2, width, glyphs.drop_last(), ascent, offset, fg);
        lemma_render_pointwise(b1, b2, width, glyphs.drop_last(), ascent, offset, fg, k);
    }
}

/// Drawing is a function of its inputs: the same run of glyphs drawn with
/// the same size, offset and colour into two identical buffers (two freshly
/// zeroed ones, say) leaves byte-identical buffers.
pub proof fn lemma_render_deterministic(
    b1: Seq<u8>,
    b2: Seq<u8>,
    width: int,
    glyphs: Seq<GlyphCoverage>,
    ascent: int,
    offset: int,
    fg: Color,
)
    requires
        b1 == b2,
    ensures
        render(b1, width, glyphs, ascent, offset, fg) == render(b2, width, glyphs, ascent, offset, fg),
{
}

/// Drawing an empty run of glyphs (an empty string) leaves the buffer as it was.
pub proof fn lemma_render_empty(buf: Seq<u8>, width: int, ascent: int, offset: int, fg: Color)
    ensures
        render(buf, width, Seq::empty(), ascent, offset, fg) == buf,
{
}

/// Every glyph of the run starts at row `lo` or below once its line is
/// placed `offset` rows down.
pub open spec fn glyphs_start_from_row(glyphs: Seq<GlyphCoverage>, ascent: int, offset: int, lo: int) -> bool {
    forall|j: int| 0 <= j < glyphs.len() ==> lo <= glyph_top(#[trigger] glyphs[j], ascent, offset)
}

/// Every glyph of the run ends above row `hi` once its line is placed
/// `offset` rows down.
pub open spec fn glyphs_end_before_row(glyphs: Seq<GlyphCoverage>, ascent: int, offset: int, hi: int) -> bool {
    forall|j: int|
        0 <= j < glyphs.len() ==> glyph_top(#[trigger] glyphs[j], ascent, offset) + glyphs[j].height <= hi
}

/// Where every glyph of a run starts at row `lo` or below, drawing the run
/// leaves each byte above row `lo` as it was.
pub proof fn lemma_render_keeps_rows_above(
    buf: Seq<u8>,
    width: int,
    glyphs: Seq<GlyphCoverage>,
    ascent: int,
    offset: int,
    fg: Color,
    lo: int,
    k: int,
)
    requires
        glyphs_start_from_row(glyphs, ascent, offset, lo),
        0 <= k < buf.len(),
        row_of(k, width) < lo,
    ensures
        render(buf, width, glyphs, ascent, offset, fg)[k] == buf[k],
    decreases glyphs.len(),
{
    if glyphs.len() > 0 {
        let prev = glyphs.drop_last();
        assert(glyphs_start_from_row(prev, ascent, offset, lo)) by {
            assert forall|j: int| 0 <= j < prev.len() implies lo <= glyph_top(#[trigger] prev[j], ascent, offset) by {
                assert(prev[j] == glyphs[j]);
            }
        }
        lemma_render_keeps_rows_above(buf, width, prev, ascent, offset, fg, lo, k);
        lemma_render_len(buf, width, prev, ascent, offset, fg);
        assert(glyphs.last() == glyphs[glyphs.len() - 1]);
    }
}

/// Where every glyph of a run ends above row `hi`, drawing the run leaves
/// each byte from row `hi` down as it was.
pub proof fn lemma_render_keeps_rows_from(
    buf: Seq<u8>,
    width: int,
    glyphs: Seq<GlyphCoverage>,
    ascent: int,
    offset: int,
    fg: Color,
    hi: int,
    k: int,
)
    requires
        glyphs_end_before_row(glyphs, ascent, offset, hi),
        0 <= k < buf.len(),
        hi <= row_of(k, width),
    ensures
        render(buf, width, glyphs, ascent, offset, fg)[k] == buf[k],
    decreases glyphs.len(),
{
    if glyphs.len() > 0 {
        let prev = glyphs.drop_last();
        assert(glyphs_end_before_row(prev, ascent, offset, hi)) by {
            assert forall|j: int| 0 <= j < prev.len() implies glyph_top(#[trigger] prev[j], ascent, offset)
                + prev[j].height <= hi by {
                assert(prev[j] == glyphs[j]);
            }
        }
        lemma_render_keeps_rows_from(buf, width, prev, ascent, offset, fg, hi, k);
        lemma_render_len(buf, width, prev, ascent, offset, fg);
        assert(glyphs.last() == glyphs[glyphs.len() - 1]);
    }
}

} // verus!
