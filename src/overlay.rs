//! What the overlay shows: its texts, their sizes, and how the two lines are
//! drawn into the window's pixels.
use vstd::prelude::*;
use crate::raster::{
    Color, GlyphCoverage, render, rasterize_glyphs, row_of, glyphs_start_from_row,
    glyphs_end_before_row, lemma_render_keeps_rows_above, lemma_render_keeps_rows_from,
    lemma_render_pointwise, lemma_render_len,
};

verus! {

/// Pixel size of the header line.
pub const HEADER_PIXEL_SIZE: u32 = 28;

/// Pixel size of the caption line.
pub const CAPTION_PIXEL_SIZE: u32 = 16;

/// Rows between the buffer's top and the caption line's top.
pub const CAPTION_OFFSET: u32 = 32;

pub open spec fn default_header() -> Seq<char> {
    seq!['A', 'c', 't', 'i', 'v', 'a', 't', 'e', ' ', 'L', 'i', 'n', 'u', 'x']
}

pub open spec fn default_caption() -> Seq<char> {
    seq![
        'G', 'o', ' ', 't', 'o', ' ', 'S', 'e', 't', 't', 'i', 'n', 'g', 's', ' ', 't', 'o', ' ',
        'a', 'c', 't', 'i', 'v', 'a', 't', 'e', ' ', 'L', 'i', 'n', 'u', 'x', '.',
    ]
}

/// The header to show: the one given, else "Activate Linux".
pub fn header_text(header: Option<String>) -> (r: String)
    ensures
        r@ == match header {
            Some(s) => s@,
            None => default_header(),
        },
{
    match header {
        Some(s) => s,
        None => {
            let s = "Activate Linux".to_owned();
            proof {
                reveal_strlit("Activate Linux");
                assert(s@ =~= default_header());
            }
            s
        },
    }
}

/// The caption to show: the one given, else "Go to Settings to activate Linux.".
pub fn caption_text(caption: Option<String>) -> (r: String)
    ensures
        r@ == match caption {
            Some(s) => s@,
            None => default_caption(),
        },
{
    match caption {
        Some(s) => s,
        None => {
            let s = "Go to Settings to activate Linux.".to_owned();
            proof {
                reveal_strlit("Go to Settings to activate Linux.");
                assert(s@ =~= default_caption());
            }
            s
        },
    }
}

/// The window's pixels once the header line is drawn at the top and the
/// caption line `CAPTION_OFFSET` rows down.
pub open spec fn compose(
    buf: Seq<u8>,
    width: int,
    header: Seq<GlyphCoverage>,
    header_ascent: int,
    caption: Seq<GlyphCoverage>,
    caption_ascent: int,
    fg: Color,
) -> Seq<u8> {
    render(
        render(buf, width, header, header_ascent, 0, fg),
        width,
        caption,
        caption_ascent,
        CAPTION_OFFSET as int,
        fg,
    )
}

/// Draws the header glyphs at the top of `data` and then the caption glyphs
/// `CAPTION_OFFSET` rows down; both lines share the row width `width`.
pub fn present_text(
    data: &mut Vec<u8>,
    width: usize,
    header: &Vec<GlyphCoverage>,
    header_ascent: i32,
    caption: &Vec<GlyphCoverage>,
    caption_ascent: i32,
    fg: Color,
)
    ensures
        final(data)@ == compose(
            old(data)@,
            width as int,
            header@,
            header_ascent as int,
            caption@,
            caption_ascent as int,
            fg,
        ),
{
    rasterize_glyphs(header, header_ascent, 0, data, width, fg);
    rasterize_glyphs(caption, caption_ascent, CAPTION_OFFSET, data, width, fg);
}

/// Where the header's glyphs end above the caption's line and
/// the caption's glyphs start at or below that line's top, the composed
/// pixels above row `CAPTION_OFFSET` are those of the header alone, and the
/// pixels from that row down are those of the caption alone.
pub proof fn lemma_lines_keep_to_their_rows(
    buf: Seq<u8>,
    width: int,
    header: Seq<GlyphCoverage>,
    header_ascent: int,
    caption: Seq<GlyphCoverage>,
    caption_ascent: int,
    fg: Color,
)
    requires
        glyphs_end_before_row(header, header_ascent, 0, CAPTION_OFFSET as int),
        glyphs_start_from_row(caption, caption_ascent, CAPTION_OFFSET as int, CAPTION_OFFSET as int),
    ensures
        compose(buf, width, header, header_ascent, caption, caption_ascent, fg).len() == buf.len(),
        forall|k: int|
            0 <= k < buf.len() && row_of(k, width) < CAPTION_OFFSET ==> #[trigger] compose(
                buf,
                width,
                header,
                header_ascent,
                caption,
                caption_ascent,
                fg,
            )[k] == render(buf, width, header, header_ascent, 0, fg)[k],
        forall|k: int|
            0 <= k < buf.len() && row_of(k, width) >= CAPTION_OFFSET ==> #[trigger] compose(
                buf,
                width,
                header,
                header_ascent,
                caption,
                caption_ascent,
                fg,
            )[k] == render(buf, width, caption, caption_ascent, CAPTION_OFFSET as int, fg)[k],
{
    let hb = render(buf, width, header, header_ascent, 0, fg);
    lemma_render_len(buf, width, header, header_ascent, 0, fg);
    lemma_render_len(hb, width, caption, caption_ascent, CAPTION_OFFSET as int, fg);
    assert forall|k: int| 0 <= k < buf.len() && row_of(k, width) < CAPTION_OFFSET implies #[trigger] compose(
        buf,
        width,
        header,
        header_ascent,
        caption,
        caption_ascent,
        fg,
    )[k] == hb[k] by {
        lemma_render_keeps_rows_above(
            hb,
            width,
            caption,
            caption_ascent,
            CAPTION_OFFSET as int,
            fg,
            CAPTION_OFFSET as int,
            k,
        );
    }
    assert forall|k: int| 0 <= k < buf.len() && row_of(k, width) >= CAPTION_OFFSET implies #[trigger] compose(
        buf,
        width,
        header,
        header_ascent,
        caption,
        caption_ascent,
        fg,
    )[k] == render(buf, width, caption, caption_ascent, CAPTION_OFFSET as int, fg)[k] by {
        lemma_render_keeps_rows_from(buf, width, header, header_ascent, 0, fg, CAPTION_OFFSET as int, k);
        lemma_render_pointwise(hb, buf, width, caption, caption_ascent, CAPTION_OFFSET as int, fg, k);
    }
}

} // verus!
