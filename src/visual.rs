//! Choosing a 32-bit visual whose pixels carry alpha, from what the
//! rendering extension reports, with the screen's default as the fallback.
use vstd::prelude::*;

verus! {

/// Type code of a direct-colour picture format.
pub const PICT_TYPE_DIRECT: u8 = 1;

/// Channel shifts and masks of a direct-colour picture format.
#[derive(Clone, Copy, Debug, PartialEq, Eq)]
pub struct DirectFormat {
    pub red_shift: u16,
    pub red_mask: u16,
    pub green_shift: u16,
    pub green_mask: u16,
    pub blue_shift: u16,
    pub blue_mask: u16,
    pub alpha_shift: u16,
    pub alpha_mask: u16,
}

/// A picture format that the server supports.
#[derive(Clone, Copy, Debug, PartialEq, Eq)]
pub struct PictFormatInfo {
    pub id: u32,
    pub type_: u8,
    pub depth: u8,
    pub direct: DirectFormat,
}

/// A visual of a screen and the picture format it is bound to.
#[derive(Clone, Copy, Debug, PartialEq, Eq)]
pub struct PictVisual {
    pub visual: u32,
    pub format: u32,
}

/// The visuals of one depth of a screen.
#[derive(Clone, Debug, PartialEq, Eq)]
pub struct PictDepth {
    pub depth: u8,
    pub visuals: Vec<PictVisual>,
}

/// The depths of one screen, as the rendering extension lists them.
#[derive(Clone, Debug, PartialEq, Eq)]
pub struct PictScreen {
    pub depths: Vec<PictDepth>,
}

/// The rendering extension's answer on picture formats.
#[derive(Clone, Debug, PartialEq, Eq)]
pub struct PictFormats {
    pub formats: Vec<PictFormatInfo>,
    pub screens: Vec<PictScreen>,
}

/// A 32-bit direct format with one full byte per channel, laid out as
/// blue, green, red, alpha from the least significant byte up.
pub open spec fn is_argb32(f: PictFormatInfo) -> bool {
    &&& f.type_ == PICT_TYPE_DIRECT
    &&& f.depth == 32
    &&& f.direct.red_mask == 0xff
    &&& f.direct.green_mask == 0xff
    &&& f.direct.blue_mask == 0xff
    &&& f.direct.alpha_mask == 0xff
    &&& f.direct.red_shift == 16
    &&& f.direct.green_shift == 8
    &&& f.direct.blue_shift == 0
    &&& f.direct.alpha_shift == 24
}

/// The first format of the list that `is_argb32` accepts.
pub open spec fn first_argb32(formats: Seq<PictFormatInfo>) -> Option<PictFormatInfo>
    decreases formats.len(),
{
    if formats.len() == 0 {
        None
    } else if is_argb32(formats[0]) {
        Some(formats[0])
    } else {
        first_argb32(formats.drop_first())
    }
}

/// The first visual of the list bound to format `format`.
pub open spec fn first_visual_in(visuals: Seq<PictVisual>, format: u32) -> Option<u32>
    decreases visuals.len(),
{
    if visuals.len() == 0 {
        None
    } else if visuals[0].format == format {
        Some(visuals[0].visual)
    } else {
        first_visual_in(visuals.drop_first(), format)
    }
}

/// The first visual bound to format `format`, depth by depth in the
/// screen's order.
pub open spec fn first_visual(depths: Seq<PictDepth>, format: u32) -> Option<u32>
    decreases depths.len(),
{
    if depths.len() == 0 {
        None
    } else {
        match first_visual_in(depths[0].visuals@, format) {
            Some(v) => Some(v),
            None => first_visual(depths.drop_first(), format),
        }
    }
}

/// The `(depth, visual)` pair to create the window with: the first
/// 32-bit ARGB format and the first visual of screen `screen_num` bound to
/// it, where the rendering extension is present (`render` is its answer)
/// and both exist; else the screen's default depth and visual.
pub open spec fn chosen_visual(
    render: Option<PictFormats>,
    screen_num: int,
    root_depth: u8,
    root_visual: u32,
) -> (u8, u32) {
    match render {
        Some(r) => match first_argb32(r.formats@) {
            Some(f) => if 0 <= screen_num < r.screens@.len() {
                match first_visual(r.screens@[screen_num].depths@, f.id) {
                    Some(v) => (f.depth, v),
                    None => (root_depth, root_visual),
                }
            } else {
                (root_depth, root_visual)
            },
            None => (root_depth, root_visual),
        },
        None => (root_depth, root_visual),
    }
}

fn find_argb32(formats: &Vec<PictFormatInfo>) -> (r: Option<PictFormatInfo>)
    ensures
        r == first_argb32(formats@),
{
    let mut i: usize = 0;
    assert(formats@.subrange(0, formats@.len() as int) =~= formats@);
    while i < formats.len()
        invariant
            i <= formats@.len(),
            first_argb32(formats@) == first_argb32(formats@.subrange(i as int, formats@.len() as int)),
        decreases formats@.len() - i,
    {
        let f = formats[i];
        let d = f.direct;
        let ghost rest = formats@.subrange(i as int, formats@.len() as int);
        assert(rest[0] == f);
        if f.type_ == PICT_TYPE_DIRECT && f.depth == 32 && d.red_mask == 0xff && d.green_mask == 0xff
            && d.blue_mask == 0xff && d.alpha_mask == 0xff && d.red_shift == 16 && d.green_shift == 8
            && d.blue_shift == 0 && d.alpha_shift == 24 {
            return Some(f);
        }
        assert(rest.drop_first() =~= formats@.subrange(i + 1, formats@.len() as int));
        i += 1;
    }
    None
}

fn find_visual_in(visuals: &Vec<PictVisual>, format: u32) -> (r: Option<u32>)
    ensures
        r == first_visual_in(visuals@, format),
{
    let mut i: usize = 0;
    assert(visuals@.subrange(0, visuals@.len() as int) =~= visuals@);
    while i < visuals.len()
        invariant
            i <= visuals@.len(),
            first_visual_in(visuals@, format) == first_visual_in(
                visuals@.subrange(i as int, visuals@.len() as int),
                format,
            ),
        decreases visuals@.len() - i,
    {
        let v = visuals[i];
        let ghost rest = visuals@.subrange(i as int, visuals@.len() as int);
        assert(rest[0] == v);
        if v.format == format {
            return Some(v.visual);
        }
        assert(rest.drop_first() =~= visuals@.subrange(i + 1, visuals@.len() as int));
        i += 1;
    }
    None
}

fn find_visual(depths: &Vec<PictDepth>, format: u32) -> (r: Option<u32>)
    ensures
        r == first_visual(depths@, format),
{
    let mut i: usize = 0;
    assert(depths@.subrange(0, depths@.len() as int) =~= depths@);
    while i < depths.len()
        invariant
            i <= depths@.len(),
            first_visual(depths@, format) == first_visual(
                depths@.subrange(i as int, depths@.len() as int),
                format,
            ),
        decreases depths@.len() - i,
    {
        let ghost rest = depths@.subrange(i as int, depths@.len() as int);
        assert(rest[0] == depths@[i as int]);
        let found = find_visual_in(&depths[i].visuals, format);
        if found.is_some() {
            return found;
        }
        assert(rest.drop_first() =~= depths@.subrange(i + 1, depths@.len() as int));
        i += 1;
    }
    None
}

/// Picks the depth and visual for the overlay window. `render` is the
/// rendering extension's list of formats, or `None` where the server lacks
/// the extension; `root_depth` and `root_visual` are screen `screen_num`'s
/// defaults, returned unchanged wherever no 32-bit ARGB visual is found.
pub fn choose_visual(render: Option<&PictFormats>, screen_num: usize, root_depth: u8, root_visual: u32) -> (r: (u8, u32))
    ensures
        r == chosen_visual(
            match render {
                Some(p) => Some(*p),
                None => None,
            },
            screen_num as int,
            root_depth,
            root_visual,
        ),
{
    match render {
        Some(r) => {
            match find_argb32(&r.formats) {
                Some(f) => {
                    if screen_num < r.screens.len() {
                        match find_visual(&r.screens[screen_num].depths, f.id) {
                            Some(v) => (f.depth, v),
                            None => (root_depth, root_visual),
                        }
                    } else {
                        (root_depth, root_visual)
                    }
                },
                None => (root_depth, root_visual),
            }
        },
        None => (root_depth, root_visual),
    }
}

/// `first_argb32` finds the earliest format that `is_argb32` accepts, and
/// finds none only where the list holds none.
proof fn lemma_first_argb32(formats: Seq<PictFormatInfo>, j: int)
    requires
        0 <= j < formats.len(),
        is_argb32(formats[j]),
        forall|i: int| 0 <= i < j ==> !is_argb32(#[trigger] formats[i]),
    ensures
        first_argb32(formats) == Some(formats[j]),
    decreases j,
{
    if j > 0 {
        let rest = formats.drop_first();
        assert(!is_argb32(formats[0]));
        assert forall|i: int| 0 <= i < j - 1 implies !is_argb32(#[trigger] rest[i]) by {
            assert(rest[i] == formats[i + 1]);
        }
        lemma_first_argb32(rest, j - 1);
    }
}

proof fn lemma_no_argb32(formats: Seq<PictFormatInfo>)
    requires
        forall|i: int| 0 <= i < formats.len() ==> !is_argb32(#[trigger] formats[i]),
    ensures
        first_argb32(formats) is None,
    decreases formats.len(),
{
    if formats.len() > 0 {
        let rest = formats.drop_first();
        assert forall|i: int| 0 <= i < rest.len() implies !is_argb32(#[trigger] rest[i]) by {
            assert(rest[i] == formats[i + 1]);
        }
        lemma_no_argb32(rest);
    }
}

/// Visual selection depends on the reported formats alone: where the
/// server lacks the rendering extension, or reports no 32-bit ARGB format,
/// the default depth and visual come back unchanged; where format `j` is the
/// first 32-bit ARGB format and `v` the first visual of the screen bound to
/// it, depth 32 and `v` are chosen.
pub proof fn lemma_visual_choice(
    render: Option<PictFormats>,
    screen_num: int,
    root_depth: u8,
    root_visual: u32,
    j: int,
    v: u32,
)
    ensures
        render is None ==> chosen_visual(render, screen_num, root_depth, root_visual) == (
            root_depth,
            root_visual,
        ),
        render matches Some(r) && (forall|i: int|
            0 <= i < r.formats@.len() ==> !is_argb32(#[trigger] r.formats@[i])) ==> chosen_visual(
            render,
            screen_num,
            root_depth,
            root_visual,
        ) == (root_depth, root_visual),
        render matches Some(r) && 0 <= j < r.formats@.len() && is_argb32(r.formats@[j]) && (forall|
            i: int,
        | 0 <= i < j ==> !is_argb32(#[trigger] r.formats@[i])) && 0 <= screen_num
            < r.screens@.len() && first_visual(r.screens@[screen_num].depths@, r.formats@[j].id)
            == Some(v) ==> chosen_visual(render, screen_num, root_depth, root_visual) == (32u8, v),
{
    if let Some(r) = render {
        if forall|i: int| 0 <= i < r.formats@.len() ==> !is_argb32(#[trigger] r.formats@[i]) {
            lemma_no_argb32(r.formats@);
        }
        if 0 <= j < r.formats@.len() && is_argb32(r.formats@[j]) && (forall|i: int|
            0 <= i < j ==> !is_argb32(#[trigger] r.formats@[i])) {
            lemma_first_argb32(r.formats@, j);
        }
    }
}

/// A visual as the core protocol describes it.
#[derive(Clone, Copy, Debug, PartialEq, Eq)]
pub struct Visualtype {
    pub visual_id: u32,
    pub class: u8,
    pub bits_per_rgb_value: u8,
    pub colormap_entries: u16,
    pub red_mask: u32,
    pub green_mask: u32,
    pub blue_mask: u32,
}

/// A visual with the fields of XCB's `xcb_visualtype_t`, in that
/// structure's order, with its four bytes of padding.
#[derive(Debug, Clone, Copy)]
pub struct XcbVisualtypeT {
    pub visual_id: u32,
    pub class: u8,
    pub bits_per_rgb_value: u8,
    pub colormap_entries: u16,
    pub red_mask: u32,
    pub green_mask: u32,
    pub blue_mask: u32,
    pub pad0: [u8; 4],
}

impl From<Visualtype> for XcbVisualtypeT {
    fn from(value: Visualtype) -> XcbVisualtypeT {
        XcbVisualtypeT {
            visual_id: value.visual_id,
            class: value.class,
            bits_per_rgb_value: value.bits_per_rgb_value,
            colormap_entries: value.colormap_entries,
            red_mask: value.red_mask,
            green_mask: value.green_mask,
            blue_mask: value.blue_mask,
            pad0: [0u8, 0u8, 0u8, 0u8],
        }
    }
}

impl vstd::std_specs::convert::FromSpecImpl<Visualtype> for XcbVisualtypeT {
    open spec fn obeys_from_spec() -> bool {
        true
    }

    /// Every field carried over unchanged; the padding zeroed.
    open spec fn from_spec(value: Visualtype) -> XcbVisualtypeT {
        XcbVisualtypeT {
            visual_id: value.visual_id,
            class: value.class,
            bits_per_rgb_value: value.bits_per_rgb_value,
            colormap_entries: value.colormap_entries,
            red_mask: value.red_mask,
            green_mask: value.green_mask,
            blue_mask: value.blue_mask,
            pad0: [0u8, 0u8, 0u8, 0u8],
        }
    }
}

} // verus!
