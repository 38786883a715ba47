//! Placement of the overlay on the screen.
use vstd::prelude::*;

verus! {

/// Width of the overlay window in pixels.
pub const OVERLAY_WIDTH: u16 = 335;

/// Height of the overlay window in pixels.
pub const OVERLAY_HEIGHT: u16 = 110;

/// Largest coordinate that a window position can take on the wire.
pub const MAX_COORDINATE: u16 = 32767;

/// The top-left corner that puts a `w` by `h` window in the bottom-right
/// corner of a `sw` by `sh` screen, when the screen holds the window and the
/// corner can be written as a pair of 16-bit signed coordinates.
pub open spec fn corner_position(sw: int, sh: int, w: int, h: int) -> Option<(int, int)> {
    if w <= sw && h <= sh && sw - w <= MAX_COORDINATE && sh - h <= MAX_COORDINATE {
        Some((sw - w, sh - h))
    } else {
        None
    }
}

/// Computes where the window goes: `(screen_width - width, screen_height - height)`.
/// Gives `None` where the screen is smaller than the window in either
/// dimension, or where the corner lies beyond the protocol's coordinate range.
pub fn window_position(screen_width: u16, screen_height: u16, width: u16, height: u16) -> (r:
    Option<(i16, i16)>)
    ensures
        match r {
            Some((x, y)) => corner_position(
                screen_width as int,
                screen_height as int,
                width as int,
                height as int,
            ) == Some((x as int, y as int)),
            None => corner_position(
                screen_width as int,
                screen_height as int,
                width as int,
                height as int,
            ) is None,
        },
{
    if width > screen_width || height > screen_height {
        return None;
    }
    let dx: u16 = screen_width - width;
    let dy: u16 = screen_height - height;
    if dx > MAX_COORDINATE || dy > MAX_COORDINATE {
        return None;
    }
    Some((dx as i16, dy as i16))
}

/// For every screen at least as large as the window (and within the
/// protocol's coordinate range), the computed corner keeps the whole window
/// on the screen: both coordinates are non-negative and the far edges meet the
/// screen's edges.
pub proof fn lemma_window_inside_screen(sw: u16, sh: u16, w: u16, h: u16)
    requires
        w <= sw,
        h <= sh,
        sw - w <= MAX_COORDINATE,
        sh - h <= MAX_COORDINATE,
    ensures
        corner_position(sw as int, sh as int, w as int, h as int) matches Some((x, y)) && 0 <= x
            && 0 <= y && x + w == sw && y + h == sh,
{
}

} // verus!
