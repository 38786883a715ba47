//! The protocol requests that create the overlay window, make it ignore
//! input, and prepare drawing into it, in the order they must be sent.
use vstd::prelude::*;
use crate::geometry::{corner_position, window_position};

verus! {

/// Event-mask bit for exposure events.
pub const EXPOSURE_MASK: u32 = 0x8000;

/// Event-mask bit for structure-change events.
pub const STRUCTURE_NOTIFY_MASK: u32 = 0x2_0000;

/// The facts of a screen that the overlay needs.
#[derive(Clone, Copy, Debug, PartialEq, Eq)]
pub struct ScreenInfo {
    pub root: u32,
    pub width_in_pixels: u16,
    pub height_in_pixels: u16,
    pub root_depth: u8,
    pub root_visual: u32,
    pub black_pixel: u32,
    pub white_pixel: u32,
}

/// The window-manager atoms that the overlay's properties use.
#[derive(Clone, Copy, Debug, PartialEq, Eq)]
pub struct WmAtoms {
    pub wm_protocols: u32,
    pub wm_delete_window: u32,
    pub net_wm_state: u32,
    pub net_wm_state_above: u32,
    pub net_wm_window_type: u32,
    pub net_wm_window_type_dialog: u32,
}

/// Resource ids generated for the overlay.
#[derive(Clone, Copy, Debug, PartialEq, Eq)]
pub struct OverlayIds {
    pub window: u32,
    pub colormap: u32,
    pub region: u32,
    pub gc: u32,
}

/// The attributes a window is created with.
#[derive(Clone, Copy, Debug, PartialEq, Eq)]
pub struct WindowAttributes {
    pub override_redirect: bool,
    pub event_mask: u32,
    pub background_pixel: u32,
    pub border_pixel: u32,
    pub colormap: u32,
}

/// One protocol request.
#[derive(Clone, Copy, Debug, PartialEq, Eq)]
pub enum Request {
    /// A colormap with no entries allocated, for `visual`, on `root`'s screen.
    CreateColormap { colormap: u32, root: u32, visual: u32 },
    /// An input-output window with no border.
    CreateWindow {
        depth: u8,
        window: u32,
        parent: u32,
        x: i16,
        y: i16,
        width: u16,
        height: u16,
        visual: u32,
        attributes: WindowAttributes,
    },
    /// Replaces `property` of `window` with the one-atom list `[value]`,
    /// typed ATOM, in 32-bit units.
    SetAtomProperty { window: u32, property: u32, value: u32 },
    MapWindow { window: u32 },
    /// A region holding no rectangle at all.
    CreateEmptyRegion { region: u32 },
    /// Makes `region`, moved by the offset, the input shape of `window`.
    SetInputShape { window: u32, region: u32, x_offset: i16, y_offset: i16 },
    DestroyRegion { region: u32 },
    /// Puts `window` at the top of the stacking order.
    RaiseToTop { window: u32 },
    /// A graphics context on `window` whose foreground is `foreground`.
    CreateGc { gc: u32, window: u32, foreground: u32 },
}

/// The attributes of the overlay: left alone by the window manager,
/// interested in exposure and structure changes only, background pixel
/// zero, border of the screen's black, and the given colormap.
pub open spec fn overlay_attributes(screen: ScreenInfo, colormap: u32) -> WindowAttributes {
    WindowAttributes {
        override_redirect: true,
        event_mask: EXPOSURE_MASK | STRUCTURE_NOTIFY_MASK,
        background_pixel: 0,
        border_pixel: screen.black_pixel,
        colormap,
    }
}

/// The requests that create and map the overlay window at (`x`, `y`).
pub open spec fn window_requests(
    screen: ScreenInfo,
    atoms: WmAtoms,
    ids: OverlayIds,
    width: u16,
    height: u16,
    depth: u8,
    visual: u32,
    x: i16,
    y: i16,
) -> Seq<Request> {
    seq![
        Request::CreateColormap { colormap: ids.colormap, root: screen.root, visual },
        Request::CreateWindow {
            depth,
            window: ids.window,
            parent: screen.root,
            x,
            y,
            width,
            height,
            visual,
            attributes: overlay_attributes(screen, ids.colormap),
        },
        Request::SetAtomProperty {
            window: ids.window,
            property: atoms.wm_protocols,
            value: atoms.wm_delete_window,
        },
        Request::SetAtomProperty {
            window: ids.window,
            property: atoms.net_wm_state,
            value: atoms.net_wm_state_above,
        },
        Request::SetAtomProperty {
            window: ids.window,
            property: atoms.net_wm_window_type,
            value: atoms.net_wm_window_type_dialog,
        },
        Request::MapWindow { window: ids.window },
    ]
}

/// The requests that make the window a hole for input and keep it on top.
pub open spec fn click_through_requests(window: u32, region: u32) -> Seq<Request> {
    seq![
        Request::CreateEmptyRegion { region },
        Request::SetInputShape { window, region, x_offset: 0, y_offset: 0 },
        Request::DestroyRegion { region },
        Request::RaiseToTop { window },
    ]
}

/// The requests that create and map a `width` by `height` overlay window in
/// the screen's bottom-right corner, or `None` where the screen cannot hold
/// it there.
pub fn create_window(
    screen: &ScreenInfo,
    atoms: &WmAtoms,
    ids: &OverlayIds,
    size: (u16, u16),
    depth: u8,
    visual: u32,
) -> (r: Option<Vec<Request>>)
    ensures
        r is None <==> corner_position(
            screen.width_in_pixels as int,
            screen.height_in_pixels as int,
            size.0 as int,
            size.1 as int,
        ) is None,
        r matches Some(v) ==> exists|x: i16, y: i16|
            corner_position(
                screen.width_in_pixels as int,
                screen.height_in_pixels as int,
                size.0 as int,
                size.1 as int,
            ) == Some((x as int, y as int)) && v@ == window_requests(
                *screen,
                *atoms,
                *ids,
                size.0,
                size.1,
                depth,
                visual,
                x,
                y,
            ),
{
    let (width, height) = size;
    let (x, y) = match window_position(screen.width_in_pixels, screen.height_in_pixels, width, height) {
        Some(p) => p,
        None => return None,
    };
    let attributes = WindowAttributes {
        override_redirect: true,
        event_mask: EXPOSURE_MASK | STRUCTURE_NOTIFY_MASK,
        background_pixel: 0,
        border_pixel: screen.black_pixel,
        colormap: ids.colormap,
    };
    let v = vec![
        Request::CreateColormap { colormap: ids.colormap, root: screen.root, visual },
        Request::CreateWindow {
            depth,
            window: ids.window,
            parent: screen.root,
            x,
            y,
            width,
            height,
            visual,
            attributes,
        },
        Request::SetAtomProperty {
            window: ids.window,
            property: atoms.wm_protocols,
            value: atoms.wm_delete_window,
        },
        Request::SetAtomProperty {
            window: ids.window,
            property: atoms.net_wm_state,
            value: atoms.net_wm_state_above,
        },
        Request::SetAtomProperty {
            window: ids.window,
            property: atoms.net_wm_window_type,
            value: atoms.net_wm_window_type_dialog,
        },
        Request::MapWindow { window: ids.window },
    ];
    assert(v@ =~= window_requests(*screen, *atoms, *ids, width, height, depth, visual, x, y));
    Some(v)
}

/// The requests that make `window` ignore all input: an empty region
/// becomes its input shape, with no offset, and is then destroyed; the
/// window is then raised to the top.
pub fn click_through(window: u32, region: u32) -> (r: Vec<Request>)
    ensures
        r@ == click_through_requests(window, region),
{
    let v = vec![
        Request::CreateEmptyRegion { region },
        Request::SetInputShape { window, region, x_offset: 0, y_offset: 0 },
        Request::DestroyRegion { region },
        Request::RaiseToTop { window },
    ];
    assert(v@ =~= click_through_requests(window, region));
    v
}

/// Every request of the overlay's setup, in order: the window, its input
/// shape, and a graphics context whose foreground is the screen's white.
/// `None` where the screen cannot hold a `size` window in its corner.
pub fn overlay_requests(
    screen: &ScreenInfo,
    atoms: &WmAtoms,
    ids: &OverlayIds,
    size: (u16, u16),
    depth: u8,
    visual: u32,
) -> (r: Option<Vec<Request>>)
    ensures
        r is None <==> corner_position(
            screen.width_in_pixels as int,
            screen.height_in_pixels as int,
            size.0 as int,
            size.1 as int,
        ) is None,
        r matches Some(v) ==> exists|x: i16, y: i16|
            corner_position(
                screen.width_in_pixels as int,
                screen.height_in_pixels as int,
                size.0 as int,
                size.1 as int,
            ) == Some((x as int, y as int)) && v@ == window_requests(
                *screen,
                *atoms,
                *ids,
                size.0,
                size.1,
                depth,
                visual,
                x,
                y,
            ) + click_through_requests(ids.window, ids.region) + seq![
                Request::CreateGc { gc: ids.gc, window: ids.window, foreground: screen.white_pixel },
            ],
{
    let mut v = match create_window(screen, atoms, ids, size, depth, visual) {
        Some(v) => v,
        None => return None,
    };
    let ghost first = v@;
    let mut rest = click_through(ids.window, ids.region);
    v.append(&mut rest);
    v.push(Request::CreateGc { gc: ids.gc, window: ids.window, foreground: screen.white_pixel });
    proof {
        let (x, y) = choose|x: i16, y: i16|
            corner_position(
                screen.width_in_pixels as int,
                screen.height_in_pixels as int,
                size.0 as int,
                size.1 as int,
            ) == Some((x as int, y as int)) && first == window_requests(
                *screen,
                *atoms,
                *ids,
                size.0,
                size.1,
                depth,
                visual,
                x,
                y,
            );
        assert(v@ =~= window_requests(*screen, *atoms, *ids, size.0, size.1, depth, visual, x, y)
            + click_through_requests(ids.window, ids.region) + seq![
            Request::CreateGc { gc: ids.gc, window: ids.window, foreground: screen.white_pixel },
        ]);
    }
    Some(v)
}

} // verus!
