use activate_linux::compositor::{
    composite_manager_running, compositor_selection, xfixes_version_supported,
};
use activate_linux::geometry::{window_position, OVERLAY_HEIGHT, OVERLAY_WIDTH};
use activate_linux::overlay::{caption_text, header_text};
use activate_linux::visual::{
    choose_visual, DirectFormat, PictDepth, PictFormatInfo, PictFormats, PictScreen, PictVisual,
    Visualtype, XcbVisualtypeT,
};
use activate_linux::window::{
    click_through, create_window, overlay_requests, OverlayIds, Request, ScreenInfo,
    WindowAttributes, WmAtoms, EXPOSURE_MASK, STRUCTURE_NOTIFY_MASK,
};

fn argb_direct() -> DirectFormat {
    DirectFormat {
        red_shift: 16,
        red_mask: 0xff,
        green_shift: 8,
        green_mask: 0xff,
        blue_shift: 0,
        blue_mask: 0xff,
        alpha_shift: 24,
        alpha_mask: 0xff,
    }
}

fn format(id: u32, type_: u8, depth: u8, direct: DirectFormat) -> PictFormatInfo {
    PictFormatInfo { id, type_, depth, direct }
}

fn screen_with(visuals: Vec<PictVisual>) -> PictScreen {
    PictScreen {
        depths: vec![
            PictDepth { depth: 24, visuals: vec![PictVisual { visual: 0x21, format: 0x10 }] },
            PictDepth { depth: 32, visuals },
        ],
    }
}

fn screen() -> ScreenInfo {
    ScreenInfo {
        root: 0x100,
        width_in_pixels: 1920,
        height_in_pixels: 1080,
        root_depth: 24,
        root_visual: 0x21,
        black_pixel: 0,
        white_pixel: 0xffffff,
    }
}

fn atoms() -> WmAtoms {
    WmAtoms {
        wm_protocols: 1,
        wm_delete_window: 2,
        net_wm_state: 3,
        net_wm_state_above: 4,
        net_wm_window_type: 5,
        net_wm_window_type_dialog: 6,
    }
}

fn ids() -> OverlayIds {
    OverlayIds { window: 0x400001, colormap: 0x400002, region: 0x400003, gc: 0x400004 }
}

#[test]
fn position_bottom_right_of_full_hd() {
    assert_eq!(window_position(1920, 1080, OVERLAY_WIDTH, OVERLAY_HEIGHT), Some((1585, 970)));
}

#[test]
fn position_of_screen_exactly_window_sized() {
    assert_eq!(window_position(335, 110, 335, 110), Some((0, 0)));
}

#[test]
fn position_keeps_window_on_screen_for_many_sizes() {
    for sw in [335u16, 336, 800, 1366, 1920, 3840, 32767] {
        for sh in [110u16, 111, 600, 768, 1080, 2160] {
            let (x, y) = window_position(sw, sh, OVERLAY_WIDTH, OVERLAY_HEIGHT).unwrap();
            assert!(x >= 0 && y >= 0);
            assert_eq!(x as i32 + OVERLAY_WIDTH as i32, sw as i32);
            assert_eq!(y as i32 + OVERLAY_HEIGHT as i32, sh as i32);
        }
    }
}

#[test]
fn position_refused_on_small_screen() {
    assert_eq!(window_position(334, 1080, 335, 110), None);
    assert_eq!(window_position(1920, 109, 335, 110), None);
}

#[test]
fn position_refused_beyond_coordinate_range() {
    assert_eq!(window_position(65535, 1080, 335, 110), None);
    assert_eq!(window_position(33102, 1080, 335, 110), Some((32767, 970)));
    assert_eq!(window_position(33103, 1080, 335, 110), None);
}

#[test]
fn visual_default_without_render() {
    assert_eq!(choose_visual(None, 0, 24, 0x21), (24, 0x21));
}

#[test]
fn visual_argb_chosen_when_present() {
    let formats = PictFormats {
        formats: vec![
            format(0x10, 1, 24, DirectFormat { alpha_mask: 0, ..argb_direct() }),
            format(0x11, 1, 32, DirectFormat { red_shift: 0, blue_shift: 16, ..argb_direct() }),
            format(0x12, 0, 32, argb_direct()),
            format(0x13, 1, 32, argb_direct()),
            format(0x14, 1, 32, argb_direct()),
        ],
        screens: vec![screen_with(vec![
            PictVisual { visual: 0x50, format: 0x14 },
            PictVisual { visual: 0x51, format: 0x13 },
            PictVisual { visual: 0x52, format: 0x13 },
        ])],
    };
    assert_eq!(choose_visual(Some(&formats), 0, 24, 0x21), (32, 0x51));
    assert_eq!(choose_visual(Some(&formats), 0, 24, 0x21), (32, 0x51));
}

#[test]
fn visual_default_without_argb_format() {
    let formats = PictFormats {
        formats: vec![
            format(0x10, 1, 24, DirectFormat { alpha_mask: 0, ..argb_direct() }),
            format(0x11, 1, 32, DirectFormat { alpha_shift: 0, blue_shift: 24, ..argb_direct() }),
        ],
        screens: vec![screen_with(vec![PictVisual { visual: 0x50, format: 0x11 }])],
    };
    assert_eq!(choose_visual(Some(&formats), 0, 24, 0x21), (24, 0x21));
}

#[test]
fn visual_default_without_bound_visual() {
    let formats = PictFormats {
        formats: vec![format(0x13, 1, 32, argb_direct())],
        screens: vec![screen_with(vec![PictVisual { visual: 0x50, format: 0x14 }])],
    };
    assert_eq!(choose_visual(Some(&formats), 0, 24, 0x21), (24, 0x21));
}

#[test]
fn visual_default_for_unlisted_screen() {
    let formats = PictFormats {
        formats: vec![format(0x13, 1, 32, argb_direct())],
        screens: vec![screen_with(vec![PictVisual { visual: 0x50, format: 0x13 }])],
    };
    assert_eq!(choose_visual(Some(&formats), 1, 24, 0x21), (24, 0x21));
    assert_eq!(choose_visual(Some(&formats), 0, 24, 0x21), (32, 0x50));
}

#[test]
fn xcb_visualtype_from_keeps_fields() {
    let v = Visualtype {
        visual_id: 0x21,
        class: 4,
        bits_per_rgb_value: 8,
        colormap_entries: 256,
        red_mask: 0xff0000,
        green_mask: 0xff00,
        blue_mask: 0xff,
    };
    let x = XcbVisualtypeT::from(v);
    assert_eq!(x.visual_id, 0x21);
    assert_eq!(x.class, 4);
    assert_eq!(x.bits_per_rgb_value, 8);
    assert_eq!(x.colormap_entries, 256);
    assert_eq!((x.red_mask, x.green_mask, x.blue_mask), (0xff0000, 0xff00, 0xff));
    assert_eq!(x.pad0, [0u8; 4]);
}

#[test]
fn selection_name_of_screens() {
    assert_eq!(compositor_selection(0), b"_NET_WM_CM_S0".to_vec());
    assert_eq!(compositor_selection(7), b"_NET_WM_CM_S7".to_vec());
    assert_eq!(compositor_selection(12), b"_NET_WM_CM_S12".to_vec());
    assert_eq!(compositor_selection(305), b"_NET_WM_CM_S305".to_vec());
}

#[test]
fn compositor_running_iff_owned() {
    assert_eq!(composite_manager_running(Some(0x1a5), Some(0x600001)), Some(true));
    assert_eq!(composite_manager_running(Some(0x1a5), Some(0)), Some(false));
    assert_eq!(composite_manager_running(Some(0), Some(0x600001)), Some(false));
    assert_eq!(composite_manager_running(None, Some(0x600001)), Some(false));
    assert_eq!(composite_manager_running(None, None), Some(false));
    assert_eq!(composite_manager_running(Some(0), None), Some(false));
}

#[test]
fn compositor_owner_failure_is_an_error() {
    assert_eq!(composite_manager_running(Some(0x1a5), None), None);
}

#[test]
fn xfixes_version_check() {
    assert!(xfixes_version_supported(5, 0));
    assert!(xfixes_version_supported(6, 1));
    assert!(!xfixes_version_supported(4, 9));
    assert!(!xfixes_version_supported(0, 0));
}

#[test]
fn default_texts() {
    assert_eq!(header_text(None), "Activate Linux");
    assert_eq!(caption_text(None), "Go to Settings to activate Linux.");
    assert_eq!(header_text(Some("Hello".to_string())), "Hello");
    assert_eq!(caption_text(Some(String::new())), "");
}

fn expected_window(x: i16, y: i16) -> Vec<Request> {
    let ids = ids();
    vec![
        Request::CreateColormap { colormap: ids.colormap, root: 0x100, visual: 0x77 },
        Request::CreateWindow {
            depth: 32,
            window: ids.window,
            parent: 0x100,
            x,
            y,
            width: 335,
            height: 110,
            visual: 0x77,
            attributes: WindowAttributes {
                override_redirect: true,
                event_mask: EXPOSURE_MASK | STRUCTURE_NOTIFY_MASK,
                background_pixel: 0,
                border_pixel: 0,
                colormap: ids.colormap,
            },
        },
        Request::SetAtomProperty { window: ids.window, property: 1, value: 2 },
        Request::SetAtomProperty { window: ids.window, property: 3, value: 4 },
        Request::SetAtomProperty { window: ids.window, property: 5, value: 6 },
        Request::MapWindow { window: ids.window },
    ]
}

#[test]
fn window_requests_in_order() {
    let got = create_window(&screen(), &atoms(), &ids(), (335, 110), 32, 0x77).unwrap();
    assert_eq!(got, expected_window(1585, 970));
    assert_eq!(EXPOSURE_MASK | STRUCTURE_NOTIFY_MASK, (1 << 15) | (1 << 17));
}

#[test]
fn window_refused_on_small_screen() {
    let small = ScreenInfo { width_in_pixels: 320, ..screen() };
    assert_eq!(create_window(&small, &atoms(), &ids(), (335, 110), 32, 0x77), None);
    assert_eq!(overlay_requests(&small, &atoms(), &ids(), (335, 110), 32, 0x77), None);
}

#[test]
fn click_through_uses_empty_input_region() {
    let got = click_through(0x400001, 0x400003);
    assert_eq!(
        got,
        vec![
            Request::CreateEmptyRegion { region: 0x400003 },
            Request::SetInputShape { window: 0x400001, region: 0x400003, x_offset: 0, y_offset: 0 },
            Request::DestroyRegion { region: 0x400003 },
            Request::RaiseToTop { window: 0x400001 },
        ]
    );
}

#[test]
fn setup_same_without_compositor() {
    let running = composite_manager_running(Some(0x1a5), Some(0));
    assert_eq!(running, Some(false));
    let got = overlay_requests(&screen(), &atoms(), &ids(), (335, 110), 32, 0x77).unwrap();
    let mut expected = expected_window(1585, 970);
    expected.extend(click_through(0x400001, 0x400003));
    expected.push(Request::CreateGc { gc: 0x400004, window: 0x400001, foreground: 0xffffff });
    assert_eq!(got, expected);
    let again = overlay_requests(&screen(), &atoms(), &ids(), (335, 110), 32, 0x77).unwrap();
    assert_eq!(got, again);
}
