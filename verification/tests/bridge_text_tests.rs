use consolation::bridge::{grant_configure, pick_title, window_type_is_menu, UnpairedSurfaces};
use consolation::geometry::Pos;
use consolation::text::{
    digit_rect, fps_ops, glyph_rect, load_glyph_atlas, printable_bytes, string_ops,
};
use consolation::toplevel::{
    refresh_toplevel, to_state_vec, ToplevelData, ToplevelDelta, ToplevelInfo,
};
use consolation::tree::{assign_role, SurfaceRole};

#[test]
fn role_assignment_is_one_time() {
    let mut role = None;
    assert_eq!(assign_role(&mut role, SurfaceRole::Toplevel), Ok(()));
    assert_eq!(role, Some(SurfaceRole::Toplevel));
    assert_eq!(assign_role(&mut role, SurfaceRole::Popup), Err(()));
    assert_eq!(role, Some(SurfaceRole::Toplevel));
}

#[test]
fn unpaired_windows_pair_on_commit() {
    let mut u = UnpairedSurfaces::new();
    u.register(10, 777, Pos { x: 1, y: 2 });
    u.register(11, 778, Pos { x: 0, y: 0 });
    // a re-announcement replaces the stored window
    u.register(10, 779, Pos { x: 3, y: 4 });
    let p = u.take(10).unwrap();
    assert_eq!(p.window, 779);
    assert_eq!(p.location, Pos { x: 3, y: 4 });
    assert!(u.take(10).is_none());
    assert!(u.take(11).is_some());
}

#[test]
fn title_fallback_chain_takes_first_nonempty() {
    let candidates = vec![
        None,
        Some(String::new()),
        Some(String::from("editor")),
        Some(String::from("other")),
    ];
    assert_eq!(pick_title(&candidates), Some(String::from("editor")));
    let empty: Vec<Option<String>> = vec![None, Some(String::new())];
    assert_eq!(pick_title(&empty), None);
}

#[test]
fn menu_window_type_checks_first_atom() {
    assert!(window_type_is_menu(&vec![55, 1, 2], 55));
    assert!(!window_type_is_menu(&vec![54, 55], 55));
    assert!(!window_type_is_menu(&Vec::new(), 55));
}

#[test]
fn configure_request_pins_position_and_output_size() {
    let v = grant_configure(true, false, true, 2, 1920, 1080);
    assert_eq!(v.x, Some(0));
    assert_eq!(v.y, None);
    assert_eq!(v.width, 1920);
    assert_eq!(v.height, 1080);
    assert_eq!(v.border_width, Some(2));
}

// --- foreign-toplevel state flags, through the flag-vector wrappers ---

fn flags_of(maximized: bool, minimized: bool, fullscreen: bool, activated: bool) -> Vec<u32> {
    let d = ToplevelData {
        surface: 0,
        title: None,
        app_id: None,
        states: to_state_vec(maximized, minimized, fullscreen, activated),
        output: None,
    };
    d.current_flags()
}

#[test]
fn state_flags_reflect_the_set_flags() {
    assert_eq!(flags_of(true, false, true, true), vec![0, 3, 2]);
    assert!(flags_of(false, false, false, false).is_empty());
    assert_eq!(flags_of(true, true, true, true), vec![0, 1, 3, 2]);
}

fn info(surface: u64, title: &str) -> ToplevelInfo {
    ToplevelInfo {
        surface,
        title: Some(String::from(title)),
        app_id: Some(String::from("app")),
        maximized: false,
        minimized: false,
        fullscreen: false,
        output: Some(1),
    }
}

fn published_record(i: &ToplevelInfo, focus: bool) -> ToplevelData {
    ToplevelData {
        surface: i.surface,
        title: i.title.clone(),
        app_id: i.app_id.clone(),
        states: to_state_vec(i.maximized, i.minimized, i.fullscreen, focus),
        output: i.output,
    }
}

#[test]
fn unchanged_toplevel_publishes_nothing() {
    let i = info(1, "editor");
    let mut d = published_record(&i, true);
    let deltas = refresh_toplevel(&mut d, &i, true);
    assert!(deltas.is_empty());
}

#[test]
fn title_change_publishes_title_then_done() {
    let i0 = info(1, "old");
    let mut d = published_record(&i0, false);
    let i1 = info(1, "new");
    let deltas = refresh_toplevel(&mut d, &i1, false);
    assert_eq!(deltas.len(), 2);
    match &deltas[0] {
        ToplevelDelta::TitleChanged { surface, title } => {
            assert_eq!(*surface, 1);
            assert_eq!(title, "new");
        },
        _ => panic!("expected a title delta first"),
    }
    assert!(matches!(deltas[1], ToplevelDelta::Done { surface: 1 }));
    // publishing again with the same state is quiet
    let deltas2 = refresh_toplevel(&mut d, &i1, false);
    assert!(deltas2.is_empty());
}

#[test]
fn focus_change_publishes_states() {
    let i = info(1, "editor");
    let mut d = published_record(&i, false);
    let deltas = refresh_toplevel(&mut d, &i, true);
    assert_eq!(deltas.len(), 2);
    assert!(matches!(deltas[0], ToplevelDelta::StatesChanged { surface: 1 }));
    assert!(matches!(deltas[1], ToplevelDelta::Done { surface: 1 }));
}

#[test]
fn output_move_publishes_leave_and_enter() {
    let i0 = info(1, "editor");
    let mut d = published_record(&i0, false);
    let mut i1 = info(1, "editor");
    i1.output = Some(2);
    let deltas = refresh_toplevel(&mut d, &i1, false);
    assert_eq!(deltas.len(), 3);
    assert!(matches!(deltas[0], ToplevelDelta::OutputLeft { surface: 1 }));
    assert!(matches!(deltas[1], ToplevelDelta::OutputEntered { surface: 1, output: 2 }));
    assert!(matches!(deltas[2], ToplevelDelta::Done { surface: 1 }));
}

#[test]
fn refresh_pass_tracks_exactly_the_live_windows() {
    let seat = consolation::router::SeatState {
        pointer_grabbed: false,
        keyboard_grabbed: false,
        input_method_grabbed: false,
        touch_grabbed: false,
        has_touch: false,
    };
    let mut st = consolation::state::ConsolationState::new(seat);
    let infos = vec![info(1, "a"), info(2, "b")];
    let deltas = st.refresh_toplevels(&infos);
    assert_eq!(st.toplevels.len(), 2);
    let new_count = deltas
        .iter()
        .filter(|d| matches!(d, ToplevelDelta::NewToplevel { .. }))
        .count();
    assert_eq!(new_count, 2);
    // window 1 goes away: it is announced closed and dropped
    let deltas2 = st.refresh_toplevels(&vec![info(2, "b")]);
    assert!(deltas2.iter().any(|d| matches!(d, ToplevelDelta::Closed { surface: 1 })));
    assert_eq!(st.toplevels.len(), 1);
    assert_eq!(st.toplevels[0].surface, 2);
}

// --- text atlases ---

#[test]
fn glyph_cells_are_laid_out_row_major() {
    let r = glyph_rect(2);
    assert_eq!((r.loc.x, r.loc.y, r.size.w, r.size.h), (9, 0, 20, 38));
    // byte 65 is index 63: row 2, column 11
    let a = glyph_rect(65);
    assert_eq!((a.loc.x, a.loc.y), (11 * 38 + 9, 76));
    let last_in_row = glyph_rect(2 + 25);
    assert_eq!((last_in_row.loc.x, last_in_row.loc.y), (25 * 38 + 9, 0));
    let first_in_second_row = glyph_rect(2 + 26);
    assert_eq!((first_in_second_row.loc.x, first_in_second_row.loc.y), (9, 38));
}

#[test]
fn string_layout_advances_by_scaled_glyph_width() {
    let text = vec![65u8, 66, 67];
    let ops = string_ops(&text, 500, Pos { x: 220, y: 142 });
    assert_eq!(ops.len(), 3);
    assert_eq!(ops[0].dst_x, 220);
    assert_eq!(ops[1].dst_x, 230);
    assert_eq!(ops[2].dst_x, 240);
    assert_eq!(ops[0].dst_w, 10);
    assert_eq!(ops[0].dst_h, 19);
    assert_eq!(ops[1].src, glyph_rect(66));
}

#[test]
fn printable_bytes_drops_control_bytes() {
    let text = vec![0u8, 1, 65, 1, 66];
    assert_eq!(printable_bytes(&text), vec![65, 66]);
}

#[test]
fn digit_cells_match_the_atlas() {
    assert_eq!(digit_rect(9).loc, Pos { x: 0, y: 0 });
    assert_eq!(digit_rect(0).loc, Pos { x: 22, y: 35 });
    assert_eq!(digit_rect(5).loc, Pos { x: 44, y: 70 });
    assert_eq!(digit_rect(4).size.w, 22);
}

#[test]
fn frame_counter_digits_left_to_right() {
    let ops = fps_ops(105, 1000);
    assert_eq!(ops.len(), 3);
    assert_eq!(ops[0].src, digit_rect(1));
    assert_eq!(ops[1].src, digit_rect(0));
    assert_eq!(ops[2].src, digit_rect(5));
    assert_eq!(ops[0].dst_x, 0);
    assert_eq!(ops[1].dst_x, 24);
    assert_eq!(ops[2].dst_x, 48);
    let zero = fps_ops(0, 1000);
    assert_eq!(zero.len(), 1);
    assert_eq!(zero[0].src, digit_rect(0));
}

#[test]
fn png_atlas_round_trip_decodes_to_pixels() {
    // encode a small distinctive image, decode it through the library, and
    // check pixels came through; a decoder that handed the bytes back
    // unchanged could not produce them
    let mut img = image::RgbaImage::new(979, 380);
    img.put_pixel(0, 0, image::Rgba([1, 2, 3, 4]));
    img.put_pixel(978, 379, image::Rgba([9, 8, 7, 6]));
    let mut png_bytes: Vec<u8> = Vec::new();
    img.write_to(
        &mut std::io::Cursor::new(&mut png_bytes),
        image::ImageFormat::Png,
    )
    .unwrap();
    let atlas = load_glyph_atlas(&png_bytes).unwrap();
    assert_eq!(atlas.width, 979);
    assert_eq!(atlas.height, 380);
    assert_eq!(atlas.pixels.len(), 979 * 380 * 4);
    assert_eq!(&atlas.pixels[0..4], &[1, 2, 3, 4]);
    let last = atlas.pixels.len() - 4;
    assert_eq!(&atlas.pixels[last..], &[9, 8, 7, 6]);
}

#[test]
fn png_atlas_too_small_or_invalid_is_refused() {
    let img = image::RgbaImage::new(10, 10);
    let mut png_bytes: Vec<u8> = Vec::new();
    img.write_to(
        &mut std::io::Cursor::new(&mut png_bytes),
        image::ImageFormat::Png,
    )
    .unwrap();
    assert!(load_glyph_atlas(&png_bytes).is_none());
    let garbage = vec![0u8, 1, 2, 3];
    assert!(load_glyph_atlas(&garbage).is_none());
}
