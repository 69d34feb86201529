use consolation::geometry::{fit_rect, to_physical, Extent, Pos, Rect};
use consolation::scene::{
    compose_frame, menu_layout, place_scaled, place_window, select_app_windows, PhysOp, SceneMode,
};
use consolation::stack::{WindowEntry, WindowKind, WindowStack};
use consolation::tree::{LogicalOp, SurfaceNode};

fn rect(x: i32, y: i32, w: u32, h: u32) -> Rect {
    Rect { loc: Pos { x, y }, size: Extent { w, h } }
}

#[test]
fn single_mode_letterbox_800x600_on_1920x1080() {
    let output = rect(0, 0, 1920, 1080);
    let win = Extent { w: 800, h: 600 };
    let fitted = fit_rect(&output, &win);
    assert_eq!(fitted.size.w, 1440);
    assert_eq!(fitted.size.h, 1080);
    assert_eq!(fitted.loc.x, 240);
    assert_eq!(fitted.loc.y, 0);
}

#[test]
fn single_mode_equal_aspect_fills_output() {
    let output = rect(0, 0, 1920, 1080);
    let win = Extent { w: 960, h: 540 };
    let fitted = fit_rect(&output, &win);
    assert_eq!(fitted, rect(0, 0, 1920, 1080));
}

#[test]
fn single_mode_pillarbox_tall_window() {
    let output = rect(100, 50, 1000, 1000);
    let win = Extent { w: 200, h: 400 };
    let fitted = fit_rect(&output, &win);
    // width-limited comparison: 1000*400 <= 1000*200 is false -> height rules
    assert_eq!(fitted.size.h, 1000);
    assert_eq!(fitted.size.w, 500);
    assert_eq!(fitted.loc.x, 100 + 250);
    assert_eq!(fitted.loc.y, 50);
}

#[test]
fn fit_preserves_aspect_and_centering_within_rounding() {
    let output = rect(0, 0, 1920, 1080);
    let win = Extent { w: 799, h: 601 };
    let fitted = fit_rect(&output, &win);
    assert!(fitted.size.w <= 1920 && fitted.size.h <= 1080);
    // centered: left slack equals right slack within one pixel
    let right_slack = 1920 - (fitted.loc.x + fitted.size.w as i32);
    assert!((fitted.loc.x - right_slack).abs() <= 1);
}

#[test]
fn physical_rounding_is_nearest_half_away_from_zero() {
    assert_eq!(to_physical(10, 1500), 15);
    assert_eq!(to_physical(1, 1500), 2);
    assert_eq!(to_physical(-1, 1500), -2);
    assert_eq!(to_physical(-10, 1500), -15);
    assert_eq!(to_physical(3, 1000), 3);
    assert_eq!(to_physical(0, 999_999), 0);
}

#[test]
fn rect_overlap() {
    let a = rect(0, 0, 100, 100);
    let b = rect(99, 99, 10, 10);
    let c = rect(100, 100, 10, 10);
    assert!(a.overlaps(&b));
    assert!(!a.overlaps(&c));
}

#[test]
fn place_scaled_maps_window_origin_to_fitted_origin() {
    let output = rect(0, 0, 1920, 1080);
    let bbox = rect(0, 0, 800, 600);
    let op = LogicalOp { texture: 7, x: 0, y: 0, size: Extent { w: 800, h: 600 } };
    let p = place_scaled(&op, &output, &bbox);
    assert_eq!(
        p,
        PhysOp { texture: 7, x: 240, y: 0, w: 1440, h: 1080 }
    );
}

#[test]
fn place_scaled_subsurface_offset_scales() {
    let output = rect(0, 0, 1920, 1080);
    let bbox = rect(0, 0, 800, 600);
    // a subsurface 100 logical pixels right of the window's left edge
    let op = LogicalOp { texture: 8, x: 100, y: 200, size: Extent { w: 50, h: 50 } };
    let p = place_scaled(&op, &output, &bbox);
    // scale is 1080/600 = 1.8: offsets 180/360, size 90
    assert_eq!(p.x, 240 + 180);
    assert_eq!(p.y, 360);
    assert_eq!(p.w, 90);
    assert_eq!(p.h, 90);
}

#[test]
fn place_window_places_each_op() {
    let output = rect(0, 0, 1920, 1080);
    let bbox = rect(0, 0, 800, 600);
    let ops = vec![
        LogicalOp { texture: 1, x: 0, y: 0, size: Extent { w: 800, h: 600 } },
        LogicalOp { texture: 2, x: 400, y: 300, size: Extent { w: 100, h: 100 } },
    ];
    let placed = place_window(&ops, &output, &bbox);
    assert_eq!(placed.len(), 2);
    assert_eq!(placed[0].texture, 1);
    assert_eq!(placed[1].x, 240 + 720);
    assert_eq!(placed[1].y, 540);
}

#[test]
fn compose_frame_keeps_tier_order() {
    let bg = vec![PhysOp { texture: 1, x: 0, y: 0, w: 1, h: 1 }];
    let bottom = vec![PhysOp { texture: 2, x: 0, y: 0, w: 1, h: 1 }];
    let app = vec![PhysOp { texture: 3, x: 0, y: 0, w: 1, h: 1 }];
    let top = vec![PhysOp { texture: 4, x: 0, y: 0, w: 1, h: 1 }];
    let overlay = vec![PhysOp { texture: 5, x: 0, y: 0, w: 1, h: 1 }];
    let frame = compose_frame(bg, bottom, app, top, overlay);
    let order: Vec<u64> = frame.iter().map(|o| o.texture).collect();
    assert_eq!(order, vec![1, 2, 3, 4, 5]);
}

#[test]
fn menu_rows_stack_downward_with_highlight() {
    let output = rect(0, 0, 1920, 1080);
    let rows = menu_layout(3, 1, &output);
    assert_eq!(rows.len(), 3);
    assert_eq!(rows[0].thumb_dest, rect(0, 0, 200, 100));
    assert_eq!(rows[1].thumb_dest, rect(0, 100, 200, 100));
    assert!(!rows[0].highlighted);
    assert!(rows[1].highlighted);
    assert_eq!(rows[1].highlight, rect(0, 100, 1920, 100));
    assert_eq!(rows[2].title_pos, Pos { x: 220, y: 242 });
}

#[test]
fn walker_emits_parent_before_children_with_offsets() {
    let child = SurfaceNode {
        texture: Some(2),
        offset: Pos { x: 10, y: 20 },
        size: Extent { w: 5, h: 5 },
        children: Vec::new(),
    };
    let grandchild_holder = SurfaceNode {
        texture: Some(3),
        offset: Pos { x: 1, y: 1 },
        size: Extent { w: 2, h: 2 },
        children: Vec::new(),
    };
    let child2 = SurfaceNode {
        texture: Some(4),
        offset: Pos { x: -3, y: 0 },
        size: Extent { w: 7, h: 7 },
        children: vec![grandchild_holder],
    };
    let root = SurfaceNode {
        texture: Some(1),
        offset: Pos { x: 100, y: 100 },
        size: Extent { w: 50, h: 50 },
        children: vec![child, child2],
    };
    let ops = root.walk(0, 0);
    let order: Vec<(u64, i32, i32)> = ops.iter().map(|o| (o.texture, o.x, o.y)).collect();
    assert_eq!(
        order,
        vec![(1, 100, 100), (2, 110, 120), (4, 97, 100), (3, 98, 101)]
    );
}

#[test]
fn walker_skips_unimportable_subtree() {
    // the failed node's children never appear, even with textures of their own
    let orphan = SurfaceNode {
        texture: Some(9),
        offset: Pos { x: 0, y: 0 },
        size: Extent { w: 1, h: 1 },
        children: Vec::new(),
    };
    let failed = SurfaceNode {
        texture: None,
        offset: Pos { x: 5, y: 5 },
        size: Extent { w: 10, h: 10 },
        children: vec![orphan],
    };
    let sibling = SurfaceNode {
        texture: Some(2),
        offset: Pos { x: 1, y: 1 },
        size: Extent { w: 1, h: 1 },
        children: Vec::new(),
    };
    let root = SurfaceNode {
        texture: Some(1),
        offset: Pos { x: 0, y: 0 },
        size: Extent { w: 20, h: 20 },
        children: vec![failed, sibling],
    };
    let ops = root.walk(0, 0);
    let textures: Vec<u64> = ops.iter().map(|o| o.texture).collect();
    assert_eq!(textures, vec![1, 2]);

    // a root with a non-importable buffer draws nothing at all
    let bare = SurfaceNode {
        texture: None,
        offset: Pos { x: 0, y: 0 },
        size: Extent { w: 20, h: 20 },
        children: vec![SurfaceNode {
            texture: Some(5),
            offset: Pos { x: 0, y: 0 },
            size: Extent { w: 1, h: 1 },
            children: Vec::new(),
        }],
    };
    assert!(bare.walk(0, 0).is_empty());
}

#[test]
fn scene_consumes_pointer_only_in_menu() {
    let single = SceneMode::Single;
    let menu = SceneMode::MenuOpen { selected: 0 };
    assert!(!single.consumes_pointer());
    assert!(menu.consumes_pointer());
}

#[test]
fn app_tier_takes_leading_x11_popups_then_first_real_window() {
    let mk = |id: u64, kind: WindowKind| WindowEntry {
        id,
        bbox: rect(0, 0, 10, 10),
        kind,
        mapped: true,
    };
    let mut s = WindowStack::new();
    // built bottom-up: insert puts each entry on top
    s.insert(mk(1, WindowKind::Wayland));
    s.insert(mk(2, WindowKind::X11 { override_redirect: false }));
    s.insert(mk(3, WindowKind::X11 { override_redirect: true }));
    s.insert(mk(4, WindowKind::X11 { override_redirect: true }));
    // stack top-down: 4, 3 (popups), 2 (managed X11), 1
    let (popups, window) = select_app_windows(&s);
    assert_eq!(popups, vec![4, 3]);
    assert_eq!(window, Some(2));

    let mut only_popups = WindowStack::new();
    only_popups.insert(mk(9, WindowKind::X11 { override_redirect: true }));
    let (p2, w2) = select_app_windows(&only_popups);
    assert_eq!(p2, vec![9]);
    assert_eq!(w2, None);
}
