use consolation::geometry::{Extent, Pos, Rect};
use consolation::router::{KeyAction, SeatState};
use consolation::scene::SceneMode;
use consolation::stack::{WindowEntry, WindowKind, WindowStack};
use consolation::shell::{
    fullscreen_request, maximize_request, minimize_request, unfullscreen_request,
    unmaximize_request, PendingToplevel, WmCapabilities, X11Window,
};
use consolation::state::{ConsolationState, Effect, XWaylandStatus};

fn entry(id: u64) -> WindowEntry {
    WindowEntry {
        id,
        bbox: Rect { loc: Pos { x: 0, y: 0 }, size: Extent { w: 100, h: 100 } },
        kind: WindowKind::Wayland,
        mapped: true,
    }
}

fn seat() -> SeatState {
    SeatState {
        pointer_grabbed: false,
        keyboard_grabbed: false,
        input_method_grabbed: false,
        touch_grabbed: false,
        has_touch: true,
    }
}

fn ids(stack: &WindowStack) -> Vec<u64> {
    let mut v = Vec::new();
    let mut i = 0;
    while i < stack.len() {
        v.push(stack.get(i).id);
        i += 1;
    }
    v
}

#[test]
fn insert_makes_window_topmost() {
    let mut s = WindowStack::new();
    s.insert(entry(1));
    s.insert(entry(2));
    s.insert(entry(3));
    assert_eq!(ids(&s), vec![3, 2, 1]);
    assert_eq!(s.top().unwrap().id, 3);
}

#[test]
fn raise_moves_to_top_and_keeps_relative_order() {
    let mut s = WindowStack::new();
    for id in [5, 4, 3, 2, 1] {
        s.insert(entry(id));
    }
    // stack is 1,2,3,4,5 top to bottom
    assert!(s.raise(4));
    // 4 moved to index 0; 1,2,3,5 keep their relative order
    assert_eq!(ids(&s), vec![4, 1, 2, 3, 5]);
    // raising a window that is not there changes nothing
    assert!(!s.raise(99));
    assert_eq!(ids(&s), vec![4, 1, 2, 3, 5]);
}

#[test]
fn remove_promotes_next_entry() {
    let mut s = WindowStack::new();
    for id in [3, 2, 1] {
        s.insert(entry(id));
    }
    assert_eq!(s.top().unwrap().id, 1);
    assert!(s.remove(1));
    assert_eq!(s.top().unwrap().id, 2);
    assert!(!s.remove(1));
    assert_eq!(ids(&s), vec![2, 3]);
}

#[test]
fn bring_nth_to_top_commits_menu_selection() {
    let mut s = WindowStack::new();
    for id in [30, 20, 10] {
        s.insert(entry(id));
    }
    // 10, 20, 30
    s.bring_nth_to_top(2);
    assert_eq!(ids(&s), vec![30, 10, 20]);
}

#[test]
fn menu_selection_clamps_at_both_ends() {
    let mut m = SceneMode::Single;
    m.toggle_menu(3);
    assert_eq!(m, SceneMode::MenuOpen { selected: 0 });
    m.selection_up(3);
    assert_eq!(m, SceneMode::MenuOpen { selected: 0 });
    m.selection_down(3);
    m.selection_down(3);
    assert_eq!(m, SceneMode::MenuOpen { selected: 2 });
    m.selection_down(3);
    assert_eq!(m, SceneMode::MenuOpen { selected: 2 });
}

#[test]
fn menu_toggle_with_no_windows_stays_single() {
    let mut m = SceneMode::Single;
    m.toggle_menu(0);
    assert_eq!(m, SceneMode::Single);
}

#[test]
fn menu_confirm_and_cancel_leave_menu() {
    let mut m = SceneMode::MenuOpen { selected: 1 };
    assert_eq!(m.confirm(), Some(1));
    assert_eq!(m, SceneMode::Single);
    let mut m2 = SceneMode::MenuOpen { selected: 0 };
    m2.cancel();
    assert_eq!(m2, SceneMode::Single);
    let mut m3 = SceneMode::Single;
    assert_eq!(m3.confirm(), None);
}

#[test]
fn menu_scenario_three_windows_down_twice_clamp_confirm() {
    // menu opened with 3 windows, selection starts at 0; down twice reaches 2;
    // another down stays at 2; confirm raises the stack entry at index 2 and
    // returns to Single mode
    let mut st = ConsolationState::new(seat());
    for id in [30, 20, 10] {
        st.map_window(entry(id));
    }
    // stack: 10, 20, 30
    assert_eq!(st.apply_key_action(&KeyAction::ToggleMenu), Effect::Nothing);
    assert_eq!(st.scene, SceneMode::MenuOpen { selected: 0 });
    st.apply_key_action(&KeyAction::ArrowDown);
    st.apply_key_action(&KeyAction::ArrowDown);
    assert_eq!(st.scene, SceneMode::MenuOpen { selected: 2 });
    st.apply_key_action(&KeyAction::ArrowDown);
    assert_eq!(st.scene, SceneMode::MenuOpen { selected: 2 });
    assert_eq!(st.apply_key_action(&KeyAction::Select), Effect::Nothing);
    assert_eq!(st.scene, SceneMode::Single);
    assert_eq!(ids(&st.stack), vec![30, 10, 20]);
}

#[test]
fn menu_back_cancels_without_reordering() {
    let mut st = ConsolationState::new(seat());
    for id in [2, 1] {
        st.map_window(entry(id));
    }
    st.apply_key_action(&KeyAction::ToggleMenu);
    st.apply_key_action(&KeyAction::ArrowDown);
    st.apply_key_action(&KeyAction::Back);
    assert_eq!(st.scene, SceneMode::Single);
    assert_eq!(ids(&st.stack), vec![1, 2]);
}

#[test]
fn key_actions_for_the_process_come_back_as_effects() {
    let mut st = ConsolationState::new(seat());
    assert_eq!(st.apply_key_action(&KeyAction::Quit), Effect::Quit);
    assert_eq!(st.apply_key_action(&KeyAction::VtSwitch(3)), Effect::VtSwitch(3));
    assert_eq!(st.apply_key_action(&KeyAction::ToggleTint), Effect::ToggleTint);
    assert_eq!(st.apply_key_action(&KeyAction::NoAction), Effect::Nothing);
}

#[test]
fn unmap_clamps_open_menu_selection() {
    let mut st = ConsolationState::new(seat());
    for id in [3, 2, 1] {
        st.map_window(entry(id));
    }
    st.apply_key_action(&KeyAction::ToggleMenu);
    st.apply_key_action(&KeyAction::ArrowDown);
    st.apply_key_action(&KeyAction::ArrowDown);
    assert_eq!(st.scene, SceneMode::MenuOpen { selected: 2 });
    assert!(st.unmap_window(3));
    assert_eq!(st.scene, SceneMode::MenuOpen { selected: 1 });
    assert!(st.unmap_window(2));
    assert!(st.unmap_window(1));
    assert_eq!(st.scene, SceneMode::Single);
}

#[test]
fn current_window_is_topmost() {
    let mut st = ConsolationState::new(seat());
    assert_eq!(st.current_window(), None);
    st.map_window(entry(9));
    st.map_window(entry(8));
    assert_eq!(st.current_window(), Some(8));
}

#[test]
fn xwayland_lifecycle() {
    let mut st = ConsolationState::new(seat());
    assert_eq!(st.xwayland, XWaylandStatus::Stopped);
    st.start_xwayland();
    assert_eq!(st.xwayland, XWaylandStatus::LaunchRequested);
    // a second start request while pending changes nothing
    st.start_xwayland();
    assert_eq!(st.xwayland, XWaylandStatus::LaunchRequested);
    st.xwayland_ready();
    assert_eq!(st.xwayland, XWaylandStatus::Ready);
    st.xwayland_exited();
    assert_eq!(st.xwayland, XWaylandStatus::Exited);
}

#[test]
fn open_menu_consumes_pointer_motion_and_axis() {
    let mut st = ConsolationState::new(seat());
    st.map_window(entry(1));
    st.apply_key_action(&KeyAction::ToggleMenu);
    assert!(st.route_pointer_motion(false, 5, 5, 1, 1).is_empty());
    assert!(st.route_pointer_motion_absolute(50, 50, 2).is_empty());
    let axis = consolation::router::AxisInput {
        time: 3,
        source: consolation::router::AxisSource::Wheel,
        h_amount: Some(1),
        v_amount: None,
        h_v120: None,
        v_v120: None,
    };
    assert!(st.route_pointer_axis(axis).is_empty());
    // in Single mode the same events route to the seat
    st.apply_key_action(&KeyAction::Back);
    assert_eq!(st.route_pointer_motion(false, 5, 5, 1, 1).len(), 3);
    assert_eq!(st.route_pointer_axis(axis).len(), 2);
}

#[test]
fn fullscreen_request_needs_capability_and_geometry() {
    let idle = PendingToplevel { fullscreen: false, maximized: false, minimized: false, size: None };
    let caps = WmCapabilities { fullscreen: true, maximize: true };
    let no_caps = WmCapabilities { fullscreen: false, maximize: false };
    let geo = Some(Rect { loc: Pos { x: 0, y: 0 }, size: Extent { w: 1920, h: 1080 } });

    let fs = fullscreen_request(idle, caps, geo);
    assert!(fs.fullscreen);
    assert_eq!(fs.size, Some(Extent { w: 1920, h: 1080 }));
    assert_eq!(fullscreen_request(idle, no_caps, geo), idle);
    assert_eq!(fullscreen_request(idle, caps, None), idle);

    let (back, sent) = unfullscreen_request(fs);
    assert!(sent && !back.fullscreen && back.size.is_none());
    let (same, sent2) = unfullscreen_request(idle);
    assert!(!sent2 && same == idle);

    let maxed = maximize_request(idle, caps, geo);
    assert!(maxed.maximized);
    let (unmaxed, sent3) = unmaximize_request(maxed);
    assert!(sent3 && !unmaxed.maximized);

    let min = minimize_request(idle, true);
    assert!(min.minimized);
    assert!(!minimize_request(min, false).minimized);
}

#[test]
fn x11_maximize_round_trip_restores_geometry() {
    let original = Rect { loc: Pos { x: 30, y: 40 }, size: Extent { w: 640, h: 480 } };
    let output = Rect { loc: Pos { x: 0, y: 0 }, size: Extent { w: 1920, h: 1080 } };
    let mut w = X11Window {
        geometry: original,
        maximized: false,
        fullscreen: false,
        saved_geometry: None,
    };
    w.maximize(output);
    assert!(w.maximized);
    assert_eq!(w.geometry, output);
    w.unmaximize();
    assert!(!w.maximized);
    assert_eq!(w.geometry, original);
    assert!(w.saved_geometry.is_none());
    // unmaximizing a window that was never maximized keeps its geometry
    w.unmaximize();
    assert_eq!(w.geometry, original);
    w.fullscreen(output);
    assert_eq!(w.geometry, output);
    w.unfullscreen();
    assert_eq!(w.geometry, original);
}
