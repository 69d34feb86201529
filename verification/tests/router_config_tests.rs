use consolation::attach::{Attachment, BufferKind, BufferRef, CommitAction, ImportError};
use consolation::config::{
    apply, configure_head, create_configuration, set_adaptive_sync, set_custom_mode, set_mode,
    set_scale, set_transform, test_transaction, ApplyResult, ConfigError, HeadConf, OutputManagementState,
};
use consolation::notify::HeadDelta;
use consolation::outputs::{next_transform, Mode, Output, OutputId, Outputs, Transform};
use consolation::router::{
    AxisInput, AxisSource, KeyAction, KeyVerdict, Modifiers, RouterState, SeatCall, SeatState,
    SerialCounter, KEYSYM_BACKSPACE, KEYSYM_LOWER_Q, KEYSYM_RETURN, KEYSYM_VT_1,
};

fn seat() -> SeatState {
    SeatState {
        pointer_grabbed: false,
        keyboard_grabbed: false,
        input_method_grabbed: false,
        touch_grabbed: false,
        has_touch: true,
    }
}

fn no_mods() -> Modifiers {
    Modifiers { ctrl: false, alt: false, shift: false, logo: false }
}

#[test]
fn serials_strictly_increase() {
    let mut c = SerialCounter::new();
    let s1 = c.next_serial();
    let s2 = c.next_serial();
    let s3 = c.next_serial();
    assert!(s1 < s2 && s2 < s3);
    assert_eq!((s1, s2, s3), (1, 2, 3));
}

#[test]
fn shortcut_table_matches() {
    let logo = Modifiers { logo: true, ..no_mods() };
    let ctrl_alt = Modifiers { ctrl: true, alt: true, ..no_mods() };
    assert_eq!(
        consolation::router::shortcut(ctrl_alt, KEYSYM_BACKSPACE),
        Some(KeyAction::Quit)
    );
    assert_eq!(consolation::router::shortcut(logo, KEYSYM_LOWER_Q), Some(KeyAction::Quit));
    assert_eq!(
        consolation::router::shortcut(no_mods(), KEYSYM_VT_1 + 4),
        Some(KeyAction::VtSwitch(5))
    );
    assert!(matches!(
        consolation::router::shortcut(logo, KEYSYM_RETURN),
        Some(KeyAction::Run(_))
    ));
    assert_eq!(consolation::router::shortcut(no_mods(), KEYSYM_LOWER_Q), None);
}

#[test]
fn intercepted_press_suppresses_matching_release() {
    let mut r = RouterState::new(seat());
    let logo = Modifiers { logo: true, ..no_mods() };
    let v = r.keyboard_key(logo, KEYSYM_LOWER_Q, true, false);
    assert_eq!(v, KeyVerdict::Intercepted(KeyAction::Quit));
    // the matching release is intercepted and removed from the record
    let v2 = r.keyboard_key(no_mods(), KEYSYM_LOWER_Q, false, false);
    assert_eq!(v2, KeyVerdict::Intercepted(KeyAction::NoAction));
    // a second release of the same key forwards
    let v3 = r.keyboard_key(no_mods(), KEYSYM_LOWER_Q, false, false);
    assert_eq!(v3, KeyVerdict::Forwarded);
    // an unmatched key forwards
    let v4 = r.keyboard_key(no_mods(), 0x61, true, false);
    assert_eq!(v4, KeyVerdict::Forwarded);
}

#[test]
fn menu_keys_intercepted_only_while_menu_open() {
    let mut r = RouterState::new(seat());
    let v = r.keyboard_key(no_mods(), consolation::router::KEYSYM_DOWN, true, false);
    assert_eq!(v, KeyVerdict::Forwarded);
    let v2 = r.keyboard_key(no_mods(), consolation::router::KEYSYM_DOWN, true, true);
    assert_eq!(v2, KeyVerdict::Intercepted(KeyAction::ArrowDown));
    let v3 = r.keyboard_key(no_mods(), consolation::router::KEYSYM_ESCAPE, true, true);
    assert_eq!(v3, KeyVerdict::Intercepted(KeyAction::Back));
}

#[test]
fn button_down_recomputes_focus_before_forwarding() {
    // pointer button-down with no grab active: focus recomputation runs
    // before the button event, then the frame marker
    let mut r = RouterState::new(seat());
    let calls = r.pointer_button(Some(42), 0x110, true, 1000);
    assert_eq!(calls.len(), 3);
    assert!(matches!(calls[0], SeatCall::SetFocus { window: Some(42), .. }));
    assert!(matches!(calls[1], SeatCall::Button { pressed: true, .. }));
    assert!(matches!(calls[2], SeatCall::PointerFrame));
    // with a pointer grab active the focus is left untouched
    let mut grabbed = RouterState::new(SeatState { pointer_grabbed: true, ..seat() });
    let calls2 = grabbed.pointer_button(Some(42), 0x110, true, 1000);
    assert_eq!(calls2.len(), 2);
    assert!(matches!(calls2[0], SeatCall::Button { .. }));
    // a release never recomputes focus
    let calls3 = r.pointer_button(Some(42), 0x110, false, 1001);
    assert_eq!(calls3.len(), 2);
}

#[test]
fn locked_pointer_emits_only_relative_motion() {
    let mut r = RouterState::new(seat());
    let e = consolation::geometry::Extent { w: 100, h: 100 };
    let calls = r.pointer_motion(Some(e), true, 5, 5, 10, 10);
    assert_eq!(calls.len(), 2);
    assert!(matches!(calls[0], SeatCall::RelativeMotion { dx: 5, dy: 5, .. }));
    assert!(matches!(calls[1], SeatCall::PointerFrame));
    assert_eq!(r.pointer, consolation::geometry::Pos { x: 0, y: 0 });
}

#[test]
fn pointer_motion_clamps_to_window_box() {
    let mut r = RouterState::new(seat());
    let e = consolation::geometry::Extent { w: 100, h: 100 };
    let calls = r.pointer_motion(Some(e), false, 150, -20, 10, 10);
    assert_eq!(r.pointer, consolation::geometry::Pos { x: 100, y: 0 });
    assert!(matches!(calls[1], SeatCall::Motion { x: 100, y: 0, .. }));
}

#[test]
fn finger_axis_zero_amount_emits_stop() {
    let mut r = RouterState::new(seat());
    let input = AxisInput {
        time: 5,
        source: AxisSource::Finger,
        h_amount: Some(0),
        v_amount: Some(3),
        h_v120: None,
        v_v120: None,
    };
    let calls = r.pointer_axis(input);
    assert_eq!(calls.len(), 2);
    match calls[0] {
        SeatCall::Axis(f) => {
            assert!(f.horizontal.stop);
            assert_eq!(f.horizontal.value, None);
            assert!(!f.vertical.stop);
            assert_eq!(f.vertical.value, Some(3));
        },
        _ => panic!("expected an axis frame"),
    }
}

#[test]
fn discrete_notches_convert_to_scroll_units() {
    let mut r = RouterState::new(seat());
    let input = AxisInput {
        time: 5,
        source: AxisSource::Wheel,
        h_amount: None,
        v_amount: None,
        h_v120: Some(120),
        v_v120: Some(-240),
    };
    let calls = r.pointer_axis(input);
    match calls[0] {
        SeatCall::Axis(f) => {
            assert_eq!(f.horizontal.value, Some(15));
            assert_eq!(f.horizontal.v120, Some(120));
            assert_eq!(f.vertical.value, Some(-30));
        },
        _ => panic!("expected an axis frame"),
    }
}

#[test]
fn touch_down_recomputes_focus_and_missing_device_noops() {
    let mut r = RouterState::new(seat());
    let calls = r.touch_down(Some(7), 0, 10, 10, 3);
    assert_eq!(calls.len(), 2);
    assert!(matches!(calls[0], SeatCall::SetFocus { window: Some(7), .. }));
    assert!(matches!(calls[1], SeatCall::TouchDown { slot: 0, .. }));
    let mut untouchable = RouterState::new(SeatState { has_touch: false, ..seat() });
    assert!(untouchable.touch_down(Some(7), 0, 10, 10, 3).is_empty());
    assert!(untouchable.touch_up(0, 4).is_empty());
    assert!(untouchable.touch_frame().is_empty());
}

#[test]
fn gestures_mint_serials_at_begin_and_end_only() {
    let mut r = RouterState::new(seat());
    let v0 = r.serials.value;
    let _ = r.gesture_swipe_begin(3, 1);
    assert_eq!(r.serials.value, v0 + 1);
    let _ = r.gesture_swipe_update(1, 1, 2);
    assert_eq!(r.serials.value, v0 + 1);
    let _ = r.gesture_swipe_end(false, 3);
    assert_eq!(r.serials.value, v0 + 2);
}

#[test]
fn tablet_events_are_ignored() {
    let mut r = RouterState::new(seat());
    assert!(r.tablet_event().is_empty());
}

// --- surface attachment tracker ---

#[test]
fn commit_imports_once_per_buffer_content() {
    // attach X, commit, import, attach X unchanged, commit: one import only
    let mut a = Attachment::new();
    let x = BufferRef { id: 7, kind: BufferKind::Other };
    a.attach(x);
    assert_eq!(a.commit(), CommitAction::NeedsImport(x));
    let released = a.import_done(Ok(100));
    assert!(released.is_empty());
    a.attach(x);
    assert_eq!(a.commit(), CommitAction::AlreadyImported);
    // a different buffer does import
    let y = BufferRef { id: 8, kind: BufferKind::Other };
    a.attach(y);
    assert_eq!(a.commit(), CommitAction::NeedsImport(y));
    // replacing releases the previously held handle
    let released2 = a.import_done(Ok(101));
    assert_eq!(released2, vec![7]);
}

#[test]
fn shm_buffer_released_immediately_after_import() {
    let mut a = Attachment::new();
    let x = BufferRef { id: 3, kind: BufferKind::Shm };
    a.attach(x);
    assert_eq!(a.commit(), CommitAction::NeedsImport(x));
    let released = a.import_done(Ok(1));
    assert_eq!(released, vec![3]);
    assert!(a.displayable);
}

#[test]
fn failed_import_releases_buffer_and_marks_not_displayable() {
    let mut a = Attachment::new();
    let x = BufferRef { id: 4, kind: BufferKind::Other };
    a.attach(x);
    let _ = a.commit();
    let released = a.import_done(Err(ImportError::UnsupportedFormat));
    assert_eq!(released, vec![4]);
    assert!(!a.displayable);
    assert_eq!(a.texture, None);
    // the client is not torn down: a fresh attach works
    a.attach(BufferRef { id: 5, kind: BufferKind::Shm });
    assert_eq!(a.commit(), CommitAction::NeedsImport(BufferRef { id: 5, kind: BufferKind::Shm }));
}

#[test]
fn commit_with_no_buffer_is_a_no_op() {
    let mut a = Attachment::new();
    assert_eq!(a.commit(), CommitAction::NoBuffer);
}

// --- output configuration transactions ---

fn mode(w: u16, h: u16, r: u32) -> Mode {
    Mode { width: w, height: h, refresh_rate: r, is_preferred: false }
}

fn mgr_with_one_head() -> OutputManagementState {
    let mut head = Output::bare(String::from("DP-1"));
    head.modes = vec![mode(1920, 1080, 60000), mode(1280, 720, 60000)];
    head.current_mode = Some(0);
    let mut mgr = OutputManagementState::new();
    mgr.serial = 5;
    mgr.current_state = vec![HeadConf { id: OutputId(1), config: head }];
    mgr
}

#[test]
fn stale_serial_cancels_transaction_outright() {
    let mgr = mgr_with_one_head();
    let (mut tx, cancelled) = create_configuration(&mgr, 4);
    assert!(cancelled);
    assert_eq!(configure_head(&mut tx, &mgr, OutputId(1), false), Err(ConfigError::Stale));
    assert_eq!(test_transaction(&mgr, &mut tx), ApplyResult::Cancelled);
}

#[test]
fn stale_apply_never_mutates_registry() {
    let mut mgr = mgr_with_one_head();
    mgr.current_config = Outputs(vec![Output::bare(String::from("DP-1"))]);
    let (mut tx, _) = create_configuration(&mgr, 3);
    let before_len = mgr.current_config.0.len();
    let before_name = mgr.current_config.0[0].name.clone();
    assert_eq!(apply(&mut mgr, &mut tx), ApplyResult::Cancelled);
    assert_eq!(mgr.current_config.0.len(), before_len);
    assert_eq!(mgr.current_config.0[0].name, before_name);
    assert_eq!(mgr.serial, 5);
}

#[test]
fn double_configure_of_one_head_is_a_protocol_error() {
    let mgr = mgr_with_one_head();
    let (mut tx, cancelled) = create_configuration(&mgr, 5);
    assert!(!cancelled);
    assert_eq!(configure_head(&mut tx, &mgr, OutputId(1), false), Ok(()));
    assert_eq!(
        configure_head(&mut tx, &mgr, OutputId(1), true),
        Err(ConfigError::AlreadyConfiguredHead)
    );
}

#[test]
fn unknown_and_unconfigured_heads_are_rejected() {
    let mgr = mgr_with_one_head();
    let (mut tx, _) = create_configuration(&mgr, 5);
    assert_eq!(configure_head(&mut tx, &mgr, OutputId(9), false), Err(ConfigError::UnknownHead));
    assert_eq!(
        set_transform(&mut tx, &mgr, OutputId(1), Transform::Rotate90),
        Err(ConfigError::UnconfiguredHead)
    );
}

#[test]
fn head_requests_update_the_entry() {
    let mgr = mgr_with_one_head();
    let (mut tx, _) = create_configuration(&mgr, 5);
    configure_head(&mut tx, &mgr, OutputId(1), false).unwrap();
    assert_eq!(set_mode(&mut tx, &mgr, OutputId(1), 1), Ok(()));
    assert_eq!(tx.entries[0].config.mode, Some(mode(1280, 720, 60000)));
    assert_eq!(set_mode(&mut tx, &mgr, OutputId(1), 7), Err(ConfigError::InvalidMode));
    assert_eq!(set_custom_mode(&mut tx, &mgr, OutputId(1), 1920, 1080, 0), Ok(()));
    assert_eq!(tx.entries[0].config.mode, Some(mode(1920, 1080, 60000)));
    assert_eq!(
        set_custom_mode(&mut tx, &mgr, OutputId(1), 640, 480, 0),
        Err(ConfigError::InvalidMode)
    );
    assert_eq!(set_transform(&mut tx, &mgr, OutputId(1), Transform::Rotate180), Ok(()));
    assert_eq!(tx.entries[0].config.transform, Transform::Rotate180);
    assert_eq!(set_scale(&mut tx, &mgr, OutputId(1), 0), Err(ConfigError::InvalidScale));
    assert_eq!(set_scale(&mut tx, &mgr, OutputId(1), 1500), Ok(()));
    assert_eq!(tx.entries[0].config.scale_millis, Some(1500));
    assert_eq!(set_adaptive_sync(&mut tx, &mgr, OutputId(1), true), Ok(()));
    assert!(tx.entries[0].config.variable_refresh_rate);
}

#[test]
fn all_disabled_transaction_fails_and_registry_is_untouched() {
    let mut mgr = mgr_with_one_head();
    mgr.current_config = Outputs(vec![Output::bare(String::from("DP-1"))]);
    let (mut tx, _) = create_configuration(&mgr, 5);
    configure_head(&mut tx, &mgr, OutputId(1), true).unwrap();
    let before_len = mgr.current_config.0.len();
    let before_off = mgr.current_config.0[0].off;
    assert_eq!(apply(&mut mgr, &mut tx), ApplyResult::Failed);
    assert_eq!(mgr.current_config.0.len(), before_len);
    assert_eq!(mgr.current_config.0[0].off, before_off);
    // and the used-up transaction cannot be applied again
    assert_eq!(apply(&mut mgr, &mut tx), ApplyResult::AlreadyUsed);
}

#[test]
fn all_disabled_test_fails_too() {
    let mgr = mgr_with_one_head();
    let (mut tx, _) = create_configuration(&mgr, 5);
    configure_head(&mut tx, &mgr, OutputId(1), true).unwrap();
    assert_eq!(test_transaction(&mgr, &mut tx), ApplyResult::Failed);
}

#[test]
fn empty_transaction_counts_as_all_disabled() {
    let mgr = mgr_with_one_head();
    let (mut tx, _) = create_configuration(&mgr, 5);
    assert_eq!(test_transaction(&mgr, &mut tx), ApplyResult::Failed);
}

#[test]
fn successful_apply_replaces_configuration() {
    let mut mgr = mgr_with_one_head();
    let (mut tx, _) = create_configuration(&mgr, 5);
    configure_head(&mut tx, &mgr, OutputId(1), false).unwrap();
    set_scale(&mut tx, &mgr, OutputId(1), 2000).unwrap();
    assert_eq!(apply(&mut mgr, &mut tx), ApplyResult::Succeeded);
    assert_eq!(mgr.current_config.0.len(), 1);
    assert_eq!(mgr.current_config.0[0].scale_millis, Some(2000));
    assert!(!mgr.current_config.0[0].off);
}

#[test]
fn enable_head_starts_from_stored_configuration() {
    let mut mgr = mgr_with_one_head();
    let mut stored = Output::bare(String::from("dp-1"));
    stored.scale_millis = Some(1250);
    stored.off = true;
    mgr.current_config = Outputs(vec![stored]);
    let (mut tx, _) = create_configuration(&mgr, 5);
    // the stored configuration is found despite the case difference
    configure_head(&mut tx, &mgr, OutputId(1), false).unwrap();
    assert_eq!(tx.entries[0].config.scale_millis, Some(1250));
    assert!(!tx.entries[0].config.off);
}

// --- published-state diffing ---

#[test]
fn notify_announces_new_and_removed_heads_with_done() {
    let mut mgr = OutputManagementState::new();
    let head = Output::bare(String::from("DP-1"));
    let deltas = mgr.notify_changes(vec![HeadConf { id: OutputId(1), config: head }]);
    assert_eq!(
        deltas,
        vec![HeadDelta::NewHead { id: OutputId(1) }, HeadDelta::Done { serial: 1 }]
    );
    assert_eq!(mgr.serial, 1);
    // dropping the head announces the removal
    let deltas2 = mgr.notify_changes(Vec::new());
    assert_eq!(
        deltas2,
        vec![HeadDelta::RemovedHead { id: OutputId(1) }, HeadDelta::Done { serial: 2 }]
    );
}

#[test]
fn notify_without_changes_emits_nothing() {
    let mut mgr = OutputManagementState::new();
    let head = Output::bare(String::from("DP-1"));
    let _ = mgr.notify_changes(vec![HeadConf { id: OutputId(1), config: head }]);
    let again = Output::bare(String::from("DP-1"));
    let deltas = mgr.notify_changes(vec![HeadConf { id: OutputId(1), config: again }]);
    assert!(deltas.is_empty());
    assert_eq!(mgr.serial, 1);
}

#[test]
fn notify_emits_field_deltas() {
    let mut mgr = OutputManagementState::new();
    let mut head = Output::bare(String::from("DP-1"));
    head.modes = vec![mode(1920, 1080, 60000)];
    head.current_mode = Some(0);
    let _ = mgr.notify_changes(vec![HeadConf { id: OutputId(1), config: head }]);
    let mut changed = Output::bare(String::from("DP-1"));
    changed.modes = vec![mode(1920, 1080, 60000)];
    changed.current_mode = Some(0);
    changed.vrr_enabled = true;
    changed.logical = Some(logical_at(10, 20));
    let deltas = mgr.notify_changes(vec![HeadConf { id: OutputId(1), config: changed }]);
    assert_eq!(deltas.len(), 5);
    assert_eq!(deltas[0], HeadDelta::AdaptiveSync { id: OutputId(1), enabled: true });
    assert!(matches!(deltas[1], HeadDelta::Position { x: 10, y: 20, .. }));
    assert!(matches!(deltas[4], HeadDelta::Done { serial: 2 }));
}

fn logical_at(x: i32, y: i32) -> consolation::outputs::LogicalOutput {
    consolation::outputs::LogicalOutput {
        x,
        y,
        width: 1920,
        height: 1080,
        scale_millis: 1000,
        transform: Transform::Normal,
    }
}

#[test]
fn transform_rotate_cycle_wraps() {
    let mut t = Transform::Normal;
    for _ in 0..8 {
        t = next_transform(t);
    }
    assert_eq!(t, Transform::Normal);
    assert_eq!(next_transform(Transform::Rotate270), Transform::Flipped);
}

#[test]
fn outputs_lookup_ignores_ascii_case() {
    let a = Output::bare(String::from("DP-1"));
    let b = Output::bare(String::from("HDMI-A-1"));
    let outs = Outputs(vec![a, b]);
    assert_eq!(outs.find("dp-1").unwrap().name, "DP-1");
    assert_eq!(outs.find_index("hdmi-a-1"), Some(1));
    assert!(outs.find("eDP-1").is_none());
    assert_eq!(outs.find_index("eDP-1"), None);
}
