use wezterm::frac::{frac_value_eq, Frac};
use wezterm::termwindow::{EventResponse, WindowEvent};
use wezterm::input::{
    cursor_for_highlight, key_event_dispatch, mouse_event_invalidates, perform_key_assignment,
    translate_key_code, translate_mouse_event, window_mods_to_termwiz_mods, AssignmentAction,
    KeyAssignment, KeyDispatch, KeyEvent, KeyMap, MouseButtons, MouseCursorIcon, MousePress,
    TermKeyCode, TermModifiers, TermMouseButton, TermMouseEventKind, WindowKeyCode,
    WindowModifiers, WindowMouseEvent, WindowMouseEventKind,
};
use wezterm::lineedit::{Change, LineEditorHost, NopLineEditorHost, OutputElement};
use wezterm::metrics::FontMetrics;
use wezterm::pty::{decode_try_wait, decode_wait_result, ExitStatus, STILL_ACTIVE};
use wezterm::window::{
    compute_title, decreased_font_scale, increased_font_scale, scaling_changed, spawn_pty_size,
    timer_tick, Dimensions, InvalidateCoalescer, SessionError, SessionModel, SpawnTabDomain,
    TimerAction, WindowEntry, WindowGeometry,
};

fn two_tab_session() -> SessionModel {
    SessionModel {
        windows: vec![WindowEntry { window_id: 1, tabs: vec![10, 20], active: 0 }],
        domains: vec![7, 8],
        default_domain: 7,
        tab_domains: vec![(10, 7), (20, 8)],
    }
}

#[test]
fn close_sequencing_defers_until_last_tab() {
    let mut session = two_tab_session();
    // first call closes the active tab and defers the window close
    assert!(!session.can_close(1));
    assert_eq!(session.windows[0].tabs, vec![20]);
    // the call on the last tab closes the window
    assert!(session.can_close(1));
    assert!(session.windows[0].tabs.is_empty());
    // a window with no tabs may close at once
    assert!(session.can_close(1));
}

#[test]
fn unknown_window_may_close() {
    let mut session = two_tab_session();
    assert!(session.can_close(99));
    assert_eq!(session.windows[0].tabs.len(), 2);
}

#[test]
fn activate_tab_checks_bounds() {
    let mut session = two_tab_session();
    session.activate_tab(1, 1).unwrap();
    assert_eq!(session.windows[0].active, 1);
    // an index past the end is ignored
    session.activate_tab(1, 5).unwrap();
    assert_eq!(session.windows[0].active, 1);
    assert_eq!(session.activate_tab(3, 0), Err(SessionError::NoSuchWindow));
}

#[test]
fn activate_tab_relative_wraps() {
    let mut session = two_tab_session();
    session.activate_tab_relative(1, 1).unwrap();
    assert_eq!(session.windows[0].active, 1);
    session.activate_tab_relative(1, 1).unwrap();
    assert_eq!(session.windows[0].active, 0);
    session.activate_tab_relative(1, -1).unwrap();
    assert_eq!(session.windows[0].active, 1);
}

#[test]
fn spawn_domain_resolution() {
    let session = two_tab_session();
    assert_eq!(session.resolve_spawn_domain(1, &SpawnTabDomain::DefaultDomain), Ok(7));
    // the current tab (id 10) spawned in domain 7
    assert_eq!(session.resolve_spawn_domain(1, &SpawnTabDomain::CurrentTabDomain), Ok(7));
    assert_eq!(session.resolve_spawn_domain(1, &SpawnTabDomain::Domain(8)), Ok(8));
    assert_eq!(
        session.resolve_spawn_domain(1, &SpawnTabDomain::Domain(42)),
        Err(SessionError::UnresolvableDomain)
    );
}

#[test]
fn spawned_tab_becomes_active() {
    let mut session = two_tab_session();
    session.tab_spawned(1, 30, 7).unwrap();
    assert_eq!(session.windows[0].tabs, vec![10, 20, 30]);
    assert_eq!(session.windows[0].active, 2);
}

#[test]
fn title_reflects_tab_strip() {
    let session = two_tab_session();
    let title = compute_title(&session, 1).unwrap();
    assert_eq!(title.tab_no, 0);
    assert_eq!(title.num_tabs, 2);
    assert!(compute_title(&session, 9).is_none());
}

fn base_geometry() -> WindowGeometry {
    WindowGeometry {
        cell_width: 8,
        cell_height: 16,
        dimensions: Dimensions { pixel_width: 640, pixel_height: 480, dpi: 96 },
        font_scale: Frac { num: 1, den: 1 },
        descender: Frac { num: -4, den: 1 },
        dec_rows: wezterm::metrics::compute_decoration_rows(16, &Frac { num: -4, den: 1 }),
    }
}

fn scaled_metrics() -> FontMetrics {
    FontMetrics {
        cell_width: Frac { num: 19, den: 2 },
        cell_height: Frac { num: 37, den: 2 },
        descender: Frac { num: -9, den: 2 },
    }
}

#[test]
fn scaling_noop_when_dpi_and_scale_unchanged() {
    let mut geom = base_geometry();
    let out = scaling_changed(
        &mut geom,
        Dimensions { pixel_width: 800, pixel_height: 600, dpi: 96 },
        Frac { num: 2, den: 2 },
        &scaled_metrics(),
    );
    assert!(!out.rebuilt);
    assert_eq!(geom.cell_width, 8);
    assert_eq!(geom.cell_height, 16);
    assert_eq!(geom.dimensions.pixel_width, 800);
    // tabs resize to the new grid: 800/8 = 100 cols, 600/16 = 37 rows
    assert_eq!(out.resize.cols, 100);
    assert_eq!(out.resize.rows, 37);
}

#[test]
fn scaling_change_recomputes_cells() {
    let mut geom = base_geometry();
    let out = scaling_changed(
        &mut geom,
        Dimensions { pixel_width: 640, pixel_height: 480, dpi: 144 },
        Frac { num: 1, den: 1 },
        &scaled_metrics(),
    );
    assert!(out.rebuilt);
    // ceilings of 9.5 and 18.5
    assert_eq!(geom.cell_width, 10);
    assert_eq!(geom.cell_height, 19);
    // trunc(19 - 4.5) = 14
    assert_eq!(geom.dec_rows.descender_row, 14);
    assert_eq!(out.resize.cols, 64);
    assert_eq!(out.resize.rows, 25);
}

#[test]
fn spawn_size_uses_the_rounding_rule() {
    let size = spawn_pty_size(
        &Dimensions { pixel_width: 639, pixel_height: 479, dpi: 96 },
        8,
        16,
    );
    assert_eq!(size.cols, 80);
    assert_eq!(size.rows, 30);
    assert_eq!(size.pixel_width, 639);
    assert_eq!(size.pixel_height, 479);
}

#[test]
fn font_scale_steps() {
    let one = Frac { num: 1, den: 1 };
    let down = decreased_font_scale(&one).unwrap();
    assert!(frac_value_eq(&down, &Frac { num: 9, den: 10 }));
    let up = increased_font_scale(&one).unwrap();
    assert!(frac_value_eq(&up, &Frac { num: 11, den: 10 }));
}

#[test]
fn timer_decides_invalidate_or_close() {
    assert_eq!(timer_tick(true, true), TimerAction::Invalidate);
    assert_eq!(timer_tick(true, false), TimerAction::Nothing);
    assert_eq!(timer_tick(false, true), TimerAction::CloseWindow);
}

#[test]
fn invalidates_coalesce_to_one_paint() {
    let mut c = InvalidateCoalescer::new();
    c.request();
    c.request();
    c.request();
    assert!(c.take_paint());
    assert!(!c.take_paint());
}

fn no_mods() -> WindowModifiers {
    WindowModifiers { shift: false, alt: false, ctrl: false, super_key: false }
}

#[test]
fn modifier_translation_is_flag_for_flag() {
    let mods = WindowModifiers { shift: true, alt: false, ctrl: true, super_key: false };
    let t = window_mods_to_termwiz_mods(mods);
    assert!(t.shift && !t.alt && t.ctrl && !t.super_key);
}

#[test]
fn mouse_position_maps_to_cells() {
    let event = WindowMouseEvent {
        kind: WindowMouseEventKind::Move,
        x: 17,
        y: 33,
        mouse_buttons: MouseButtons { left: false, middle: false, right: false },
        modifiers: no_mods(),
    };
    let t = translate_mouse_event(&event, 8, 16).unwrap();
    assert_eq!(t.x, 2);
    assert_eq!(t.y, 2);
    assert_eq!(t.kind, TermMouseEventKind::Move);
    assert_eq!(t.button, TermMouseButton::NoButton);
}

#[test]
fn move_button_precedence_is_left_right_middle() {
    let held = |left, right, middle| WindowMouseEvent {
        kind: WindowMouseEventKind::Move,
        x: 0,
        y: 0,
        mouse_buttons: MouseButtons { left, middle, right },
        modifiers: no_mods(),
    };
    assert_eq!(translate_mouse_event(&held(true, true, true), 8, 16).unwrap().button, TermMouseButton::Left);
    assert_eq!(
        translate_mouse_event(&held(false, true, true), 8, 16).unwrap().button,
        TermMouseButton::Right
    );
    assert_eq!(
        translate_mouse_event(&held(false, false, true), 8, 16).unwrap().button,
        TermMouseButton::Middle
    );
}

#[test]
fn wheel_events_carry_magnitude() {
    let wheel = |amount| WindowMouseEvent {
        kind: WindowMouseEventKind::VertWheel(amount),
        x: 0,
        y: 0,
        mouse_buttons: MouseButtons { left: false, middle: false, right: false },
        modifiers: no_mods(),
    };
    assert_eq!(translate_mouse_event(&wheel(3), 8, 16).unwrap().button, TermMouseButton::WheelUp(3));
    assert_eq!(translate_mouse_event(&wheel(-2), 8, 16).unwrap().button, TermMouseButton::WheelDown(2));
    assert_eq!(translate_mouse_event(&wheel(3), 8, 16).unwrap().kind, TermMouseEventKind::Press);
    // a horizontal wheel is unmapped: nothing is forwarded
    let horz = WindowMouseEvent {
        kind: WindowMouseEventKind::HorzWheel(4),
        x: 0,
        y: 0,
        mouse_buttons: MouseButtons { left: false, middle: false, right: false },
        modifiers: no_mods(),
    };
    assert!(translate_mouse_event(&horz, 8, 16).is_none());
}

#[test]
fn presses_invalidate_moves_do_not() {
    assert!(!mouse_event_invalidates(WindowMouseEventKind::Move));
    assert!(mouse_event_invalidates(WindowMouseEventKind::Press(MousePress::Left)));
    assert_eq!(cursor_for_highlight(true), MouseCursorIcon::Hand);
    assert_eq!(cursor_for_highlight(false), MouseCursorIcon::Text);
}

fn sample_keymap() -> KeyMap {
    KeyMap {
        entries: vec![
            (
                TermKeyCode::Char('t'),
                TermModifiers { shift: false, alt: false, ctrl: true, super_key: false },
                KeyAssignment::SpawnTab(SpawnTabDomain::DefaultDomain),
            ),
            (
                TermKeyCode::Char('t'),
                TermModifiers { shift: false, alt: false, ctrl: true, super_key: false },
                KeyAssignment::Nop,
            ),
        ],
    }
}

#[test]
fn key_up_and_missing_tab_are_ignored() {
    let keys = sample_keymap();
    let up = KeyEvent { key: WindowKeyCode::Char('t'), modifiers: no_mods(), key_is_down: false };
    let (d, handled) = key_event_dispatch(up, &keys, true);
    assert!(matches!(d, KeyDispatch::Ignored));
    assert!(!handled);
    let down = KeyEvent { key: WindowKeyCode::Char('t'), modifiers: no_mods(), key_is_down: true };
    let (d2, handled2) = key_event_dispatch(down, &keys, false);
    assert!(matches!(d2, KeyDispatch::Ignored));
    assert!(!handled2);
}

#[test]
fn bound_key_picks_first_matching_entry() {
    let keys = sample_keymap();
    let ctrl = WindowModifiers { shift: false, alt: false, ctrl: true, super_key: false };
    let event = KeyEvent { key: WindowKeyCode::Char('t'), modifiers: ctrl, key_is_down: true };
    let (d, handled) = key_event_dispatch(event, &keys, true);
    assert!(handled);
    match d {
        KeyDispatch::Assignment(i) => assert_eq!(i, 0),
        _ => panic!("expected the binding"),
    }
}

#[test]
fn unbound_key_forwards_to_the_tab() {
    let keys = sample_keymap();
    let event = KeyEvent { key: WindowKeyCode::Char('x'), modifiers: no_mods(), key_is_down: true };
    let (d, handled) = key_event_dispatch(event, &keys, true);
    assert!(handled);
    match d {
        KeyDispatch::ForwardToTab(kc, _) => assert_eq!(kc, TermKeyCode::Char('x')),
        _ => panic!("expected a forward"),
    }
}

#[test]
fn composed_text_bypasses_bindings() {
    let keys = sample_keymap();
    let event = KeyEvent {
        key: WindowKeyCode::Composed(String::from("ne")),
        modifiers: no_mods(),
        key_is_down: true,
    };
    let (d, handled) = key_event_dispatch(event, &keys, true);
    assert!(handled);
    match d {
        KeyDispatch::WriteToPty(s) => assert_eq!(s, "ne"),
        _ => panic!("expected a pty write"),
    }
}

#[test]
fn unmapped_keys_translate_to_nothing() {
    assert!(translate_key_code(&WindowKeyCode::Unmapped).is_none());
    assert_eq!(translate_key_code(&WindowKeyCode::Home), Some(TermKeyCode::Home));
}

#[test]
fn assignments_produce_the_right_actions() {
    let mut session = two_tab_session();
    let geom = base_geometry();
    let paste = perform_key_assignment(&mut session, &geom, 1, &KeyAssignment::Paste);
    assert!(matches!(paste, AssignmentAction::PasteFromClipboard));
    let reset = perform_key_assignment(&mut session, &geom, 1, &KeyAssignment::ResetFontSize);
    match reset {
        AssignmentAction::RescaleTo(f) => assert!(frac_value_eq(&f, &Frac { num: 1, den: 1 })),
        _ => panic!("expected a rescale"),
    }
    let spawn = perform_key_assignment(
        &mut session,
        &geom,
        1,
        &KeyAssignment::SpawnTab(SpawnTabDomain::DefaultDomain),
    );
    match spawn {
        AssignmentAction::SpawnTabIn(d, size) => {
            assert_eq!(d, 7);
            assert_eq!(size.cols, 80);
            assert_eq!(size.rows, 30);
        },
        _ => panic!("expected a spawn"),
    }
    let next = perform_key_assignment(&mut session, &geom, 1, &KeyAssignment::ActivateTabRelative(1));
    assert!(matches!(next, AssignmentAction::Nothing));
    assert_eq!(session.windows[0].active, 1);
    let close = perform_key_assignment(&mut session, &geom, 1, &KeyAssignment::CloseCurrentTab);
    assert!(matches!(close, AssignmentAction::Nothing));
    assert_eq!(session.windows[0].tabs, vec![10]);
}

#[test]
fn child_status_decoding() {
    assert_eq!(decode_try_wait(true, STILL_ACTIVE), None);
    assert_eq!(decode_try_wait(true, 0), Some(ExitStatus { code: 0 }));
    assert_eq!(decode_try_wait(true, 3), Some(ExitStatus { code: 3 }));
    assert_eq!(decode_try_wait(false, 3), None);
    assert_eq!(decode_wait_result(true, 259), Ok(ExitStatus { code: 259 }));
    assert_eq!(decode_wait_result(false, 0), Err(()));
}

#[test]
fn nop_host_renders_prompt_and_line_verbatim() {
    let host = NopLineEditorHost {};
    let prompt = host.render_prompt("> ");
    assert_eq!(prompt.len(), 1);
    match &prompt[0] {
        OutputElement::Text(t) => assert_eq!(t, "> "),
        _ => panic!("expected text"),
    }
    let line = host.highlight_line("hello", 3);
    assert_eq!(line.len(), 1);
    match &line[0] {
        OutputElement::Text(t) => assert_eq!(t, "hello"),
        _ => panic!("expected text"),
    }
}

#[test]
fn output_elements_convert_into_changes() {
    let c: Change = OutputElement::Text(String::from("hi")).into();
    match c {
        Change::Text(t) => assert_eq!(t, "hi"),
        _ => panic!("expected text change"),
    }
}

fn test_window() -> wezterm::termwindow::TermWindow {
    wezterm::termwindow::TermWindow {
        mux_window_id: 1,
        geometry: base_geometry(),
        cache: wezterm::glyphcache::GlyphCache::new(),
        atlas: wezterm::atlas::TextureAtlas::new(64),
        keys: sample_keymap(),
        created: false,
    }
}

#[test]
fn dispatch_routes_the_callback_events() {
    let mut tw = test_window();
    let mut session = two_tab_session();
    // created attaches the handle
    let r = tw.dispatch_event(&mut session, WindowEvent::Created);
    assert!(matches!(r, EventResponse::Created));
    assert!(tw.created);
    // a bound key decides its assignment
    let ctrl = WindowModifiers { shift: false, alt: false, ctrl: true, super_key: false };
    let key = KeyEvent { key: WindowKeyCode::Char('t'), modifiers: ctrl, key_is_down: true };
    let r = tw.dispatch_event(&mut session, WindowEvent::Key { event: key, has_tab: true });
    match r {
        EventResponse::KeyDispatched { handled, dispatch, action } => {
            assert!(handled);
            assert!(matches!(dispatch, KeyDispatch::Assignment(0)));
            assert!(matches!(action, Some(AssignmentAction::SpawnTabIn(7, _))));
        }
        _ => panic!("expected a key dispatch"),
    }
    // close sequencing through the dispatcher: two tabs take two calls
    let r = tw.dispatch_event(&mut session, WindowEvent::CanClose);
    assert!(matches!(r, EventResponse::CanClose(false)));
    let r = tw.dispatch_event(&mut session, WindowEvent::CanClose);
    assert!(matches!(r, EventResponse::CanClose(true)));
}

#[test]
fn dispatch_resize_rebuilds_on_dpi_change() {
    let mut tw = test_window();
    let mut session = two_tab_session();
    let r = tw.dispatch_event(
        &mut session,
        WindowEvent::Resize {
            dimensions: Dimensions { pixel_width: 640, pixel_height: 480, dpi: 144 },
            font_scale: Frac { num: 1, den: 1 },
            metrics: scaled_metrics(),
        },
    );
    match r {
        EventResponse::Resized(out) => {
            assert!(out.rebuilt);
            assert_eq!(out.resize.cols, 64);
        }
        _ => panic!("expected a resize"),
    }
    assert_eq!(tw.geometry.cell_width, 10);
    assert_eq!(tw.cache.len(), 0);
}
