use madalya::keybinds::{
    Action, BindModifiers, Binding, KeyBind, KeyEvent, Keybinds, Modifiers, MouseButton,
    MouseEvent, MouseTrigger, NavigationDirection, Trigger, binding_keywords, is_cancel_gesture,
    is_modifier_key, is_unbind_gesture, pretty_key,
};
use madalya::model::{Clip, ClipProbe};
use madalya::picker::{
    action_matches, changes_action, cursor_down, cursor_up, filter_actions, picked,
};
use madalya::session::{
    Body, GridContent, KeyOutcome, Mode, MouseOutcome, SessionState, favorite_toggle, grid_content,
    on_key, on_mouse, wrap_index,
};

fn mods(control: bool, alt: bool, shift: bool, platform: bool) -> Modifiers {
    Modifiers { control, alt, shift, platform, function: false }
}

fn key(k: &str, m: Modifiers) -> KeyEvent {
    KeyEvent { key: k.to_string(), modifiers: m }
}

fn ctrl() -> Modifiers {
    mods(true, false, false, false)
}

#[test]
fn parse_and_unparse_keybinds() {
    let kb = KeyBind::parse("ctrl-shift-k").unwrap();
    assert_eq!(kb.modifiers, BindModifiers { ctrl: true, alt: false, shift: true, super_key: false });
    assert_eq!(kb.trigger, Trigger::Key("k".into()));
    assert_eq!(kb.unparse(), "ctrl-shift-k");
    assert_eq!(kb.display(), "Ctrl + Shift + K");

    let m = KeyBind::parse("alt-mouse-back").unwrap();
    assert_eq!(m.trigger, Trigger::Mouse(MouseTrigger::Back));
    assert_eq!(m.unparse(), "alt-mouse-back");
    assert_eq!(m.display(), "Alt + Mouse Back");

    let u = KeyBind::parse("").unwrap();
    assert!(u.is_unbound());
    assert_eq!(u.unparse(), "");
    assert_eq!(u.display(), "Unbound");
    assert_eq!(KeyBind::unbound(), u);

    let e: KeyBind = "super-escape".parse().unwrap();
    assert_eq!(e.display(), "Super + Escape");
}

#[test]
fn malformed_keybinds_are_errors() {
    assert_eq!(KeyBind::parse("ctrl").unwrap_err(), "empty keybind: ctrl");
    assert_eq!(KeyBind::parse("mouse-side").unwrap_err(), "unknown mouse button: side");
    assert_eq!(KeyBind::parse("a-b").unwrap_err(), "unrecognized keybind: a-b");
}

#[test]
fn pretty_keys() {
    assert_eq!(pretty_key("q"), "Q");
    assert_eq!(pretty_key("escape"), "Escape");
    assert_eq!(pretty_key(""), "");
    assert_eq!(pretty_key(","), ",");
}

#[test]
fn mouse_tokens_roundtrip() {
    for t in [
        MouseTrigger::Left,
        MouseTrigger::Right,
        MouseTrigger::Middle,
        MouseTrigger::Back,
        MouseTrigger::Forward,
    ] {
        assert_eq!(MouseTrigger::from_token(t.token()), Some(t));
    }
    assert_eq!(MouseTrigger::from_token("side"), None);
    assert_eq!(MouseTrigger::Forward.label(), "Mouse Forward");
    assert_eq!(
        MouseTrigger::from_button(MouseButton::Navigate(NavigationDirection::Back)),
        MouseTrigger::Back
    );
}

#[test]
fn default_bindings_dispatch_first_match() {
    let kb = Keybinds::default();
    assert_eq!(kb.bindings.len(), 3);
    assert_eq!(kb.match_key(&key(",", ctrl())), Some(Action::ToggleSettings));
    assert_eq!(kb.match_key(&key("q", ctrl())), Some(Action::Close));
    assert_eq!(kb.match_key(&key("r", ctrl())), Some(Action::RunCommand("echo hello".into())));
    assert_eq!(kb.match_key(&key("q", Modifiers::none())), None);
    assert_eq!(kb.match_key(&key("q", mods(true, false, true, false))), None);
    assert_eq!(
        kb.match_mouse(&MouseEvent { button: MouseButton::Left, modifiers: Modifiers::none() }),
        None
    );
}

#[test]
fn actions() {
    assert_eq!(Action::ToggleSettings.label(), "Toggle Settings");
    assert_eq!(Action::Close.label(), "Close");
    assert_eq!(Action::RunCommand("x".into()).label(), "Run Command");
    assert!(Action::RunCommand("a".into()).same_kind(&Action::RunCommand("b".into())));
    assert!(!Action::Close.same_kind(&Action::ToggleSettings));
    assert_eq!(Action::all().len(), 3);
    assert_eq!(Action::default(), Action::ToggleSettings);
}

#[test]
fn gestures_while_recording() {
    assert!(is_unbind_gesture(&key("escape", ctrl())));
    assert!(!is_unbind_gesture(&key("escape", Modifiers::none())));
    assert!(is_cancel_gesture(&key("escape", Modifiers::none())));
    assert!(!is_cancel_gesture(&key("escape", ctrl())));
    assert!(is_modifier_key("shift"));
    assert!(is_modifier_key("fn"));
    assert!(!is_modifier_key("a"));
}

#[test]
fn editing_the_binding_list() {
    let mut kb = Keybinds::default();
    kb.add_binding();
    assert_eq!(kb.bindings.len(), 4);
    assert_eq!(kb.bindings[3], Binding::default());
    assert!(kb.set_bind(3, KeyBind::parse("ctrl-k").unwrap()));
    assert!(kb.set_action(3, Action::Close));
    assert_eq!(kb.bindings[3].action, Action::Close);
    assert_eq!(kb.bindings[3].bind.unparse(), "ctrl-k");
    assert!(!kb.set_bind(9, KeyBind::unbound()));
    kb.remove_binding(0);
    assert_eq!(kb.bindings.len(), 3);
    assert_eq!(kb.bindings[0].action, Action::Close);
    kb.remove_binding(7);
    assert_eq!(kb.bindings.len(), 3);
}

#[test]
fn binding_search_keywords() {
    let b = Binding { action: Action::Close, bind: KeyBind::parse("ctrl-q").unwrap() };
    assert_eq!(binding_keywords(&b), vec!["Close", "Ctrl + Q", "Ctrl+Q"]);
    let u = Binding::default();
    assert_eq!(binding_keywords(&u), vec!["Toggle Settings"]);
}

#[test]
fn keys_with_a_dialog_open() {
    let kb = Keybinds::default();
    assert!(matches!(
        on_key(true, None, false, &key("escape", Modifiers::none()), &kb),
        KeyOutcome::CloseDialog
    ));
    assert!(matches!(on_key(true, None, false, &key("q", ctrl()), &kb), KeyOutcome::PassThrough));
}

#[test]
fn keys_while_recording() {
    let kb = Keybinds::default();
    assert!(matches!(
        on_key(false, Some(2), false, &key("escape", ctrl()), &kb),
        KeyOutcome::RemoveBinding(2)
    ));
    assert!(matches!(
        on_key(false, Some(2), false, &key("escape", Modifiers::none()), &kb),
        KeyOutcome::StopRecording
    ));
    assert!(matches!(
        on_key(false, Some(2), false, &key("shift", mods(false, false, true, false)), &kb),
        KeyOutcome::PassThrough
    ));
    match on_key(false, Some(2), false, &key("q", ctrl()), &kb) {
        KeyOutcome::CommitBinding(i, b) => {
            assert_eq!(i, 2);
            assert_eq!(b.unparse(), "ctrl-q");
        }
        _ => panic!("expected a recorded binding"),
    }
}

#[test]
fn keys_in_normal_use() {
    let kb = Keybinds::default();
    match on_key(false, None, false, &key("q", ctrl()), &kb) {
        KeyOutcome::Dispatch(a) => assert_eq!(a, Action::Close),
        _ => panic!("expected dispatch"),
    }
    assert!(matches!(on_key(false, None, true, &key("q", Modifiers::none()), &kb), KeyOutcome::PassThrough));
    assert!(matches!(on_key(false, None, true, &key("q", ctrl()), &kb), KeyOutcome::Dispatch(_)));
    assert!(matches!(on_key(false, None, false, &key("x", Modifiers::none()), &kb), KeyOutcome::PassThrough));
}

#[test]
fn mouse_presses() {
    let mut kb = Keybinds::default();
    let left = MouseEvent { button: MouseButton::Left, modifiers: Modifiers::none() };
    let right = MouseEvent { button: MouseButton::Right, modifiers: Modifiers::none() };
    assert!(matches!(on_mouse(Some(0), &left, &kb), MouseOutcome::PassThrough));
    match on_mouse(Some(0), &right, &kb) {
        MouseOutcome::CommitBinding(0, b) => assert_eq!(b.unparse(), "mouse-right"),
        _ => panic!("expected a recorded binding"),
    }
    assert!(matches!(on_mouse(None, &right, &kb), MouseOutcome::PassThrough));
    assert!(kb.set_bind(1, KeyBind::parse("mouse-right").unwrap()));
    match on_mouse(None, &right, &kb) {
        MouseOutcome::Dispatch(a) => assert_eq!(a, Action::Close),
        _ => panic!("expected dispatch"),
    }
}

#[test]
fn navigation_wraps_around() {
    assert_eq!(wrap_index(0, -1, 5), 4);
    assert_eq!(wrap_index(4, 1, 5), 0);
    assert_eq!(wrap_index(2, 1, 5), 3);
    assert_eq!(wrap_index(2, -7, 5), 0);
    assert_eq!(wrap_index(0, -5, 5), 0);
    let mut s = SessionState::new();
    assert_eq!(s.navigate(1, 0), None);
    assert_eq!(s.navigate(-1, 3), None);
    assert_eq!(s.selected, 2);
    assert!(s.open_fullscreen(1, 3));
    assert_eq!(s.mode, Mode::Fullscreen);
    assert_eq!(s.navigate(1, 3), Some(2));
    assert!(s.exit_fullscreen());
    assert!(!s.exit_fullscreen());
    assert!(!s.open_fullscreen(3, 3));
}

#[test]
fn settings_defer_rescans() {
    let mut s = SessionState::new();
    assert!(s.config_changed(true));
    assert!(!s.config_changed(false));
    assert!(!s.toggle_settings());
    assert!(!s.config_changed(true));
    assert!(s.pending_rescan);
    assert!(s.toggle_settings());
    assert!(!s.pending_rescan);
    assert!(!s.settings_open);
}

#[test]
fn hover_previews() {
    let mut s = SessionState::new();
    assert!(s.hover_clip("/c/a.mp4"));
    assert!(!s.hover_clip("/c/a.mp4"));
    assert!(s.preview_due("/c/a.mp4"));
    assert!(s.previewing("/c/a.mp4"));
    assert!(!s.preview_due("/c/a.mp4"));
    assert!(!s.unhover_clip("/c/b.mp4"));
    assert!(s.previewing("/c/a.mp4"));
    assert!(s.unhover_clip("/c/a.mp4"));
    assert!(!s.previewing("/c/a.mp4"));
    assert!(!s.preview_due("/c/a.mp4"));
}

#[test]
fn recording_stops_when_its_binding_goes() {
    let mut s = SessionState::new();
    s.start_recording(3);
    s.binding_removed(5);
    assert_eq!(s.recording, Some(3));
    s.binding_removed(2);
    assert_eq!(s.recording, None);
    s.start_recording(1);
    assert!(s.stop_recording());
    assert!(!s.stop_recording());
}

#[test]
fn grid_states() {
    assert_eq!(grid_content(false, 4, true), GridContent::NoDirectory);
    assert_eq!(grid_content(true, 0, true), GridContent::Scanning);
    assert_eq!(grid_content(true, 0, false), GridContent::NoClips);
    assert_eq!(grid_content(true, 2, false), GridContent::Tiles);
    assert_eq!(GridContent::Scanning.empty_text(), Some(("Library empty", "Scanning for clips…")));
    assert_eq!(GridContent::Tiles.empty_text(), None);
}

#[test]
fn action_picker_search_and_cursor() {
    assert_eq!(filter_actions("").len(), 3);
    assert_eq!(filter_actions("CLO"), vec![Action::Close]);
    assert_eq!(filter_actions("Se"), vec![Action::ToggleSettings, Action::Close]);
    assert_eq!(filter_actions("t"), vec![Action::ToggleSettings]);
    assert_eq!(filter_actions("zzz"), Vec::<Action>::new());
    assert!(action_matches(&Action::RunCommand(String::new()), "run"));
    assert!(!action_matches(&Action::Close, "run"));

    assert_eq!(cursor_down(None, 3), Some(0));
    assert_eq!(cursor_down(Some(0), 3), Some(1));
    assert_eq!(cursor_down(Some(2), 3), Some(2));
    assert_eq!(cursor_down(None, 0), None);
    assert_eq!(cursor_up(None, 3), Some(2));
    assert_eq!(cursor_up(Some(0), 3), Some(0));
    assert_eq!(cursor_up(Some(2), 3), Some(1));

    let items = filter_actions("");
    assert_eq!(picked(Some(1), &items), Some(Action::Close));
    assert_eq!(picked(Some(5), &items), None);
    assert_eq!(picked(None, &items), None);
    assert!(!changes_action(&Action::RunCommand(String::new()), &Action::RunCommand("ls".into())));
    assert!(changes_action(&Action::Close, &Action::ToggleSettings));
}

#[test]
fn favorite_toggle_targets_the_selected_visible_clip() {
    let mk = |p: &str, fav: bool| Clip {
        path: p.to_string(),
        mtime: 0,
        size: 0,
        probe: ClipProbe::default(),
        favorite: fav,
        thumb_path: None,
        title: None,
        game: None,
        mark_start: None,
        mark_end: None,
        stags: vec![],
        mtags: vec![],
        meta: vec![],
        track_state: vec![],
        default_tracks: vec![],
        added_at: 0,
    };
    let clips = vec![mk("/a", false), mk("/b", true), mk("/c", false)];
    assert_eq!(favorite_toggle(&clips, &vec![1, 2], 0), Some(("/b".to_string(), false)));
    assert_eq!(favorite_toggle(&clips, &vec![1, 2], 1), Some(("/c".to_string(), true)));
    assert_eq!(favorite_toggle(&clips, &vec![1, 2], 2), None);
    assert_eq!(favorite_toggle(&clips, &vec![7], 0), None);
}

#[test]
fn window_body_follows_mode_and_settings() {
    let mut s = SessionState::new();
    assert_eq!(s.body(), Body::Grid);
    assert!(s.open_fullscreen(0, 1));
    assert_eq!(s.body(), Body::Fullscreen);
    s.toggle_settings();
    assert_eq!(s.body(), Body::Settings);
}

#[test]
fn a_recorded_binding_fires_for_its_press() {
    let press = key("k", mods(true, true, false, false));
    let mut kb = Keybinds { bindings: vec![] };
    kb.add_binding();
    assert!(kb.set_bind(0, KeyBind::from_key(&press)));
    assert!(kb.set_action(0, Action::Close));
    assert_eq!(kb.match_key(&press), Some(Action::Close));
    let click = MouseEvent { button: MouseButton::Middle, modifiers: Modifiers::none() };
    assert!(KeyBind::from_mouse(&click).matches_mouse(&click));
    assert!(!KeyBind::unbound().matches_key(&press));
}

#[test]
fn adding_then_removing_a_binding_restores_the_list() {
    let original = Keybinds::default();
    let mut kb = Keybinds::default();
    kb.add_binding();
    kb.remove_binding(original.bindings.len());
    assert_eq!(kb.bindings, original.bindings);
}

#[test]
fn canonical_binding_text_reads_back_unchanged() {
    for s in ["ctrl-shift-k", "alt-mouse-back", "", "super-f5", "ctrl-alt-shift-super-x"] {
        assert_eq!(KeyBind::parse(s).unwrap().unparse(), s);
    }
    assert_eq!(KeyBind::parse("shift-ctrl-k").unwrap().unparse(), "ctrl-shift-k");
}
