use sharectrl::autostart::{
    current_command, desired_command, entry_bytes, is_enabled, reconcile, set_enabled, to_utf16,
    EntryChange, AUTOSTART_FLAG,
};
use sharectrl::clipboard::{file_list, held_text, ClipSync, MAX_TEXT_BYTES};
use sharectrl::elevation::{
    active_console_session, command_line, elevation_service_name_wide, service_command, wide,
    InputDesktopFollower, ServiceCommand, SessionWatch,
};
use sharectrl::injector::{Act, Injector, TargetRect};
use sharectrl::input::{translate_input, Button, InputMsg, MoveRelay, VideoInput};
use sharectrl::keyhook::{
    install, is_installed, key_event, should_suppress, uninstall, vk_to_code, HookState, KeyEvent,
    VK_ESCAPE, VK_LWIN, VK_MENU, VK_TAB, WM_KEYDOWN, WM_KEYUP,
};
use sharectrl::receiver::paste_keys;
use sharectrl::scancode::{code_for, lookup, ScanCode};
use sharectrl::utf16::{encode_wide, to_bytes};
use sharectrl::window::{bar_phys, decode_message, VideoSurface, WindowMsg};

#[test]
fn known_non_extended() {
    assert_eq!(
        lookup("KeyA"),
        Some(ScanCode {
            sc: 0x1e,
            ext: false
        })
    );
    assert_eq!(
        lookup("Enter"),
        Some(ScanCode {
            sc: 0x1c,
            ext: false
        })
    );
}

#[test]
fn known_extended() {
    assert_eq!(
        lookup("ArrowUp"),
        Some(ScanCode {
            sc: 0x48,
            ext: true
        })
    );
    assert_eq!(
        lookup("ControlRight"),
        Some(ScanCode {
            sc: 0x1d,
            ext: true
        })
    );
}

#[test]
fn unsupported_and_unknown() {
    assert_eq!(lookup("Pause"), None);
    assert_eq!(lookup("MediaPlayPause"), None);
    assert_eq!(lookup("Nonsense"), None);
}

#[test]
fn codes_and_names_are_inverse() {
    let mut names = 0;
    for sc in 0..=0x100u16 {
        for ext in [false, true] {
            if let Some(name) = code_for(sc, ext) {
                names += 1;
                assert_eq!(lookup(name), Some(ScanCode { sc, ext }));
            }
        }
    }
    assert_eq!(names, 104);
    assert_eq!(code_for(0x37, true), Some("PrintScreen"));
    assert_eq!(code_for(0x54, false), None);
}

#[test]
fn buttons_have_numbers() {
    for (v, b) in [(0u8, Button::Left), (1, Button::Middle), (2, Button::Right)] {
        assert_eq!(Button::try_from(v), Ok(b));
        assert_eq!(u8::from(b), v);
    }
    assert_eq!(Button::try_from(3), Err("invalid mouse button"));
}

#[test]
fn captured_input_is_translated() {
    match translate_input(VideoInput::Button { button: 2, down: true, nx: 1, ny: 2 }) {
        Some(InputMsg::ButtonDown { b: Button::Right, x: 1, y: 2 }) => {}
        other => panic!("{other:?}"),
    }
    match translate_input(VideoInput::<i32>::Key { scancode: 0x1e, extended: false, down: false }) {
        Some(InputMsg::KeyUp { code }) => assert_eq!(code, "KeyA"),
        other => panic!("{other:?}"),
    }
    assert!(translate_input(VideoInput::Button { button: 7, down: true, nx: 1, ny: 2 }).is_none());
    assert!(translate_input(VideoInput::<i32>::Key { scancode: 0, extended: false, down: true }).is_none());
    assert!(matches!(
        translate_input(VideoInput::<i32>::Wheel { dx: 0, dy: -120 }),
        Some(InputMsg::Wheel { dx: 0, dy: -120 })
    ));
}

#[test]
fn moves_are_merged() {
    let mv = |n: i32| VideoInput::Move { nx: n, ny: n };
    let key = VideoInput::Key { scancode: 1, extended: false, down: true };
    let mut r = MoveRelay::new();
    assert_eq!(r.wait_ms(&mv(1), 0), 0);
    let (out, used) = r.merge(mv(1), &[mv(2), mv(3), key, mv(4)], 100);
    assert_eq!(used, 3);
    assert!(matches!(out[0], VideoInput::Move { nx: 3, .. }));
    assert!(matches!(out[1], VideoInput::Key { .. }));
    assert_eq!(r.wait_ms(&mv(5), 104), 6);
    assert_eq!(r.wait_ms(&key, 104), 0);
    assert_eq!(r.wait_ms(&mv(5), 110), 0);
    let (out, used) = r.merge(key, &[mv(1)], 111);
    assert_eq!((out.len(), used), (1, 0));
    assert_eq!(r.last_move, Some(100));
}

#[test]
fn injected_input_is_released() {
    let mut inj = Injector::default();
    let acts = inj.dispatch(&InputMsg::ButtonDown { b: Button::Left, x: 5, y: 6 });
    assert!(matches!(acts[0], Act::MoveTo { x: 5, y: 6 }));
    assert!(matches!(acts[1], Act::Button { b: Button::Left, down: true }));
    let down = |code: &str| InputMsg::<i32>::KeyDown { code: code.to_string() };
    inj.dispatch(&down("KeyA"));
    inj.dispatch(&down("KeyA"));
    inj.dispatch(&down("ShiftLeft"));
    assert!(inj.dispatch(&down("Pause")).is_empty());
    inj.dispatch(&InputMsg::<i32>::KeyUp { code: "KeyA".to_string() });
    let acts = inj.release_all::<i32>();
    assert_eq!(acts.len(), 2);
    assert!(matches!(acts[0], Act::Key { key: ScanCode { sc: 0x2a, ext: false }, down: false }));
    assert!(matches!(acts[1], Act::Button { b: Button::Left, down: false }));
    assert!(inj.release_all::<i32>().is_empty());
    let acts = inj.dispatch(&InputMsg::<i32>::Wheel { dx: 120, dy: -120 });
    assert!(matches!(acts[0], Act::Wheel(-120)));
    assert!(matches!(acts[1], Act::HWheel(120)));
    assert!(inj.dispatch(&InputMsg::<i32>::Wheel { dx: 0, dy: 0 }).is_empty());
}

#[test]
fn displays_are_aimed_at() {
    let mut inj = Injector::new();
    let rect = TargetRect { x: -10, y: 0, w: 800, h: 600 };
    inj.set_target_rect(Some(rect));
    assert_eq!(inj.move_target(1920, 1080), Some(rect));
    assert_eq!(inj.move_target(1, 1080), None);
    inj.set_target_rect(Some(TargetRect { w: 0, ..rect }));
    assert_eq!(inj.move_target(1920, 1080), None);
}

#[test]
fn pasting_types_ctrl_v() {
    let mut inj = Injector::new();
    let acts: Vec<Act<i32>> = paste_keys(&mut inj);
    let keys: Vec<(u16, bool)> = acts
        .iter()
        .map(|a| match a {
            Act::Key { key, down } => (key.sc, *down),
            other => panic!("{other:?}"),
        })
        .collect();
    assert_eq!(keys, vec![(0x1d, true), (0x2f, true), (0x2f, false), (0x1d, false)]);
    assert!(inj.release_all::<i32>().is_empty());
}

fn ev(vk: u32, down: bool, alt_down: bool, focused: bool) -> KeyEvent {
    KeyEvent { vk, down, injected: false, alt_down, focused }
}

#[test]
fn alt_tab_goes_to_the_remote_machine() {
    let mut s = HookState::new();
    assert!(install(&mut s, Some(77)));
    assert!(is_installed(&s));
    let (keys, kept) = s.hook_proc(ev(VK_TAB, true, true, true));
    assert_eq!(keys, vec![("AltLeft", true), ("Tab", true)]);
    assert!(kept);
    // Alt is let go of first: both releases are still forwarded.
    let (keys, kept) = s.hook_proc(ev(VK_MENU, false, false, true));
    assert_eq!(keys, vec![("AltLeft", false)]);
    assert!(!kept);
    let (keys, kept) = s.hook_proc(ev(VK_TAB, false, false, true));
    assert_eq!(keys, vec![("Tab", false)]);
    assert!(!kept);
    assert_eq!(uninstall(&mut s), Some(77));
    assert!(!is_installed(&s));
    assert_eq!(uninstall(&mut s), None);
}

#[test]
fn other_keys_stay_here() {
    let mut s = HookState::new();
    install(&mut s, Some(1));
    assert_eq!(s.hook_proc(ev(VK_TAB, true, false, true)), (vec![], false));
    assert_eq!(s.hook_proc(ev(VK_LWIN, true, false, false)), (vec![], false));
    assert_eq!(s.hook_proc(ev(0x41, true, true, true)), (vec![], false));
    let injected = KeyEvent { injected: true, ..ev(VK_LWIN, true, false, true) };
    assert_eq!(s.hook_proc(injected), (vec![], false));
    // The release of a forwarded key is owed even if the focus has gone.
    assert_eq!(s.hook_proc(ev(VK_LWIN, true, false, true)), (vec![("MetaLeft", true)], true));
    assert_eq!(s.hook_proc(ev(VK_LWIN, false, false, false)), (vec![("MetaLeft", false)], false));
    // Nobody listens.
    let mut quiet = HookState::new();
    assert!(!install(&mut quiet, None));
    assert_eq!(quiet.hook_proc(ev(VK_LWIN, true, false, true)), (vec![], true));
}

#[test]
fn hook_calls_are_read() {
    let e = key_event(0, WM_KEYDOWN, VK_TAB, 0, 0, true, false).unwrap();
    assert!(e.down && !e.injected && e.alt_down && !e.focused);
    assert!(!key_event(0, WM_KEYUP, VK_TAB, 0, 0, true, false).unwrap().down);
    assert!(key_event(0, WM_KEYDOWN, 1, 0x10, 0, false, false).unwrap().injected);
    assert!(key_event(0, WM_KEYDOWN, 1, 0, 0x5343_5253, false, false).unwrap().injected);
    assert!(key_event(-1, WM_KEYDOWN, 1, 0, 0, false, false).is_none());
    assert!(key_event(0, 0x0200, 1, 0, 0, false, false).is_none());
    assert_eq!(vk_to_code(VK_ESCAPE), Some("Escape"));
    assert_eq!(vk_to_code(0x41), None);
    assert!(should_suppress(VK_LWIN, false) && !should_suppress(VK_ESCAPE, false));
    let mut s = HookState::new();
    s.set_focus_root(5, 9);
    assert!(s.session_focused(9) && !s.session_focused(5));
    s.set_focus_root(0, 9);
    assert!(!s.session_focused(9) && !s.session_focused(0));
}

#[test]
fn window_messages_are_read() {
    let at = |x: i16, y: i16| (x as u16 as u64) | ((y as u16 as u64) << 16);
    assert_eq!(decode_message(0x0200, 0, at(-5, 7)), WindowMsg::Move { px: -5, py: 7 });
    assert_eq!(
        decode_message(0x0207, 0, at(1, 2)),
        WindowMsg::Button { button: 1, down: true, px: 1, py: 2 }
    );
    assert_eq!(
        decode_message(0x0205, 0, at(1, 2)),
        WindowMsg::Button { button: 2, down: false, px: 1, py: 2 }
    );
    assert_eq!(decode_message(0x020A, ((-120i16) as u16 as u64) << 16, 0), WindowMsg::Wheel { dx: 0, dy: -120 });
    assert_eq!(decode_message(0x020E, 120u64 << 16, 0), WindowMsg::Wheel { dx: 120, dy: 0 });
    assert_eq!(
        decode_message(0x0104, 0, (0x48u64 << 16) | (1 << 24)),
        WindowMsg::Key { scancode: 0x48, extended: true, down: true }
    );
    assert_eq!(decode_message(0x0008, 0, 0), WindowMsg::FocusLost);
    assert_eq!(decode_message(0x0233, 0, 0), WindowMsg::FilesDropped);
    assert_eq!(decode_message(0x0001, 0, 0), WindowMsg::Other);
    assert_eq!(bar_phys(0), 40);
    assert_eq!(bar_phys(144), 60);
}

#[test]
fn focus_loss_releases_what_is_held() {
    let mut s = VideoSurface::new((50, 50));
    let key = WindowMsg::Key { scancode: 0x38, extended: false, down: true };
    assert!(s.wndproc(key, (0, 0), 40).events.is_empty());
    s.clear_input_sink();
    s.set_input_sink();
    s.wndproc(key, (0, 0), 40);
    s.wndproc(key, (0, 0), 40);
    s.wndproc(WindowMsg::Move { px: 0, py: 300 }, (3, 4), 40);
    let step = s.wndproc(WindowMsg::Button { button: 0, down: true, px: 1, py: 1 }, (3, 4), 40);
    assert!(step.take_focus && step.handled);
    let step = s.wndproc(WindowMsg::FocusLost, (0, 0), 40);
    assert_eq!(step.events.len(), 2);
    assert!(matches!(step.events[0], VideoInput::Key { scancode: 0x38, extended: false, down: false }));
    assert!(matches!(step.events[1], VideoInput::Button { button: 0, down: false, nx: 3, ny: 4 }));
    assert!(s.wndproc(WindowMsg::FocusLost, (0, 0), 40).events.is_empty());
    assert!(!s.wndproc(WindowMsg::Other, (0, 0), 40).handled);
}

#[test]
fn the_bar_comes_and_goes() {
    let mut s = VideoSurface::new((0, 0));
    let mv = |py: i32| WindowMsg::Move { px: 0, py };
    assert_eq!(s.wndproc(mv(3), (0, 0), 40).shown_px, None);
    assert_eq!(s.wndproc(mv(2), (0, 0), 40).shown_px, Some(40));
    assert_eq!(s.wndproc(mv(56), (0, 0), 40).shown_px, None);
    assert_eq!(s.wndproc(mv(57), (0, 0), 40).shown_px, Some(0));
    s.wndproc(mv(0), (0, 0), 40);
    s.set_video_size(1920, 1080);
    assert_eq!(s.video_dims(), (1920, 1080));
    s.hidden();
    assert_eq!((s.bar_px(), s.video_dims()), (0, (0, 0)));
    assert_eq!(s.set_file_sink(true), None);
    s.set_drop_target(9);
    assert_eq!(s.drop_target_hwnd(), 9);
    assert_eq!(s.set_file_sink(true), Some(9));
    assert!(s.accepts_files(1) && !s.accepts_files(0));
    s.set_file_sink(false);
    assert!(!s.accepts_files(1));
}

#[test]
fn desired_command_is_quoted_and_flagged() {
    let exe = r"C:\Program Files\ShareCtrl\sharectrl.exe";
    let cmd = desired_command(Some(exe)).expect("path is known");
    assert!(cmd.starts_with('"'), "path must be quoted: {cmd}");
    assert!(cmd.ends_with(AUTOSTART_FLAG), "flag must be present: {cmd}");
    let close = cmd.rfind('"').expect("closing quote");
    assert!(close < cmd.len() - AUTOSTART_FLAG.len());
    assert_eq!(cmd, format!("\"{exe}\" --autostart"));
    assert_eq!(desired_command(None), None);
}

#[test]
fn enable_then_disable_roundtrips() {
    let desired = desired_command(Some(r"C:\a b\x.exe"));
    assert_eq!(set_enabled(true, true, true, 0), Ok(()));
    let current = current_command(Some(entry_bytes(desired.as_deref().unwrap())));
    assert!(is_enabled(&current));
    assert_eq!(current, desired);
    assert_eq!(reconcile(true, &current, &desired), EntryChange::Keep);
    assert_eq!(set_enabled(false, true, true, 0), Ok(()));
    assert!(!is_enabled(&current_command(None)));
    assert_eq!(set_enabled(false, true, true, 2), Ok(()));
}

#[test]
fn startup_entry_follows_the_setting() {
    let d = desired_command(Some("new.exe"));
    let old = desired_command(Some("old.exe"));
    assert_eq!(reconcile(true, &None, &d), EntryChange::Write);
    assert_eq!(reconcile(true, &old, &d), EntryChange::Write);
    assert_eq!(reconcile(false, &old, &d), EntryChange::Remove);
    assert_eq!(reconcile(false, &None, &d), EntryChange::Keep);
    assert_eq!(
        set_enabled(true, true, true, 5).unwrap_err(),
        "could not write the startup entry (error 5)"
    );
    assert_eq!(
        set_enabled(false, true, true, 5).unwrap_err(),
        "could not remove the startup entry (error 5)"
    );
    assert_eq!(set_enabled(true, false, true, 0).unwrap_err(), "cannot determine this program's path");
    assert_eq!(set_enabled(true, true, false, 0).unwrap_err(), "cannot open the Run registry key");
    assert_eq!(to_utf16("a"), vec![0x61, 0]);
    assert_eq!(current_command(Some(vec![])), None);
}

#[test]
fn empty_file_list_is_rejected() {
    assert_eq!(file_list(&[]), None);
}

#[test]
fn file_list_is_a_drop_list() {
    let list = file_list(&["C:\\a".to_string(), "b".to_string()]).unwrap();
    assert_eq!(&list[..20], &[20, 0, 0, 0, 0, 0, 0, 0, 0, 0, 0, 0, 0, 0, 0, 0, 1, 0, 0, 0]);
    assert_eq!(
        &list[20..],
        &[b'C', 0, b':', 0, b'\\', 0, b'a', 0, 0, 0, b'b', 0, 0, 0, 0, 0]
    );
}

#[test]
fn roundtrips_text_and_reports_new_sequence() {
    let marker = "sharectrl clipboard test \u{5d0}\u{5d1}";
    let held = to_bytes(&encode_wide(marker));
    assert_eq!(held_text(&held).as_deref(), Some(marker));
    // The number that the write led to is known, and not read again.
    let mut c = ClipSync::new(1);
    c.written(2, marker.to_string());
    assert!(!c.on_poll(true, 2));
}

#[test]
fn empty_text_is_not_reported() {
    assert_eq!(held_text(&to_bytes(&encode_wide(""))), None);
}

#[test]
fn too_much_text_is_not_reported() {
    assert_eq!(held_text(&to_bytes(&encode_wide(&"x".repeat(300_000)))), None);
    let most = "x".repeat(MAX_TEXT_BYTES);
    assert_eq!(held_text(&to_bytes(&encode_wide(&most))), Some(most));
    assert_eq!(held_text(&to_bytes(&encode_wide(&"x".repeat(MAX_TEXT_BYTES + 1)))), None);
    // It is the bytes of the text that count, not its characters.
    let half = "\u{5d0}".repeat(MAX_TEXT_BYTES / 2);
    assert_eq!(held_text(&to_bytes(&encode_wide(&half))), Some(half));
    assert_eq!(held_text(&to_bytes(&encode_wide(&"\u{5d0}".repeat(MAX_TEXT_BYTES / 2 + 1)))), None);
}

#[test]
fn clipboard_text_is_not_echoed() {
    let mut c = ClipSync::new(1);
    assert!(c.wants(true, "hi"));
    assert!(!c.wants(false, "hi"));
    c.written(2, "hi".to_string());
    assert!(!c.wants(true, "hi"));
    assert!(!c.on_poll(true, 2));
    assert!(!c.on_poll(false, 3));
    assert!(c.on_poll(true, 3));
    assert_eq!(c.on_read(Some("hi".to_string())), None);
    assert_eq!(c.on_read(Some("new".to_string())), Some("new".to_string()));
    assert_eq!(c.on_read(Some("new".to_string())), None);
    assert_eq!(c.on_read(Some("x".repeat(MAX_TEXT_BYTES + 1))), None);
    assert_eq!(c.on_read(None), None);
    assert_eq!(held_text(&[0x68, 0, 0x69, 0, 0, 0]), Some("hi".to_string()));
    assert_eq!(held_text(&[0, 0]), None);
}

#[test]
fn sessions_and_desktops_are_followed() {
    assert_eq!(active_console_session(0xFFFF_FFFF), None);
    assert_eq!(active_console_session(3), Some(3));
    let mut w = SessionWatch::new();
    assert_eq!(w.on_poll(Some(3)), Some(3));
    assert_eq!(w.on_poll(Some(3)), Some(3));
    w.launched(3);
    assert_eq!(w.on_poll(Some(3)), None);
    assert_eq!(w.on_poll(Some(4)), Some(4));
    assert_eq!(w.on_poll(None), None);
    assert_eq!(w.on_poll(Some(3)), Some(3));

    let mut f = InputDesktopFollower::new();
    assert_eq!(f.current(), "");
    assert!(f.must_switch(""));
    assert_eq!(f.switched(7, "Default".to_string()), None);
    assert!(!f.must_switch("Default"));
    assert!(f.must_switch("Winlogon"));
    assert_eq!(f.switched(8, "Winlogon".to_string()), Some(7));
    assert_eq!(f.current(), "Winlogon");
}

#[test]
fn service_commands() {
    assert_eq!(ServiceCommand::parse("--install-service"), ServiceCommand::Install);
    assert_eq!(ServiceCommand::parse("--uninstall-service"), ServiceCommand::Uninstall);
    assert_eq!(ServiceCommand::parse("--run-service"), ServiceCommand::Run);
    assert_eq!(ServiceCommand::parse(""), ServiceCommand::Usage);
    assert_eq!(command_line("C:\\a b\\e.exe", "--engine"), "\"C:\\a b\\e.exe\" --engine");
    assert_eq!(service_command("s.exe"), "\"s.exe\" --run-service");
    assert_eq!(wide("ab"), vec![0x61, 0x62, 0]);
    assert_eq!(
        elevation_service_name_wide(),
        "ShareCtrlScreenHost\0".encode_utf16().collect::<Vec<u16>>()
    );
}
