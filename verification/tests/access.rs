use sha2::Digest;
use sharectrl::codec::Probes;
use sharectrl::config::{
    Config, FileAction, Mode, Permission, SettingsPatch, Stored, MAX_RECENTS,
};
use sharectrl::engine::{Action, Engine, Role, UiEvent};
use sharectrl::handshake::{compute_proof, random_nonce, ApprovalDecision, Decider, DenyAll};
use sharectrl::ids::is_valid_uuid_v4;
use sharectrl::inbox::Inbox;
use sharectrl::signaling::{
    register_message, Backoff, Caps, Event, LinkAction, LinkEvent, SignalData, SignalMsg, Watch,
    PONG_LITERAL,
};

#[test]
fn uuid_validation_matches_contract() {
    assert!(is_valid_uuid_v4("1c9a7b3e-8f21-4d6a-9e0b-2f4c8a1d5e73"));
    assert!(!is_valid_uuid_v4("1C9A7B3E-8F21-4D6A-9E0B-2F4C8A1D5E73"));
    assert!(!is_valid_uuid_v4("1c9a7b3e-8f21-1d6a-9e0b-2f4c8a1d5e73"));
    assert!(!is_valid_uuid_v4("1c9a7b3e-8f21-4d6a-1e0b-2f4c8a1d5e73"));
    assert!(!is_valid_uuid_v4("not-a-uuid"));
}

#[test]
fn proof_verifies_against_config() {
    let mut cfg = Config::default();
    cfg.set_password(Some("hunter2"));
    let nonce = random_nonce();
    let proof = compute_proof("hunter2", &nonce);
    assert!(cfg.verify_proof(&nonce, &proof));
    assert!(!cfg.verify_proof(&nonce, &compute_proof("wrong", &nonce)));
}

#[test]
fn nonce_is_16_bytes_hex() {
    assert_eq!(random_nonce().len(), 32);
    assert!(random_nonce().chars().all(|c| c.is_ascii_hexdigit() && !c.is_ascii_uppercase()));
    assert_ne!(random_nonce(), random_nonce());
}

#[test]
fn challenge_response_roundtrip() {
    let mut cfg = Config::default();
    cfg.set_password(Some("test123"));
    let nonce = "0011223344556677";
    let pw_hash = Config::hash("test123");
    let mut h = sha2::Sha256::new();
    h.update(pw_hash.as_bytes());
    h.update(b":");
    h.update(nonce.as_bytes());
    let proof = hex::encode(h.finalize());

    assert!(cfg.verify_proof(nonce, &proof));
    assert!(!cfg.verify_proof(nonce, &"00".repeat(32)));
    assert!(!cfg.verify_proof("wrong-nonce", &proof));
    // Either case of hexadecimal will do; a length that is not allowed will not.
    assert!(cfg.verify_proof(nonce, &proof.to_uppercase()));
    assert!(!cfg.verify_proof(nonce, ""));
    assert!(!cfg.verify_proof(nonce, &"0".repeat(130)));
    assert!(!cfg.verify_proof(nonce, "zz"));
}

#[test]
fn password_mode_without_hash_is_fail_safe_approve() {
    let mut cfg = Config::default();
    cfg.mode = Mode::Password;
    assert_eq!(cfg.effective_mode(), Mode::Approve);
    cfg.set_password(Some("x"));
    assert_eq!(cfg.effective_mode(), Mode::Password);
}

#[test]
fn recents_dedupe_and_cap() {
    let mut cfg = Config::default();
    for i in 0..15 {
        cfg.add_recent(&format!("id-{i}"));
    }
    cfg.add_recent("id-14");
    assert_eq!(cfg.recent_ids.len(), MAX_RECENTS);
    assert_eq!(cfg.recent_ids[0], "id-14");
}

#[test]
fn recents_are_trimmed_and_bounded() {
    let mut cfg = Config::default();
    cfg.add_recent("  a ");
    cfg.add_recent("   ");
    cfg.add_recent(&"x".repeat(65));
    cfg.add_recent(&"é".repeat(33));
    cfg.add_recent("b");
    cfg.add_recent("a");
    assert_eq!(cfg.recent_ids, vec!["a", "b"]);
    cfg.clear_recents();
    assert!(cfg.recent_ids.is_empty());
}

#[test]
fn password_hash_is_sha256() {
    assert_eq!(
        Config::hash("abc"),
        "ba7816bf8f01cfea414140de5dae2223b00361a396177a9cb410ff61f20015ad"
    );
    let mut cfg = Config::default();
    assert!(!cfg.verify_password("abc"));
    cfg.set_password(Some("abc"));
    assert!(cfg.verify_password("abc"));
    assert!(!cfg.verify_password("abd"));
    cfg.set_password(None);
    assert!(!cfg.verify_password("abc"));
}

#[test]
fn defaults_and_loading() {
    let (c, action) = Config::load(Stored::Missing);
    assert_eq!(action, FileAction::Write);
    assert!(is_valid_uuid_v4(&c.uuid));
    assert_eq!(c.server_url, "wss://sharectrl-signal.netameta.workers.dev/ws");
    assert_eq!(c.ice_servers[0].urls, "stun:stun.l.google.com:19302");
    assert!(c.share_audio && !c.capture_shortcuts);
    assert_eq!(Config::load(Stored::Corrupt).1, FileAction::BackUpAndWrite);
    let mut stored = Config::default();
    stored.uuid = "ABC-Ü".to_string();
    stored.recent_ids = (0..20).map(|i| format!("id-{i}")).collect();
    stored.recent_ids.insert(0, "y".repeat(65));
    let (c, action) = Config::load(Stored::Good { config: stored, has_uuid: true });
    assert_eq!(action, FileAction::Keep);
    assert_eq!(c.uuid, "abc-ü");
    assert_eq!(c.recent_ids.len(), 10);
    assert_eq!(c.recent_ids[0], "id-0");
    assert_ne!(Config::default().uuid, Config::default().uuid);
}

#[test]
fn an_address_is_given_once() {
    // A file that names no identifier gets one, and is written at once.
    let named_by_default = Config::default();
    let unwritten = named_by_default.uuid.clone();
    let (first, action) = Config::load(Stored::Good {
        config: named_by_default,
        has_uuid: false,
    });
    assert_eq!(action, FileAction::Write);
    assert!(is_valid_uuid_v4(&first.uuid));
    assert_ne!(first.uuid, unwritten);
    // Read again, it is the same one.
    let address = first.uuid.clone();
    let (second, action) = Config::load(Stored::Good {
        config: first,
        has_uuid: true,
    });
    assert_eq!(action, FileAction::Keep);
    assert_eq!(second.uuid, address);
    // What else such a file holds is kept.
    let mut stored = Config::default();
    stored.server_url = "wss://example.org/ws".to_string();
    stored.recent_ids = vec!["a".to_string(), "y".repeat(65), "b".to_string()];
    let (c, _) = Config::load(Stored::Good {
        config: stored,
        has_uuid: false,
    });
    assert_eq!(c.server_url, "wss://example.org/ws");
    assert_eq!(c.recent_ids, vec!["a", "b"]);
}

#[test]
fn normalizing_twice_is_once() {
    let mut c = Config::default();
    c.uuid = "ABC-123".to_string();
    c.recent_ids = (0..20).map(|i| format!("id-{i}")).collect();
    c.recent_ids.insert(1, "y".repeat(65));
    c.normalize();
    let (uuid, recent) = (c.uuid.clone(), c.recent_ids.clone());
    assert_eq!(uuid, "abc-123");
    c.normalize();
    assert_eq!(c.uuid, uuid);
    assert_eq!(c.recent_ids, recent);
}

#[test]
fn settings_are_patched() {
    let mut c = Config::default();
    let url = c.server_url.clone();
    c.apply(SettingsPatch {
        mode: Some("password".to_string()),
        password: Some("pw".to_string()),
        password_permission: Some("control".to_string()),
        server_url: None,
        share_audio: Some(false),
        capture_shortcuts: Some(true),
        share_display_id: Some(Some("2".to_string())),
    });
    assert_eq!(c.mode, Mode::Password);
    assert_eq!(c.password_permission, Permission::Control);
    assert!(c.verify_password("pw"));
    assert_eq!(c.server_url, url);
    assert!(!c.share_audio && c.capture_shortcuts);
    assert_eq!(c.share_display_id.as_deref(), Some("2"));
    c.apply(SettingsPatch {
        mode: Some("whatever".to_string()),
        password: Some(String::new()),
        password_permission: Some("no".to_string()),
        server_url: Some("wss://x".to_string()),
        share_audio: None,
        capture_shortcuts: None,
        share_display_id: Some(Some(String::new())),
    });
    assert_eq!(c.mode, Mode::Approve);
    assert_eq!(c.password_hash, None);
    assert_eq!(c.password_permission, Permission::View);
    assert_eq!(c.server_url, "wss://x");
    assert!(!c.share_audio && c.capture_shortcuts);
    assert_eq!(c.share_display_id, None);
}

#[test]
fn decisions_and_permissions_have_names() {
    assert_eq!(ApprovalDecision::parse("control"), ApprovalDecision::Allow(Permission::Control));
    assert_eq!(ApprovalDecision::parse("view"), ApprovalDecision::Allow(Permission::View));
    assert_eq!(ApprovalDecision::parse("yes"), ApprovalDecision::Deny);
    assert_eq!(Permission::parse(Permission::Control.as_str()), Permission::Control);
    assert_eq!(Permission::parse(Permission::View.as_str()), Permission::View);
    assert_eq!(DenyAll.decide("x"), ApprovalDecision::Deny);
}

const ALL: Probes = Probes { av1: true, hevc: true, h264: true };

fn request(from: &str, password: Option<String>, caps: &[&str]) -> Event {
    Event::Message(SignalMsg::ConnectRequest {
        to: None,
        from: Some(from.to_string()),
        password,
        caps: Some(Caps {
            decode: caps.iter().map(|s| s.to_string()).collect(),
        }),
    })
}

fn refusal(a: &Action) -> (String, String) {
    match a {
        Action::Send(SignalMsg::ConnectResponse { to, accepted: false, reason, .. })
        | Action::SendLater(2_000, SignalMsg::ConnectResponse { to, accepted: false, reason, .. }) => {
            (to.clone().unwrap(), reason.clone().unwrap())
        }
        other => panic!("{other:?}"),
    }
}

#[test]
fn approval_lets_a_viewer_in() {
    let mut host = Engine::start(Config::default(), Probes { av1: false, hevc: true, h264: true }, ALL);
    let acts = host.handle_signaling(request("v", None, &["AV1", "HEVC", "H264", "XYZ"]));
    assert!(matches!(&acts[0], Action::Tell(UiEvent::ApprovalRequest { from }) if from == "v"));
    assert!(matches!(&acts[1], Action::Ask { from } if from == "v"));
    let acts = host.on_decision("v".to_string(), ApprovalDecision::Allow(Permission::Control));
    match &acts[0] {
        Action::Send(SignalMsg::ConnectResponse { to, accepted, permission, codec, .. }) => {
            assert_eq!(to.as_deref(), Some("v"));
            assert!(*accepted);
            assert_eq!(permission.as_deref(), Some("control"));
            assert_eq!(codec.as_deref(), Some("HEVC"));
        }
        other => panic!("{other:?}"),
    }
    assert!(matches!(&acts[1], Action::Tell(UiEvent::RoleChanged(Role::Host { peer, .. })) if peer == "v"));
    assert!(matches!(acts[2], Action::Persist));
    assert!(matches!(&acts[3], Action::BeginHost { peer, permission: Permission::Control } if peer == "v"));
    assert_eq!(host.role().name(), "host");
    assert_eq!(host.config().recent_ids, vec!["v"]);
    assert_eq!(host.negotiated(), 1);

    // One session at a time.
    let acts = host.handle_signaling(request("w", None, &[]));
    assert_eq!(refusal(&acts[0]), ("w".to_string(), "busy".to_string()));
}

#[test]
fn a_second_viewer_does_not_replace_the_first() {
    let mut host = Engine::start(Config::default(), ALL, ALL);
    // Both are asked about while nobody is watching; the first is let in.
    host.handle_signaling(request("v", None, &["H264"]));
    host.handle_signaling(request("w", None, &["AV1"]));
    host.on_decision("v".to_string(), ApprovalDecision::Allow(Permission::View));
    let codec = host.negotiated();
    let acts = host.on_decision("w".to_string(), ApprovalDecision::Allow(Permission::Control));
    assert_eq!(acts.len(), 1);
    assert_eq!(refusal(&acts[0]), ("w".to_string(), "busy".to_string()));
    assert!(host.role().is_with("v"));
    assert!(!host.role().is_with("w"));
    assert_eq!(host.negotiated(), codec);
    assert_eq!(host.config().recent_ids, vec!["v"]);
}

#[test]
fn an_acceptance_does_not_replace_a_session() {
    let accepted = |from: &str| {
        Event::Message(SignalMsg::ConnectResponse {
            to: None,
            from: Some(from.to_string()),
            accepted: true,
            permission: Some("control".to_string()),
            reason: None,
            codec: Some("H264".to_string()),
        })
    };
    let mut e = Engine::start(Config::default(), ALL, ALL);
    e.on_decision("v".to_string(), ApprovalDecision::Allow(Permission::View));
    let acts = e.handle_signaling(accepted("h"));
    assert!(acts.iter().all(|a| !matches!(a, Action::BeginViewer { .. })));
    assert!(acts.iter().any(
        |a| matches!(a, Action::Send(SignalMsg::EndSession { to, .. }) if to.as_deref() == Some("h"))
    ));
    assert!(e.role().is_with("v"));
    assert_eq!(e.role().name(), "host");

    // A viewer stays with its host, too.
    let mut e = Engine::start(Config::default(), ALL, ALL);
    e.handle_signaling(accepted("g"));
    let acts = e.handle_signaling(accepted("h"));
    assert!(acts.iter().all(|a| !matches!(a, Action::BeginViewer { .. })));
    assert!(e.role().is_with("g"));
    assert!(!e.role().is_idle());
}

#[test]
fn events_wait_while_the_user_is_asked() {
    let mut host = Engine::start(Config::default(), ALL, ALL);
    let mut inbox = Inbox::new();
    assert!(inbox.next(0).is_none());
    inbox.arrive(request("v", None, &["H264"]));
    inbox.arrive(request("w", None, &["H264"]));
    let acts = host.handle_signaling(inbox.next(0).unwrap());
    inbox.handled(&acts, 0);
    assert!(inbox.next(u64::MAX).is_none());
    assert_eq!(inbox.wake_at(), None);
    host.on_decision("v".to_string(), ApprovalDecision::Allow(Permission::View));
    inbox.decided();
    let acts = host.handle_signaling(inbox.next(1).unwrap());
    assert_eq!(refusal(&acts[0]), ("w".to_string(), "busy".to_string()));
    inbox.handled(&acts, 1);
    inbox.arrive(Event::Registered);
    assert!(matches!(inbox.next(1), Some(Event::Registered)));
    assert!(inbox.next(1).is_none());
}

#[test]
fn a_wrong_proof_closes_the_door() {
    let mut cfg = Config::default();
    cfg.mode = Mode::Password;
    cfg.set_password(Some("test123"));
    let mut host = Engine::start(cfg, ALL, ALL);
    let mut inbox = Inbox::new();
    inbox.arrive(request("v", Some("guess".to_string()), &[]));
    inbox.arrive(request("v", Some("another".to_string()), &[]));
    let acts = host.handle_signaling(inbox.next(100).unwrap());
    assert_eq!(refusal(&acts[0]), ("v".to_string(), "bad-password".to_string()));
    inbox.handled(&acts, 100);
    assert_eq!(inbox.wake_at(), Some(2_100));
    // The user's answer about somebody else does not open it.
    inbox.decided();
    assert!(inbox.next(2_099).is_none());
    assert!(inbox.next(2_100).is_some());
    assert_eq!(inbox.wake_at(), None);
}

#[test]
fn refusals_give_their_reason() {
    let mut host = Engine::start(Config::default(), ALL, ALL);
    let acts = host.on_decision("v".to_string(), ApprovalDecision::Deny);
    assert_eq!(refusal(&acts[0]), ("v".to_string(), "denied".to_string()));
    let acts = host.on_decision("v".to_string(), ApprovalDecision::TimedOut);
    assert_eq!(refusal(&acts[0]), ("v".to_string(), "timeout".to_string()));
    assert_eq!(host.role().name(), "idle");
}

#[test]
fn password_exchange() {
    let mut cfg = Config::default();
    cfg.mode = Mode::Password;
    cfg.set_password(Some("test123"));
    cfg.password_permission = Permission::View;
    let mut host = Engine::start(cfg, ALL, ALL);
    let mut viewer = Engine::start(Config::default(), ALL, Probes { av1: false, hevc: false, h264: false });

    let acts = viewer.connect_to("h".to_string());
    match &acts[0] {
        Action::Send(SignalMsg::ConnectRequest { to, password, caps, .. }) => {
            assert_eq!(to.as_deref(), Some("h"));
            assert!(password.is_none());
            assert_eq!(caps.as_ref().unwrap().decode, vec!["H264"]);
        }
        other => panic!("{other:?}"),
    }
    assert!(matches!(acts[1], Action::Persist));
    assert!(matches!(acts[2], Action::Await(30_000, 0)));

    let ask = |host: &mut Engine| -> String {
        match host.handle_signaling(request("v", None, &["H264"])).remove(0) {
            Action::Send(SignalMsg::PasswordRequired { nonce, .. }) => nonce,
            other => panic!("{other:?}"),
        }
    };
    let answer = |viewer: &mut Engine, nonce: String, pw: &str| -> String {
        let acts = viewer.handle_signaling(Event::Message(SignalMsg::PasswordRequired {
            to: None,
            from: Some("h".to_string()),
            nonce,
        }));
        assert!(matches!(&acts[0], Action::Tell(UiEvent::PasswordRequired { from }) if from == "h"));
        match viewer.submit_password("h".to_string(), pw.to_string()).remove(0) {
            Action::Send(SignalMsg::ConnectRequest { password, caps: None, .. }) => password.unwrap(),
            other => panic!("{other:?}"),
        }
    };

    let nonce = ask(&mut host);
    let wrong = answer(&mut viewer, nonce, "guess");
    let acts = host.handle_signaling(request("v", Some(wrong), &[]));
    assert_eq!(refusal(&acts[0]), ("v".to_string(), "bad-password".to_string()));

    let nonce = ask(&mut host);
    let right = answer(&mut viewer, nonce, "test123");
    let acts = host.handle_signaling(request("v", Some(right), &[]));
    assert!(matches!(&acts[3], Action::BeginHost { permission: Permission::View, .. }));

    let acts = viewer.handle_signaling(Event::Message(SignalMsg::ConnectResponse {
        to: None,
        from: Some("h".to_string()),
        accepted: true,
        permission: Some("view".to_string()),
        reason: None,
        codec: Some("H264".to_string()),
    }));
    assert!(matches!(&acts[1], Action::BeginViewer { peer, permission: Permission::View } if peer == "h"));
    assert_eq!(viewer.role().name(), "viewer");
}

#[test]
fn answers_and_ends() {
    let mut e = Engine::start(Config::default(), ALL, ALL);
    let acts = e.handle_signaling(Event::Message(SignalMsg::ConnectResponse {
        to: None,
        from: Some("h".to_string()),
        accepted: false,
        permission: None,
        reason: None,
        codec: None,
    }));
    assert!(matches!(&acts[0], Action::Tell(UiEvent::Toast(t)) if t == "connection denied"));
    e.handle_signaling(Event::Message(SignalMsg::ConnectResponse {
        to: None,
        from: Some("h".to_string()),
        accepted: true,
        permission: Some("control".to_string()),
        reason: None,
        codec: None,
    }));
    assert_eq!(e.negotiated(), 0);
    let end = |from: &str| Event::Message(SignalMsg::EndSession { to: None, from: Some(from.to_string()) });
    assert!(e.handle_signaling(end("stranger")).is_empty());
    assert_eq!(e.role().name(), "viewer");
    let acts = e.handle_signaling(end("h"));
    assert!(matches!(acts[0], Action::Teardown));
    assert_eq!(e.role().name(), "idle");
    let acts = e.handle_signaling(Event::Message(SignalMsg::RelayError {
        reason: "peer-offline".to_string(),
        to: None,
    }));
    assert!(matches!(&acts[0], Action::Tell(UiEvent::Toast(t)) if t == "Peer offline"));
    assert_eq!(acts.len(), 3);
    let acts = e.end_session();
    assert_eq!(acts.len(), 2);
    assert!(e.transport_dead("gone").is_empty());
    let acts = e.handle_signaling(Event::Message(SignalMsg::Signal {
        to: None,
        from: Some("h".to_string()),
        data: SignalData::Offer { sdp: "s".to_string() },
    }));
    assert!(matches!(&acts[0], Action::Negotiate { from, .. } if from == "h"));
}

#[test]
fn hosts_that_do_not_answer_are_reported() {
    let mut e = Engine::start(Config::default(), ALL, ALL);
    e.connect_to("h".to_string());
    let acts = e.connect_to("i".to_string());
    assert!(matches!(acts[2], Action::Await(30_000, 1)));
    assert!(e.answer_overdue(0).is_empty());
    let acts = e.answer_overdue(1);
    assert!(matches!(&acts[0], Action::Tell(UiEvent::Toast(t)) if t == "no answer / timed out"));
    assert!(e.answer_overdue(1).is_empty());

    // An answer in time settles it, but only one from the host that was asked.
    e.connect_to("h".to_string());
    let denied = |from: &str| {
        Event::Message(SignalMsg::ConnectResponse {
            to: None,
            from: Some(from.to_string()),
            accepted: false,
            permission: None,
            reason: Some("denied".to_string()),
            codec: None,
        })
    };
    e.handle_signaling(denied("h"));
    assert!(e.answer_overdue(2).is_empty());
    e.connect_to("h".to_string());
    e.handle_signaling(denied("i"));
    assert_eq!(e.answer_overdue(3).len(), 1);
}

#[test]
fn another_server_is_gone_to_at_once() {
    let mut e = Engine::start(Config::default(), ALL, ALL);
    let patch = |url: Option<&str>| SettingsPatch {
        mode: None,
        password: None,
        password_permission: None,
        server_url: url.map(String::from),
        share_audio: None,
        capture_shortcuts: None,
        share_display_id: None,
    };
    let acts = e.save_settings(patch(Some("wss://example.org/ws")));
    assert!(matches!(acts[0], Action::Persist));
    assert!(matches!(&acts[1], Action::Reconnect(u) if u == "wss://example.org/ws"));
    assert_eq!(e.config().server_url, "wss://example.org/ws");
    assert_eq!(e.save_settings(patch(Some("wss://example.org/ws"))).len(), 1);
    assert_eq!(e.save_settings(patch(None)).len(), 1);
}

#[test]
fn permission_switch_and_death() {
    let mut e = Engine::start(Config::default(), ALL, ALL);
    assert!(e.set_permission(Permission::Control).is_empty());
    e.on_decision("v".to_string(), ApprovalDecision::Allow(Permission::Control));
    let acts = e.set_permission(Permission::View);
    assert!(matches!(acts[0], Action::SetControl(false)));
    assert!(matches!(acts[1], Action::SendPermission(Permission::View)));
    let acts = e.transport_dead("the connection dropped");
    assert!(matches!(acts[0], Action::HideVideo));
    assert!(matches!(&acts[1], Action::Tell(UiEvent::Toast(t)) if t == "Disconnected: the connection dropped"));
    assert!(matches!(acts[2], Action::Tell(UiEvent::RoleChanged(Role::Idle))));
    assert!(matches!(acts[3], Action::Teardown));
    assert_eq!(acts.len(), 4);
    e.on_decision("v".to_string(), ApprovalDecision::Allow(Permission::View));
    let acts = e.end_session();
    assert!(matches!(&acts[0], Action::Send(SignalMsg::EndSession { to, .. }) if to.as_deref() == Some("v")));
    e.clear_recents();
    assert!(e.config().recent_ids.is_empty());
}

#[test]
fn a_viewer_follows_the_permission() {
    let mut e = Engine::start(Config::default(), ALL, ALL);
    assert!(e.permission_changed(Permission::Control).is_empty());
    e.handle_signaling(Event::Message(SignalMsg::ConnectResponse {
        to: None,
        from: Some("h".to_string()),
        accepted: true,
        permission: Some("control".to_string()),
        reason: None,
        codec: Some("H264".to_string()),
    }));
    assert!(e.captures_input());
    let acts = e.permission_changed(Permission::View);
    assert_eq!(acts.len(), 2);
    assert!(matches!(
        &acts[0],
        Action::Tell(UiEvent::RoleChanged(Role::Viewer { peer, permission: Permission::View })) if peer == "h"
    ));
    assert!(matches!(acts[1], Action::CaptureInput(false)));
    assert!(!e.captures_input());
    let acts = e.permission_changed(Permission::Control);
    assert!(matches!(acts[1], Action::CaptureInput(true)));
    assert!(e.captures_input());

    // A host's own permission is not the peer's to change.
    let mut host = Engine::start(Config::default(), ALL, ALL);
    host.on_decision("v".to_string(), ApprovalDecision::Allow(Permission::View));
    assert!(host.permission_changed(Permission::Control).is_empty());
    assert!(matches!(host.role(), Role::Host { permission: Permission::View, .. }));
    assert!(!host.captures_input());
}

#[test]
fn shortcuts_are_captured_only_if_wanted() {
    let accepted = |permission: &str| {
        Event::Message(SignalMsg::ConnectResponse {
            to: None,
            from: Some("h".to_string()),
            accepted: true,
            permission: Some(permission.to_string()),
            reason: None,
            codec: None,
        })
    };
    let mut e = Engine::start(Config::default(), ALL, ALL);
    e.handle_signaling(accepted("control"));
    assert!(!e.captures_shortcuts());
    let mut cfg = Config::default();
    cfg.capture_shortcuts = true;
    let mut e = Engine::start(cfg, ALL, ALL);
    assert!(!e.captures_shortcuts());
    e.handle_signaling(accepted("control"));
    assert!(e.captures_shortcuts());
    e.permission_changed(Permission::View);
    assert!(!e.captures_shortcuts());
}

#[test]
fn server_status_is_followed() {
    let mut e = Engine::start(Config::default(), ALL, ALL);
    assert!(!e.server_connected());
    let acts = e.handle_signaling(Event::Registered);
    assert!(matches!(acts[0], Action::Tell(UiEvent::ServerStatus("connected"))));
    assert!(e.server_connected());
    let acts = e.handle_signaling(Event::RegisterError("duplicate".to_string()));
    assert!(matches!(&acts[0], Action::Tell(UiEvent::Toast(t)) if t == "server rejected: duplicate"));
    let acts = e.handle_signaling(Event::Disconnected);
    assert!(matches!(acts[0], Action::Tell(UiEvent::ServerStatus("reconnecting"))));
    assert!(!e.server_connected());
    let acts = e.save_settings(SettingsPatch {
        mode: None,
        password: Some("x".to_string()),
        password_permission: None,
        server_url: None,
        share_audio: None,
        capture_shortcuts: None,
        share_display_id: None,
    });
    assert!(matches!(acts[0], Action::Persist));
    assert!(e.config().verify_password("x"));
}

#[test]
fn reconnecting_slows_down() {
    let mut b = Backoff::new();
    let waits: Vec<u64> = (0..8).map(|_| b.next_delay(false)).collect();
    assert_eq!(waits, vec![1, 2, 4, 8, 16, 30, 30, 30]);
    assert_eq!(Backoff::new().next_delay(true), 30);
}

#[test]
fn two_missed_pongs_end_the_connection() {
    let mut w = Watch::new(0, false);
    assert_eq!(w.wake_at(), 25_000);
    assert!(matches!(w.on_event(LinkEvent::Timer, 24_999), LinkAction::Nothing));
    assert!(matches!(w.on_event(LinkEvent::Timer, 25_000), LinkAction::SendPing));
    assert_eq!(w.wake_at(), 35_000);
    assert!(matches!(w.on_event(LinkEvent::Timer, 35_000), LinkAction::Nothing));
    assert!(matches!(w.on_event(LinkEvent::Timer, 50_000), LinkAction::SendPing));
    // An answer clears the slate.
    let pong = LinkEvent::Text(PONG_LITERAL.to_string(), Some(SignalMsg::Pong));
    assert!(matches!(w.on_event(pong, 51_000), LinkAction::Nothing));
    for t in [75_000u64, 85_000, 100_000] {
        assert!(!matches!(w.on_event(LinkEvent::Timer, t), LinkAction::Close));
    }
    assert!(matches!(w.on_event(LinkEvent::Timer, 110_000), LinkAction::Close));
}

#[test]
fn frames_from_the_server_are_reported() {
    let mut w = Watch::new(0, false);
    let text = |m: Option<SignalMsg>| LinkEvent::Text("{}".to_string(), m);
    let a = w.on_event(text(Some(SignalMsg::RegisterError { reason: "duplicate".to_string() })), 1);
    assert!(matches!(a, LinkAction::Report(Event::RegisterError(r)) if r == "duplicate"));
    assert!(w.duplicate);
    let a = w.on_event(text(Some(SignalMsg::Registered { uuid: "u".to_string() })), 1);
    assert!(matches!(a, LinkAction::Report(Event::Registered)));
    assert!(!w.duplicate);
    assert!(matches!(w.on_event(text(None), 1), LinkAction::Nothing));
    assert!(matches!(w.on_event(text(Some(SignalMsg::Pong)), 1), LinkAction::Nothing));
    assert!(matches!(
        w.on_event(text(Some(SignalMsg::Ping)), 1),
        LinkAction::Report(Event::Message(SignalMsg::Ping))
    ));
    assert!(matches!(w.on_event(LinkEvent::Ping(vec![1]), 1), LinkAction::SendPong(p) if p == vec![1]));
    assert!(matches!(w.on_event(LinkEvent::Close, 1), LinkAction::Close));
    assert!(matches!(w.on_event(LinkEvent::Other, 1), LinkAction::Nothing));
    let m = register_message("u".to_string());
    assert!(matches!(&m, SignalMsg::Register { uuid, v: 1 } if uuid == "u"));
    assert!(matches!(w.on_event(LinkEvent::Outbound(m), 1), LinkAction::Send(SignalMsg::Register { .. })));
}
