use lan_remote_core::client::{
    auth_response_outcome, normalize_client_event, normalize_client_options,
    resolve_connect_timeout, StartLanInputClientOptions, WireEvent,
};
use lan_remote_core::input::{
    handle_input_event, inject_key, inject_mouse_button, inject_mouse_move, inject_mouse_wheel,
    map_code_to_vk, ClientMessage, LanInputEvent, SharedServerStats,
};
use lan_remote_core::rate::{should_reset_rate_window, RateWindow};
use lan_remote_core::server::{
    normalize_server_config, normalize_server_config_at, validate_auth, AuthFailure, ServerConfig,
    StartLanInputServerOptions,
};

fn server_options(token: &str) -> StartLanInputServerOptions {
    StartLanInputServerOptions {
        bindHost: None,
        bindPort: None,
        authToken: token.to_string(),
        authExpiresAtMs: None,
        sessionId: None,
        streamId: None,
        sessionActive: Some(true),
        maxEventsPerSecond: None,
        statsIntervalMs: None,
    }
}

fn config(token: &str) -> ServerConfig {
    match normalize_server_config_at(server_options(token), 1_000) {
        Ok((c, _)) => c,
        Err(_) => panic!("valid options must normalize"),
    }
}

#[test]
fn server_config_defaults_and_clamps() {
    let Ok((c, active)) = normalize_server_config_at(server_options("T"), 1_000) else {
        panic!("valid options must normalize")
    };
    assert_eq!(c.bind_host, "0.0.0.0");
    assert_eq!(c.bind_port, 5505);
    assert_eq!(c.max_events_per_second, 700);
    assert_eq!(c.stats_interval_ms, 1000);
    assert!(active);

    let mut o = server_options("T");
    o.maxEventsPerSecond = Some(1);
    o.statsIntervalMs = Some(120_000);
    let Ok((c2, _)) = normalize_server_config_at(o, 1_000) else {
        panic!("valid options must normalize")
    };
    assert_eq!(c2.max_events_per_second, 60);
    assert_eq!(c2.stats_interval_ms, 60_000);
}

#[test]
fn server_config_rejects_bad_input() {
    let mut o = server_options("T");
    o.bindPort = Some(0);
    match normalize_server_config_at(o, 1) {
        Err(e) => assert_eq!(e, "bindPort invalido."),
        Ok(_) => panic!("a zero port must be refused"),
    }

    let o2 = server_options("   ");
    match normalize_server_config_at(o2, 1) {
        Err(e) => assert_eq!(e, "authToken obrigatorio."),
        Ok(_) => panic!("a blank token must be refused"),
    }

    let mut o3 = server_options("T");
    o3.authExpiresAtMs = Some(500);
    match normalize_server_config_at(o3, 1_000) {
        Err(e) => assert_eq!(e, "authToken expirado."),
        Ok(_) => panic!("an expired token must be refused"),
    }
}

#[test]
fn server_config_without_expiry_always_starts() {
    // with no expiry supplied, the clock decides nothing: success is owed
    let Ok((c, _)) = normalize_server_config(server_options("T")) else {
        panic!("valid options without an expiry must normalize at any clock")
    };
    assert_eq!(c.auth_token, "T");

    let mut o = server_options("T");
    o.bindPort = Some(0);
    match normalize_server_config(o) {
        Err(e) => assert_eq!(e, "bindPort invalido."),
        Ok(_) => panic!("a zero port must be refused at any clock"),
    }
}

#[test]
fn trim_strips_all_whitespace_kinds() {
    // the vertical tab, NEL and ideographic space trim like plain spaces
    let mut o = server_options("\u{000b}\u{0085} T \u{3000}\u{2003}");
    o.bindHost = Some("\u{00a0}10.0.0.7\u{200a}".to_string());
    let Ok((c, _)) = normalize_server_config_at(o, 1_000) else {
        panic!("valid options must normalize")
    };
    assert_eq!(c.auth_token, "T");
    assert_eq!(c.bind_host, "10.0.0.7");

    let blank = server_options("\u{2028}\u{202f}\u{205f}");
    match normalize_server_config_at(blank, 1_000) {
        Err(e) => assert_eq!(e, "authToken obrigatorio."),
        Ok(_) => panic!("an all-whitespace token must be refused"),
    }
}

#[test]
fn wrong_token_is_rejected() {
    let c = config("T");
    let r = validate_auth(&c, "wrong", &None, &None, true, 2_000);
    match r {
        Err(f) => assert_eq!(f.reason(), "invalid_token"),
        Ok(_) => panic!("a wrong token must be refused"),
    }
}

#[test]
fn auth_precedence_order() {
    let mut c = config("T");
    c.auth_expires_at_ms = Some(1_500);
    // expired beats a wrong token
    match validate_auth(&c, "wrong", &None, &None, true, 2_000) {
        Err(AuthFailure::TokenExpired) => {},
        _ => panic!("expiry must be reported first"),
    }

    let mut c2 = config("T");
    c2.session_id = Some("sess".to_string());
    c2.stream_id = Some("st".to_string());
    match validate_auth(&c2, "T", &None, &None, true, 2_000) {
        Err(AuthFailure::InvalidSession) => {},
        _ => panic!("a missing session must be reported before the stream"),
    }
    match validate_auth(&c2, "T", &Some("sess".to_string()), &Some("other".to_string()), true, 2_000)
    {
        Err(AuthFailure::InvalidStream) => {},
        _ => panic!("a wrong stream must be reported"),
    }
    match validate_auth(&c2, "T", &Some("sess".to_string()), &Some("st".to_string()), false, 2_000)
    {
        Err(AuthFailure::SessionInactive) => {},
        _ => panic!("an inactive session must be reported last"),
    }
    assert!(validate_auth(&c2, "T", &Some("sess".to_string()), &Some("st".to_string()), true, 2_000)
        .is_ok());
}

#[test]
fn rate_window_admits_at_most_limit() {
    let mut w = RateWindow::new(0);
    let mut admitted = 0u32;
    let mut dropped = 0u32;
    for i in 0..150u64 {
        // 150 events inside half a second
        if w.admit_event(i * 3, 100) {
            admitted += 1;
        } else {
            dropped += 1;
        }
    }
    assert_eq!(admitted, 100);
    assert_eq!(dropped, 50);
}

#[test]
fn rate_window_resets_after_one_second() {
    let mut w = RateWindow::new(0);
    for _ in 0..5 {
        assert!(w.admit_event(10, 5));
    }
    assert!(!w.admit_event(20, 5));
    assert!(w.admit_event(1_000, 5));
    assert_eq!(w.events, 1);

    assert!(!should_reset_rate_window(0, 999));
    assert!(should_reset_rate_window(0, 1000));
}

#[test]
fn inactive_session_drops_without_injecting() {
    let mut stats = SharedServerStats::new();
    let event = ClientMessage::MouseMove { seq: 1, tsUs: 2, dx: 5, dy: 5 };
    handle_input_event(event, false, &mut stats);
    assert_eq!(stats.events_received, 1);
    assert_eq!(stats.events_dropped_inactive, 1);
    assert_eq!(stats.events_injected, 0);
    assert_eq!(stats.inject_errors, 0);
    assert_eq!(stats.mouse_moves, 0);
}

#[test]
fn active_session_counts_kind_and_outcome() {
    let mut stats = SharedServerStats::new();
    handle_input_event(ClientMessage::MouseMove { seq: 1, tsUs: 2, dx: 900, dy: -900 }, true, &mut stats);
    handle_input_event(
        ClientMessage::MouseButton { seq: 2, tsUs: 3, button: 0, down: true },
        true,
        &mut stats,
    );
    handle_input_event(
        ClientMessage::MouseWheel { seq: 3, tsUs: 4, deltaX: 0, deltaY: 2000 },
        true,
        &mut stats,
    );
    handle_input_event(
        ClientMessage::Key {
            seq: 4,
            tsUs: 5,
            code: "KeyA".to_string(),
            down: true,
            ctrl: None,
            alt: None,
            shift: None,
            meta: None,
        },
        true,
        &mut stats,
    );
    handle_input_event(ClientMessage::DisconnectHotkey { seq: 5, tsUs: 6 }, true, &mut stats);
    assert_eq!(stats.events_received, 5);
    assert_eq!(stats.mouse_moves, 1);
    assert_eq!(stats.mouse_buttons, 1);
    assert_eq!(stats.mouse_wheels, 1);
    assert_eq!(stats.key_events, 1);
    assert_eq!(stats.disconnect_hotkeys, 1);
    // no synthetic-input backend on this host: four attempts fail, the hotkey succeeds
    assert_eq!(stats.inject_errors, 4);
    assert_eq!(stats.events_injected, 1);
}

#[test]
fn injectors_report_missing_backend() {
    let msg = "SendInput disponivel apenas no Windows.";
    assert_eq!(inject_mouse_move(1, 1).unwrap_err(), msg);
    assert_eq!(inject_mouse_button(0, true).unwrap_err(), msg);
    assert_eq!(inject_mouse_wheel(0, 1).unwrap_err(), msg);
    assert_eq!(inject_key("KeyA", true).unwrap_err(), msg);
}

#[test]
fn key_code_table() {
    assert_eq!(map_code_to_vk("KeyA"), Some(65));
    assert_eq!(map_code_to_vk("KeyZ"), Some(90));
    assert_eq!(map_code_to_vk("Keya"), None);
    assert_eq!(map_code_to_vk("Digit0"), Some(48));
    assert_eq!(map_code_to_vk("Digit9"), Some(57));
    assert_eq!(map_code_to_vk("Escape"), Some(27));
    assert_eq!(map_code_to_vk("Enter"), Some(13));
    assert_eq!(map_code_to_vk("Backspace"), Some(8));
    assert_eq!(map_code_to_vk("Tab"), Some(9));
    assert_eq!(map_code_to_vk(" Space "), Some(32));
    assert_eq!(map_code_to_vk("ArrowUp"), Some(38));
    assert_eq!(map_code_to_vk("ArrowDown"), Some(40));
    assert_eq!(map_code_to_vk("ArrowLeft"), Some(37));
    assert_eq!(map_code_to_vk("ArrowRight"), Some(39));
    assert_eq!(map_code_to_vk("Home"), Some(36));
    assert_eq!(map_code_to_vk("End"), Some(35));
    assert_eq!(map_code_to_vk("PageUp"), Some(33));
    assert_eq!(map_code_to_vk("PageDown"), Some(34));
    assert_eq!(map_code_to_vk("Insert"), Some(45));
    assert_eq!(map_code_to_vk("Delete"), Some(46));
    assert_eq!(map_code_to_vk("ShiftLeft"), Some(16));
    assert_eq!(map_code_to_vk("ShiftRight"), Some(16));
    assert_eq!(map_code_to_vk("ControlLeft"), Some(17));
    assert_eq!(map_code_to_vk("ControlRight"), Some(17));
    assert_eq!(map_code_to_vk("AltLeft"), Some(18));
    assert_eq!(map_code_to_vk("AltRight"), Some(18));
    assert_eq!(map_code_to_vk("F1"), Some(112));
    assert_eq!(map_code_to_vk("F12"), Some(123));
    assert_eq!(map_code_to_vk("MediaPlayPause"), None);
    assert_eq!(map_code_to_vk(""), None);
}

#[test]
fn client_options_are_validated() {
    let o = StartLanInputClientOptions {
        host: "  peer.local ".to_string(),
        port: 5505,
        authToken: " tok ".to_string(),
        sessionId: Some("  ".to_string()),
        streamId: Some(" st ".to_string()),
        connectTimeoutMs: Some(50),
    };
    let Ok(n) = normalize_client_options(o) else { panic!("valid options must normalize") };
    assert_eq!(n.host, "peer.local");
    assert_eq!(n.authToken, "tok");
    assert!(n.sessionId.is_none());
    assert_eq!(n.streamId.as_deref(), Some("st"));

    let bad_host = StartLanInputClientOptions {
        host: "  ".to_string(),
        port: 1,
        authToken: "t".to_string(),
        sessionId: None,
        streamId: None,
        connectTimeoutMs: None,
    };
    match normalize_client_options(bad_host) {
        Err(e) => assert_eq!(e, "host obrigatorio no input client."),
        Ok(_) => panic!("a blank host must be refused"),
    }

    let bad_port = StartLanInputClientOptions {
        host: "h".to_string(),
        port: 0,
        authToken: "t".to_string(),
        sessionId: None,
        streamId: None,
        connectTimeoutMs: None,
    };
    match normalize_client_options(bad_port) {
        Err(e) => assert_eq!(e, "port invalida no input client."),
        Ok(_) => panic!("a zero port must be refused"),
    }

    let bad_token = StartLanInputClientOptions {
        host: "h".to_string(),
        port: 1,
        authToken: " ".to_string(),
        sessionId: None,
        streamId: None,
        connectTimeoutMs: None,
    };
    match normalize_client_options(bad_token) {
        Err(e) => assert_eq!(e, "authToken obrigatorio no input client."),
        Ok(_) => panic!("a blank token must be refused"),
    }
}

#[test]
fn connect_timeout_is_clamped() {
    assert_eq!(resolve_connect_timeout(None), 3000);
    assert_eq!(resolve_connect_timeout(Some(50)), 500);
    assert_eq!(resolve_connect_timeout(Some(99_999)), 10_000);
    assert_eq!(resolve_connect_timeout(Some(4_000)), 4_000);
}

#[test]
fn wire_events_are_clamped_and_defaulted() {
    match normalize_client_event(LanInputEvent::MouseMove { seq: 1, tsUs: 2, dx: 5000, dy: -5000 })
    {
        WireEvent::MouseMove { dx, dy, .. } => {
            assert_eq!(dx, 1000);
            assert_eq!(dy, -1000);
        },
        _ => panic!("kind must be kept"),
    }
    match normalize_client_event(LanInputEvent::MouseWheel {
        seq: 1,
        tsUs: 2,
        deltaX: -2000,
        deltaY: 100,
    }) {
        WireEvent::MouseWheel { deltaX, deltaY, .. } => {
            assert_eq!(deltaX, -960);
            assert_eq!(deltaY, 100);
        },
        _ => panic!("kind must be kept"),
    }
    match normalize_client_event(LanInputEvent::Key {
        seq: 1,
        tsUs: 2,
        code: "KeyQ".to_string(),
        down: true,
        ctrl: Some(true),
        alt: None,
        shift: None,
        meta: None,
    }) {
        WireEvent::Key { code, ctrl, alt, shift, meta, .. } => {
            assert_eq!(code, "KeyQ");
            assert!(ctrl);
            assert!(!alt);
            assert!(!shift);
            assert!(!meta);
        },
        _ => panic!("kind must be kept"),
    }
}

#[test]
fn auth_reply_verdict() {
    assert!(auth_response_outcome(&Some("auth_ok".to_string()), &None).is_ok());
    assert_eq!(
        auth_response_outcome(&Some("auth_error".to_string()), &Some("invalid_token".to_string()))
            .unwrap_err(),
        "input auth recusado: invalid_token"
    );
    assert_eq!(
        auth_response_outcome(&None, &None).unwrap_err(),
        "input auth recusado: unknown"
    );
}
