use xm2w::web::{find_bytes, is_api_path, mime, route, static_file, status_code, ApiRoute};
use xm2w::xm2w::driftguard::{deadzone, handle_report, is_active, le_i16, prev_buttons, set_active, start_decision, GuardStart, GuardState, PointerEvent, K_CG_LEFT_DOWN, K_CG_LEFT_UP};

#[test]
fn content_types() {
    assert_eq!(mime("index.html"), "text/html; charset=utf-8");
    assert_eq!(mime("app.css"), "text/css; charset=utf-8");
    assert_eq!(mime("ui/main.js"), "text/javascript; charset=utf-8");
    assert_eq!(mime("a.png"), "image/png");
    assert_eq!(mime("a.jpeg"), "image/jpeg");
    assert_eq!(mime("a.jpg"), "image/jpeg");
    assert_eq!(mime("f.woff2"), "font/woff2");
    assert_eq!(mime("logo.svg"), "image/svg+xml");
    assert_eq!(mime("data.bin"), "application/octet-stream");
    assert_eq!(mime("html"), "application/octet-stream");
}

#[test]
fn api_routes() {
    assert_eq!(route("GET", "/api/info"), ApiRoute::Info);
    assert_eq!(route("POST", "/api/info"), ApiRoute::Unknown);
    assert_eq!(route("POST", "/api/apply"), ApiRoute::Apply);
    assert_eq!(route("POST", "/api/emu/press"), ApiRoute::EmuPress);
    assert_eq!(route("POST", "/api/emu"), ApiRoute::Emu);
    assert_eq!(route("GET", "/api/permissions"), ApiRoute::Permissions);
    assert_eq!(route("POST", "/api/permissions/request"), ApiRoute::RequestPermissions);
    assert_eq!(route("GET", "/api/raw"), ApiRoute::Raw);
    assert_eq!(route("POST", "/api/reset"), ApiRoute::Reset);
    assert_eq!(route("POST", "/api/log"), ApiRoute::Log);
    assert_eq!(route("GET", "/api/rawx"), ApiRoute::Unknown);
}

#[test]
fn error_status() {
    assert_eq!(status_code("{\"error\":\"x\"}"), 500);
    assert_eq!(status_code("{\"ok\":true}"), 200);
    assert_eq!(status_code(""), 200);
    assert!(find_bytes(b"{\"emu\":true}", b"true"));
    assert!(!find_bytes(b"tru", b"true"));
}

#[test]
fn phantom_report_is_silent() {
    let mut g = GuardState::new();
    let ev = handle_report(&mut g, &[0x01, 0x00, 0xff, 0xff, 0xff, 0xff, 0x00, 0x00]);
    assert!(ev.is_empty());
    assert_eq!(prev_buttons(&g), 0);
}

#[test]
fn movement_and_clicks_are_reinjected() {
    let mut g = GuardState::new();
    let ev = handle_report(&mut g, &[0x01, 0x01, 0x05, 0x00, 0xfd, 0xff]);
    assert_eq!(
        ev,
        vec![PointerEvent::Move { dx: 5, dy: -3 }, PointerEvent::Button { kind: K_CG_LEFT_DOWN, button: 0 }]
    );
    assert_eq!(prev_buttons(&g), 1);
    let ev2 = handle_report(&mut g, &[0x01, 0x00, 0x00, 0x00, 0x00, 0x00]);
    assert_eq!(ev2, vec![PointerEvent::Button { kind: K_CG_LEFT_UP, button: 0 }]);
    // other report ids and short reports are ignored
    assert!(handle_report(&mut g, &[0x02, 0x01, 0x50, 0, 0, 0]).is_empty());
    assert!(handle_report(&mut g, &[0x01, 0x01]).is_empty());
    assert_eq!(prev_buttons(&g), 0);
}

#[test]
fn signed_deltas() {
    assert_eq!(le_i16(0xff, 0xff), -1);
    assert_eq!(le_i16(0x01, 0x80), -32767);
    assert_eq!(le_i16(0xff, 0x7f), 32767);
    assert_eq!(le_i16(0x34, 0x12), 0x1234);
}

#[test]
fn static_files() {
    assert_eq!(static_file("/"), "index.html");
    assert_eq!(static_file("/app.js?v=3"), "app.js");
    assert_eq!(static_file("//img/a.png"), "img/a.png");
    assert_eq!(static_file("/a?b?c"), "a");
    assert_eq!(static_file("/../secret"), "../secret");
    assert_eq!(static_file(""), "");
    assert_eq!(static_file("/?x"), "");
}

#[test]
fn api_prefix() {
    assert!(is_api_path("/api/info"));
    assert!(is_api_path("/api/"));
    assert!(!is_api_path("/api"));
    assert!(!is_api_path("/index.html"));
    assert!(!is_api_path(""));
}

#[test]
fn guard_start_decisions() {
    assert_eq!(start_decision(true, true, false, false), GuardStart::AlreadyActive);
    assert_eq!(start_decision(false, true, true, true), GuardStart::EmulatorMode);
    assert_eq!(start_decision(false, false, false, true), GuardStart::NotMacOs);
    assert_eq!(start_decision(false, false, true, false), GuardStart::NeedsAccessibility);
    assert_eq!(start_decision(false, false, true, true), GuardStart::Spawn);
}

#[test]
fn guard_state_accessors() {
    let mut g = GuardState::new();
    assert!(!is_active(&g));
    set_active(&mut g, true);
    assert!(is_active(&g));
    assert_eq!(deadzone(&g), 1);
}
