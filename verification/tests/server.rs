use portway::address::IpAddress;
use portway::auth::{AuthError, Authenticator};
use portway::config::{AuthMode, BackendKind, Config};
use portway::input::{BackendStatus, InputBackend, RecordedEvent, RecordingBackend};
use portway::local_pairing::{request_pairing_code, LocalPairingServer};
use portway::protocol::{
    ClientEnvelope, ClientEvent, KeyState, MouseButton, ServerMessage, PROTOCOL_VERSION,
};
use portway::server::attempts::AUTH_ATTEMPT_LIMIT;
use portway::server::controller::{ready, Controller, Step};
use portway::server::request::{origin_allowed, RequestHead};
use portway::server::{
    health, not_found, security_headers, static_asset, AppState, Asset, PairStep, ReplyBody,
};
use std::path::PathBuf;

const SECOND: u128 = 1_000_000_000;

fn test_config() -> Config {
    Config {
        config_path: PathBuf::from("test.toml"),
        listen: IpAddress::from_octets(127, 0, 0, 1),
        port: 2721,
        auth_mode: AuthMode::Token,
        token_file: PathBuf::from("token"),
        tls_cert: None,
        tls_key: None,
        pairing_code_ttl_seconds: 300,
        session_ttl_seconds: 43_200,
        pairing_socket: PathBuf::from("pair.sock"),
        pairing_allowed_uids: Vec::new(),
        backend: BackendKind::Mock,
        max_clients: 1,
        pointer_sensitivity_bits: 1.0_f64.to_bits(),
        log_level: "info".into(),
        allowed_origins: Vec::new(),
        mouse_name: "test mouse".into(),
        keyboard_name: "test keyboard".into(),
    }
}

fn head(origin: &str, cookie: Option<&str>) -> RequestHead {
    RequestHead {
        origin: Some(origin.as_bytes().to_vec()),
        host: Some(b"127.0.0.1:2721".to_vec()),
        cookie: cookie.map(|cookie| cookie.as_bytes().to_vec()),
        authority: None,
    }
}

fn own_head(cookie: Option<&str>) -> RequestHead {
    head("http://127.0.0.1:2721", cookie)
}

fn local() -> IpAddress {
    IpAddress::from_octets(127, 0, 0, 1)
}

#[test]
fn origin_requires_matching_host_or_allowlist() {
    let mut request = RequestHead {
        origin: Some(b"http://192.0.2.10:2721".to_vec()),
        host: Some(b"192.0.2.10:2721".to_vec()),
        cookie: None,
        authority: None,
    };
    assert!(origin_allowed(&request, &vec![], false));
    assert!(!origin_allowed(&request, &vec![], true));
    request.origin = Some(b"https://evil.example".to_vec());
    assert!(!origin_allowed(&request, &vec![], false));
    assert!(origin_allowed(
        &request,
        &vec!["https://evil.example".into()],
        false
    ));

    request.host = None;
    request.origin = Some(b"https://192.0.2.10:2721".to_vec());
    request.authority = Some("192.0.2.10:2721".to_owned());
    assert!(origin_allowed(&request, &vec![], true));
}

#[test]
fn pairing_code_sets_hardened_cookie_and_cannot_be_replayed() {
    let mut auth = Authenticator::from_token(b"integration-token".to_vec());
    let code = auth.issue_pairing_code().unwrap().unwrap();
    let mut state = AppState::new(&test_config(), auth);

    let response = state.pair(local(), &own_head(None), &code);
    assert_eq!(response.status, 200);
    assert_eq!(
        response.body,
        ReplyBody::Paired {
            authenticated: true,
            expires_in_seconds: 43_200
        }
    );
    let cookie = response.set_cookie.unwrap();
    assert!(cookie.starts_with("portway_session="));
    assert!(cookie.contains("HttpOnly"));
    assert!(cookie.contains("SameSite=Strict"));
    assert!(!cookie.contains("integration-token"));

    let replay = state.pair(local(), &own_head(None), &code);
    assert_eq!(replay.status, 401);
}

#[test]
fn pairing_attempts_are_rate_limited_per_address() {
    let mut state = AppState::new(
        &test_config(),
        Authenticator::from_token(b"integration-token".to_vec()),
    );
    let remote = IpAddress::from_octets(192, 0, 2, 10);

    for _ in 0..AUTH_ATTEMPT_LIMIT {
        assert!(state.allow_auth_attempt(remote));
    }
    assert!(!state.allow_auth_attempt(remote));
    state.clear_auth_attempts(remote);
    assert!(state.allow_auth_attempt(remote));
}

#[test]
fn websocket_authenticates_records_and_cleans_up() {
    let mut auth = Authenticator::from_token(b"integration-token".to_vec());
    let session = auth.exchange("integration-token").unwrap().unwrap();
    let mut state = AppState::new(&test_config(), auth);
    let mut backend = RecordingBackend::new();

    let request = own_head(Some(&format!("portway_session={session}")));
    assert!(state.websocket(&request).is_none());
    assert!(matches!(
        ready(backend.status(), state.pointer_sensitivity_bits()),
        ServerMessage::Ready { .. }
    ));
    let mut controller = Controller::new(state.pointer_sensitivity_bits(), 0);
    assert!(matches!(controller.text_arrived(1), Step::Continue));
    let down = ClientEnvelope {
        v: PROTOCOL_VERSION,
        seq: 1,
        event: ClientEvent::PointerButton {
            button: MouseButton::Left,
            state: KeyState::Down,
        },
    };
    assert!(matches!(
        controller.message(Some(down), &mut backend),
        Step::Continue
    ));
    controller.finish(&mut backend).unwrap();
    state.release_controller();

    assert_eq!(
        backend.handle().events(),
        vec![
            RecordedEvent::ButtonDown {
                button: MouseButton::Left
            },
            RecordedEvent::ButtonUp {
                button: MouseButton::Left
            },
        ]
    );
}

#[test]
fn attempts_come_back_after_a_minute() {
    let mut state = AppState::new(&test_config(), Authenticator::from_token(b"t".to_vec()));
    let remote = IpAddress::V6(1);
    for _ in 0..AUTH_ATTEMPT_LIMIT {
        assert!(state.allow_auth_attempt_at(remote, 7));
    }
    assert!(!state.allow_auth_attempt_at(remote, 7 + 60 * SECOND - 1));
    assert!(state.allow_auth_attempt_at(IpAddress::V6(2), 8));
    assert!(state.allow_auth_attempt_at(remote, 7 + 60 * SECOND));
}

#[test]
fn attempts_of_new_addresses_are_refused_when_the_table_is_full() {
    let mut state = AppState::new(&test_config(), Authenticator::from_token(b"t".to_vec()));
    for address in 0..1_024_u32 {
        assert!(state.allow_auth_attempt_at(IpAddress::V4(address), 0));
    }
    assert!(!state.allow_auth_attempt_at(IpAddress::V4(5_000), 1));
    assert!(state.allow_auth_attempt_at(IpAddress::V4(5), 1));
    assert!(state.allow_auth_attempt_at(IpAddress::V4(5_000), 60 * SECOND));
}

#[test]
fn pairing_requests_are_judged_in_order() {
    let mut state = AppState::new(&test_config(), Authenticator::from_token(b"setup-token".to_vec()));
    let remote = local();
    match state.pair_at(remote, &head("https://evil.example", None), "setup-token", 0) {
        PairStep::Reply(reply) => {
            assert_eq!(reply.status, 403);
            assert_eq!(reply.body.text(), Some("origin rejected"));
        }
        PairStep::Exchange(_) => unreachable!(),
    }
    // The credential is trimmed, and its length is counted in bytes.
    assert!(matches!(
        state.pair_at(remote, &own_head(None), " setup-token\n", 0),
        PairStep::Exchange(credential) if credential == "setup-token"
    ));
    for code in ["", "12345", "       12345      "] {
        match state.pair_at(remote, &own_head(None), code, 0) {
            PairStep::Reply(reply) => {
                assert_eq!(reply.status, 401);
                assert_eq!(reply.body.text(), Some("pairing failed"));
            }
            PairStep::Exchange(_) => unreachable!(),
        }
    }
    assert!(matches!(
        state.pair_at(remote, &own_head(None), "ééé", 0),
        PairStep::Exchange(_)
    ));
    assert!(matches!(
        state.pair_at(remote, &own_head(None), &"x".repeat(128), 0),
        PairStep::Exchange(_)
    ));
    assert!(matches!(
        state.pair_at(remote, &own_head(None), &"x".repeat(129), 0),
        PairStep::Reply(reply) if reply.status == 401
    ));
    // Seven attempts were counted, so one is left.
    assert!(matches!(
        state.pair_at(remote, &own_head(None), "setup-token", 0),
        PairStep::Exchange(_)
    ));
    match state.pair_at(remote, &own_head(None), "setup-token", 0) {
        PairStep::Reply(reply) => {
            assert_eq!(reply.status, 429);
            assert_eq!(reply.retry_after, Some(60));
            assert_eq!(reply.body.text(), Some("too many pairing attempts"));
        }
        PairStep::Exchange(_) => unreachable!(),
    }
}

#[test]
fn exchanges_are_answered_by_their_outcome() {
    let mut state = AppState::new(&test_config(), Authenticator::from_token(b"t".to_vec()));
    let remote = local();
    for _ in 0..AUTH_ATTEMPT_LIMIT {
        assert!(state.allow_auth_attempt_at(remote, 0));
    }
    assert_eq!(state.pair_reply(remote, Ok(None)).status, 401);
    let failed = state.pair_reply(remote, Err(AuthError::Random));
    assert_eq!(failed.status, 500);
    assert_eq!(failed.body, ReplyBody::Empty);
    assert!(!state.allow_auth_attempt_at(remote, 0));
    let paired = state.pair_reply(remote, Ok(Some("abc".to_owned())));
    assert_eq!(
        paired.set_cookie.unwrap(),
        "portway_session=abc; Path=/; HttpOnly; SameSite=Strict; Max-Age=43200"
    );
    assert!(state.allow_auth_attempt_at(remote, 0));
}

#[test]
fn without_authentication_no_code_is_needed() {
    let mut state = AppState::new(&test_config(), Authenticator::disabled());
    let reply = state.pair(local(), &own_head(None), "");
    assert_eq!(reply.status, 200);
    assert_eq!(
        reply.body,
        ReplyBody::Paired {
            authenticated: true,
            expires_in_seconds: 0
        }
    );
    assert!(reply.set_cookie.is_none());
    assert!(state.websocket(&own_head(None)).is_none());
    assert_eq!(
        state.session_status(&own_head(None)).body,
        ReplyBody::Session {
            authenticated: true,
            authentication_required: false
        }
    );
}

#[test]
fn a_local_code_pairs_once() {
    let mut state = AppState::new(&test_config(), Authenticator::from_token(b"setup-token".to_vec()));
    let service = LocalPairingServer {
        owner_uid: 991,
        allowed_uids: Vec::new(),
    };
    let line = state.answer_local(&service, Some(991));
    let code = request_pairing_code(&line).unwrap();
    assert_eq!(state.pair(local(), &own_head(None), &code).status, 200);
    assert_eq!(state.pair(local(), &own_head(None), &code).status, 401);
    assert!(state
        .answer_local(&service, Some(1000))
        .starts_with("error: "));
}

#[test]
fn logging_out_revokes_the_session() {
    let mut auth = Authenticator::from_token(b"integration-token".to_vec());
    let session = auth.exchange("integration-token").unwrap().unwrap();
    let mut state = AppState::new(&test_config(), auth);
    let cookie = format!("theme=dark; portway_session={session}; other=1");
    let request = own_head(Some(&cookie));
    assert_eq!(
        state.session_status(&request).body,
        ReplyBody::Session {
            authenticated: true,
            authentication_required: true
        }
    );
    let foreign = head("https://evil.example", Some(&cookie));
    assert_eq!(state.logout(&foreign).status, 403);
    let reply = state.logout(&request);
    assert_eq!(reply.status, 204);
    assert_eq!(
        reply.set_cookie.unwrap(),
        "portway_session=; Path=/; HttpOnly; SameSite=Strict; Max-Age=0"
    );
    assert_eq!(
        state.session_status(&request).body,
        ReplyBody::Session {
            authenticated: false,
            authentication_required: true
        }
    );
    let refusal = state.websocket(&request).unwrap();
    assert_eq!(refusal.status, 401);
    assert_eq!(refusal.body.text(), Some("authentication failed"));
}

#[test]
fn controllers_keep_to_the_limit() {
    let mut state = AppState::new(&test_config(), Authenticator::disabled());
    assert!(state.websocket(&own_head(None)).is_none());
    let refusal = state.websocket(&own_head(None)).unwrap();
    assert_eq!(refusal.status, 503);
    assert_eq!(refusal.body.text(), Some("controller limit reached"));
    state.release_controller();
    assert!(state.acquire_controller());
    assert!(!state.acquire_controller());
    let foreign = state.websocket(&head("https://evil.example", None)).unwrap();
    assert_eq!(foreign.status, 403);
}

#[test]
fn sessions_end_a_channel_request_when_they_expire() {
    let mut auth = Authenticator::from_token_with_ttls(b"t".to_vec(), 30 * SECOND, 300 * SECOND);
    auth.open_session("abc".to_owned(), 0);
    let mut config = test_config();
    config.max_clients = 8;
    let mut state = AppState::new(&config, auth);
    let request = own_head(Some("portway_session=abc"));
    assert!(state.websocket_at(&request, 300 * SECOND - 1).is_none());
    assert_eq!(
        state.websocket_at(&request, 300 * SECOND).unwrap().status,
        401
    );
    assert_eq!(
        state.session_status_at(&request, 0).body,
        ReplyBody::Session {
            authenticated: false,
            authentication_required: true
        }
    );
}

#[test]
fn the_public_status_tells_what_anyone_may_know() {
    let mut config = test_config();
    config.max_clients = 3;
    config.tls_cert = Some(PathBuf::from("cert.pem"));
    let mut state = AppState::new(&config, Authenticator::from_token(b"t".to_vec()));
    assert!(state.acquire_controller());
    let status = state.status(
        "0.1.0",
        BackendStatus {
            name: "mock".to_owned(),
            available: true,
            detail: None,
        },
    );
    assert_eq!(status.service, "portway");
    assert_eq!(status.version, "0.1.0");
    assert!(status.authentication_required);
    assert_eq!(status.controllers, 1);
    assert_eq!(status.controller_limit, 3);
    assert_eq!(status.input_backend, "mock");
    assert!(status.input_available);
    assert!(status.secure_transport);
    assert!(state.secure_transport());
}

#[test]
fn every_reply_is_hardened() {
    let plain = security_headers(false);
    assert_eq!(plain.len(), 5);
    assert!(plain.contains(&("x-content-type-options", "nosniff")));
    let secure = security_headers(true);
    assert_eq!(secure.len(), 6);
    assert_eq!(
        secure.last(),
        Some(&("strict-transport-security", "max-age=31536000"))
    );
    assert_eq!(
        static_asset(Asset::Script),
        vec![
            ("content-type", "text/javascript; charset=utf-8"),
            ("cache-control", "no-cache, no-store, must-revalidate"),
        ]
    );
    assert_eq!(static_asset(Asset::Index)[0].1, "text/html; charset=utf-8");
    assert_eq!(static_asset(Asset::Style)[0].1, "text/css; charset=utf-8");
    assert_eq!(health().status, 204);
    assert_eq!(not_found().status, 404);
    assert_eq!(not_found().body.text(), Some("not found"));
}
