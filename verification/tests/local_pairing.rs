use portway::auth::{AuthError, Authenticator};
use portway::local_pairing::{
    pairing_reply, peer_uid_allowed, request_pairing_code, stale_socket, LocalPairingServer,
    PairingRequestError, SocketPath,
};

#[test]
fn authorizes_root_owner_and_explicit_uids_only() {
    assert!(peer_uid_allowed(0, 991, &[]));
    assert!(peer_uid_allowed(991, 991, &[]));
    assert!(peer_uid_allowed(1000, 991, &[1000]));
    assert!(!peer_uid_allowed(1001, 991, &[1000]));
}

#[test]
fn refuses_to_replace_a_non_socket_path() {
    let error = stale_socket("/tmp/pair.sock", SocketPath::Other).unwrap_err();
    assert_eq!(
        error.message(),
        "refusing to replace non-socket pairing path /tmp/pair.sock"
    );
    assert!(stale_socket("/tmp/pair.sock", SocketPath::Socket).unwrap());
    assert!(!stale_socket("/tmp/pair.sock", SocketPath::Missing).unwrap());
    let error =
        stale_socket("/tmp/pair.sock", SocketPath::Failed("denied".to_owned())).unwrap_err();
    assert_eq!(error.message(), "denied");
}

#[test]
fn local_service_issues_a_six_digit_single_use_code() {
    let mut auth = Authenticator::from_token(b"setup-token".to_vec());
    let server = LocalPairingServer {
        owner_uid: 991,
        allowed_uids: Vec::new(),
    };

    let line = server.answer(Some(991), &mut auth);
    let code = request_pairing_code(&line).unwrap();

    assert_eq!(code.len(), 6);
    assert!(code.bytes().all(|byte| byte.is_ascii_digit()));
    assert!(auth.exchange(&code).unwrap().is_some());
    assert!(auth.exchange(&code).unwrap().is_none());
}

#[test]
fn answers_callers_by_their_user() {
    let server = LocalPairingServer {
        owner_uid: 991,
        allowed_uids: vec![1000],
    };
    let mut auth = Authenticator::from_token(b"setup-token".to_vec());
    let line = server.answer(Some(1000), &mut auth);
    let code = request_pairing_code(&line).unwrap();
    assert_eq!(line, format!("{code}\n"));
    // A caller that is refused takes nothing away.
    assert_eq!(
        server.answer(Some(1001), &mut auth),
        "error: this local user is not allowed to request pairing codes\n"
    );
    assert_eq!(
        server.answer(None, &mut auth),
        "error: local pairing caller could not be identified\n"
    );
    assert!(auth.exchange(&code).unwrap().is_some());
    assert_eq!(
        server.answer(Some(0), &mut Authenticator::disabled()),
        "error: authentication is disabled\n"
    );
    assert_eq!(
        pairing_reply(Err(AuthError::Random)),
        "error: pairing service failed to create a code\n"
    );
}

#[test]
fn reads_six_digits_or_the_reason_for_none() {
    assert_eq!(request_pairing_code("123456\n").unwrap(), "123456");
    assert_eq!(request_pairing_code("  000000 ").unwrap(), "000000");
    for answer in ["", "12345", "1234567", "12345a", "١٢٣٤٥٦", "errors"] {
        assert!(matches!(
            request_pairing_code(answer),
            Err(PairingRequestError::InvalidResponse)
        ));
    }
    let error = request_pairing_code("error: authentication is disabled\n").unwrap_err();
    assert_eq!(error.message(), "authentication is disabled");
    // Trimming takes the blank behind the prefix away.
    let error = request_pairing_code("error: \n").unwrap_err();
    assert_eq!(
        error.message(),
        "pairing service returned an invalid response"
    );
}
