use base64::Engine;
use portway::auth::digits::{code_draw, code_for, is_six_digits};
use portway::auth::material::{
    created_token, new_setup_token, token_file_contents, token_step, TokenFileOutcome, TokenStep,
};
use portway::auth::pairing::{
    code_expiry, create_pairing_code, sign_pairing_code, verify_pairing_code,
};
use portway::auth::{
    constant_time_eq, random_url_token, read_existing_token, validate_token, AuthError,
    Authenticator, MAX_SESSIONS,
};

const SECOND: u128 = 1_000_000_000;

fn wait_for(nanos: u128) {
    let start = std::time::Instant::now();
    while start.elapsed().as_nanos() < nanos {}
}

#[test]
fn pairing_codes_are_single_use_and_sessions_can_be_revoked() {
    let mut auth = Authenticator::from_token(b"setup-token".to_vec());
    let code = auth.issue_pairing_code().unwrap().unwrap();
    let session = auth.exchange(&code).unwrap().unwrap();

    assert!(auth.exchange(&code).unwrap().is_none());
    assert!(auth.verify_session(Some(&session)));
    assert!(!auth.verify_session(Some("wrong")));
    auth.revoke_session(Some(&session));
    assert!(!auth.verify_session(Some(&session)));
}

#[test]
fn pairing_codes_reject_tampering_and_the_wrong_setup_token() {
    let mut auth = Authenticator::from_token(b"setup-token".to_vec());
    let mut code = auth.issue_pairing_code().unwrap().unwrap();
    code.push('x');

    assert!(auth.exchange(&code).unwrap().is_none());

    let mut other = Authenticator::from_token(b"other-token".to_vec());
    let valid_for_other = other.issue_pairing_code().unwrap().unwrap();
    assert!(auth.exchange(&valid_for_other).unwrap().is_none());
}

#[test]
fn persistent_setup_token_is_accepted_but_not_a_session() {
    let mut auth = Authenticator::from_token(b"setup-token".to_vec());
    let session = auth.exchange("setup-token").unwrap().unwrap();

    assert!(!auth.verify_session(Some("setup-token")));
    assert!(auth.verify_session(Some(&session)));
}

#[test]
fn sessions_expire() {
    let mut auth =
        Authenticator::from_token_with_ttls(b"setup-token".to_vec(), 1_000_000, 1_000_000);
    let session = auth.exchange("setup-token").unwrap().unwrap();
    wait_for(5_000_000);
    assert!(!auth.verify_session(Some(&session)));
}

#[test]
fn sessions_last_exactly_for_their_lifetime() {
    let mut auth = Authenticator::from_token_with_ttls(b"t".to_vec(), 30 * SECOND, 300 * SECOND);
    auth.open_session("s".to_owned(), 10 * SECOND);
    assert!(auth.verify_session_at(Some("s"), 10 * SECOND));
    assert!(auth.verify_session_at(Some("s"), 310 * SECOND - 1));
    assert!(!auth.verify_session_at(Some("s"), 310 * SECOND));
    assert!(!auth.verify_session_at(None, 10 * SECOND));
}

#[test]
fn the_oldest_session_makes_room() {
    let mut auth = Authenticator::from_token(b"t".to_vec());
    for i in 0..MAX_SESSIONS {
        auth.open_session(format!("s{i}"), i as u128);
    }
    assert!(auth.verify_session_at(Some("s0"), 100));
    auth.open_session("one more".to_owned(), 100);
    assert!(!auth.verify_session_at(Some("s0"), 100));
    assert!(auth.verify_session_at(Some("s1"), 100));
    assert!(auth.verify_session_at(Some("one more"), 100));
}

#[test]
fn disabled_authentication_lets_everyone_in() {
    let mut auth = Authenticator::disabled();
    assert!(!auth.is_enabled());
    assert!(auth.verify_session(None));
    assert!(auth.exchange("anything").unwrap().is_none());
    assert!(auth.issue_pairing_code().unwrap().is_none());
    assert_eq!(auth.pairing_code_ttl_seconds(), 300);
    assert_eq!(auth.session_ttl_seconds(), 43_200);
}

#[test]
fn local_codes_are_six_digits_with_leading_zeros() {
    assert_eq!(code_for(0), "000000");
    assert_eq!(code_for(42), "000042");
    assert_eq!(code_for(123_456), "123456");
    assert_eq!(code_for(999_999), "999999");
    assert!(is_six_digits("000042"));
    for text in ["", "12345", "1234567", "12345a", "-12345", "١٢٣٤٥٦"] {
        assert!(!is_six_digits(text));
    }
}

#[test]
fn draws_are_the_remainder_of_the_random_number() {
    assert_eq!(code_draw(&[]), 0);
    assert_eq!(code_draw(&[0, 0, 1, 2]), 258);
    let bytes = [0xde_u8, 0xad, 0xbe, 0xef, 1, 2, 3, 4, 5, 6, 7, 8, 9, 10, 11, 12];
    assert_eq!(
        u128::from(code_draw(&bytes)),
        u128::from_be_bytes(bytes) % 1_000_000
    );
    assert_eq!(
        u128::from(code_draw(&[0xff; 16])),
        u128::MAX % 1_000_000
    );
}

#[test]
fn issued_codes_are_six_digits_and_differ() {
    let mut auth = Authenticator::from_token(b"setup-token".to_vec());
    let codes: Vec<String> = (0..20)
        .map(|_| auth.issue_pairing_code().unwrap().unwrap())
        .collect();
    assert!(codes.iter().all(|code| is_six_digits(code)));
    assert!(codes.iter().any(|code| *code != codes[0]));
    // Only the last one is outstanding.
    let last = codes.last().unwrap().clone();
    for code in codes.iter().filter(|code| **code != last) {
        assert!(auth.exchange(code).unwrap().is_none());
    }
    assert!(auth.exchange(&last).unwrap().is_some());
    assert!(auth.exchange(&last).unwrap().is_none());
}

#[test]
fn local_codes_are_accepted_once_before_they_expire() {
    let mut auth = Authenticator::from_token(b"k".to_vec());
    assert_eq!(auth.record_pairing_code(1_000, 42).unwrap(), "000042");
    assert!(!auth.redeem("000043", 0, Some(999)));
    assert!(!auth.redeem("42", 0, Some(999)));
    assert!(!auth.redeem("000042", 0, None));
    assert!(auth.redeem("000042", 0, Some(999)));
    assert!(!auth.redeem("000042", 0, Some(999)));

    assert!(auth.record_pairing_code(1_000, 7).is_some());
    assert!(!auth.redeem("000007", 0, Some(1_000)));
    // The expired code is gone for good.
    assert!(!auth.redeem("000007", 0, Some(999)));

    // Another code takes the place of the one before.
    assert!(auth.record_pairing_code(1_000, 1).is_some());
    assert!(auth.record_pairing_code(1_000, 2).is_some());
    assert!(!auth.redeem("000001", 0, Some(0)));
    assert!(auth.redeem("000002", 0, Some(0)));
    assert!(Authenticator::disabled().record_pairing_code(1_000, 1).is_none());
}

#[test]
fn codes_are_signed_over_their_payload() {
    let nonce = [0_u8, 1, 2, 3, 4, 5, 6, 7, 8, 9, 10, 11];
    let code = sign_pairing_code(b"setup-token", 1_700_000_300, &nonce);
    assert!(code.starts_with("p1.1700000300.AAECAwQFBgcICQoL."));
    let tag = ring::hmac::sign(
        &ring::hmac::Key::new(ring::hmac::HMAC_SHA256, b"setup-token"),
        b"p1.1700000300.AAECAwQFBgcICQoL",
    );
    let parts: Vec<&str> = code.split('.').collect();
    assert_eq!(parts.len(), 4);
    assert_eq!((parts[2].len(), parts[3].len()), (16, 43));
    assert_eq!(
        parts[3],
        base64::engine::general_purpose::URL_SAFE_NO_PAD.encode(tag.as_ref())
    );

    let at = |now: u64| verify_pairing_code(b"setup-token", &code, 300, Some(now));
    assert_eq!(at(1_700_000_000), Some(300));
    assert_eq!(at(1_700_000_299), Some(1));
    assert_eq!(at(1_700_000_300), None);
    assert_eq!(at(1_699_999_999), None);
    assert_eq!(verify_pairing_code(b"setup-token", &code, 300, None), None);
    assert_eq!(
        verify_pairing_code(b"other-token", &code, 300, Some(1_700_000_000)),
        None
    );
}

#[test]
fn codes_of_another_shape_are_refused() {
    let nonce = [7_u8; 12];
    let code = sign_pairing_code(b"k", 1_000, &nonce);
    let check = |text: &str| verify_pairing_code(b"k", text, 1_000, Some(500));
    assert_eq!(check(&code), Some(500));
    assert_eq!(check(&code.replacen("p1", "p2", 1)), None);
    assert_eq!(check(&code.replacen("1000", "1001", 1)), None);
    assert_eq!(check(&format!("{code}.")), None);
    assert_eq!(check(&format!("{code}=")), None);
    assert_eq!(check(""), None);
    assert_eq!(check("p1.1000.BwcHBwcHBwcHBwcH"), None);
    assert_eq!(check("p1.1000.BwcHBwcHBwcHBwc.AAAA"), None);
}

#[test]
fn code_expiry_needs_a_clock_and_does_not_overflow() {
    assert_eq!(code_expiry(Some(10), 5).unwrap(), 15);
    assert!(matches!(code_expiry(None, 5), Err(AuthError::Clock)));
    assert!(matches!(
        code_expiry(Some(u64::MAX), 1),
        Err(AuthError::Overflow)
    ));
}

#[test]
fn created_codes_are_accepted_once_by_the_server() {
    let mut auth = Authenticator::from_token(b"setup-token".to_vec());
    let code = create_pairing_code("setup-token", 300).unwrap();
    assert!((65..=84).contains(&code.len()));
    assert!(auth.exchange(&code).unwrap().is_some());
    assert!(auth.exchange(&code).unwrap().is_none());
    // A code for longer than the server grants is refused.
    let long = create_pairing_code("setup-token", 301).unwrap();
    assert!(auth.exchange(&long).unwrap().is_none());
    // The setup token can be used again and again.
    assert!(auth.exchange("setup-token").unwrap().is_some());
    assert!(auth.exchange("setup-token").unwrap().is_some());
}

#[test]
fn a_used_code_is_refused_until_it_expires() {
    let mut auth = Authenticator::from_token_with_ttls(b"k".to_vec(), 30 * SECOND, 300 * SECOND);
    let code = sign_pairing_code(b"k", 1_030, &[1_u8; 12]);
    assert!(auth.redeem(&code, 0, Some(1_000)));
    assert!(!auth.redeem(&code, 0, Some(1_000)));
    assert!(!auth.redeem(&code, 30 * SECOND - 1, Some(1_029)));
    assert!(!auth.redeem(&code, 30 * SECOND, Some(1_030)));
    let other = sign_pairing_code(b"k", 1_030, &[2_u8; 12]);
    assert!(auth.redeem(&other, SECOND, Some(1_001)));
}

#[test]
fn random_tokens_differ_and_have_the_encoded_length() {
    let one = random_url_token(32).unwrap();
    let other = random_url_token(32).unwrap();
    assert_eq!(one.len(), 43);
    assert_ne!(one, other);
    assert_ne!(one, "A".repeat(43));
    assert_eq!(random_url_token(12).unwrap().len(), 16);
}

#[test]
fn tokens_are_compared_by_all_their_bytes() {
    assert!(constant_time_eq(b"abc", b"abc"));
    assert!(!constant_time_eq(b"abc", b"abd"));
    assert!(!constant_time_eq(b"abc", b"ab"));
    assert!(constant_time_eq(b"", b""));
}

#[test]
fn token_files_hold_256_bits() {
    let token = new_setup_token().unwrap();
    assert_eq!(token.len(), 43);
    let contents = token_file_contents(&token);
    assert_eq!(contents, format!("{token}\n"));
    assert_eq!(read_existing_token(&contents).unwrap(), token);
    assert_eq!(
        read_existing_token(&format!("  {token}\r\n")).unwrap(),
        token
    );

    let text = validate_token("not base64!").unwrap_err();
    assert!(matches!(text, AuthError::TokenText));
    assert_eq!(text.message(), "token file does not contain URL-safe base64");
    let length = validate_token("AAAA").unwrap_err();
    assert!(matches!(length, AuthError::TokenLength));
    assert_eq!(
        length.message(),
        "token file must contain exactly 256 bits of random data"
    );
    // Padding and stray bits are not canonical.
    assert!(matches!(
        validate_token(&format!("{token}=")),
        Err(AuthError::TokenText)
    ));
}

#[test]
fn a_token_file_is_kept_refused_or_created() {
    assert!(matches!(
        token_step(Ok("t".to_owned()), true),
        TokenStep::Keep(token) if token == "t"
    ));
    assert!(matches!(
        token_step(Err(AuthError::TokenLength), true),
        TokenStep::Fail(AuthError::TokenLength)
    ));
    assert!(matches!(
        token_step(Err(AuthError::TokenFile("missing".to_owned())), false),
        TokenStep::Create
    ));
    assert_eq!(
        created_token("new".to_owned(), TokenFileOutcome::Written).unwrap(),
        ("new".to_owned(), true)
    );
    assert_eq!(
        created_token(
            "new".to_owned(),
            TokenFileOutcome::AlreadyExists(Ok("old".to_owned()))
        )
        .unwrap(),
        ("old".to_owned(), false)
    );
    assert!(matches!(
        created_token(
            "new".to_owned(),
            TokenFileOutcome::AlreadyExists(Err(AuthError::TokenText))
        ),
        Err(AuthError::TokenText)
    ));
    let failed = created_token(
        "new".to_owned(),
        TokenFileOutcome::Failed(AuthError::TokenFile("disk full".to_owned())),
    )
    .unwrap_err();
    assert_eq!(failed.message(), "disk full");
}

#[test]
fn auth_errors_describe_themselves() {
    assert_eq!(
        AuthError::Clock.message(),
        "system clock is before the Unix epoch"
    );
    assert_eq!(AuthError::Overflow.message(), "pairing-code expiry overflowed");
    assert_eq!(
        AuthError::Random.message(),
        "operating system random generator failed"
    );
}
