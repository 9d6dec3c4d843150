use portway::server::request::{
    expired_session_cookie, header_text, origin_allowed, origin_matches, session_cookie,
    session_cookie_header, RequestHead,
};
use portway::uri::UriParts;

fn cookies(value: &[u8]) -> RequestHead {
    RequestHead {
        origin: None,
        host: None,
        cookie: Some(value.to_vec()),
        authority: None,
    }
}

fn parts(scheme: &str, authority: &str, path: Option<&str>) -> Option<UriParts> {
    Some(UriParts {
        scheme: Some(scheme.to_owned()),
        authority: Some(authority.to_owned()),
        path_and_query: path.map(str::to_owned),
    })
}

#[test]
fn header_values_are_visible_ascii() {
    assert_eq!(header_text(&Some(b"a\tb ~".to_vec())).unwrap(), "a\tb ~");
    assert_eq!(header_text(&Some(Vec::new())).unwrap(), "");
    for byte in [0_u8, 8, 10, 13, 31, 127, 128, 255] {
        assert_eq!(header_text(&Some(vec![b'a', byte])), None);
    }
    assert_eq!(header_text(&None), None);
}

#[test]
fn header_values_are_read_as_the_http_crate_reads_them() {
    for byte in 0..=255_u8 {
        let ours = header_text(&Some(vec![byte]));
        if let Ok(value) = http::HeaderValue::from_bytes(&[byte]) {
            assert_eq!(ours, value.to_str().ok().map(str::to_owned));
        } else {
            assert_eq!(ours, None);
        }
    }
}

#[test]
fn the_first_session_cookie_counts() {
    let session = |value: &[u8]| session_cookie(&cookies(value));
    assert_eq!(session(b"portway_session=abc").unwrap(), "abc");
    assert_eq!(session(b"a=b;  portway_session=abc ; c").unwrap(), "abc");
    assert_eq!(session(b"portway_session=x; portway_session=y").unwrap(), "x");
    assert_eq!(session(b"portway_session=a=b").unwrap(), "a=b");
    assert_eq!(session(b"portway_session=").unwrap(), "");
    assert_eq!(session(b"portway_session"), None);
    assert_eq!(session(b"portway_session =abc"), None);
    assert_eq!(session(b"Portway_Session=abc"), None);
    assert_eq!(session(b"portway_session=\xff"), None);
    assert_eq!(session(b""), None);
    let none = RequestHead {
        origin: None,
        host: None,
        cookie: None,
        authority: None,
    };
    assert_eq!(session_cookie(&none), None);
}

#[test]
fn a_cookie_that_was_set_is_read_back() {
    let header = session_cookie_header("AbC-_123", 300, true);
    assert_eq!(
        header,
        "portway_session=AbC-_123; Path=/; HttpOnly; SameSite=Strict; Max-Age=300; Secure"
    );
    let sent = header.split(';').next().unwrap();
    assert_eq!(session_cookie(&cookies(sent.as_bytes())).unwrap(), "AbC-_123");
    assert_eq!(
        expired_session_cookie(true),
        "portway_session=; Path=/; HttpOnly; SameSite=Strict; Max-Age=0; Secure"
    );
}

#[test]
fn origins_match_by_scheme_authority_and_path() {
    assert!(origin_matches(&parts("http", "Host.Example:80", None), "host.example:80", false));
    assert!(origin_matches(&parts("https", "h", Some("/")), "H", true));
    assert!(!origin_matches(&parts("https", "h", Some("/")), "h", false));
    assert!(!origin_matches(&parts("http", "h", Some("/x")), "h", false));
    assert!(!origin_matches(&parts("http", "h", None), "h:80", false));
    assert!(!origin_matches(&None, "h", false));
    let relative = Some(UriParts {
        scheme: None,
        authority: Some("h".to_owned()),
        path_and_query: None,
    });
    assert!(!origin_matches(&relative, "h", false));
}

#[test]
fn a_request_without_origin_or_target_is_refused() {
    let mut head = RequestHead {
        origin: None,
        host: Some(b"h".to_vec()),
        cookie: None,
        authority: None,
    };
    assert!(!origin_allowed(&head, &vec![], false));
    head.origin = Some(b"http://h".to_vec());
    assert!(origin_allowed(&head, &vec![], false));
    // The authority of the target comes before the header.
    head.authority = Some("other".to_owned());
    assert!(!origin_allowed(&head, &vec![], false));
    head.authority = None;
    head.host = None;
    assert!(!origin_allowed(&head, &vec![], false));
    head.origin = Some(b"http://a b".to_vec());
    head.host = Some(b"a b".to_vec());
    assert!(!origin_allowed(&head, &vec![], false));
    assert!(origin_allowed(&head, &vec!["http://a b".to_owned()], false));
}
