//! What is read from the head of a request: its origin and its session cookie.

use crate::text::{
    chars_of, decimal, find_char, first_position, is_digit, lemma_decimal, lemma_first_position,
    lemma_first_position_is, lemma_split_front, lemma_split_whole, push_decimal,
    same_ignoring_ascii_case, split, split_text, text_between, text_eq, text_eq_ignore_ascii_case,
    texts, trim, trimmed, trimmed_end, trimmed_start, white_space,
};
use crate::uri::{optional_chars, parse_uri, uri_parts, UriParts};
use vstd::prelude::*;
use vstd::string::*;

verus! {

pub const SESSION_COOKIE: &'static str = "portway_session";

/// The head of a request: the first value of three headers, and the authority of the target where
/// the target has one.
#[derive(Debug)]
pub struct RequestHead {
    pub origin: Option<Vec<u8>>,
    pub host: Option<Vec<u8>>,
    pub cookie: Option<Vec<u8>>,
    pub authority: Option<String>,
}

/// Whether a byte may stand in a header value that is read as text.
pub open spec fn visible(byte: u8) -> bool {
    32 <= byte <= 126 || byte == 9
}

/// The text of a header value, where all of it is visible.
pub open spec fn header_chars(value: Option<Vec<u8>>) -> Option<Seq<char>> {
    match value {
        Some(bytes) => if forall|i: int| 0 <= i < bytes@.len() ==> visible(#[trigger] bytes@[i]) {
            Some(bytes@.map_values(|byte: u8| byte as char))
        } else {
            None
        },
        None => None,
    }
}

pub fn header_text(value: &Option<Vec<u8>>) -> (text: Option<String>)
    ensures
        match text {
            Some(text) => header_chars(*value) == Some(text@),
            None => header_chars(*value) is None,
        },
{
    match value {
        None => None,
        Some(bytes) => {
            let mut text = String::new();
            let mut i: usize = 0;
            while i < bytes.len()
                invariant
                    i <= bytes@.len(),
                    text@ == bytes@.take(i as int).map_values(|byte: u8| byte as char),
                    forall|j: int| 0 <= j < i ==> visible(#[trigger] bytes@[j]),
                    *value == Some(*bytes),
                decreases bytes@.len() - i,
            {
                let byte: u8 = bytes[i];
                if !((32 <= byte && byte <= 126) || byte == 9) {
                    assert(!visible(bytes@[i as int]));
                    return None;
                }
                text.push(byte as char);
                assert(text@ =~= bytes@.take(i + 1).map_values(|byte: u8| byte as char));
                i = i + 1;
            }
            assert(bytes@.take(i as int) =~= bytes@);
            Some(text)
        },
    }
}

/// The scheme of the transport.
pub open spec fn transport_scheme(secure: bool) -> Seq<char> {
    if secure {
        "https"@
    } else {
        "http"@
    }
}

/// Whether an origin, given by its parts, is that of the server: the scheme of the transport, the
/// authority that the request was made to, and no path.
pub open spec fn same_origin(
    parts: Option<(Option<Seq<char>>, Option<Seq<char>>, Option<Seq<char>>)>,
    authority: Seq<char>,
    secure: bool,
) -> bool {
    match parts {
        Some((scheme, Some(host), path)) => scheme == Some(transport_scheme(secure))
            && same_ignoring_ascii_case(host, authority) && (path is None || path == Some("/"@)),
        _ => false,
    }
}

/// Compares an origin, given by its parts, with the authority that the request was made to.
pub fn origin_matches(parts: &Option<UriParts>, authority: &str, secure: bool) -> (same: bool)
    ensures
        same == same_origin(
            match *parts {
                Some(parts) => Some(parts@),
                None => None,
            },
            authority@,
            secure,
        ),
{
    match parts {
        None => false,
        Some(parts) => {
            let expected = if secure {
                "https"
            } else {
                "http"
            };
            let scheme_matches = match &parts.scheme {
                Some(scheme) => text_eq(scheme.as_str(), expected),
                None => false,
            };
            let authority_matches = match &parts.authority {
                Some(host) => text_eq_ignore_ascii_case(host.as_str(), authority),
                None => false,
            };
            let path_matches = match &parts.path_and_query {
                Some(path) => text_eq(path.as_str(), "/"),
                None => true,
            };
            scheme_matches && authority_matches && path_matches
        },
    }
}

impl RequestHead {
    /// The authority that the request was made to: that of the target, or else the `Host` header.
    pub open spec fn target(self) -> Option<Seq<char>> {
        match self.authority {
            Some(authority) => Some(authority@),
            None => header_chars(self.host),
        }
    }

    /// Whether the request comes from a page that may use the server: one of an allowed origin, or
    /// one that the server delivered itself.
    pub open spec fn from_allowed_origin(self, allowed: Seq<Seq<char>>, secure: bool) -> bool {
        match header_chars(self.origin) {
            None => false,
            Some(origin) => allowed.contains(origin) || (self.target() matches Some(authority)
                && same_origin(uri_parts(origin), authority, secure)),
        }
    }

    fn target_text(&self) -> (text: Option<String>)
        ensures
            optional_chars(text) == self.target(),
    {
        match &self.authority {
            Some(authority) => Some(authority.as_str().to_owned()),
            None => header_text(&self.host),
        }
    }
}

/// Whether a text is in a list.
fn contains_text(list: &Vec<String>, text: &str) -> (found: bool)
    ensures
        found == texts(list@).contains(text@),
{
    let mut i: usize = 0;
    while i < list.len()
        invariant
            i <= list@.len(),
            forall|j: int| 0 <= j < i ==> (#[trigger] list@[j])@ != text@,
        decreases list@.len() - i,
    {
        if text_eq(list[i].as_str(), text) {
            assert(texts(list@)[i as int] == text@);
            return true;
        }
        i = i + 1;
    }
    assert(!texts(list@).contains(text@)) by {
        if texts(list@).contains(text@) {
            let j = choose|j: int| 0 <= j < texts(list@).len() && texts(list@)[j] == text@;
            assert(list@[j]@ == text@);
        }
    }
    false
}

pub fn origin_allowed(
    head: &RequestHead,
    allowed_origins: &Vec<String>,
    secure_transport: bool,
) -> (allowed: bool)
    ensures
        allowed == head.from_allowed_origin(texts(allowed_origins@), secure_transport),
{
    let origin = match header_text(&head.origin) {
        Some(origin) => origin,
        None => {
            return false;
        },
    };
    if contains_text(allowed_origins, origin.as_str()) {
        return true;
    }
    let parts = match parse_uri(origin.as_str()) {
        Ok(parts) => Some(parts),
        Err(_) => {
            return false;
        },
    };
    match head.target_text() {
        Some(authority) => origin_matches(&parts, authority.as_str(), secure_transport),
        None => false,
    }
}

/// The value of one cookie, where it is the session cookie.
pub open spec fn session_in(cookie: Seq<char>) -> Option<Seq<char>> {
    let pair = trimmed(cookie);
    let at = first_position(pair, '=');
    if at < pair.len() && pair.take(at) == "portway_session"@ {
        Some(pair.skip(at + 1))
    } else {
        None
    }
}

/// The value of the first session cookie.
pub open spec fn first_session(cookies: Seq<Seq<char>>) -> Option<Seq<char>>
    decreases cookies.len(),
{
    if cookies.len() == 0 {
        None
    } else {
        match session_in(cookies[0]) {
            Some(session) => Some(session),
            None => first_session(cookies.drop_first()),
        }
    }
}

impl RequestHead {
    /// The session that the request names.
    pub open spec fn session(self) -> Option<Seq<char>> {
        match header_chars(self.cookie) {
            Some(cookies) => first_session(split(cookies, ';')),
            None => None,
        }
    }
}

fn cookie_session(cookie: &str) -> (session: Option<String>)
    ensures
        optional_chars(session) == session_in(cookie@),
{
    let pair = trim(cookie);
    let chars = chars_of(pair.as_str());
    let n: usize = chars.len();
    let at: usize = find_char(&chars, 0, n, '=');
    assert(chars@.subrange(0, n as int) =~= pair@);
    if at == n {
        return None;
    }
    let name = text_between(&chars, 0, at);
    assert(name@ =~= pair@.take(at as int));
    if !text_eq(name.as_str(), SESSION_COOKIE) {
        return None;
    }
    let value = text_between(&chars, at + 1, n);
    assert(value@ =~= pair@.skip(at + 1));
    Some(value)
}

pub fn session_cookie(head: &RequestHead) -> (session: Option<String>)
    ensures
        optional_chars(session) == head.session(),
{
    let text = match header_text(&head.cookie) {
        Some(text) => text,
        None => {
            return None;
        },
    };
    let cookies = split_text(text.as_str(), ';');
    let ghost pieces = texts(cookies@);
    let mut i: usize = 0;
    assert(pieces.skip(0) =~= pieces);
    while i < cookies.len()
        invariant
            i <= cookies@.len(),
            pieces == texts(cookies@),
            first_session(pieces) == head.session(),
            first_session(pieces) == first_session(pieces.skip(i as int)),
        decreases cookies@.len() - i,
    {
        assert(pieces.skip(i as int)[0] == cookies@[i as int]@);
        assert(pieces.skip(i as int).drop_first() =~= pieces.skip(i + 1));
        match cookie_session(cookies[i].as_str()) {
            Some(session) => {
                return Some(session);
            },
            None => {},
        }
        i = i + 1;
    }
    None
}

/// The cookie that carries a session.
pub open spec fn set_cookie(session: Seq<char>, max_age: u64, secure: bool) -> Seq<char> {
    "portway_session="@ + session + "; Path=/; HttpOnly; SameSite=Strict; Max-Age="@
        + decimal(max_age as nat) + if secure {
        "; Secure"@
    } else {
        ""@
    }
}

pub fn session_cookie_header(session: &str, max_age: u64, secure: bool) -> (header: String)
    ensures
        header@ == set_cookie(session@, max_age, secure),
{
    let mut header = "portway_session=".to_owned();
    header.append(session);
    header.append("; Path=/; HttpOnly; SameSite=Strict; Max-Age=");
    push_decimal(&mut header, max_age);
    header.append(if secure {
        "; Secure"
    } else {
        ""
    });
    header
}

/// The cookie that takes a session away.
pub open spec fn expired_cookie(secure: bool) -> Seq<char> {
    set_cookie(Seq::empty(), 0, secure)
}

pub fn expired_session_cookie(secure: bool) -> (header: String)
    ensures
        header@ == expired_cookie(secure),
{
    proof {
        reveal_strlit("");
        assert(""@ =~= Seq::<char>::empty());
    }
    session_cookie_header("", 0, secure)
}

/// The session cookie, as a browser sends it.
pub open spec fn cookie_pair(session: Seq<char>) -> Seq<char> {
    "portway_session="@ + session
}

/// A session that no cookie can cut short.
pub open spec fn plain(session: Seq<char>) -> bool {
    forall|i: int|
        0 <= i < session.len() ==> #[trigger] session[i] != ';' && !white_space(session[i])
}

proof fn lemma_cookie_pair(session: Seq<char>)
    requires
        plain(session),
    ensures
        session_in(cookie_pair(session)) == Some(session),
        session_in(seq![' '] + cookie_pair(session)) == Some(session),
{
    reveal_strlit("portway_session=");
    reveal_strlit("portway_session");
    let pair = cookie_pair(session);
    assert(pair[0] == 'p');
    assert(trimmed_start(pair) == pair);
    assert(!white_space(pair.last())) by {
        if session.len() == 0 {
            assert(pair.last() == '=');
        } else {
            assert(pair.last() == session[session.len() - 1]);
        }
    }
    assert(trimmed_end(pair) == pair);
    lemma_first_position_is(pair, '=', 15);
    assert(pair.take(15) =~= "portway_session"@);
    assert(pair.skip(16) =~= session);
    let spaced = seq![' '] + pair;
    assert(spaced[0] == ' ');
    assert(spaced.drop_first() =~= pair);
    assert(trimmed_start(spaced) == trimmed_start(pair));
}

/// A session cookie is found among other cookies, with or without a space in front.
pub proof fn law_session_cookie_is_found(
    before: Seq<Seq<char>>,
    session: Seq<char>,
    after: Seq<Seq<char>>,
)
    requires
        plain(session),
        forall|i: int| 0 <= i < before.len() ==> session_in(#[trigger] before[i]) is None,
    ensures
        first_session(before + seq![cookie_pair(session)] + after) == Some(session),
        first_session(before + seq![seq![' '] + cookie_pair(session)] + after) == Some(session),
    decreases before.len(),
{
    lemma_cookie_pair(session);
    let near = before + seq![cookie_pair(session)] + after;
    let spaced = before + seq![seq![' '] + cookie_pair(session)] + after;
    if before.len() == 0 {
        assert(near[0] == cookie_pair(session));
        assert(spaced[0] == seq![' '] + cookie_pair(session));
    } else {
        assert(near[0] == before[0] && spaced[0] == before[0]);
        let rest = before.drop_first();
        assert forall|i: int| 0 <= i < rest.len() implies session_in(#[trigger] rest[i]) is None by {
            assert(rest[i] == before[i + 1]);
        }
        law_session_cookie_is_found(rest, session, after);
        assert(near.drop_first() =~= rest + seq![cookie_pair(session)] + after);
        assert(spaced.drop_first() =~= rest + seq![seq![' '] + cookie_pair(session)] + after);
    }
}

/// The cookie that is set names the session that was opened, whatever its age and transport.
pub proof fn law_cookie_names_its_session(session: Seq<char>, max_age: u64, secure: bool)
    requires
        plain(session),
    ensures
        split(set_cookie(session, max_age, secure), ';')[0] == cookie_pair(session),
        session_in(split(set_cookie(session, max_age, secure), ';')[0]) == Some(session),
{
    lemma_cookie_pair(session);
    reveal_strlit("portway_session=");
    reveal_strlit("; Path=/; HttpOnly; SameSite=Strict; Max-Age=");
    let header = set_cookie(session, max_age, secure);
    let pair = cookie_pair(session);
    assert(header.take(pair.len() as int) =~= pair);
    assert(header[pair.len() as int] == ';');
    assert forall|i: int| 0 <= i < pair.len() implies header[i] != ';' by {
        if i >= 16 {
            assert(header[i] == session[i - 16]);
        }
    }
    lemma_first_position_is(header, ';', pair.len() as int);
}

/// The cookie that is set on logout names no session.
pub proof fn law_expired_cookie_is_empty(secure: bool)
    ensures
        session_in(split(expired_cookie(secure), ';')[0]) == Some(Seq::<char>::empty()),
{
    law_cookie_names_its_session(Seq::empty(), 0, secure);
}

/// A page is trusted exactly where its origin is one of the allowed ones, or is the server's own:
/// the scheme of the transport, the host that the request was sent to up to case, and no path. A
/// request without an origin is not trusted.
pub proof fn law_trusted_pages(head: RequestHead, allowed: Seq<Seq<char>>, secure: bool)
    ensures
        head.from_allowed_origin(allowed, secure) <==> (header_chars(head.origin) matches Some(
            origin,
        ) && (allowed.contains(origin) || (head.target() matches Some(authority) && (uri_parts(
            origin,
        ) matches Some((Some(scheme), Some(host), path)) && scheme == (if secure {
            "https"@
        } else {
            "http"@
        }) && same_ignoring_ascii_case(host, authority) && (path is None || path == Some(
            "/"@,
        )))))),
        head.origin is None ==> !head.from_allowed_origin(allowed, secure),
        head.authority matches Some(authority) ==> head.target() == Some(authority@),
        head.authority is None ==> head.target() == header_chars(head.host),
{
}

/// A header is read byte for byte, and only where every byte prints or is a tab.
pub proof fn law_headers_are_read_as_they_are(bytes: Vec<u8>)
    ensures
        header_chars(Some(bytes)) is Some <==> forall|i: int|
            0 <= i < bytes@.len() ==> 32 <= #[trigger] bytes@[i] <= 126 || bytes@[i] == 9,
        header_chars(Some(bytes)) matches Some(text) ==> text.len() == bytes@.len() && forall|i: int|
            0 <= i < text.len() ==> #[trigger] text[i] as int == bytes@[i] as int,
        header_chars(None) is None,
{
    if forall|i: int|
        0 <= i < bytes@.len() ==> 32 <= #[trigger] bytes@[i] <= 126 || bytes@[i] == 9 {
        assert forall|i: int| 0 <= i < bytes@.len() implies visible(#[trigger] bytes@[i]) by {}
    }
    if header_chars(Some(bytes)) is Some {
        assert forall|i: int| 0 <= i < bytes@.len() implies 32 <= #[trigger] bytes@[i] <= 126
            || bytes@[i] == 9 by {
            assert(visible(bytes@[i]));
        }
        let text = header_chars(Some(bytes))->0;
        assert forall|i: int| 0 <= i < text.len() implies #[trigger] text[i] as int
            == bytes@[i] as int by {
            assert(visible(bytes@[i]));
        }
    }
}

/// The session cookie is for the whole site, hidden from scripts, never sent along from another
/// site, and lasts as long as its session; over a secure transport it is sent over such only.
pub proof fn law_cookie_attributes(session: Seq<char>, max_age: u64, secure: bool)
    requires
        plain(session),
    ensures
        ({
            let parts = split(set_cookie(session, max_age, secure), ';');
            let common = seq![
                "portway_session="@ + session,
                " Path=/"@,
                " HttpOnly"@,
                " SameSite=Strict"@,
                " Max-Age="@ + decimal(max_age as nat),
            ];
            parts == if secure {
                common.push(" Secure"@)
            } else {
                common
            }
        }),
{
    reveal_strlit("portway_session=");
    reveal_strlit("; Path=/; HttpOnly; SameSite=Strict; Max-Age=");
    reveal_strlit(" Path=/");
    reveal_strlit(" HttpOnly");
    reveal_strlit(" SameSite=Strict");
    reveal_strlit(" Max-Age=");
    reveal_strlit("; Secure");
    reveal_strlit(" Secure");
    reveal_strlit("");
    let pair = "portway_session="@ + session;
    let age = " Max-Age="@ + decimal(max_age as nat);
    lemma_decimal(max_age as nat);
    assert(!pair.contains(';')) by {
        if pair.contains(';') {
            let i = choose|i: int| 0 <= i < pair.len() && pair[i] == ';';
            if i >= 16 {
                assert(pair[i] == session[i - 16]);
            }
        }
    }
    assert(!age.contains(';')) by {
        if age.contains(';') {
            let i = choose|i: int| 0 <= i < age.len() && age[i] == ';';
            if i >= 9 {
                assert(is_digit(decimal(max_age as nat)[i - 9]));
            }
        }
    }
    assert(!" Path=/"@.contains(';'));
    assert(!" HttpOnly"@.contains(';'));
    assert(!" SameSite=Strict"@.contains(';'));
    assert(!" Secure"@.contains(';'));
    let last = if secure {
        age + seq![';'] + " Secure"@
    } else {
        age
    };
    let third = " SameSite=Strict"@ + seq![';'] + last;
    let second = " HttpOnly"@ + seq![';'] + third;
    let first = " Path=/"@ + seq![';'] + second;
    assert(set_cookie(session, max_age, secure) =~= pair + seq![';'] + first);
    if secure {
        lemma_split_whole(" Secure"@, ';');
        lemma_split_front(age, " Secure"@, ';');
    } else {
        lemma_split_whole(age, ';');
    }
    lemma_split_front(" SameSite=Strict"@, last, ';');
    lemma_split_front(" HttpOnly"@, third, ';');
    lemma_split_front(" Path=/"@, second, ';');
    lemma_split_front(pair, first, ';');
    let parts = split(set_cookie(session, max_age, secure), ';');
    let common = seq![pair, " Path=/"@, " HttpOnly"@, " SameSite=Strict"@, age];
    if secure {
        assert(parts =~= common.push(" Secure"@));
    } else {
        assert(parts =~= common);
    }
}

/// Only a cookie of the right name holds a session, and it holds what stands behind the sign.
pub proof fn law_session_comes_from_its_cookie(cookie: Seq<char>)
    ensures
        session_in(cookie) matches Some(session) ==> trimmed(cookie) == "portway_session="@
            + session,
{
    reveal_strlit("portway_session=");
    reveal_strlit("portway_session");
    let pair = trimmed(cookie);
    let at = first_position(pair, '=');
    lemma_first_position(pair, '=');
    if let Some(session) = session_in(cookie) {
        assert(pair =~= pair.take(at) + seq![pair[at]] + pair.skip(at + 1));
        assert(pair =~= "portway_session="@ + session);
    }
}

} // verus!
