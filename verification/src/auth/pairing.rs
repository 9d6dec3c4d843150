//! Pairing codes: an expiry time and a nonce, signed with the setup token.

use super::AuthError;
use crate::clock::{read_wall, wall_reading};
use crate::crypto::{
    base64_decode, base64_encode, base64_url, base64_url_decoded, draw_bytes, hmac_sha256,
    hmac_sign, hmac_verify, random_reading, signed_by, url_safe, MAX_KEY_BYTES,
};
use crate::text::{
    decimal, is_digit, law_decimal_round_trip, lemma_decimal, lemma_decimal_len, lemma_split_front,
    lemma_split_rejoins, lemma_split_whole, parse_u64, parsed_u64, push_decimal, split, split_text,
    text_eq,
};
use vstd::prelude::*;
use vstd::string::*;
use vstd::utf8::{encode_utf8, is_ascii_chars, is_ascii_chars_encode_utf8};

verus! {

pub const PAIRING_NONCE_BYTES: usize = 12;

pub const PAIRING_CODE_VERSION: &'static str = "p1";

/// The signed part of a code.
pub open spec fn payload(expiry: Seq<char>, nonce: Seq<char>) -> Seq<char> {
    "p1"@ + seq!['.'] + (expiry + seq!['.'] + nonce)
}

/// A payload with its signature.
pub open spec fn signed(token: Seq<u8>, payload: Seq<char>) -> Seq<char> {
    payload + seq!['.'] + base64_url(
        hmac_sha256(token, encode_utf8(payload)),
    )
}

/// The code that a token holder issues for an expiry time and a nonce.
pub open spec fn pairing_code(token: Seq<u8>, expires: u64, nonce: Seq<u8>) -> Seq<char> {
    signed(
        token,
        payload(decimal(expires as nat), base64_url(nonce)),
    )
}

/// Whether a text is built like a pairing code and signed with the token.
pub open spec fn genuine(token: Seq<u8>, candidate: Seq<char>) -> bool {
    let parts = split(candidate, '.');
    &&& parts.len() == 4
    &&& parts[0] == "p1"@
    &&& base64_url_decoded(parts[2]) matches Some(nonce) && nonce.len()
        == PAIRING_NONCE_BYTES
    &&& base64_url_decoded(parts[3]) matches Some(signature)
        && signed_by(token, encode_utf8(payload(parts[1], parts[2])), signature)
}

/// The time that a code has left: some where it is genuine, its expiry time lies ahead and is no
/// further away than the longest time that a code is issued for.
pub open spec fn code_lifetime(
    token: Seq<u8>,
    candidate: Seq<char>,
    maximum: u64,
    unix_now: Option<u64>,
) -> Option<u64> {
    match (parsed_u64(split(candidate, '.')[1]), unix_now) {
        (Some(expiry), Some(now)) => if genuine(token, candidate) && now < expiry && expiry - now
            <= maximum {
            Some((expiry - now) as u64)
        } else {
            None
        },
        _ => None,
    }
}

/// A code is accepted up to its expiry time, wherever that is not too far away.
pub open spec fn accepted_until(token: Seq<u8>, code: Seq<char>, expires: u64) -> bool {
    forall|maximum: u64, now: u64| #[trigger]
        code_lifetime(token, code, maximum, Some(now)) == (if now < expires && expires - now
            <= maximum {
            Some((expires - now) as u64)
        } else {
            None
        })
}

/// What every code looks like: the version, the expiry time in digits, the nonce in sixteen
/// characters and the signature in forty-three.
pub open spec fn code_shaped(code: Seq<char>) -> bool {
    let parts = split(code, '.');
    &&& 65 <= code.len() <= 84
    &&& forall|i: int| 0 <= i < code.len() ==> url_safe(#[trigger] code[i]) || code[i] == '.'
    &&& parts.len() == 4
    &&& parts[0] == "p1"@
    &&& 1 <= parts[1].len() <= 20
    &&& forall|i: int| 0 <= i < parts[1].len() ==> is_digit(#[trigger] parts[1][i])
    &&& parts[2].len() == 16
    &&& parts[3].len() == 43
}

/// The expiry time of a code issued now.
pub open spec fn expiry_of(unix_now: Option<u64>, ttl_seconds: u64) -> Result<u64, AuthError> {
    match unix_now {
        None => Err(AuthError::Clock),
        Some(now) => if now + ttl_seconds <= u64::MAX {
            Ok((now + ttl_seconds) as u64)
        } else {
            Err(AuthError::Overflow)
        },
    }
}

pub fn code_expiry(unix_now: Option<u64>, ttl_seconds: u64) -> (expires: Result<u64, AuthError>)
    ensures
        expires == expiry_of(unix_now, ttl_seconds),
{
    match unix_now {
        None => Err(AuthError::Clock),
        Some(now) => match now.checked_add(ttl_seconds) {
            Some(expires) => Ok(expires),
            None => Err(AuthError::Overflow),
        },
    }
}

/// The token characters of an expiry or a nonce are not the separator.
proof fn lemma_no_separator(s: Seq<char>)
    requires
        forall|i: int|
            0 <= i < s.len() ==> url_safe(#[trigger] s[i])
                || is_digit(s[i]),
    ensures
        !s.contains('.'),
        is_ascii_chars(s),
{
    if s.contains('.') {
        let i = s.index_of('.');
        assert(s[i] == '.');
    }
}

/// The four parts of a signed payload.
proof fn lemma_parts(expiry: Seq<char>, nonce: Seq<char>, signature: Seq<char>)
    requires
        !expiry.contains('.'),
        !nonce.contains('.'),
        !signature.contains('.'),
    ensures
        split(payload(expiry, nonce) + seq!['.'] + signature, '.') == seq![
            "p1"@,
            expiry,
            nonce,
            signature,
        ],
{
    reveal_strlit("p1");
    assert(!"p1"@.contains('.'));
    lemma_split_whole(signature, '.');
    lemma_split_front(nonce, signature, '.');
    let last = nonce + seq!['.'] + signature;
    lemma_split_front(expiry, last, '.');
    let rest = expiry + seq!['.'] + last;
    lemma_split_front("p1"@, rest, '.');
    assert(payload(expiry, nonce) + seq!['.'] + signature =~= "p1"@ + seq!['.'] + rest);
    assert(split(payload(expiry, nonce) + seq!['.'] + signature, '.') =~= seq![
        "p1"@,
        expiry,
        nonce,
        signature,
    ]);
}

/// The payload of a code.
fn payload_text(expiry: &str, nonce: &str) -> (text: String)
    ensures
        text@ == payload(expiry@, nonce@),
{
    let mut text = String::from_str(PAIRING_CODE_VERSION);
    text.push('.');
    text.append(expiry);
    text.push('.');
    text.append(nonce);
    assert(text@ =~= payload(expiry@, nonce@));
    text
}

/// Signs an expiry time and a nonce.
pub fn sign_pairing_code(setup_token: &[u8], expires: u64, nonce: &[u8]) -> (code: String)
    requires
        setup_token@.len() <= MAX_KEY_BYTES,
        nonce@.len() == PAIRING_NONCE_BYTES,
    ensures
        code@ == pairing_code(setup_token@, expires, nonce@),
        accepted_until(setup_token@, code@, expires),
        code_shaped(code@),
{
    let mut expiry = String::new();
    push_decimal(&mut expiry, expires);
    assert(expiry@ =~= decimal(expires as nat));
    let nonce_text = base64_encode(nonce);
    proof {
        reveal_strlit("p1");
        lemma_decimal(expires as nat);
        lemma_decimal_len(expires);
        law_decimal_round_trip(expires);
        lemma_no_separator(expiry@);
        lemma_no_separator(nonce_text@);
    }
    let mut code = payload_text(expiry.as_str(), nonce_text.as_str());
    let ghost message = code@;
    proof {
        assert(is_ascii_chars(message));
        is_ascii_chars_encode_utf8(message);
    }
    let signature = hmac_sign(setup_token, code.as_str().as_bytes());
    let signature_text = base64_encode(signature.as_slice());
    code.push('.');
    code.append(signature_text.as_str());
    proof {
        assert(code@ =~= message + seq!['.'] + signature_text@);
        lemma_no_separator(signature_text@);
        lemma_parts(expiry@, nonce_text@, signature_text@);
        assert(genuine(setup_token@, code@));
        assert forall|i: int| 0 <= i < code@.len() implies url_safe(#[trigger] code@[i]) || code@[i]
            == '.' by {
            let n = expiry@.len() as int;
            if 3 <= i < 3 + n {
                assert(code@[i] == expiry@[i - 3]);
            } else if 4 + n <= i < 20 + n {
                assert(code@[i] == nonce_text@[i - 4 - n]);
            } else if 21 + n <= i {
                assert(code@[i] == signature_text@[i - 21 - n]);
            }
        }
    }
    code
}

/// A code is the canonical text of its signed payload.
proof fn lemma_genuine(token: Seq<u8>, candidate: Seq<char>)
    requires
        split(candidate, '.').len() == 4,
        split(candidate, '.')[0] == "p1"@,
    ensures
        candidate == payload(
            split(candidate, '.')[1],
            split(candidate, '.')[2],
        ) + seq!['.'] + split(candidate, '.')[3],
{
    let parts = split(candidate, '.');
    lemma_split_rejoins(candidate, '.');
    let first = choose|rest: Seq<char>|
        candidate == parts[0] + seq!['.'] + rest && #[trigger] split(rest, '.')
            == parts.skip(1);
    lemma_split_rejoins(first, '.');
    let second = choose|rest: Seq<char>|
        first == parts[1] + seq!['.'] + rest && #[trigger] split(rest, '.')
            == parts.skip(1).skip(1);
    lemma_split_rejoins(second, '.');
    let third = choose|rest: Seq<char>|
        second == parts[2] + seq!['.'] + rest && #[trigger] split(rest, '.')
            == parts.skip(1).skip(1).skip(1);
    lemma_split_rejoins(third, '.');
    assert(third == parts[3]);
    assert(candidate =~= payload(parts[1], parts[2]) + seq!['.'] + parts[3]);
}

/// The time that a code has left, in whole seconds.
pub fn verify_pairing_code(
    setup_token: &[u8],
    candidate: &str,
    maximum_ttl_seconds: u64,
    unix_now: Option<u64>,
) -> (lifetime: Option<u64>)
    requires
        setup_token@.len() <= MAX_KEY_BYTES,
    ensures
        lifetime == code_lifetime(setup_token@, candidate@, maximum_ttl_seconds, unix_now),
        lifetime is Some ==> candidate@ == signed(
            setup_token@,
            payload(
                split(candidate@, '.')[1],
                split(candidate@, '.')[2],
            ),
        ),
{
    let parts = split_text(candidate, '.');
    let ghost pieces = split(candidate@, '.');
    assert(pieces.len() == parts@.len());
    if parts.len() != 4 {
        return None;
    }
    assert(forall|i: int| 0 <= i < 4 ==> pieces[i] == (#[trigger] parts@[i])@);
    if !text_eq(parts[0].as_str(), PAIRING_CODE_VERSION) {
        return None;
    }
    let nonce = match base64_decode(parts[2].as_str()) {
        Ok(nonce) => nonce,
        Err(_) => {
            return None;
        },
    };
    if nonce.len() != PAIRING_NONCE_BYTES {
        return None;
    }
    let signature = match base64_decode(parts[3].as_str()) {
        Ok(signature) => signature,
        Err(_) => {
            return None;
        },
    };
    let message = payload_text(parts[1].as_str(), parts[2].as_str());
    if hmac_verify(setup_token, message.as_str().as_bytes(), signature.as_slice()).is_err() {
        return None;
    }
    proof {
        lemma_genuine(setup_token@, candidate@);
    }
    let expiry = match parse_u64(parts[1].as_str()) {
        Some(expiry) => expiry,
        None => {
            return None;
        },
    };
    let now = match unix_now {
        Some(now) => now,
        None => {
            return None;
        },
    };
    if expiry <= now {
        return None;
    }
    let remaining: u64 = expiry - now;
    if remaining > maximum_ttl_seconds {
        return None;
    }
    Some(remaining)
}

/// The outcome of issuing a code at a time and with a nonce, where the random generator gave one.
pub open spec fn generated(
    token: Seq<u8>,
    ttl_seconds: u64,
    unix_now: Option<u64>,
    nonce: Option<Seq<u8>>,
) -> Result<Seq<char>, AuthError> {
    match (expiry_of(unix_now, ttl_seconds), nonce) {
        (Err(error), _) => Err(error),
        (Ok(_), None) => Err(AuthError::Random),
        (Ok(expires), Some(nonce)) => Ok(pairing_code(token, expires, nonce)),
    }
}

/// What holds of issuing a code, whatever the clock showed and the random generator gave: a code
/// is accepted until its expiry time.
pub open spec fn issued(
    token: Seq<u8>,
    ttl_seconds: u64,
    outcome: Result<Seq<char>, AuthError>,
) -> bool {
    exists|unix_now: Option<u64>, nonce: Option<Seq<u8>>|
        {
            &&& wall_reading(unix_now)
            &&& expiry_of(unix_now, ttl_seconds) is Ok ==> random_reading(
                PAIRING_NONCE_BYTES,
                nonce,
            )
            &&& nonce matches Some(bytes) ==> bytes.len() == PAIRING_NONCE_BYTES
            &&& outcome == #[trigger] generated(token, ttl_seconds, unix_now, nonce)
            &&& outcome matches Ok(code) ==> code_shaped(code) && accepted_until(
                token,
                code,
                (unix_now->0 + ttl_seconds) as u64,
            )
        }
}

/// The characters of an issued code.
pub open spec fn code_text(code: Result<String, AuthError>) -> Result<Seq<char>, AuthError> {
    match code {
        Ok(text) => Ok(text@),
        Err(error) => Err(error),
    }
}

/// A new code for the given seconds from now, with a random nonce.
pub fn generate_pairing_code(
    setup_token: &[u8],
    ttl_seconds: u64,
) -> (code: Result<String, AuthError>)
    requires
        setup_token@.len() <= MAX_KEY_BYTES,
    ensures
        issued(setup_token@, ttl_seconds, code_text(code)),
{
    let now = read_wall();
    let expires = match code_expiry(now, ttl_seconds) {
        Ok(expires) => expires,
        Err(error) => {
            assert(code_text(Err(error)) == generated(setup_token@, ttl_seconds, now, None));
            return Err(error);
        },
    };
    let nonce = match draw_bytes(PAIRING_NONCE_BYTES) {
        Some(nonce) => nonce,
        None => {
            assert(code_text(Err(AuthError::Random)) == generated(
                setup_token@,
                ttl_seconds,
                now,
                None,
            ));
            return Err(AuthError::Random);
        },
    };
    let code = sign_pairing_code(setup_token, expires, nonce.as_slice());
    assert(code_text(Ok(code)) == generated(setup_token@, ttl_seconds, now, Some(nonce@)));
    Ok(code)
}

/// A new code for the given seconds from now, for a setup token as it stands in its file.
pub fn create_pairing_code(
    setup_token: &str,
    ttl_seconds: u64,
) -> (code: Result<String, AuthError>)
    requires
        encode_utf8(setup_token@).len() <= MAX_KEY_BYTES,
    ensures
        issued(encode_utf8(setup_token@), ttl_seconds, code_text(code)),
{
    generate_pairing_code(setup_token.as_bytes(), ttl_seconds)
}

} // verus!
