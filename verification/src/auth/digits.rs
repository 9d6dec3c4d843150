//! Local codes: six digits that the server issues and remembers by their signature.

use crate::crypto::{hmac_sha256, hmac_sign, hmac_verify, MAX_KEY_BYTES};
use crate::text::{
    chars_of, decimal, digit, digits_value, is_digit, lemma_decimal, lemma_decimal_len,
    lemma_split_whole, push_decimal, split,
};
use vstd::prelude::*;
use vstd::string::*;
use vstd::utf8::{encode_utf8, is_ascii_chars_encode_utf8};

verus! {

/// How many local codes there are.
pub const LOCAL_CODES: u32 = 1_000_000;

/// The random bytes that a code is drawn from. There are so many that no code is likelier than
/// another by one part in two to the hundredth power.
pub const DRAW_BYTES: usize = 16;

/// Six digits.
pub open spec fn six_digits(text: Seq<char>) -> bool {
    text.len() == 6 && forall|i: int| 0 <= i < text.len() ==> is_digit(#[trigger] text[i])
}

pub fn is_six_digits(text: &str) -> (yes: bool)
    ensures
        yes == six_digits(text@),
{
    let chars = chars_of(text);
    if chars.len() != 6 {
        return false;
    }
    let mut i: usize = 0;
    while i < chars.len()
        invariant
            i <= chars@.len() == 6,
            chars@ == text@,
            forall|j: int| 0 <= j < i ==> is_digit(#[trigger] chars@[j]),
        decreases chars@.len() - i,
    {
        if !('0' <= chars[i] && chars[i] <= '9') {
            assert(!is_digit(text@[i as int]));
            return false;
        }
        i = i + 1;
    }
    true
}

/// A number below a million in six digits, with leading zeros.
pub open spec fn six_text(draw: int) -> Seq<char> {
    seq![
        digit(draw / 100_000 % 10),
        digit(draw / 10_000 % 10),
        digit(draw / 1_000 % 10),
        digit(draw / 100 % 10),
        digit(draw / 10 % 10),
        digit(draw % 10),
    ]
}

/// Every draw has a code of its own: six digits that denote it.
pub proof fn law_every_draw_has_its_own_code(draw: int)
    requires
        0 <= draw < LOCAL_CODES,
    ensures
        six_digits(six_text(draw)),
        digits_value(six_text(draw)) == draw,
{
    let s = six_text(draw);
    assert(is_digit(s[0]) && is_digit(s[1]) && is_digit(s[2]) && is_digit(s[3]) && is_digit(s[4])
        && is_digit(s[5]));
    let a = s.drop_last();
    let b = a.drop_last();
    let c = b.drop_last();
    let d = c.drop_last();
    let e = d.drop_last();
    assert(e.drop_last() =~= Seq::<char>::empty());
    assert(digits_value(e.drop_last()) == 0);
    assert(digits_value(e) == draw / 100_000 % 10);
    assert(digits_value(d) == draw / 10_000);
    assert(digits_value(c) == draw / 1_000);
    assert(digits_value(b) == draw / 100);
    assert(digits_value(a) == draw / 10);
}

fn push_digit(text: &mut String, value: u32)
    requires
        value < 10,
    ensures
        final(text)@ == old(text)@.push(digit(value as int)),
{
    let byte: u8 = 48 + value as u8;
    text.push(byte as char);
}

/// The code of a draw.
pub fn code_for(draw: u32) -> (code: String)
    requires
        draw < LOCAL_CODES,
    ensures
        code@ == six_text(draw as int),
        six_digits(code@),
{
    let mut code = String::new();
    push_digit(&mut code, draw / 100_000 % 10);
    push_digit(&mut code, draw / 10_000 % 10);
    push_digit(&mut code, draw / 1_000 % 10);
    push_digit(&mut code, draw / 100 % 10);
    push_digit(&mut code, draw / 10 % 10);
    push_digit(&mut code, draw % 10);
    proof {
        assert(code@ =~= six_text(draw as int));
        law_every_draw_has_its_own_code(draw as int);
    }
    code
}

/// The number whose digits to the base 256 are the bytes.
pub open spec fn big_endian(bytes: Seq<u8>) -> nat
    decreases bytes.len(),
{
    if bytes.len() == 0 {
        0
    } else {
        big_endian(bytes.drop_last()) * 256 + bytes.last() as nat
    }
}

/// The draw from what the random generator gave.
pub open spec fn draw_of(random: Option<Seq<u8>>) -> Option<u32> {
    match random {
        Some(bytes) => Some((big_endian(bytes) % (LOCAL_CODES as nat)) as u32),
        None => None,
    }
}

/// The draw that random bytes stand for.
pub fn code_draw(random: &[u8]) -> (draw: u32)
    ensures
        draw == big_endian(random@) % (LOCAL_CODES as nat),
        draw < LOCAL_CODES,
{
    let mut draw: u32 = 0;
    let mut i: usize = 0;
    while i < random.len()
        invariant
            i <= random@.len(),
            draw == big_endian(random@.take(i as int)) % 1_000_000,
        decreases random@.len() - i,
    {
        proof {
            let longer = random@.take(i + 1);
            assert(longer.drop_last() =~= random@.take(i as int));
            assert(longer.last() == random@[i as int]);
            let whole = big_endian(random@.take(i as int));
            assert((whole % 1_000_000 * 256 + random@[i as int] as nat) % 1_000_000 == (whole * 256
                + random@[i as int] as nat) % 1_000_000);
        }
        draw = (draw * 256 + random[i] as u32) % 1_000_000;
        i = i + 1;
    }
    assert(random@.take(i as int) =~= random@);
    draw
}

/// What is remembered of an issued code: when it expires, and the signature of that and the code.
#[derive(Debug)]
pub struct PairingRecord {
    expires: u64,
    tag: Vec<u8>,
}

/// The contents of a record.
#[verifier::ext_equal]
pub struct RecordModel {
    pub expires: u64,
    pub tag: Seq<u8>,
}

impl View for PairingRecord {
    type V = RecordModel;

    closed spec fn view(&self) -> RecordModel {
        RecordModel { expires: self.expires, tag: self.tag@ }
    }
}

/// What is signed of a code.
pub open spec fn record_message(expires: u64, code: Seq<char>) -> Seq<char> {
    decimal(expires as nat) + seq!['.'] + code
}

/// The record of a code.
pub open spec fn record_of(token: Seq<u8>, expires: u64, code: Seq<char>) -> RecordModel {
    RecordModel { expires, tag: hmac_sha256(token, encode_utf8(record_message(expires, code))) }
}

/// Whether a credential is the code of a record that has not expired.
pub open spec fn record_accepts(
    token: Seq<u8>,
    record: RecordModel,
    credential: Seq<char>,
    unix_now: Option<u64>,
) -> bool {
    &&& six_digits(credential)
    &&& unix_now matches Some(now) && now < record.expires
    &&& record == record_of(token, record.expires, credential)
}

/// Whether a record is known to have expired.
pub open spec fn record_expired(record: RecordModel, unix_now: Option<u64>) -> bool {
    unix_now matches Some(now) && record.expires <= now
}

fn message_text(expires: u64, code: &str) -> (text: String)
    requires
        six_digits(code@),
    ensures
        text@ == record_message(expires, code@),
        encode_utf8(text@).len() <= 27,
{
    let mut text = String::new();
    push_decimal(&mut text, expires);
    text.push('.');
    text.append(code);
    proof {
        assert(text@ =~= record_message(expires, code@));
        lemma_decimal(expires as nat);
        lemma_decimal_len(expires);
        let n = decimal(expires as nat).len() as int;
        assert forall|i: int| 0 <= i < text@.len() implies '\0' <= #[trigger] text@[i]
            <= '\u{7f}' by {
            if i < n {
                assert(is_digit(decimal(expires as nat)[i]));
            } else if i > n {
                assert(is_digit(code@[i - n - 1]));
            }
        }
        is_ascii_chars_encode_utf8(text@);
    }
    text
}

impl PairingRecord {
    pub fn new(setup_token: &[u8], expires: u64, code: &str) -> (record: Self)
        requires
            setup_token@.len() <= MAX_KEY_BYTES,
            six_digits(code@),
        ensures
            record@ == record_of(setup_token@, expires, code@),
    {
        let message = message_text(expires, code);
        PairingRecord { expires, tag: hmac_sign(setup_token, message.as_str().as_bytes()) }
    }

    pub fn accepts(&self, setup_token: &[u8], credential: &str, unix_now: Option<u64>) -> (yes: bool)
        requires
            setup_token@.len() <= MAX_KEY_BYTES,
        ensures
            yes == record_accepts(setup_token@, self@, credential@, unix_now),
    {
        if !is_six_digits(credential) || self.has_expired(unix_now) || unix_now.is_none() {
            return false;
        }
        let message = message_text(self.expires, credential);
        let verified = hmac_verify(
            setup_token,
            message.as_str().as_bytes(),
            self.tag.as_slice(),
        ).is_ok();
        proof {
            let expected = record_of(setup_token@, self@.expires, credential@);
            if verified {
                assert(self@ =~= expected);
            }
        }
        verified
    }

    pub fn has_expired(&self, unix_now: Option<u64>) -> (expired: bool)
        ensures
            expired == record_expired(self@, unix_now),
    {
        match unix_now {
            Some(now) => self.expires <= now,
            None => false,
        }
    }
}

/// Six digits are one piece, so they are no signed code.
pub proof fn lemma_six_digits_are_one_piece(text: Seq<char>)
    requires
        six_digits(text),
    ensures
        split(text, '.').len() == 1,
{
    assert(!text.contains('.')) by {
        if text.contains('.') {
            let i = text.index_of('.');
            assert(is_digit(text[i]));
        }
    }
    lemma_split_whole(text, '.');
}

/// Bytes are read as the digits of a number to the base 256, the first byte counting most.
pub proof fn law_bytes_are_digits(bytes: Seq<u8>, last: u8)
    ensures
        big_endian(bytes.push(last)) == 256 * big_endian(bytes) + last,
        big_endian(Seq::<u8>::empty()) == 0,
{
    assert(bytes.push(last).drop_last() =~= bytes);
}

} // verus!
