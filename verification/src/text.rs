//! Text primitives: trimming, splitting, ASCII case folding and decimal numerals.

use vstd::prelude::*;
use vstd::string::*;

verus! {

/// `String::push` of std: the character is added behind the ones already there.
pub assume_specification[ String::push ](s: &mut String, c: char)
    ensures
        final(s)@ == old(s)@.push(c),
;

/// The characters of a string, in order.
pub fn chars_of(text: &str) -> (chars: Vec<char>)
    ensures
        chars@ == text@,
{
    let mut chars: Vec<char> = Vec::new();
    for c in it: text.chars()
        invariant
            it.seq() == text@,
            chars@ == it.seq().take(it.index() as int),
    {
        chars.push(c);
    }
    chars
}

/// The string that holds `chars[from..to]`.
pub fn text_between(chars: &Vec<char>, from: usize, to: usize) -> (text: String)
    requires
        from <= to <= chars@.len(),
    ensures
        text@ == chars@.subrange(from as int, to as int),
{
    let mut text = String::new();
    let mut i: usize = from;
    while i < to
        invariant
            from <= i <= to <= chars@.len(),
            text@ == chars@.subrange(from as int, i as int),
        decreases to - i,
    {
        text.push(chars[i]);
        i = i + 1;
    }
    text
}

/// Whether two strings hold the same characters.
pub fn text_eq(left: &str, right: &str) -> (same: bool)
    ensures
        same == (left@ == right@),
{
    let a = chars_of(left);
    let b = chars_of(right);
    if a.len() != b.len() {
        return false;
    }
    let mut i: usize = 0;
    while i < a.len()
        invariant
            i <= a@.len() == b@.len(),
            forall|j: int| 0 <= j < i ==> a@[j] == b@[j],
            a@ == left@,
            b@ == right@,
        decreases a@.len() - i,
    {
        if a[i] != b[i] {
            assert(a@[i as int] != b@[i as int]);
            return false;
        }
        i = i + 1;
    }
    assert(a@ =~= b@);
    true
}

/// An ASCII upper-case letter mapped to its lower-case form; any other character unchanged.
pub open spec fn ascii_lower(c: char) -> char {
    if 'A' <= c <= 'Z' {
        (c as int + 32) as char
    } else {
        c
    }
}

/// Equality of two texts up to the case of ASCII letters.
pub open spec fn same_ignoring_ascii_case(left: Seq<char>, right: Seq<char>) -> bool {
    &&& left.len() == right.len()
    &&& forall|i: int| 0 <= i < left.len() ==> ascii_lower(left[i]) == ascii_lower(right[i])
}

fn lower(c: char) -> (l: char)
    ensures
        l == ascii_lower(c),
{
    if 'A' <= c && c <= 'Z' {
        ((c as u8) + 32) as char
    } else {
        c
    }
}

pub fn text_eq_ignore_ascii_case(left: &str, right: &str) -> (same: bool)
    ensures
        same == same_ignoring_ascii_case(left@, right@),
{
    let a = chars_of(left);
    let b = chars_of(right);
    if a.len() != b.len() {
        return false;
    }
    let mut i: usize = 0;
    while i < a.len()
        invariant
            i <= a@.len() == b@.len(),
            forall|j: int| 0 <= j < i ==> ascii_lower(a@[j]) == ascii_lower(b@[j]),
            a@ == left@,
            b@ == right@,
        decreases a@.len() - i,
    {
        if lower(a[i]) != lower(b[i]) {
            assert(ascii_lower(left@[i as int]) != ascii_lower(right@[i as int]));
            return false;
        }
        i = i + 1;
    }
    true
}

/// The characters with the Unicode property White_Space.
pub open spec fn white_space(c: char) -> bool {
    ||| '\u{9}' <= c <= '\u{d}'
    ||| c == ' '
    ||| c == '\u{85}'
    ||| c == '\u{a0}'
    ||| c == '\u{1680}'
    ||| '\u{2000}' <= c <= '\u{200a}'
    ||| c == '\u{2028}'
    ||| c == '\u{2029}'
    ||| c == '\u{202f}'
    ||| c == '\u{205f}'
    ||| c == '\u{3000}'
}

pub fn is_white_space(c: char) -> (yes: bool)
    ensures
        yes == white_space(c),
{
    ('\u{9}' <= c && c <= '\u{d}') || c == ' ' || c == '\u{85}' || c == '\u{a0}' || c == '\u{1680}'
        || ('\u{2000}' <= c && c <= '\u{200a}') || c == '\u{2028}' || c == '\u{2029}' || c
        == '\u{202f}' || c == '\u{205f}' || c == '\u{3000}'
}

/// The text without its leading white space.
pub open spec fn trimmed_start(s: Seq<char>) -> Seq<char>
    decreases s.len(),
{
    if s.len() > 0 && white_space(s[0]) {
        trimmed_start(s.drop_first())
    } else {
        s
    }
}

/// The text without its trailing white space.
pub open spec fn trimmed_end(s: Seq<char>) -> Seq<char>
    decreases s.len(),
{
    if s.len() > 0 && white_space(s.last()) {
        trimmed_end(s.drop_last())
    } else {
        s
    }
}

/// The text without its leading and trailing white space.
pub open spec fn trimmed(s: Seq<char>) -> Seq<char> {
    trimmed_end(trimmed_start(s))
}

/// The bounds of `trimmed(chars[from..to])` within `chars`.
pub fn trim_range(chars: &Vec<char>, from: usize, to: usize) -> (range: (usize, usize))
    requires
        from <= to <= chars@.len(),
    ensures
        from <= range.0 <= range.1 <= to,
        chars@.subrange(range.0 as int, range.1 as int) == trimmed(
            chars@.subrange(from as int, to as int),
        ),
{
    let ghost whole = chars@.subrange(from as int, to as int);
    let mut start: usize = from;
    while start < to && is_white_space(chars[start])
        invariant
            from <= start <= to <= chars@.len(),
            trimmed_start(whole) == trimmed_start(chars@.subrange(start as int, to as int)),
        decreases to - start,
    {
        assert(chars@.subrange(start as int, to as int).drop_first() =~= chars@.subrange(
            start + 1,
            to as int,
        ));
        start = start + 1;
    }
    let ghost tail = chars@.subrange(start as int, to as int);
    let mut end: usize = to;
    while end > start && is_white_space(chars[end - 1])
        invariant
            from <= start <= end <= to <= chars@.len(),
            trimmed_end(tail) == trimmed_end(chars@.subrange(start as int, end as int)),
        decreases end,
    {
        assert(chars@.subrange(start as int, end as int).drop_last() =~= chars@.subrange(
            start as int,
            end - 1,
        ));
        end = end - 1;
    }
    (start, end)
}

pub fn trim(text: &str) -> (inner: String)
    ensures
        inner@ == trimmed(text@),
{
    let chars = chars_of(text);
    let range: (usize, usize) = trim_range(&chars, 0, chars.len());
    assert(chars@.subrange(0, chars@.len() as int) =~= chars@);
    text_between(&chars, range.0, range.1)
}

/// The position of the first `separator` in `s`, or the length of `s`.
pub open spec fn first_position(s: Seq<char>, separator: char) -> int
    decreases s.len(),
{
    if s.len() == 0 || s[0] == separator {
        0
    } else {
        1 + first_position(s.drop_first(), separator)
    }
}

/// The pieces of `s` between its separators, the empty ones included.
pub open spec fn split(s: Seq<char>, separator: char) -> Seq<Seq<char>>
    decreases s.len(),
{
    let at = first_position(s, separator);
    if 0 <= at < s.len() {
        seq![s.take(at)] + split(s.skip(at + 1), separator)
    } else {
        seq![s]
    }
}

pub proof fn lemma_first_position(s: Seq<char>, separator: char)
    ensures
        0 <= first_position(s, separator) <= s.len(),
        forall|i: int| 0 <= i < first_position(s, separator) ==> s[i] != separator,
        first_position(s, separator) < s.len() ==> s[first_position(s, separator)] == separator,
    decreases s.len(),
{
    if s.len() > 0 && s[0] != separator {
        lemma_first_position(s.drop_first(), separator);
        let at = first_position(s.drop_first(), separator);
        assert forall|i: int| 0 <= i < first_position(s, separator) implies s[i] != separator by {
            if i > 0 {
                assert(s[i] == s.drop_first()[i - 1]);
            }
        }
        if at < s.drop_first().len() {
            assert(s.drop_first()[at] == s[at + 1]);
        }
    }
}

/// The first position is the only one with no separator before it.
pub proof fn lemma_first_position_is(s: Seq<char>, separator: char, at: int)
    requires
        0 <= at <= s.len(),
        forall|i: int| 0 <= i < at ==> s[i] != separator,
        at < s.len() ==> s[at] == separator,
    ensures
        first_position(s, separator) == at,
{
    lemma_first_position(s, separator);
    let found = first_position(s, separator);
    if found < at {
        assert(s[found] == separator);
    }
}

/// The position of the first `separator` in `chars[from..to]`, or `to`.
pub fn find_char(chars: &Vec<char>, from: usize, to: usize, separator: char) -> (at: usize)
    requires
        from <= to <= chars@.len(),
    ensures
        from <= at <= to,
        at - from == first_position(chars@.subrange(from as int, to as int), separator),
{
    let mut at: usize = from;
    while at < to && chars[at] != separator
        invariant
            from <= at <= to <= chars@.len(),
            forall|i: int| from <= i < at ==> chars@[i] != separator,
        decreases to - at,
    {
        at = at + 1;
    }
    proof {
        lemma_first_position_is(chars@.subrange(from as int, to as int), separator, at - from);
    }
    at
}

/// A piece without a separator, with one behind it, comes off the front.
pub proof fn lemma_split_front(piece: Seq<char>, rest: Seq<char>, separator: char)
    requires
        !piece.contains(separator),
    ensures
        split(piece + seq![separator] + rest, separator) == seq![piece] + split(rest, separator),
{
    let s = piece + seq![separator] + rest;
    let at = piece.len() as int;
    assert forall|i: int| 0 <= i < at implies s[i] != separator by {
        assert(piece.contains(piece[i]));
    }
    lemma_first_position_is(s, separator, at);
    assert(s.take(at) =~= piece);
    assert(s.skip(at + 1) =~= rest);
}

/// A text without a separator is one piece.
pub proof fn lemma_split_whole(piece: Seq<char>, separator: char)
    requires
        !piece.contains(separator),
    ensures
        split(piece, separator) == seq![piece],
{
    assert forall|i: int| 0 <= i < piece.len() implies piece[i] != separator by {
        assert(piece.contains(piece[i]));
    }
    lemma_first_position_is(piece, separator, piece.len() as int);
}

/// A text with a separator is its first piece, the separator and the text of the other pieces.
pub proof fn lemma_split_rejoins(s: Seq<char>, separator: char)
    ensures
        split(s, separator).len() >= 1,
        split(s, separator).len() == 1 ==> split(s, separator)[0] == s,
        split(s, separator).len() > 1 ==> exists|rest: Seq<char>|
            s == split(s, separator)[0] + seq![separator] + rest && #[trigger] split(
                rest,
                separator,
            ) == split(s, separator).skip(1),
    decreases s.len(),
{
    lemma_first_position(s, separator);
    let at = first_position(s, separator);
    if at < s.len() {
        let rest = s.skip(at + 1);
        lemma_split_rejoins(rest, separator);
        assert(s =~= s.take(at) + seq![separator] + rest);
        assert(split(s, separator).skip(1) =~= split(rest, separator));
    }
}

/// The characters of a sequence of strings.
pub open spec fn texts(strings: Seq<String>) -> Seq<Seq<char>> {
    strings.map_values(|s: String| s@)
}

pub fn split_text(text: &str, separator: char) -> (pieces: Vec<String>)
    ensures
        texts(pieces@) == split(text@, separator),
{
    let chars = chars_of(text);
    let mut pieces: Vec<String> = Vec::new();
    let mut from: usize = 0;
    let n: usize = chars.len();
    assert(chars@.skip(0) =~= chars@);
    loop
        invariant_except_break
            from <= n == chars@.len(),
            chars@ == text@,
            split(text@, separator) == texts(pieces@) + split(chars@.skip(from as int), separator),
        ensures
            texts(pieces@) == split(text@, separator),
        decreases n - from,
    {
        let at: usize = find_char(&chars, from, n, separator);
        let ghost rest = chars@.skip(from as int);
        let ghost before = texts(pieces@);
        assert(chars@.subrange(from as int, n as int) =~= rest);
        let piece = text_between(&chars, from, at);
        assert(piece@ =~= rest.take(at - from));
        pieces.push(piece);
        assert(texts(pieces@) =~= before.push(piece@));
        if at == n {
            assert(rest.take(at - from) =~= rest);
            assert(before + seq![rest] =~= before.push(rest));
            break;
        }
        assert(rest.skip(at - from + 1) =~= chars@.skip(at + 1));
        assert(before + (seq![piece@] + split(chars@.skip(at + 1), separator)) =~= before.push(
            piece@,
        ) + split(chars@.skip(at + 1), separator));
        from = at + 1;
    }
    pieces
}

/// A decimal digit as a character.
pub open spec fn digit(value: int) -> char {
    (48 + value) as char
}

/// The decimal numeral of a number, without leading zeros.
pub open spec fn decimal(value: nat) -> Seq<char>
    decreases value,
{
    if value < 10 {
        seq![digit(value as int)]
    } else {
        decimal(value / 10).push(digit((value % 10) as int))
    }
}

pub open spec fn is_digit(c: char) -> bool {
    '0' <= c <= '9'
}

/// The number that a sequence of digits denotes.
pub open spec fn digits_value(s: Seq<char>) -> nat
    decreases s.len(),
{
    if s.len() == 0 {
        0
    } else {
        digits_value(s.drop_last()) * 10 + (s.last() as int - 48) as nat
    }
}

/// The digits of an unsigned numeral, behind its optional plus sign.
pub open spec fn unsigned_digits(s: Seq<char>) -> Seq<char> {
    if s.len() > 0 && s[0] == '+' {
        s.drop_first()
    } else {
        s
    }
}

/// The number that a text denotes: an optional plus sign and one or more digits, of a value
/// below 2 to the 64.
pub open spec fn parsed_u64(s: Seq<char>) -> Option<u64> {
    let digits = unsigned_digits(s);
    if digits.len() > 0 && (forall|i: int| 0 <= i < digits.len() ==> is_digit(digits[i]))
        && digits_value(digits) <= u64::MAX {
        Some(digits_value(digits) as u64)
    } else {
        None
    }
}

/// Appends the decimal numeral of `value`.
pub fn push_decimal(out: &mut String, value: u64)
    ensures
        final(out)@ == old(out)@ + decimal(value as nat),
    decreases value,
{
    if value >= 10 {
        push_decimal(out, value / 10);
    }
    let d: u8 = (value % 10) as u8;
    out.push((48 + d) as char);
    assert(out@ =~= old(out)@ + decimal(value as nat));
}

/// The value of the longest prefix read so far only grows.
proof fn lemma_digits_value_monotonic(s: Seq<char>, n: int)
    requires
        0 <= n <= s.len(),
        forall|i: int| 0 <= i < s.len() ==> is_digit(s[i]),
    ensures
        digits_value(s.take(n)) <= digits_value(s),
    decreases s.len() - n,
{
    if n < s.len() {
        assert(s.take(n + 1).drop_last() =~= s.take(n));
        assert(is_digit(s[n]));
        lemma_digits_value_monotonic(s, n + 1);
    } else {
        assert(s.take(n) =~= s);
    }
}

pub fn parse_u64(text: &str) -> (value: Option<u64>)
    ensures
        value == parsed_u64(text@),
{
    let chars = chars_of(text);
    let start: usize = if chars.len() > 0 && chars[0] == '+' {
        1
    } else {
        0
    };
    let ghost digits = unsigned_digits(text@);
    assert(digits =~= chars@.skip(start as int));
    if start == chars.len() {
        return None;
    }
    let mut value: u64 = 0;
    let mut i: usize = start;
    assert(digits.take(0) =~= Seq::<char>::empty());
    while i < chars.len()
        invariant
            start <= i <= chars@.len(),
            digits == chars@.skip(start as int),
            digits == unsigned_digits(text@),
            value == digits_value(digits.take(i - start)),
            forall|j: int| 0 <= j < i - start ==> is_digit(digits[j]),
        decreases chars@.len() - i,
    {
        let c: char = chars[i];
        assert(c == digits[i - start]);
        if !('0' <= c && c <= '9') {
            assert(!is_digit(digits[i - start]));
            return None;
        }
        let d: u64 = (c as u64) - 48;
        let ghost next = digits.take(i - start + 1);
        assert(next.drop_last() =~= digits.take(i - start));
        assert(digits_value(next) == value * 10 + d);
        if value > (u64::MAX - d) / 10 {
            proof {
                assert(value * 10 + d > u64::MAX);
                if forall|j: int| 0 <= j < digits.len() ==> is_digit(digits[j]) {
                    lemma_digits_value_monotonic(digits, i - start + 1);
                }
            }
            return None;
        }
        value = value * 10 + d;
        i = i + 1;
    }
    assert(digits.take(i - start) =~= digits);
    Some(value)
}

/// A decimal numeral is made of digits, has a nonzero length and denotes its number.
pub proof fn lemma_decimal(value: nat)
    ensures
        decimal(value).len() > 0,
        forall|i: int| 0 <= i < decimal(value).len() ==> is_digit(decimal(value)[i]),
        digits_value(decimal(value)) == value,
    decreases value,
{
    if value < 10 {
        let s = decimal(value);
        assert(s.drop_last() =~= Seq::<char>::empty());
        assert(digits_value(s.drop_last()) == 0);
    } else {
        lemma_decimal(value / 10);
        assert(decimal(value).drop_last() =~= decimal(value / 10));
    }
}

/// Reading a numeral gives back the number that was written.
pub proof fn law_decimal_round_trip(value: u64)
    ensures
        parsed_u64(decimal(value as nat)) == Some(value),
{
    lemma_decimal(value as nat);
    assert(is_digit(decimal(value as nat)[0]));
}

/// The numeral of a 64-bit number has at most twenty digits.
pub proof fn lemma_decimal_len(value: u64)
    ensures
        1 <= decimal(value as nat).len() <= 20,
{
    reveal_with_fuel(decimal, 21);
}

/// Trimming takes white space away at both ends and nothing else: what is left neither begins nor
/// ends with white space, and stands in the text between white space only.
pub proof fn law_trimmed_text(s: Seq<char>)
    ensures
        trimmed(s).len() > 0 ==> !white_space(trimmed(s)[0]) && !white_space(trimmed(s).last()),
        exists|from: int| #[trigger] trimmed_at(s, trimmed(s), from),
{
    lemma_trimmed_start(s);
    let middle = trimmed_start(s);
    lemma_trimmed_end(middle);
    let inner = trimmed(s);
    let from: int = s.len() - middle.len();
    assert forall|i: int| from + inner.len() <= i < s.len() implies white_space(
        #[trigger] s[i],
    ) by {
        assert(middle[i - from] == s[i]);
    }
    assert(s.subrange(from, from + inner.len()) =~= inner);
    assert(trimmed_at(s, inner, from));
    if inner.len() > 0 {
        assert(inner[0] == middle[0]);
    }
}

/// A text is what stands in another from a place on, with white space on either side.
pub open spec fn trimmed_at(s: Seq<char>, inner: Seq<char>, from: int) -> bool {
    &&& 0 <= from
    &&& from + inner.len() <= s.len()
    &&& s.subrange(from, from + inner.len()) == inner
    &&& forall|i: int| 0 <= i < from ==> white_space(#[trigger] s[i])
    &&& forall|i: int| from + inner.len() <= i < s.len() ==> white_space(#[trigger] s[i])
}

proof fn lemma_trimmed_start(s: Seq<char>)
    ensures
        trimmed_start(s).len() <= s.len(),
        trimmed_start(s) == s.skip(s.len() - trimmed_start(s).len()),
        trimmed_start(s).len() > 0 ==> !white_space(trimmed_start(s)[0]),
        forall|i: int|
            0 <= i < s.len() - trimmed_start(s).len() ==> white_space(#[trigger] s[i]),
    decreases s.len(),
{
    if s.len() > 0 && white_space(s[0]) {
        let rest = s.drop_first();
        lemma_trimmed_start(rest);
        let n = s.len() - trimmed_start(s).len();
        assert forall|i: int| 0 <= i < n implies white_space(#[trigger] s[i]) by {
            if i > 0 {
                assert(rest[i - 1] == s[i]);
            }
        }
        assert(trimmed_start(s) =~= s.skip(n));
    } else {
        assert(s.skip(0) =~= s);
    }
}

proof fn lemma_trimmed_end(s: Seq<char>)
    ensures
        trimmed_end(s).len() <= s.len(),
        trimmed_end(s) == s.take(trimmed_end(s).len() as int),
        trimmed_end(s).len() > 0 ==> !white_space(trimmed_end(s).last()),
        forall|i: int| trimmed_end(s).len() <= i < s.len() ==> white_space(#[trigger] s[i]),
    decreases s.len(),
{
    if s.len() > 0 && white_space(s.last()) {
        let rest = s.drop_last();
        lemma_trimmed_end(rest);
        let n = trimmed_end(s).len() as int;
        assert forall|i: int| n <= i < s.len() implies white_space(#[trigger] s[i]) by {
            if i < rest.len() {
                assert(rest[i] == s[i]);
            }
        }
        assert(trimmed_end(s) =~= s.take(n));
    } else {
        assert(s.take(s.len() as int) =~= s);
    }
}

/// Among the ASCII characters, the space and the five control characters from the tab to the
/// carriage return are white space, and no letter, digit or mark is.
pub proof fn law_ascii_white_space(c: char)
    requires
        (c as int) < 128,
    ensures
        white_space(c) <==> c as int == 32 || 9 <= c as int <= 13,
{
}

/// Two texts are the same up to case exactly where each character of one is that of the other, or
/// both are the two forms of one ASCII letter.
pub proof fn law_same_up_to_case(left: Seq<char>, right: Seq<char>)
    ensures
        same_ignoring_ascii_case(left, right) <==> left.len() == right.len() && forall|i: int|
            0 <= i < left.len() ==> one_letter(#[trigger] left[i], right[i]),
{
    if same_ignoring_ascii_case(left, right) {
        assert forall|i: int| 0 <= i < left.len() implies one_letter(
            #[trigger] left[i],
            right[i],
        ) by {
            assert(ascii_lower(left[i]) == ascii_lower(right[i]));
        }
    }
    if left.len() == right.len() && forall|i: int|
        0 <= i < left.len() ==> one_letter(#[trigger] left[i], right[i]) {
        assert forall|i: int| 0 <= i < left.len() implies ascii_lower(left[i]) == ascii_lower(
            right[i],
        ) by {
            assert(one_letter(left[i], right[i]));
        }
    }
}

/// The same character, or the two forms of one ASCII letter.
pub open spec fn one_letter(a: char, b: char) -> bool {
    ||| a == b
    ||| 65 <= a as int <= 90 && b as int == a as int + 32
    ||| 65 <= b as int <= 90 && a as int == b as int + 32
}

/// The pieces of a text put together again, with the separator between them.
pub open spec fn joined(pieces: Seq<Seq<char>>, separator: char) -> Seq<char>
    decreases pieces.len(),
{
    if pieces.len() == 0 {
        Seq::empty()
    } else if pieces.len() == 1 {
        pieces[0]
    } else {
        pieces[0] + seq![separator] + joined(pieces.drop_first(), separator)
    }
}

/// Splitting cuts a text at every separator: no piece holds one, and the pieces put together again
/// are the text.
pub proof fn law_split_cuts_at_every_separator(s: Seq<char>, separator: char)
    ensures
        split(s, separator).len() >= 1,
        joined(split(s, separator), separator) == s,
        forall|i: int|
            0 <= i < split(s, separator).len() ==> !(#[trigger] split(s, separator)[i]).contains(
                separator,
            ),
    decreases s.len(),
{
    lemma_first_position(s, separator);
    let at = first_position(s, separator);
    let pieces = split(s, separator);
    if 0 <= at < s.len() {
        let rest = s.skip(at + 1);
        law_split_cuts_at_every_separator(rest, separator);
        assert(pieces.drop_first() =~= split(rest, separator));
        assert(s[at] == separator);
        assert(s =~= s.take(at) + seq![separator] + rest);
        assert forall|i: int| 0 <= i < pieces.len() implies !(#[trigger] pieces[i]).contains(
            separator,
        ) by {
            if i > 0 {
                assert(pieces[i] == split(rest, separator)[i - 1]);
            } else {
                assert(pieces[0] == s.take(at));
                if s.take(at).contains(separator) {
                    let k = choose|k: int| 0 <= k < at && s.take(at)[k] == separator;
                    assert(s[k] == separator);
                }
            }
        }
    } else {
        if s.contains(separator) {
            let k = choose|k: int| 0 <= k < s.len() && s[k] == separator;
            assert(s[k] == separator);
        }
    }
}

/// A numeral is read by its digits: the value of each is its place among the digits, and those in
/// front count ten times.
pub proof fn law_numerals_are_decimal(s: Seq<char>, c: char)
    requires
        is_digit(c),
    ensures
        0 <= c as int - '0' as int <= 9,
        digits_value(s.push(c)) == 10 * digits_value(s) + (c as int - '0' as int),
        digits_value(Seq::<char>::empty()) == 0,
{
    assert(s.push(c).drop_last() =~= s);
}

/// A number is written in digits that denote it, without a leading zero.
pub proof fn law_decimal_denotes_its_number(value: nat)
    ensures
        digits_value(decimal(value)) == value,
        decimal(value).len() > 0,
        decimal(value).len() > 1 ==> decimal(value)[0] != '0',
        forall|i: int| 0 <= i < decimal(value).len() ==> is_digit(#[trigger] decimal(value)[i]),
    decreases value,
{
    lemma_decimal(value);
    if value >= 10 {
        law_decimal_denotes_its_number(value / 10);
        let front = decimal(value / 10);
        assert(decimal(value)[0] == front[0]);
        if front.len() == 1 {
            assert(front.drop_last() =~= Seq::<char>::empty());
            reveal_with_fuel(digits_value, 2);
            assert(digits_value(front) == front[0] as int - 48);
        }
        assert(decimal(value).drop_last() =~= front);
    } else {
        assert(decimal(value).drop_last() =~= Seq::<char>::empty());
        reveal_with_fuel(digits_value, 2);
    }
}

} // verus!
