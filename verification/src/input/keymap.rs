//! The US keyboard layout: which stroke types which character.

use super::InputError;
use crate::protocol::{typeable, KeyCode};
use crate::text::chars_of;
use vstd::prelude::*;

verus! {

/// A key to press, with Shift held or not.
#[derive(Debug, Clone, Copy, PartialEq, Eq, Structural)]
pub struct KeyStroke {
    pub code: KeyCode,
    pub shift: bool,
}

/// The letter keys in alphabetical order.
pub open spec fn letter(index: int) -> KeyCode {
    if index == 0 {
        KeyCode::KeyA
    } else if index == 1 {
        KeyCode::KeyB
    } else if index == 2 {
        KeyCode::KeyC
    } else if index == 3 {
        KeyCode::KeyD
    } else if index == 4 {
        KeyCode::KeyE
    } else if index == 5 {
        KeyCode::KeyF
    } else if index == 6 {
        KeyCode::KeyG
    } else if index == 7 {
        KeyCode::KeyH
    } else if index == 8 {
        KeyCode::KeyI
    } else if index == 9 {
        KeyCode::KeyJ
    } else if index == 10 {
        KeyCode::KeyK
    } else if index == 11 {
        KeyCode::KeyL
    } else if index == 12 {
        KeyCode::KeyM
    } else if index == 13 {
        KeyCode::KeyN
    } else if index == 14 {
        KeyCode::KeyO
    } else if index == 15 {
        KeyCode::KeyP
    } else if index == 16 {
        KeyCode::KeyQ
    } else if index == 17 {
        KeyCode::KeyR
    } else if index == 18 {
        KeyCode::KeyS
    } else if index == 19 {
        KeyCode::KeyT
    } else if index == 20 {
        KeyCode::KeyU
    } else if index == 21 {
        KeyCode::KeyV
    } else if index == 22 {
        KeyCode::KeyW
    } else if index == 23 {
        KeyCode::KeyX
    } else if index == 24 {
        KeyCode::KeyY
    } else {
        KeyCode::KeyZ
    }
}

/// The stroke that types a character on a US keyboard.
pub open spec fn us_stroke(c: char) -> Option<KeyStroke> {
    match c {
        '0' => Some(KeyStroke { code: KeyCode::Digit0, shift: false }),
        '1' => Some(KeyStroke { code: KeyCode::Digit1, shift: false }),
        '2' => Some(KeyStroke { code: KeyCode::Digit2, shift: false }),
        '3' => Some(KeyStroke { code: KeyCode::Digit3, shift: false }),
        '4' => Some(KeyStroke { code: KeyCode::Digit4, shift: false }),
        '5' => Some(KeyStroke { code: KeyCode::Digit5, shift: false }),
        '6' => Some(KeyStroke { code: KeyCode::Digit6, shift: false }),
        '7' => Some(KeyStroke { code: KeyCode::Digit7, shift: false }),
        '8' => Some(KeyStroke { code: KeyCode::Digit8, shift: false }),
        '9' => Some(KeyStroke { code: KeyCode::Digit9, shift: false }),
        '!' => Some(KeyStroke { code: KeyCode::Digit1, shift: true }),
        '@' => Some(KeyStroke { code: KeyCode::Digit2, shift: true }),
        '#' => Some(KeyStroke { code: KeyCode::Digit3, shift: true }),
        '$' => Some(KeyStroke { code: KeyCode::Digit4, shift: true }),
        '%' => Some(KeyStroke { code: KeyCode::Digit5, shift: true }),
        '^' => Some(KeyStroke { code: KeyCode::Digit6, shift: true }),
        '&' => Some(KeyStroke { code: KeyCode::Digit7, shift: true }),
        '*' => Some(KeyStroke { code: KeyCode::Digit8, shift: true }),
        '(' => Some(KeyStroke { code: KeyCode::Digit9, shift: true }),
        ')' => Some(KeyStroke { code: KeyCode::Digit0, shift: true }),
        ' ' => Some(KeyStroke { code: KeyCode::Space, shift: false }),
        '-' => Some(KeyStroke { code: KeyCode::Minus, shift: false }),
        '_' => Some(KeyStroke { code: KeyCode::Minus, shift: true }),
        '=' => Some(KeyStroke { code: KeyCode::Equal, shift: false }),
        '+' => Some(KeyStroke { code: KeyCode::Equal, shift: true }),
        '[' => Some(KeyStroke { code: KeyCode::LeftBracket, shift: false }),
        '{' => Some(KeyStroke { code: KeyCode::LeftBracket, shift: true }),
        ']' => Some(KeyStroke { code: KeyCode::RightBracket, shift: false }),
        '}' => Some(KeyStroke { code: KeyCode::RightBracket, shift: true }),
        '\\' => Some(KeyStroke { code: KeyCode::Backslash, shift: false }),
        '|' => Some(KeyStroke { code: KeyCode::Backslash, shift: true }),
        ';' => Some(KeyStroke { code: KeyCode::Semicolon, shift: false }),
        ':' => Some(KeyStroke { code: KeyCode::Semicolon, shift: true }),
        '\'' => Some(KeyStroke { code: KeyCode::Apostrophe, shift: false }),
        '"' => Some(KeyStroke { code: KeyCode::Apostrophe, shift: true }),
        '`' => Some(KeyStroke { code: KeyCode::Grave, shift: false }),
        '~' => Some(KeyStroke { code: KeyCode::Grave, shift: true }),
        ',' => Some(KeyStroke { code: KeyCode::Comma, shift: false }),
        '<' => Some(KeyStroke { code: KeyCode::Comma, shift: true }),
        '.' => Some(KeyStroke { code: KeyCode::Period, shift: false }),
        '>' => Some(KeyStroke { code: KeyCode::Period, shift: true }),
        '/' => Some(KeyStroke { code: KeyCode::Slash, shift: false }),
        '?' => Some(KeyStroke { code: KeyCode::Slash, shift: true }),
        '\n' => Some(KeyStroke { code: KeyCode::Enter, shift: false }),
        '\t' => Some(KeyStroke { code: KeyCode::Tab, shift: false }),
        _ => if 'a' <= c <= 'z' {
            Some(KeyStroke { code: letter(c as int - 'a' as int), shift: false })
        } else if 'A' <= c <= 'Z' {
            Some(KeyStroke { code: letter(c as int - 'A' as int), shift: true })
        } else {
            None
        },
    }
}

/// Whether a US keyboard has a stroke for every character of a text.
pub open spec fn all_mapped(text: Seq<char>) -> bool {
    forall|i: int| 0 <= i < text.len() ==> us_stroke(#[trigger] text[i]) is Some
}

/// The strokes that type a text, one for each character.
pub open spec fn strokes(text: Seq<char>) -> Seq<KeyStroke> {
    text.map_values(|c: char| us_stroke(c)->0)
}

/// Whether `c` is the first character of `text` without a stroke.
pub open spec fn first_unmapped(text: Seq<char>, c: char) -> bool {
    exists|i: int|
        0 <= i < text.len() && #[trigger] text[i] == c && us_stroke(c) is None && all_mapped(
            text.take(i),
        )
}

fn letter_key(index: u8) -> (code: KeyCode)
    ensures
        code == letter(index as int),
{
    match index {
        0 => KeyCode::KeyA,
        1 => KeyCode::KeyB,
        2 => KeyCode::KeyC,
        3 => KeyCode::KeyD,
        4 => KeyCode::KeyE,
        5 => KeyCode::KeyF,
        6 => KeyCode::KeyG,
        7 => KeyCode::KeyH,
        8 => KeyCode::KeyI,
        9 => KeyCode::KeyJ,
        10 => KeyCode::KeyK,
        11 => KeyCode::KeyL,
        12 => KeyCode::KeyM,
        13 => KeyCode::KeyN,
        14 => KeyCode::KeyO,
        15 => KeyCode::KeyP,
        16 => KeyCode::KeyQ,
        17 => KeyCode::KeyR,
        18 => KeyCode::KeyS,
        19 => KeyCode::KeyT,
        20 => KeyCode::KeyU,
        21 => KeyCode::KeyV,
        22 => KeyCode::KeyW,
        23 => KeyCode::KeyX,
        24 => KeyCode::KeyY,
        _ => KeyCode::KeyZ,
    }
}

/// Maps a text to its strokes, or names its first character that has none.
pub fn map_text(text: &str) -> (mapped: Result<Vec<KeyStroke>, InputError>)
    ensures
        mapped is Ok <==> all_mapped(text@),
        mapped matches Ok(list) ==> list@ == strokes(text@),
        mapped matches Err(error) ==> error matches InputError::UnsupportedCharacter(c)
            && first_unmapped(text@, c),
{
    let chars = chars_of(text);
    let mut list: Vec<KeyStroke> = Vec::new();
    let mut i: usize = 0;
    while i < chars.len()
        invariant
            i <= chars@.len(),
            chars@ == text@,
            all_mapped(text@.take(i as int)),
            list@ == strokes(text@.take(i as int)),
        decreases chars@.len() - i,
    {
        let c: char = chars[i];
        match map_character(c) {
            Ok(stroke) => {
                list.push(stroke);
                assert(list@ =~= strokes(text@.take(i + 1)));
            },
            Err(error) => {
                assert(us_stroke(text@[i as int]) is None);
                return Err(error);
            },
        }
        i = i + 1;
    }
    assert(text@.take(i as int) =~= text@);
    Ok(list)
}

/// The stroke of one character.
pub fn map_character(c: char) -> (mapped: Result<KeyStroke, InputError>)
    ensures
        mapped == (match us_stroke(c) {
            Some(stroke) => Ok::<KeyStroke, InputError>(stroke),
            None => Err(InputError::UnsupportedCharacter(c)),
        }),
{
    let (code, shift) = match c {
        '0' => (KeyCode::Digit0, false),
        '1' => (KeyCode::Digit1, false),
        '2' => (KeyCode::Digit2, false),
        '3' => (KeyCode::Digit3, false),
        '4' => (KeyCode::Digit4, false),
        '5' => (KeyCode::Digit5, false),
        '6' => (KeyCode::Digit6, false),
        '7' => (KeyCode::Digit7, false),
        '8' => (KeyCode::Digit8, false),
        '9' => (KeyCode::Digit9, false),
        '!' => (KeyCode::Digit1, true),
        '@' => (KeyCode::Digit2, true),
        '#' => (KeyCode::Digit3, true),
        '$' => (KeyCode::Digit4, true),
        '%' => (KeyCode::Digit5, true),
        '^' => (KeyCode::Digit6, true),
        '&' => (KeyCode::Digit7, true),
        '*' => (KeyCode::Digit8, true),
        '(' => (KeyCode::Digit9, true),
        ')' => (KeyCode::Digit0, true),
        ' ' => (KeyCode::Space, false),
        '-' => (KeyCode::Minus, false),
        '_' => (KeyCode::Minus, true),
        '=' => (KeyCode::Equal, false),
        '+' => (KeyCode::Equal, true),
        '[' => (KeyCode::LeftBracket, false),
        '{' => (KeyCode::LeftBracket, true),
        ']' => (KeyCode::RightBracket, false),
        '}' => (KeyCode::RightBracket, true),
        '\\' => (KeyCode::Backslash, false),
        '|' => (KeyCode::Backslash, true),
        ';' => (KeyCode::Semicolon, false),
        ':' => (KeyCode::Semicolon, true),
        '\'' => (KeyCode::Apostrophe, false),
        '"' => (KeyCode::Apostrophe, true),
        '`' => (KeyCode::Grave, false),
        '~' => (KeyCode::Grave, true),
        ',' => (KeyCode::Comma, false),
        '<' => (KeyCode::Comma, true),
        '.' => (KeyCode::Period, false),
        '>' => (KeyCode::Period, true),
        '/' => (KeyCode::Slash, false),
        '?' => (KeyCode::Slash, true),
        '\n' => (KeyCode::Enter, false),
        '\t' => (KeyCode::Tab, false),
        _ => if 'a' <= c && c <= 'z' {
            (letter_key((c as u8) - 97), false)
        } else if 'A' <= c && c <= 'Z' {
            (letter_key((c as u8) - 65), true)
        } else {
            return Err(InputError::UnsupportedCharacter(c));
        },
    };
    Ok(KeyStroke { code, shift })
}

/// The layout covers exactly the characters that the protocol admits in a text.
pub proof fn law_layout_covers_protocol_text(c: char)
    ensures
        typeable(c) <==> us_stroke(c) is Some,
{
}

/// No stroke types two characters.
pub proof fn law_strokes_are_distinct(a: char, b: char)
    requires
        us_stroke(a) is Some,
        us_stroke(a) == us_stroke(b),
    ensures
        a == b,
{
}

/// Typing a character never strikes a modifier key of its own.
pub proof fn law_strokes_are_not_modifiers(c: char)
    requires
        us_stroke(c) is Some,
    ensures
        !us_stroke(c)->0.code.modifier(),
{
}

} // verus!
