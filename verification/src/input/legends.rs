//! What the keys of a US keyboard print, and what a host reads of the strokes that it gets.

use super::calls::{stroke_calls, typed_calls};
use super::keymap::{
    all_mapped, law_layout_covers_protocol_text, law_strokes_are_not_modifiers, strokes, us_stroke,
    KeyStroke,
};
use super::{lemma_struck, strikes, InputModel, RecordedEvent};
use crate::protocol::{typeable, KeyCode};
use vstd::prelude::*;

verus! {

/// What a key with two legends prints.
pub open spec fn two(plain: char, shifted: char, shift: bool) -> Option<char> {
    if shift {
        Some(shifted)
    } else {
        Some(plain)
    }
}

/// What a key of a US keyboard prints, without and with Shift.
pub open spec fn legend(code: KeyCode, shift: bool) -> Option<char> {
    match code {
        KeyCode::KeyA => two('a', 'A', shift),
        KeyCode::KeyB => two('b', 'B', shift),
        KeyCode::KeyC => two('c', 'C', shift),
        KeyCode::KeyD => two('d', 'D', shift),
        KeyCode::KeyE => two('e', 'E', shift),
        KeyCode::KeyF => two('f', 'F', shift),
        KeyCode::KeyG => two('g', 'G', shift),
        KeyCode::KeyH => two('h', 'H', shift),
        KeyCode::KeyI => two('i', 'I', shift),
        KeyCode::KeyJ => two('j', 'J', shift),
        KeyCode::KeyK => two('k', 'K', shift),
        KeyCode::KeyL => two('l', 'L', shift),
        KeyCode::KeyM => two('m', 'M', shift),
        KeyCode::KeyN => two('n', 'N', shift),
        KeyCode::KeyO => two('o', 'O', shift),
        KeyCode::KeyP => two('p', 'P', shift),
        KeyCode::KeyQ => two('q', 'Q', shift),
        KeyCode::KeyR => two('r', 'R', shift),
        KeyCode::KeyS => two('s', 'S', shift),
        KeyCode::KeyT => two('t', 'T', shift),
        KeyCode::KeyU => two('u', 'U', shift),
        KeyCode::KeyV => two('v', 'V', shift),
        KeyCode::KeyW => two('w', 'W', shift),
        KeyCode::KeyX => two('x', 'X', shift),
        KeyCode::KeyY => two('y', 'Y', shift),
        KeyCode::KeyZ => two('z', 'Z', shift),
        KeyCode::Digit0 => two('0', ')', shift),
        KeyCode::Digit1 => two('1', '!', shift),
        KeyCode::Digit2 => two('2', '@', shift),
        KeyCode::Digit3 => two('3', '#', shift),
        KeyCode::Digit4 => two('4', '$', shift),
        KeyCode::Digit5 => two('5', '%', shift),
        KeyCode::Digit6 => two('6', '^', shift),
        KeyCode::Digit7 => two('7', '&', shift),
        KeyCode::Digit8 => two('8', '*', shift),
        KeyCode::Digit9 => two('9', '(', shift),
        KeyCode::Minus => two('-', '_', shift),
        KeyCode::Equal => two('=', '+', shift),
        KeyCode::LeftBracket => two('[', '{', shift),
        KeyCode::RightBracket => two(']', '}', shift),
        KeyCode::Backslash => two('\\', '|', shift),
        KeyCode::Semicolon => two(';', ':', shift),
        KeyCode::Apostrophe => two('\'', '"', shift),
        KeyCode::Grave => two('`', '~', shift),
        KeyCode::Comma => two(',', '<', shift),
        KeyCode::Period => two('.', '>', shift),
        KeyCode::Slash => two('/', '?', shift),
        KeyCode::Space => Some(' '),
        KeyCode::Tab => Some('\t'),
        KeyCode::Enter => Some('\n'),
        _ => None,
    }
}

/// The stroke of a character prints that character, and every character of the protocol's text
/// has a stroke.
pub proof fn law_stroke_prints_its_character(c: char)
    ensures
        typeable(c) <==> us_stroke(c) is Some,
        us_stroke(c) matches Some(stroke) ==> legend(stroke.code, stroke.shift) == Some(c),
{
}

/// Whether Shift is down once a host has got some calls.
pub open spec fn shift_after(shift: bool, calls: Seq<RecordedEvent>) -> bool
    decreases calls.len(),
{
    if calls.len() == 0 {
        shift
    } else if calls.last() == (RecordedEvent::KeyDown { code: KeyCode::LeftShift }) {
        true
    } else if calls.last() == (RecordedEvent::KeyUp { code: KeyCode::LeftShift }) {
        false
    } else {
        shift_after(shift, calls.drop_last())
    }
}

/// What a host with a US layout reads of some calls, the right Shift key being up: every press of
/// a key that prints is a character.
pub open spec fn printed(shift: bool, calls: Seq<RecordedEvent>) -> Seq<char>
    decreases calls.len(),
{
    if calls.len() == 0 {
        Seq::empty()
    } else {
        let front = calls.drop_last();
        match calls.last() {
            RecordedEvent::KeyDown { code } => match legend(code, shift_after(shift, front)) {
                Some(c) => printed(shift, front).push(c),
                None => printed(shift, front),
            },
            _ => printed(shift, front),
        }
    }
}

proof fn lemma_read_on(shift: bool, first: Seq<RecordedEvent>, second: Seq<RecordedEvent>)
    ensures
        shift_after(shift, first + second) == shift_after(shift_after(shift, first), second),
        printed(shift, first + second) == printed(shift, first) + printed(
            shift_after(shift, first),
            second,
        ),
    decreases second.len(),
{
    if second.len() == 0 {
        assert(first + second =~= first);
        assert(printed(shift, first) + Seq::<char>::empty() =~= printed(shift, first));
    } else {
        let shorter = second.drop_last();
        assert((first + second).drop_last() =~= first + shorter);
        assert((first + second).last() == second.last());
        lemma_read_on(shift, first, shorter);
        let shift_then = shift_after(shift, first);
        assert(printed(shift, first + second) =~= printed(shift, first) + printed(
            shift_then,
            second,
        ));
    }
}

proof fn lemma_stroke_is_read(shift: bool, stroke: KeyStroke)
    requires
        stroke.code != KeyCode::LeftShift,
        legend(stroke.code, stroke.shift) is Some,
    ensures
        shift_after(shift, stroke_calls(shift, stroke)) == shift,
        printed(shift, stroke_calls(shift, stroke)) == seq![legend(stroke.code, stroke.shift)->0],
{
    let down = RecordedEvent::KeyDown { code: KeyCode::LeftShift };
    let up = RecordedEvent::KeyUp { code: KeyCode::LeftShift };
    let press = RecordedEvent::KeyDown { code: stroke.code };
    let release = RecordedEvent::KeyUp { code: stroke.code };
    let calls = stroke_calls(shift, stroke);
    reveal_with_fuel(shift_after, 5);
    reveal_with_fuel(printed, 5);
    if stroke.shift == shift {
        assert(calls =~= seq![press, release]);
        assert(calls.drop_last() =~= seq![press]);
        assert(seq![press].drop_last() =~= Seq::<RecordedEvent>::empty());
    } else {
        let before = if stroke.shift {
            down
        } else {
            up
        };
        let behind = if stroke.shift {
            up
        } else {
            down
        };
        assert(calls =~= seq![before, press, release, behind]);
        assert(calls.drop_last() =~= seq![before, press, release]);
        assert(seq![before, press, release].drop_last() =~= seq![before, press]);
        assert(seq![before, press].drop_last() =~= seq![before]);
        assert(seq![before].drop_last() =~= Seq::<RecordedEvent>::empty());
    }
    assert(printed(shift, calls) =~= seq![legend(stroke.code, stroke.shift)->0]);
}

/// Typing a text makes the calls of which a host reads exactly that text, whether Shift is held or
/// not, and leaves Shift as it was.
pub proof fn law_typing_prints_the_text(shift: bool, text: Seq<char>)
    requires
        forall|i: int| 0 <= i < text.len() ==> typeable(#[trigger] text[i]),
    ensures
        all_mapped(text),
        printed(shift, typed_calls(shift, strokes(text))) == text,
        shift_after(shift, typed_calls(shift, strokes(text))) == shift,
    decreases text.len(),
{
    assert forall|i: int| 0 <= i < text.len() implies us_stroke(#[trigger] text[i]) is Some by {
        law_layout_covers_protocol_text(text[i]);
    }
    if text.len() > 0 {
        let shorter = text.drop_last();
        assert forall|i: int| 0 <= i < shorter.len() implies typeable(#[trigger] shorter[i]) by {
            assert(shorter[i] == text[i]);
        }
        law_typing_prints_the_text(shift, shorter);
        let list = strokes(text);
        assert(list.drop_last() =~= strokes(shorter));
        let c = text[text.len() - 1];
        assert(typeable(c));
        law_stroke_prints_its_character(c);
        law_strokes_are_not_modifiers(c);
        lemma_stroke_is_read(shift, list.last());
        lemma_read_on(
            shift,
            typed_calls(shift, strokes(shorter)),
            stroke_calls(shift, list.last()),
        );
        assert(text =~= shorter + seq![c]);
    } else {
        assert(printed(shift, typed_calls(shift, strokes(text))) =~= text);
    }
}

proof fn lemma_stroke_is_emitted(model: InputModel, stroke: KeyStroke)
    requires
        stroke.code != KeyCode::LeftShift,
        !model.keys.contains(stroke.code),
    ensures
        model.struck(stroke).events == model.events + stroke_calls(
            model.keys.contains(KeyCode::LeftShift),
            stroke,
        ),
        model.struck(stroke).keys == model.keys,
{
    lemma_struck(model, stroke);
    assert(model.keys.remove(stroke.code) =~= model.keys);
    assert(model.struck(stroke).events =~= model.events + stroke_calls(
        model.keys.contains(KeyCode::LeftShift),
        stroke,
    ));
}

/// A backend that holds none of the keys that a text strikes emits exactly the calls of typing it,
/// so that a host reads the text.
pub proof fn law_typed_text_is_emitted(model: InputModel, text: Seq<char>)
    requires
        forall|i: int| 0 <= i < text.len() ==> typeable(#[trigger] text[i]),
        forall|code: KeyCode| #[trigger] model.keys.contains(code) ==> !strikes(text, code),
    ensures
        ({
            let shift = model.keys.contains(KeyCode::LeftShift);
            let after = model.typed(strokes(text));
            &&& after.keys == model.keys
            &&& model.events.is_prefix_of(after.events)
            &&& printed(shift, after.events.skip(model.events.len() as int)) == text
        }),
{
    let shift = model.keys.contains(KeyCode::LeftShift);
    lemma_typed_text_is_emitted(model, text);
    law_typing_prints_the_text(shift, text);
    let after = model.typed(strokes(text));
    assert(after.events.skip(model.events.len() as int) =~= typed_calls(shift, strokes(text)));
}

proof fn lemma_typed_text_is_emitted(model: InputModel, text: Seq<char>)
    requires
        forall|i: int| 0 <= i < text.len() ==> typeable(#[trigger] text[i]),
        forall|code: KeyCode| #[trigger] model.keys.contains(code) ==> !strikes(text, code),
    ensures
        model.typed(strokes(text)).keys == model.keys,
        model.typed(strokes(text)).events == model.events + typed_calls(
            model.keys.contains(KeyCode::LeftShift),
            strokes(text),
        ),
    decreases text.len(),
{
    let shift = model.keys.contains(KeyCode::LeftShift);
    let list = strokes(text);
    if text.len() > 0 {
        let shorter = text.drop_last();
        assert(list.drop_last() =~= strokes(shorter));
        assert forall|i: int| 0 <= i < shorter.len() implies typeable(#[trigger] shorter[i]) by {
            assert(shorter[i] == text[i]);
        }
        assert forall|code: KeyCode| #[trigger] model.keys.contains(code) implies !strikes(
            shorter,
            code,
        ) by {
            if strikes(shorter, code) {
                let i = choose|i: int|
                    0 <= i < shorter.len() && (#[trigger] strokes(shorter)[i]).code == code;
                assert(list[i].code == code);
            }
        }
        lemma_typed_text_is_emitted(model, shorter);
        let c = text[text.len() - 1];
        law_layout_covers_protocol_text(c);
        law_strokes_are_not_modifiers(c);
        let last = list[text.len() - 1];
        assert(strikes(text, last.code));
        lemma_stroke_is_emitted(model.typed(strokes(shorter)), last);
        assert(model.typed(list).events =~= model.events + typed_calls(shift, list));
    } else {
        assert(model.typed(list).events =~= model.events + typed_calls(shift, list));
    }
}

} // verus!
