//! What a sequence of calls does to a backend, and the calls that typing makes.

use super::keymap::KeyStroke;
use super::{calls_grew, command_outcome, InputError, InputModel, Readiness, RecordedEvent};
use crate::protocol::KeyCode;
use vstd::prelude::*;

verus! {

/// What one successful call does, other than a release of everything.
pub open spec fn call_effect(model: InputModel, call: RecordedEvent) -> InputModel {
    match call {
        RecordedEvent::ButtonDown { button } => model.button_pressed(button),
        RecordedEvent::ButtonUp { button } => model.button_released(button),
        RecordedEvent::KeyDown { code } => model.key_pressed(code),
        RecordedEvent::KeyUp { code } => model.key_released(code),
        _ => model.emitted(call),
    }
}

/// What a sequence of successful calls does, one after the other.
pub open spec fn replay(model: InputModel, calls: Seq<RecordedEvent>) -> InputModel
    decreases calls.len(),
{
    if calls.len() == 0 {
        model
    } else {
        call_effect(replay(model, calls.drop_last()), calls.last())
    }
}

/// The call that brings Shift to a state, where it is not in that state.
pub open spec fn shift_calls(down: bool, wanted: bool) -> Seq<RecordedEvent> {
    if wanted && !down {
        seq![RecordedEvent::KeyDown { code: KeyCode::LeftShift }]
    } else if !wanted && down {
        seq![RecordedEvent::KeyUp { code: KeyCode::LeftShift }]
    } else {
        Seq::empty()
    }
}

/// The calls of one stroke: Shift as the stroke needs it, the key down and up, Shift as it was
/// before.
pub open spec fn stroke_calls(shift_down: bool, stroke: KeyStroke) -> Seq<RecordedEvent> {
    shift_calls(shift_down, stroke.shift).push(RecordedEvent::KeyDown { code: stroke.code }).push(
        RecordedEvent::KeyUp { code: stroke.code },
    ) + shift_calls(stroke.shift, shift_down)
}

/// The calls of a sequence of strokes.
pub open spec fn typed_calls(shift_down: bool, list: Seq<KeyStroke>) -> Seq<RecordedEvent>
    decreases list.len(),
{
    if list.len() == 0 {
        Seq::empty()
    } else {
        typed_calls(shift_down, list.drop_last()) + stroke_calls(shift_down, list.last())
    }
}

/// A sequence of calls ended at a failed one: so many of them were made. A backend that tracks
/// what it was asked to press counts the last of them too, but has emitted only those before it.
pub open spec fn calls_stopped(
    readiness: Readiness,
    before: InputModel,
    after: InputModel,
    asked_before: Seq<RecordedEvent>,
    asked_after: Seq<RecordedEvent>,
    calls: Seq<RecordedEvent>,
    count: int,
) -> bool {
    &&& 0 < count <= calls.len()
    &&& asked_after == asked_before + calls.take(count)
    &&& readiness is Tracks ==> {
        &&& after.keys == replay(before, calls.take(count)).keys
        &&& after.buttons == replay(before, calls.take(count)).buttons
        &&& after.events == replay(before, calls.take(count - 1)).events
    }
}

/// A single call, made and failed or made and carried out.
pub proof fn lemma_one_call(
    readiness: Readiness,
    before: InputModel,
    after: InputModel,
    asked_before: Seq<RecordedEvent>,
    asked_after: Seq<RecordedEvent>,
    call: RecordedEvent,
    result: Result<(), InputError>,
)
    requires
        command_outcome(readiness, before, after, call_effect(before, call), result),
        calls_grew(asked_before, asked_after, call),
    ensures
        asked_after == asked_before + seq![call],
        result is Err ==> calls_stopped(
            readiness,
            before,
            after,
            asked_before,
            asked_after,
            seq![call],
            1,
        ),
{
    let calls = seq![call];
    assert(asked_before.push(call) =~= asked_before + calls);
    assert(calls.take(1) =~= calls);
    assert(calls.drop_last() =~= Seq::<RecordedEvent>::empty());
    assert(calls.take(0) =~= Seq::<RecordedEvent>::empty());
    reveal_with_fuel(replay, 2);
}

/// The calls of one stroke, as a list.
pub fn stroke_list(shift_down: bool, stroke: KeyStroke) -> (calls: Vec<RecordedEvent>)
    ensures
        calls@ == stroke_calls(shift_down, stroke),
{
    let mut calls: Vec<RecordedEvent> = Vec::new();
    if stroke.shift && !shift_down {
        calls.push(RecordedEvent::KeyDown { code: KeyCode::LeftShift });
    } else if !stroke.shift && shift_down {
        calls.push(RecordedEvent::KeyUp { code: KeyCode::LeftShift });
    }
    calls.push(RecordedEvent::KeyDown { code: stroke.code });
    calls.push(RecordedEvent::KeyUp { code: stroke.code });
    if stroke.shift && !shift_down {
        calls.push(RecordedEvent::KeyUp { code: KeyCode::LeftShift });
    } else if !stroke.shift && shift_down {
        calls.push(RecordedEvent::KeyDown { code: KeyCode::LeftShift });
    }
    assert(calls@ =~= stroke_calls(shift_down, stroke));
    calls
}

/// Every call of a stroke presses or releases a key.
pub proof fn lemma_stroke_calls_are_key_calls(shift_down: bool, stroke: KeyStroke, i: int)
    requires
        0 <= i < stroke_calls(shift_down, stroke).len(),
    ensures
        stroke_calls(shift_down, stroke)[i] is KeyDown || stroke_calls(
            shift_down,
            stroke,
        )[i] is KeyUp,
{
}

/// A sequence of calls does what its parts do, one after the other.
pub proof fn lemma_replay_append(
    model: InputModel,
    first: Seq<RecordedEvent>,
    second: Seq<RecordedEvent>,
)
    ensures
        replay(model, first + second) == replay(replay(model, first), second),
    decreases second.len(),
{
    if second.len() == 0 {
        assert(first + second =~= first);
    } else {
        assert((first + second).drop_last() =~= first + second.drop_last());
        lemma_replay_append(model, first, second.drop_last());
    }
}

/// One more call has its effect on top of those before it.
pub proof fn lemma_replay_next(model: InputModel, calls: Seq<RecordedEvent>, i: int)
    requires
        0 <= i < calls.len(),
    ensures
        replay(model, calls.take(i + 1)) == call_effect(replay(model, calls.take(i)), calls[i]),
{
    assert(calls.take(i + 1).drop_last() =~= calls.take(i));
}

/// The calls of a stroke make the stroke.
pub proof fn lemma_replay_stroke(model: InputModel, stroke: KeyStroke)
    requires
        stroke.code != KeyCode::LeftShift,
    ensures
        replay(model, stroke_calls(model.keys.contains(KeyCode::LeftShift), stroke))
            == model.struck(stroke),
{
    let down = model.keys.contains(KeyCode::LeftShift);
    let calls = stroke_calls(down, stroke);
    let first = shift_calls(down, stroke.shift);
    let last = shift_calls(stroke.shift, down);
    let press = RecordedEvent::KeyDown { code: stroke.code };
    let release = RecordedEvent::KeyUp { code: stroke.code };
    let ready = model.shift_set(stroke.shift);
    reveal_with_fuel(replay, 2);
    assert(replay(model, first) == ready) by {
        if first.len() == 1 {
            assert(first.drop_last() =~= Seq::<RecordedEvent>::empty());
        }
    }
    let middle = first.push(press).push(release);
    assert(middle.drop_last() =~= first.push(press));
    assert(first.push(press).drop_last() =~= first);
    let struck = ready.key_pressed(stroke.code).key_released(stroke.code);
    assert(replay(model, middle) == struck);
    assert(struck.keys.contains(KeyCode::LeftShift) == stroke.shift);
    lemma_replay_append(model, middle, last);
    assert(replay(struck, last) == struck.shift_set(down)) by {
        if last.len() == 1 {
            assert(last.drop_last() =~= Seq::<RecordedEvent>::empty());
        }
    }
}

/// The calls of the first strokes come first, and those of the next stroke come next.
pub proof fn lemma_typed_calls_in_order(shift_down: bool, list: Seq<KeyStroke>, i: int)
    requires
        0 <= i < list.len(),
    ensures
        typed_calls(shift_down, list.take(i + 1)) == typed_calls(shift_down, list.take(i))
            + stroke_calls(shift_down, list[i]),
        typed_calls(shift_down, list.take(i + 1)).is_prefix_of(typed_calls(shift_down, list)),
    decreases list.len() - i,
{
    assert(list.take(i + 1).drop_last() =~= list.take(i));
    if i + 1 == list.len() {
        assert(list.take(i + 1) =~= list);
    } else {
        lemma_typed_calls_in_order(shift_down, list, i + 1);
        assert(list.take(i + 2).drop_last() =~= list.take(i + 1));
        let shorter = typed_calls(shift_down, list.take(i + 1));
        let longer = typed_calls(shift_down, list.take(i + 2));
        let whole = typed_calls(shift_down, list);
        assert(shorter.is_prefix_of(whole)) by {
            assert(longer =~= whole.take(longer.len() as int));
            assert(shorter =~= whole.take(shorter.len() as int));
        }
    }
}

} // verus!
