//! What an event of a controller comes to, from the envelope to the backend.

use super::{processed, SessionError, SessionModel, SessionOutcome};
use crate::input::calls::typed_calls;
use crate::input::keymap::strokes;
use crate::input::legends::{law_typing_prints_the_text, printed};
use crate::input::{InputBackend, RecordedEvent};
use crate::protocol::{typeable, ClientEnvelope, ClientEvent, KeyCode, KeyState, MouseButton};
use crate::sensitivity::scaled;
use vstd::prelude::*;
use vstd::string::*;

verus! {

/// The calls that the backend got between two states.
pub open spec fn new_calls<B: InputBackend>(before: B, after: B) -> Seq<RecordedEvent> {
    after.asked().skip(before.asked().len() as int)
}

/// Nothing reached the backend.
pub open spec fn untouched<B: InputBackend>(before: B, after: B) -> bool {
    after.asked() == before.asked() && after.model() == before.model()
}

/// A call went out, and that call alone.
pub open spec fn got_one<B: InputBackend>(before: B, after: B, call: RecordedEvent) -> bool {
    after.asked() == before.asked().push(call)
}

/// An envelope that is taken counts its sequence number, and the next one has to be higher.
pub proof fn law_taken_envelope_advances_the_sequence<B: InputBackend>(
    session: SessionModel,
    after: SessionModel,
    envelope: ClientEnvelope,
    input: B,
    input_after: B,
    outcome: Result<SessionOutcome, SessionError>,
)
    requires
        processed(session, after, envelope, input, input_after, outcome),
    ensures
        outcome is Ok || (outcome matches Err(SessionError::Input(_))) ==> {
            &&& envelope.v == 1
            &&& session.last_sequence matches Some(previous) ==> previous < envelope.seq
            &&& after.last_sequence == Some(envelope.seq)
        },
        outcome is Err ==> after.keys == session.keys && after.buttons == session.buttons,
        outcome matches Err(SessionError::Input(error)) ==> input_after.failures()
            == input.failures().push(error),
        outcome is Ok ==> input_after.failures() == input.failures(),
        (outcome matches Err(SessionError::Protocol(_))) || (outcome matches Err(
            SessionError::Sequence,
        )) ==> after == session && input_after == input,
        after.sensitivity_bits == session.sensitivity_bits,
{
}

/// A mouse button of the controller is that button of the host. A press of a button that the
/// session does not hold is one press of that button and leaves every other button and every key
/// alone; a release of one that it holds is one release; anything else reaches nothing.
pub proof fn law_button_events_reach_their_button<B: InputBackend>(
    session: SessionModel,
    after: SessionModel,
    envelope: ClientEnvelope,
    button: MouseButton,
    input: B,
    input_after: B,
    outcome: Result<SessionOutcome, SessionError>,
)
    requires
        processed(session, after, envelope, input, input_after, outcome),
        outcome is Ok,
    ensures
        envelope.event == (ClientEvent::PointerButton { button, state: KeyState::Down }) ==> {
            &&& outcome == Ok::<SessionOutcome, SessionError>(SessionOutcome::Applied)
            &&& after.buttons == session.buttons.insert(button)
            &&& after.keys == session.keys
            &&& session.buttons.contains(button) ==> untouched(input, input_after)
            &&& !session.buttons.contains(button) ==> {
                &&& got_one(input, input_after, RecordedEvent::ButtonDown { button })
                &&& input_after.model().buttons == input.model().buttons.insert(button)
                &&& input_after.model().keys == input.model().keys
                &&& !input.model().buttons.contains(button) ==> input_after.model().events
                    == input.model().events.push(RecordedEvent::ButtonDown { button })
                &&& input.model().buttons.contains(button) ==> input_after.model().events
                    == input.model().events
            }
        },
        envelope.event == (ClientEvent::PointerButton { button, state: KeyState::Up }) ==> {
            &&& outcome == Ok::<SessionOutcome, SessionError>(SessionOutcome::Applied)
            &&& after.buttons == session.buttons.remove(button)
            &&& after.keys == session.keys
            &&& !session.buttons.contains(button) ==> untouched(input, input_after)
            &&& session.buttons.contains(button) ==> {
                &&& got_one(input, input_after, RecordedEvent::ButtonUp { button })
                &&& input_after.model().buttons == input.model().buttons.remove(button)
                &&& input_after.model().keys == input.model().keys
                &&& input.model().buttons.contains(button) ==> input_after.model().events
                    == input.model().events.push(RecordedEvent::ButtonUp { button })
                &&& !input.model().buttons.contains(button) ==> input_after.model().events
                    == input.model().events
            }
        },
{
    let down = RecordedEvent::ButtonDown { button };
    let up = RecordedEvent::ButtonUp { button };
    assert(input.asked() + seq![down] =~= input.asked().push(down));
    assert(input.asked() + seq![up] =~= input.asked().push(up));
    assert(input.asked() + Seq::<RecordedEvent>::empty() =~= input.asked());
    if envelope.event == (ClientEvent::PointerButton { button, state: KeyState::Down }) {
        assert(after.buttons =~= session.buttons.insert(button));
        assert(input.model().buttons.contains(button) ==> input.model().buttons.insert(button)
            =~= input.model().buttons);
    }
    if envelope.event == (ClientEvent::PointerButton { button, state: KeyState::Up }) {
        assert(after.buttons =~= session.buttons.remove(button));
        assert(!input.model().buttons.contains(button) ==> input.model().buttons.remove(button)
            =~= input.model().buttons);
    }
}

/// A key of the controller is that key of the host, in the same way.
pub proof fn law_key_events_reach_their_key<B: InputBackend>(
    session: SessionModel,
    after: SessionModel,
    envelope: ClientEnvelope,
    code: KeyCode,
    input: B,
    input_after: B,
    outcome: Result<SessionOutcome, SessionError>,
)
    requires
        processed(session, after, envelope, input, input_after, outcome),
        outcome is Ok,
    ensures
        envelope.event == (ClientEvent::Key { code, state: KeyState::Down }) ==> {
            &&& outcome == Ok::<SessionOutcome, SessionError>(SessionOutcome::Applied)
            &&& after.keys == session.keys.insert(code)
            &&& after.buttons == session.buttons
            &&& session.keys.contains(code) ==> untouched(input, input_after)
            &&& !session.keys.contains(code) ==> {
                &&& got_one(input, input_after, RecordedEvent::KeyDown { code })
                &&& input_after.model().keys == input.model().keys.insert(code)
                &&& input_after.model().buttons == input.model().buttons
                &&& !input.model().keys.contains(code) ==> input_after.model().events
                    == input.model().events.push(RecordedEvent::KeyDown { code })
                &&& input.model().keys.contains(code) ==> input_after.model().events
                    == input.model().events
            }
        },
        envelope.event == (ClientEvent::Key { code, state: KeyState::Up }) ==> {
            &&& outcome == Ok::<SessionOutcome, SessionError>(SessionOutcome::Applied)
            &&& after.keys == session.keys.remove(code)
            &&& after.buttons == session.buttons
            &&& !session.keys.contains(code) ==> untouched(input, input_after)
            &&& session.keys.contains(code) ==> {
                &&& got_one(input, input_after, RecordedEvent::KeyUp { code })
                &&& input_after.model().keys == input.model().keys.remove(code)
                &&& input_after.model().buttons == input.model().buttons
                &&& input.model().keys.contains(code) ==> input_after.model().events
                    == input.model().events.push(RecordedEvent::KeyUp { code })
                &&& !input.model().keys.contains(code) ==> input_after.model().events
                    == input.model().events
            }
        },
{
    let down = RecordedEvent::KeyDown { code };
    let up = RecordedEvent::KeyUp { code };
    assert(input.asked() + seq![down] =~= input.asked().push(down));
    assert(input.asked() + seq![up] =~= input.asked().push(up));
    assert(input.asked() + Seq::<RecordedEvent>::empty() =~= input.asked());
    if envelope.event == (ClientEvent::Key { code, state: KeyState::Down }) {
        assert(after.keys =~= session.keys.insert(code));
        assert(input.model().keys.contains(code) ==> input.model().keys.insert(code)
            =~= input.model().keys);
    }
    if envelope.event == (ClientEvent::Key { code, state: KeyState::Up }) {
        assert(after.keys =~= session.keys.remove(code));
        assert(!input.model().keys.contains(code) ==> input.model().keys.remove(code)
            =~= input.model().keys);
    }
}

/// A movement is one movement by the scaled deltas, each along its own axis, and a scroll is one
/// scroll by the same deltas; neither presses or releases anything.
pub proof fn law_motion_reaches_the_pointer<B: InputBackend>(
    session: SessionModel,
    after: SessionModel,
    envelope: ClientEnvelope,
    dx: i32,
    dy: i32,
    input: B,
    input_after: B,
    outcome: Result<SessionOutcome, SessionError>,
)
    requires
        processed(session, after, envelope, input, input_after, outcome),
        outcome is Ok,
        envelope.event == (ClientEvent::PointerMove { dx, dy }) || envelope.event == (
        ClientEvent::Scroll { dx, dy }),
    ensures
        outcome == Ok::<SessionOutcome, SessionError>(SessionOutcome::Applied),
        after.keys == session.keys,
        after.buttons == session.buttons,
        input_after.model().keys == input.model().keys,
        input_after.model().buttons == input.model().buttons,
        ({
            let call = if envelope.event is Scroll {
                RecordedEvent::Scroll { dx, dy }
            } else {
                RecordedEvent::PointerMove {
                    dx: scaled(dx as int, session.sensitivity_bits) as i32,
                    dy: scaled(dy as int, session.sensitivity_bits) as i32,
                }
            };
            &&& got_one(input, input_after, call)
            &&& input_after.model().events == input.model().events.push(call)
        }),
{
    let call = if envelope.event is Scroll {
        RecordedEvent::Scroll { dx, dy }
    } else {
        RecordedEvent::PointerMove {
            dx: scaled(dx as int, session.sensitivity_bits) as i32,
            dy: scaled(dy as int, session.sensitivity_bits) as i32,
        }
    };
    assert(input.asked() + seq![call] =~= input.asked().push(call));
}

/// A host with a US layout reads exactly the text that the controller sent, as long as the right
/// Shift key is up, and the session holds what it held.
pub proof fn law_text_reaches_the_host<B: InputBackend>(
    session: SessionModel,
    after: SessionModel,
    envelope: ClientEnvelope,
    text: String,
    input: B,
    input_after: B,
    outcome: Result<SessionOutcome, SessionError>,
)
    requires
        processed(session, after, envelope, input, input_after, outcome),
        outcome is Ok,
        envelope.event == (ClientEvent::TextInput { text }),
    ensures
        outcome == Ok::<SessionOutcome, SessionError>(SessionOutcome::Applied),
        after.keys == session.keys,
        after.buttons == session.buttons,
        input.asked().is_prefix_of(input_after.asked()),
        printed(
            input.model().keys.contains(KeyCode::LeftShift),
            new_calls(input, input_after),
        ) == text@,
        input_after.model().keys.contains(KeyCode::LeftShift) == input.model().keys.contains(
            KeyCode::LeftShift,
        ),
        input_after.model().buttons == input.model().buttons,
{
    assert forall|i: int| 0 <= i < text@.len() implies typeable(#[trigger] text@[i]) by {}
    let shift = input.model().keys.contains(KeyCode::LeftShift);
    law_typing_prints_the_text(shift, text@);
    let calls = typed_calls(shift, strokes(text@));
    assert(input_after.asked() == input.asked() + calls);
    assert(new_calls(input, input_after) =~= calls);
    crate::input::law_typing_preserves_modifiers(input.model(), text@);
}

/// A release of everything and a reset are one release of everything: neither the session nor the
/// backend holds anything afterwards. A heartbeat is answered with its own number and reaches
/// nothing.
pub proof fn law_release_and_heartbeat<B: InputBackend>(
    session: SessionModel,
    after: SessionModel,
    envelope: ClientEnvelope,
    input: B,
    input_after: B,
    outcome: Result<SessionOutcome, SessionError>,
)
    requires
        processed(session, after, envelope, input, input_after, outcome),
        outcome is Ok,
    ensures
        envelope.event is ReleaseAll || envelope.event is ClientStateReset ==> {
            &&& outcome == Ok::<SessionOutcome, SessionError>(SessionOutcome::Applied)
            &&& after.keys == Set::<KeyCode>::empty()
            &&& after.buttons == Set::<MouseButton>::empty()
            &&& input_after.model().keys == Set::<KeyCode>::empty()
            &&& input_after.model().buttons == Set::<MouseButton>::empty()
            &&& got_one(input, input_after, RecordedEvent::ReleaseAll)
        },
        envelope.event is Heartbeat ==> {
            &&& outcome == Ok::<SessionOutcome, SessionError>(
                SessionOutcome::Heartbeat(envelope.seq),
            )
            &&& after.keys == session.keys
            &&& after.buttons == session.buttons
            &&& untouched(input, input_after)
        },
        !(envelope.event is Heartbeat) ==> outcome == Ok::<SessionOutcome, SessionError>(
            SessionOutcome::Applied,
        ),
{
    let all = RecordedEvent::ReleaseAll;
    assert(input.asked() + seq![all] =~= input.asked().push(all));
    assert(input.asked() + Seq::<RecordedEvent>::empty() =~= input.asked());
}

/// What a session holds, the backend holds: this stays so of the buttons over every envelope that
/// is carried out or refused, and of the keys over every such envelope that types no text, since
/// typing lets go of the keys that it strikes.
pub proof fn law_held_buttons_are_held_by_the_backend<B: InputBackend>(
    session: SessionModel,
    after: SessionModel,
    envelope: ClientEnvelope,
    input: B,
    input_after: B,
    outcome: Result<SessionOutcome, SessionError>,
)
    requires
        processed(session, after, envelope, input, input_after, outcome),
        !(outcome matches Err(SessionError::Input(_))),
        session.buttons.subset_of(input.model().buttons),
    ensures
        after.buttons.subset_of(input_after.model().buttons),
        session.keys.subset_of(input.model().keys) && !(envelope.event is TextInput)
            ==> after.keys.subset_of(input_after.model().keys),
{
    if outcome is Ok {
        match envelope.event {
            ClientEvent::PointerButton { button, .. } => {
                law_button_events_reach_their_button(
                    session,
                    after,
                    envelope,
                    button,
                    input,
                    input_after,
                    outcome,
                );
            },
            ClientEvent::Key { code, .. } => {
                law_key_events_reach_their_key(
                    session,
                    after,
                    envelope,
                    code,
                    input,
                    input_after,
                    outcome,
                );
            },
            ClientEvent::PointerMove { dx, dy } => {
                law_motion_reaches_the_pointer(
                    session,
                    after,
                    envelope,
                    dx,
                    dy,
                    input,
                    input_after,
                    outcome,
                );
            },
            ClientEvent::Scroll { dx, dy } => {
                law_motion_reaches_the_pointer(
                    session,
                    after,
                    envelope,
                    dx,
                    dy,
                    input,
                    input_after,
                    outcome,
                );
            },
            ClientEvent::TextInput { text } => {
                law_text_reaches_the_host(
                    session,
                    after,
                    envelope,
                    text,
                    input,
                    input_after,
                    outcome,
                );
            },
            _ => {
                law_release_and_heartbeat(session, after, envelope, input, input_after, outcome);
            },
        }
    }
}

/// A backend that accepts commands carries out every envelope that keeps to the protocol and
/// whose number is new; one that refuses them leaves what is held alone and says why.
pub proof fn law_sound_envelope_is_carried_out<B: InputBackend>(
    session: SessionModel,
    after: SessionModel,
    envelope: ClientEnvelope,
    input: B,
    input_after: B,
    outcome: Result<SessionOutcome, SessionError>,
)
    requires
        processed(session, after, envelope, input, input_after, outcome),
        envelope.fault() is None,
        session.last_sequence matches Some(previous) ==> previous < envelope.seq,
    ensures
        input.readiness() is Accepts ==> outcome is Ok,
        envelope.event is Heartbeat ==> outcome is Ok,
        outcome matches Err(error) ==> error is Input,
{
}

} // verus!
