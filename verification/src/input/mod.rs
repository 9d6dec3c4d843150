//! Input backends: what every backend does with a command, a recording backend and an
//! unavailable one.

pub mod calls;
pub mod held;
pub mod kernel;
pub mod keymap;
pub mod laws;
pub mod legends;
pub mod linux;
pub mod select;

pub use keymap::{map_text, KeyStroke};
pub use select::{create_backend, SelectedBackend};

use crate::protocol::{KeyCode, MouseButton};
use calls::{
    calls_stopped, lemma_replay_append, lemma_replay_next, lemma_replay_stroke,
    lemma_stroke_calls_are_key_calls, lemma_typed_calls_in_order, replay, stroke_calls, stroke_list,
    typed_calls,
};
use held::HeldSet;
use keymap::{all_mapped, first_unmapped, law_strokes_are_not_modifiers, strokes, us_stroke};
use vstd::prelude::*;
use vstd::string::*;

verus! {

/// An input event as a backend emitted it.
#[derive(Debug, Clone, Copy, PartialEq, Eq, Structural)]
pub enum RecordedEvent {
    PointerMove { dx: i32, dy: i32 },
    Scroll { dx: i32, dy: i32 },
    ButtonDown { button: MouseButton },
    ButtonUp { button: MouseButton },
    KeyDown { code: KeyCode },
    KeyUp { code: KeyCode },
    ReleaseAll,
}

#[derive(Debug, Clone)]
pub struct BackendStatus {
    pub name: String,
    pub available: bool,
    pub detail: Option<String>,
}

/// Why a backend refused a command. `Device` holds the description of the failed device
/// operation.
#[derive(Debug)]
pub enum InputError {
    Unavailable(String),
    UnsupportedCharacter(char),
    Device(String),
}

/// What std's `Debug` writes for a character: the character in single quotes, escaped where it
/// does not print.
pub uninterp spec fn debug_char(c: char) -> Seq<char>;

/// `Debug` formatting of a `char` by std. The contract claims only that the text is determined
/// by the character.
#[verifier::external_body]
fn format_char(c: char) -> (text: String)
    ensures
        text@ == debug_char(c),
{
    format!("{c:?}")
}

impl InputError {
    /// The description that the controller is shown.
    pub open spec fn description(self) -> Seq<char> {
        match self {
            InputError::Unavailable(detail) => "input backend is unavailable: "@ + detail@,
            InputError::UnsupportedCharacter(c) => "unsupported text character "@ + debug_char(c),
            InputError::Device(detail) => "input device operation failed: "@ + detail@,
        }
    }

    pub fn message(&self) -> (message: String)
        ensures
            message@ == self.description(),
    {
        match self {
            InputError::Unavailable(detail) => "input backend is unavailable: ".to_owned().concat(
                detail.as_str(),
            ),
            InputError::UnsupportedCharacter(c) => "unsupported text character ".to_owned().concat(
                format_char(*c).as_str(),
            ),
            InputError::Device(detail) => "input device operation failed: ".to_owned().concat(
                detail.as_str(),
            ),
        }
    }
}

/// What a backend holds down and what it has emitted so far.
#[verifier::ext_equal]
pub struct InputModel {
    pub keys: Set<KeyCode>,
    pub buttons: Set<MouseButton>,
    pub events: Seq<RecordedEvent>,
}

impl InputModel {
    /// The model with one more event emitted.
    pub open spec fn emitted(self, event: RecordedEvent) -> InputModel {
        InputModel { keys: self.keys, buttons: self.buttons, events: self.events.push(event) }
    }

    /// A press emits an event only where the button was up.
    pub open spec fn button_pressed(self, button: MouseButton) -> InputModel {
        if self.buttons.contains(button) {
            self
        } else {
            InputModel {
                keys: self.keys,
                buttons: self.buttons.insert(button),
                events: self.events.push(RecordedEvent::ButtonDown { button }),
            }
        }
    }

    /// A release emits an event only where the button was down.
    pub open spec fn button_released(self, button: MouseButton) -> InputModel {
        if self.buttons.contains(button) {
            InputModel {
                keys: self.keys,
                buttons: self.buttons.remove(button),
                events: self.events.push(RecordedEvent::ButtonUp { button }),
            }
        } else {
            self
        }
    }

    /// A press emits an event only where the key was up.
    pub open spec fn key_pressed(self, code: KeyCode) -> InputModel {
        if self.keys.contains(code) {
            self
        } else {
            InputModel {
                keys: self.keys.insert(code),
                buttons: self.buttons,
                events: self.events.push(RecordedEvent::KeyDown { code }),
            }
        }
    }

    /// A release emits an event only where the key was down.
    pub open spec fn key_released(self, code: KeyCode) -> InputModel {
        if self.keys.contains(code) {
            InputModel {
                keys: self.keys.remove(code),
                buttons: self.buttons,
                events: self.events.push(RecordedEvent::KeyUp { code }),
            }
        } else {
            self
        }
    }

    /// Shift brought to the state that a stroke needs.
    pub open spec fn shift_set(self, wanted: bool) -> InputModel {
        if wanted {
            self.key_pressed(KeyCode::LeftShift)
        } else {
            self.key_released(KeyCode::LeftShift)
        }
    }

    /// One stroke: Shift as the stroke needs it, the key down and up, Shift as it was before.
    pub open spec fn struck(self, stroke: KeyStroke) -> InputModel {
        self.shift_set(stroke.shift).key_pressed(stroke.code).key_released(stroke.code).shift_set(
            self.keys.contains(KeyCode::LeftShift),
        )
    }

    /// A sequence of strokes, one after the other.
    pub open spec fn typed(self, list: Seq<KeyStroke>) -> InputModel
        decreases list.len(),
    {
        if list.len() == 0 {
            self
        } else {
            self.typed(list.drop_last()).struck(list.last())
        }
    }

    /// Nothing is held.
    pub open spec fn at_rest(self) -> bool {
        self.keys == Set::<KeyCode>::empty() && self.buttons == Set::<MouseButton>::empty()
    }
}

/// The button releases for a list of buttons.
pub open spec fn button_ups(list: Seq<MouseButton>) -> Seq<RecordedEvent> {
    list.map_values(|button: MouseButton| RecordedEvent::ButtonUp { button })
}

/// The key releases for a list of keys.
pub open spec fn key_ups(list: Seq<KeyCode>) -> Seq<RecordedEvent> {
    list.map_values(|code: KeyCode| RecordedEvent::KeyUp { code })
}

/// `list` holds every member of `set`, each once.
pub open spec fn lists<T>(list: Seq<T>, set: Set<T>) -> bool {
    list.no_duplicates() && list.to_set() == set
}

/// Every held button is released once, then every held key once; within each group the order is
/// open.
pub open spec fn released_by(
    before: InputModel,
    after: InputModel,
    buttons: Seq<MouseButton>,
    keys: Seq<KeyCode>,
) -> bool {
    &&& lists(buttons, before.buttons)
    &&& lists(keys, before.keys)
    &&& after.at_rest()
    &&& after.events == before.events + button_ups(buttons) + key_ups(keys)
}

/// A release that ended at a failure: so many buttons and keys were tried and count as released,
/// and all but the last of them were emitted.
pub open spec fn released_in_part(
    before: InputModel,
    after: InputModel,
    buttons: Seq<MouseButton>,
    keys: Seq<KeyCode>,
    tried: int,
) -> bool {
    &&& 0 < tried <= buttons.len() + keys.len()
    &&& after.buttons == if tried <= buttons.len() {
        buttons.skip(tried).to_set()
    } else {
        Set::empty()
    }
    &&& after.keys == if tried <= buttons.len() {
        before.keys
    } else {
        keys.skip(tried - buttons.len()).to_set()
    }
    &&& after.events == before.events + (button_ups(buttons) + key_ups(keys)).take(tried - 1)
}

/// The outcome of a release of everything that takes the buttons and keys in the order of two
/// lists.
pub open spec fn release_outcome(
    before: InputModel,
    after: InputModel,
    buttons: Seq<MouseButton>,
    keys: Seq<KeyCode>,
    result: Result<(), InputError>,
) -> bool {
    &&& lists(buttons, before.buttons)
    &&& lists(keys, before.keys)
    &&& match result {
        Ok(_) => released_by(before, after, buttons, keys),
        Err(_) => exists|tried: int| #[trigger]
            released_in_part(before, after, buttons, keys, tried),
    }
}

/// What is known of a backend before it is given a command.
pub enum Readiness {
    /// Every command succeeds.
    Accepts,
    /// Every command but a release of everything fails for this reason, and changes nothing.
    Refuses { reason: Seq<char> },
    /// The device decides. A failed command does not count as emitted, but what it presses or
    /// releases counts as pressed or released all the same.
    Tracks,
}

/// The outcome of a command, given what was known of the backend.
pub open spec fn command_outcome(
    readiness: Readiness,
    before: InputModel,
    after: InputModel,
    intended: InputModel,
    result: Result<(), InputError>,
) -> bool {
    &&& result is Ok ==> after == intended
    &&& readiness is Accepts ==> result is Ok
    &&& readiness matches Readiness::Refuses { reason } ==> after == before && (result matches Err(
        error,
    ) && unavailable(error, reason))
    &&& readiness is Tracks && result is Err ==> {
        &&& after.keys == intended.keys
        &&& after.buttons == intended.buttons
        &&& after.events == before.events
    }
}

/// One more call was made.
pub open spec fn calls_grew(
    before: Seq<RecordedEvent>,
    after: Seq<RecordedEvent>,
    call: RecordedEvent,
) -> bool {
    after == before.push(call)
}

/// A call that failed left its failure behind, and one that succeeded left none.
pub open spec fn failed_with(
    before: Seq<InputError>,
    after: Seq<InputError>,
    result: Result<(), InputError>,
) -> bool {
    after == match result {
        Ok(_) => before,
        Err(error) => before.push(error),
    }
}

/// A consumer of input commands. A command that succeeds has its effect on the model; what a
/// failed command leaves behind depends on the backend, as its readiness says.
pub trait InputBackend: Send {
    /// What the backend holds and has emitted.
    spec fn model(&self) -> InputModel;

    /// What is known before a command.
    spec fn readiness(&self) -> Readiness;

    /// Every call that the backend got, in order and whatever became of it.
    spec fn asked(&self) -> Seq<RecordedEvent>;

    /// Every failure that a call of the backend ended in, in order.
    spec fn failures(&self) -> Seq<InputError>;

    /// Whether one release of everything brings the backend to a state.
    spec fn release_effect(&self, after: InputModel) -> bool;

    fn status(&self) -> BackendStatus;

    fn move_pointer(&mut self, dx: i32, dy: i32) -> (result: Result<(), InputError>)
        ensures
            final(self).readiness() == old(self).readiness(),
            failed_with(old(self).failures(), final(self).failures(), result),
            calls_grew(
                old(self).asked(),
                final(self).asked(),
                RecordedEvent::PointerMove { dx, dy },
            ),
            command_outcome(
                old(self).readiness(),
                old(self).model(),
                final(self).model(),
                old(self).model().emitted(RecordedEvent::PointerMove { dx, dy }),
                result,
            ),
    ;

    fn scroll(&mut self, dx: i32, dy: i32) -> (result: Result<(), InputError>)
        ensures
            final(self).readiness() == old(self).readiness(),
            failed_with(old(self).failures(), final(self).failures(), result),
            calls_grew(old(self).asked(), final(self).asked(), RecordedEvent::Scroll { dx, dy }),
            command_outcome(
                old(self).readiness(),
                old(self).model(),
                final(self).model(),
                old(self).model().emitted(RecordedEvent::Scroll { dx, dy }),
                result,
            ),
    ;

    fn button_down(&mut self, button: MouseButton) -> (result: Result<(), InputError>)
        ensures
            final(self).readiness() == old(self).readiness(),
            failed_with(old(self).failures(), final(self).failures(), result),
            calls_grew(
                old(self).asked(),
                final(self).asked(),
                RecordedEvent::ButtonDown { button },
            ),
            command_outcome(
                old(self).readiness(),
                old(self).model(),
                final(self).model(),
                old(self).model().button_pressed(button),
                result,
            ),
    ;

    fn button_up(&mut self, button: MouseButton) -> (result: Result<(), InputError>)
        ensures
            final(self).readiness() == old(self).readiness(),
            failed_with(old(self).failures(), final(self).failures(), result),
            calls_grew(old(self).asked(), final(self).asked(), RecordedEvent::ButtonUp { button }),
            command_outcome(
                old(self).readiness(),
                old(self).model(),
                final(self).model(),
                old(self).model().button_released(button),
                result,
            ),
    ;

    fn key_down(&mut self, code: KeyCode) -> (result: Result<(), InputError>)
        ensures
            final(self).readiness() == old(self).readiness(),
            failed_with(old(self).failures(), final(self).failures(), result),
            calls_grew(old(self).asked(), final(self).asked(), RecordedEvent::KeyDown { code }),
            command_outcome(
                old(self).readiness(),
                old(self).model(),
                final(self).model(),
                old(self).model().key_pressed(code),
                result,
            ),
    ;

    fn key_up(&mut self, code: KeyCode) -> (result: Result<(), InputError>)
        ensures
            final(self).readiness() == old(self).readiness(),
            failed_with(old(self).failures(), final(self).failures(), result),
            calls_grew(old(self).asked(), final(self).asked(), RecordedEvent::KeyUp { code }),
            command_outcome(
                old(self).readiness(),
                old(self).model(),
                final(self).model(),
                old(self).model().key_released(code),
                result,
            ),
    ;

    fn is_key_down(&self, code: KeyCode) -> (down: bool)
        ensures
            down == self.model().keys.contains(code),
    ;

    fn release_all(&mut self) -> (result: Result<(), InputError>)
        ensures
            final(self).readiness() == old(self).readiness(),
            failed_with(old(self).failures(), final(self).failures(), result),
            calls_grew(old(self).asked(), final(self).asked(), RecordedEvent::ReleaseAll),
            result is Ok ==> final(self).model().at_rest(),
            result is Ok ==> old(self).model().events.is_prefix_of(final(self).model().events),
            result is Ok ==> old(self).release_effect(final(self).model()),
            old(self).readiness() is Accepts ==> result is Ok,
            old(self).readiness() is Refuses ==> result is Ok && final(self).model() == old(
                self,
            ).model(),
            old(self).readiness() is Tracks ==> exists|
                buttons: Seq<MouseButton>,
                keys: Seq<KeyCode>,
            | #[trigger]
                release_outcome(old(self).model(), final(self).model(), buttons, keys, result),
            old(self).readiness() is Tracks && old(self).model().at_rest() ==> result is Ok,
    ;

    /// Types a text. A text with an unsupported character makes no call; a failed call ends it.
    fn type_text(&mut self, text: &str) -> (result: Result<(), InputError>)
        ensures
            final(self).readiness() == old(self).readiness(),
            !all_mapped(text@) ==> {
                &&& final(self).asked() == old(self).asked()
                &&& final(self).failures() == old(self).failures()
                &&& final(self).model() == old(self).model()
                &&& result matches Err(InputError::UnsupportedCharacter(c)) && first_unmapped(
                    text@,
                    c,
                )
            },
            all_mapped(text@) && result is Ok ==> {
                &&& final(self).asked() == old(self).asked() + typed_calls(
                    old(self).model().keys.contains(KeyCode::LeftShift),
                    strokes(text@),
                )
                &&& final(self).model() == old(self).model().typed(strokes(text@))
            },
            all_mapped(text@) && result is Err ==> exists|count: int| #[trigger]
                calls_stopped(
                    old(self).readiness(),
                    old(self).model(),
                    final(self).model(),
                    old(self).asked(),
                    final(self).asked(),
                    typed_calls(
                        old(self).model().keys.contains(KeyCode::LeftShift),
                        strokes(text@),
                    ),
                    count,
                ),
            all_mapped(text@) ==> failed_with(old(self).failures(), final(self).failures(), result),
            text@.len() == 0 ==> result is Ok,
            all_mapped(text@) && old(self).readiness() is Accepts ==> result is Ok,
            all_mapped(text@) ==> (old(self).readiness() matches Readiness::Refuses { reason } ==> {
                &&& final(self).model() == old(self).model()
                &&& result is Ok <==> text@.len() == 0
                &&& result matches Err(error) ==> unavailable(error, reason)
            }),
    {
        let list = map_text(text)?;
        let ghost before = self.model();
        let ghost asked = self.asked();
        let ghost shift = before.keys.contains(KeyCode::LeftShift);
        let ghost whole = typed_calls(shift, list@);
        let mut i: usize = 0;
        assert(list@.take(0) =~= Seq::<KeyStroke>::empty());
        assert(asked + typed_calls(shift, list@.take(0)) =~= asked);
        while i < list.len()
            invariant
                i <= list@.len(),
                before == old(self).model(),
                asked == old(self).asked(),
                shift == before.keys.contains(KeyCode::LeftShift),
                whole == typed_calls(shift, list@),
                self.readiness() == old(self).readiness(),
                self.failures() == old(self).failures(),
                all_mapped(text@),
                list@ == strokes(text@),
                self.model().keys.contains(KeyCode::LeftShift) == shift,
                self.asked() == asked + typed_calls(shift, list@.take(i as int)),
                self.model() == replay(before, typed_calls(shift, list@.take(i as int))),
                self.model() == before.typed(list@.take(i as int)),
                old(self).readiness() is Refuses ==> i == 0,
            decreases list@.len() - i,
        {
            let stroke = list[i];
            let ghost start = self.model();
            let ghost done = typed_calls(shift, list@.take(i as int));
            let shift_was_down = self.is_key_down(KeyCode::LeftShift);
            let calls = stroke_list(shift_was_down, stroke);
            proof {
                assert(us_stroke(text@[i as int]) is Some);
                law_strokes_are_not_modifiers(text@[i as int]);
                assert(list@.take(i + 1).drop_last() =~= list@.take(i as int));
                lemma_typed_calls_in_order(shift, list@, i as int);
                assert(calls@.take(0) =~= Seq::<RecordedEvent>::empty());
                assert(self.asked() =~= asked + (done + calls@.take(0)));
                assert(whole.take((done.len() + calls@.len()) as int) =~= done + calls@);
            }
            let mut k: usize = 0;
            while k < calls.len()
                invariant
                    k <= calls@.len(),
                    before == old(self).model(),
                    asked == old(self).asked(),
                    shift == before.keys.contains(KeyCode::LeftShift),
                    whole == typed_calls(shift, list@),
                    self.readiness() == old(self).readiness(),
                    self.failures() == old(self).failures(),
                    all_mapped(text@),
                    list@ == strokes(text@),
                    calls@ == stroke_calls(shift, stroke),
                    start == replay(before, done),
                    done.len() + calls@.len() <= whole.len(),
                    whole.take((done.len() + calls@.len()) as int) == done + calls@,
                    self.asked() == asked + (done + calls@.take(k as int)),
                    self.model() == replay(start, calls@.take(k as int)),
                    old(self).readiness() is Refuses ==> start == before && k == 0,
                decreases calls@.len() - k,
            {
                let ghost count = done.len() + k + 1;
                proof {
                    lemma_stroke_calls_are_key_calls(shift, stroke, k as int);
                    lemma_replay_next(start, calls@, k as int);
                    lemma_replay_append(before, done, calls@.take(k + 1));
                    lemma_replay_append(before, done, calls@.take(k as int));
                    assert(whole.take(count) =~= (done + calls@).take(count));
                    assert(whole.take(count) =~= done + calls@.take(k + 1));
                    assert(whole.take(count - 1) =~= (done + calls@).take(count - 1));
                    assert(whole.take(count - 1) =~= done + calls@.take(k as int));
                    assert(calls@.take(k + 1) =~= calls@.take(k as int).push(calls@[k as int]));
                    assert(asked + (done + calls@.take(k + 1)) =~= (asked + (done + calls@.take(
                        k as int,
                    ))).push(calls@[k as int]));
                }
                let result = match calls[k] {
                    RecordedEvent::KeyDown { code } => self.key_down(code),
                    RecordedEvent::KeyUp { code } => self.key_up(code),
                    _ => Ok(()),
                };
                assert(self.asked() == asked + (done + calls@.take(k + 1)));
                if let Err(error) = result {
                    assert(calls_stopped(
                        old(self).readiness(),
                        before,
                        self.model(),
                        asked,
                        self.asked(),
                        whole,
                        count,
                    ));
                    return Err(error);
                }
                k = k + 1;
            }
            proof {
                assert(calls@.take(k as int) =~= calls@);
                lemma_replay_append(before, done, calls@);
                lemma_replay_stroke(start, stroke);
                lemma_struck(start, stroke);
            }
            i = i + 1;
        }
        assert(list@.take(i as int) =~= list@);
        Ok(())
    }
}

/// The log of a recording backend.
pub struct RecordingHandle(Vec<RecordedEvent>);

impl View for RecordingHandle {
    type V = Seq<RecordedEvent>;

    closed spec fn view(&self) -> Seq<RecordedEvent> {
        self.0@
    }
}

impl RecordingHandle {
    /// A copy of the events recorded so far, in order.
    #[must_use]
    pub fn events(&self) -> (events: Vec<RecordedEvent>)
        ensures
            events@ == self@,
    {
        let mut events: Vec<RecordedEvent> = Vec::new();
        let mut i: usize = 0;
        while i < self.0.len()
            invariant
                i <= self.0@.len(),
                events@ == self.0@.take(i as int),
            decreases self.0@.len() - i,
        {
            events.push(self.0[i]);
            i = i + 1;
        }
        assert(events@ =~= self.0@);
        events
    }
}

impl Clone for RecordingHandle {
    fn clone(&self) -> (copy: Self)
        ensures
            copy@ == self@,
    {
        RecordingHandle(self.events())
    }
}

/// A backend that records every event and controls nothing.
pub struct RecordingBackend {
    events: RecordingHandle,
    keys: HeldSet<KeyCode>,
    buttons: HeldSet<MouseButton>,
    asked: Ghost<Seq<RecordedEvent>>,
}

impl RecordingBackend {
    #[must_use]
    pub fn new() -> (backend: Self)
        ensures
            backend.model().at_rest(),
            backend.model().events == Seq::<RecordedEvent>::empty(),
            backend.asked() == Seq::<RecordedEvent>::empty(),
    {
        RecordingBackend {
            events: RecordingHandle(Vec::new()),
            keys: HeldSet::new(),
            buttons: HeldSet::new(),
            asked: Ghost(Seq::empty()),
        }
    }

    /// The log of this backend.
    pub fn handle(&self) -> (handle: &RecordingHandle)
        ensures
            handle@ == self.model().events,
    {
        &self.events
    }

    fn record(&mut self, event: RecordedEvent)
        ensures
            final(self).keys == old(self).keys,
            final(self).buttons == old(self).buttons,
            final(self).asked == old(self).asked,
            final(self).events@ == old(self).events@.push(event),
    {
        self.events.0.push(event);
    }
}

impl Default for RecordingBackend {
    fn default() -> (backend: Self)
        ensures
            backend.model().at_rest(),
            backend.model().events == Seq::<RecordedEvent>::empty(),
            backend.asked() == Seq::<RecordedEvent>::empty(),
    {
        RecordingBackend::new()
    }
}

impl InputBackend for RecordingBackend {
    closed spec fn model(&self) -> InputModel {
        InputModel { keys: self.keys@, buttons: self.buttons@, events: self.events@ }
    }

    open spec fn readiness(&self) -> Readiness {
        Readiness::Accepts
    }

    open spec fn failures(&self) -> Seq<InputError> {
        Seq::empty()
    }

    closed spec fn asked(&self) -> Seq<RecordedEvent> {
        self.asked@
    }

    /// Everything that is held is released, and the release itself is recorded once.
    open spec fn release_effect(&self, after: InputModel) -> bool {
        exists|recorded: InputModel, buttons: Seq<MouseButton>, keys: Seq<KeyCode>|
            (#[trigger] released_by(self.model(), recorded, buttons, keys)) && after
                == recorded.emitted(RecordedEvent::ReleaseAll)
    }

    fn status(&self) -> (status: BackendStatus)
        ensures
            status.name@ == "mock"@,
            status.available,
            status.detail matches Some(detail) && detail@
                == "events are recorded and no host input is emitted"@,
    {
        BackendStatus {
            name: "mock".to_owned(),
            available: true,
            detail: Some("events are recorded and no host input is emitted".to_owned()),
        }
    }

    fn move_pointer(&mut self, dx: i32, dy: i32) -> (result: Result<(), InputError>) {
        proof {
            self.asked@ = self.asked@.push(RecordedEvent::PointerMove { dx, dy });
        }
        self.record(RecordedEvent::PointerMove { dx, dy });
        Ok(())
    }

    fn scroll(&mut self, dx: i32, dy: i32) -> (result: Result<(), InputError>) {
        proof {
            self.asked@ = self.asked@.push(RecordedEvent::Scroll { dx, dy });
        }
        self.record(RecordedEvent::Scroll { dx, dy });
        Ok(())
    }

    fn button_down(&mut self, button: MouseButton) -> (result: Result<(), InputError>) {
        proof {
            self.asked@ = self.asked@.push(RecordedEvent::ButtonDown { button });
        }
        if self.buttons.insert(button) {
            self.record(RecordedEvent::ButtonDown { button });
        }
        assert(self.model() =~= old(self).model().button_pressed(button));
        Ok(())
    }

    fn button_up(&mut self, button: MouseButton) -> (result: Result<(), InputError>) {
        proof {
            self.asked@ = self.asked@.push(RecordedEvent::ButtonUp { button });
        }
        if self.buttons.remove(button) {
            self.record(RecordedEvent::ButtonUp { button });
        }
        assert(self.model() =~= old(self).model().button_released(button));
        Ok(())
    }

    fn key_down(&mut self, code: KeyCode) -> (result: Result<(), InputError>) {
        proof {
            self.asked@ = self.asked@.push(RecordedEvent::KeyDown { code });
        }
        if self.keys.insert(code) {
            self.record(RecordedEvent::KeyDown { code });
        }
        assert(self.model() =~= old(self).model().key_pressed(code));
        Ok(())
    }

    fn key_up(&mut self, code: KeyCode) -> (result: Result<(), InputError>) {
        proof {
            self.asked@ = self.asked@.push(RecordedEvent::KeyUp { code });
        }
        if self.keys.remove(code) {
            self.record(RecordedEvent::KeyUp { code });
        }
        assert(self.model() =~= old(self).model().key_released(code));
        Ok(())
    }

    fn is_key_down(&self, code: KeyCode) -> (down: bool) {
        self.keys.contains(code)
    }

    /// Releases whatever is held, then records the release itself.
    fn release_all(&mut self) -> (result: Result<(), InputError>) {
        let ghost asked = self.asked();
        let buttons = self.buttons.items();
        let keys = self.keys.items();
        let ghost before = self.model();
        let mut i: usize = 0;
        assert(button_ups(buttons@.take(0)) =~= Seq::<RecordedEvent>::empty());
        assert(buttons@.skip(0) =~= buttons@);
        while i < buttons.len()
            invariant
                i <= buttons@.len(),
                buttons@.no_duplicates(),
                buttons@.to_set() == before.buttons,
                self.model().keys == before.keys,
                self.model().buttons == buttons@.skip(i as int).to_set(),
                self.model().events == before.events + button_ups(buttons@.take(i as int)),
            decreases buttons@.len() - i,
        {
            let button = buttons[i];
            proof {
                lemma_skip_to_set(buttons@, i as int);
            }
            self.button_up(button)?;
            assert(button_ups(buttons@.take(i + 1)) =~= button_ups(buttons@.take(i as int)).push(
                RecordedEvent::ButtonUp { button },
            ));
            i = i + 1;
        }
        assert(buttons@.take(i as int) =~= buttons@);
        assert(buttons@.skip(i as int).to_set() =~= Set::<MouseButton>::empty());
        let ghost middle = self.model();
        let mut k: usize = 0;
        assert(key_ups(keys@.take(0)) =~= Seq::<RecordedEvent>::empty());
        assert(keys@.skip(0) =~= keys@);
        while k < keys.len()
            invariant
                k <= keys@.len(),
                keys@.no_duplicates(),
                keys@.to_set() == before.keys,
                self.model().buttons == Set::<MouseButton>::empty(),
                self.model().keys == keys@.skip(k as int).to_set(),
                self.model().events == middle.events + key_ups(keys@.take(k as int)),
            decreases keys@.len() - k,
        {
            let code = keys[k];
            proof {
                lemma_skip_to_set(keys@, k as int);
            }
            self.key_up(code)?;
            assert(key_ups(keys@.take(k + 1)) =~= key_ups(keys@.take(k as int)).push(
                RecordedEvent::KeyUp { code },
            ));
            k = k + 1;
        }
        assert(keys@.take(k as int) =~= keys@);
        assert(keys@.skip(k as int).to_set() =~= Set::<KeyCode>::empty());
        assert(released_by(before, self.model(), buttons@, keys@));
        self.record(RecordedEvent::ReleaseAll);
        proof {
            self.asked@ = asked.push(RecordedEvent::ReleaseAll);
        }
        Ok(())
    }
}

/// Dropping the head of a list without duplicates drops it from the set of members.
pub proof fn lemma_skip_to_set<T>(list: Seq<T>, i: int)
    requires
        list.no_duplicates(),
        0 <= i < list.len(),
    ensures
        list.skip(i).to_set().contains(list[i]),
        list.skip(i + 1).to_set() == list.skip(i).to_set().remove(list[i]),
{
    let from = list.skip(i);
    let behind = list.skip(i + 1);
    assert(from[0] == list[i]);
    assert forall|x: T| behind.contains(x) == from.to_set().remove(list[i]).contains(x) by {
        if behind.contains(x) {
            let j = choose|j: int| 0 <= j < behind.len() && behind[j] == x;
            assert(from[j + 1] == x);
            assert(list[i + 1 + j] == x);
        }
        if from.contains(x) && x != list[i] {
            let j = choose|j: int| 0 <= j < from.len() && from[j] == x;
            assert(behind[j - 1] == x);
        }
    }
    assert(behind.to_set() =~= from.to_set().remove(list[i]));
}

/// A backend that stands in for a device that could not be opened.
pub struct UnavailableBackend {
    detail: String,
    asked: Ghost<Seq<RecordedEvent>>,
    failures: Ghost<Seq<InputError>>,
}

impl UnavailableBackend {
    /// Why there is no device.
    pub closed spec fn reason(&self) -> Seq<char> {
        self.detail@
    }

    #[must_use]
    pub fn new(detail: String) -> (backend: Self)
        ensures
            backend.reason() == detail@,
            backend.asked() == Seq::<RecordedEvent>::empty(),
            backend.failures() == Seq::<InputError>::empty(),
    {
        UnavailableBackend { detail, asked: Ghost(Seq::empty()), failures: Ghost(Seq::empty()) }
    }

    fn error(&self) -> (error: InputError)
        ensures
            unavailable(error, self.reason()),
    {
        InputError::Unavailable(self.detail.clone())
    }
}

/// The error of a backend that is unavailable for the given reason.
pub open spec fn unavailable(error: InputError, reason: Seq<char>) -> bool {
    error matches InputError::Unavailable(detail) && detail@ == reason
}

impl InputBackend for UnavailableBackend {
    open spec fn model(&self) -> InputModel {
        InputModel { keys: Set::empty(), buttons: Set::empty(), events: Seq::empty() }
    }

    open spec fn readiness(&self) -> Readiness {
        Readiness::Refuses { reason: self.reason() }
    }

    closed spec fn failures(&self) -> Seq<InputError> {
        self.failures@
    }

    closed spec fn asked(&self) -> Seq<RecordedEvent> {
        self.asked@
    }

    open spec fn release_effect(&self, after: InputModel) -> bool {
        after == self.model()
    }

    fn status(&self) -> (status: BackendStatus)
        ensures
            status.name@ == "unavailable"@,
            !status.available,
            status.detail matches Some(detail) && detail@ == self.reason(),
    {
        BackendStatus {
            name: "unavailable".to_owned(),
            available: false,
            detail: Some(self.detail.clone()),
        }
    }

    fn move_pointer(&mut self, dx: i32, dy: i32) -> (result: Result<(), InputError>)
        ensures
            final(self).reason() == old(self).reason(),
            result matches Err(error) && unavailable(error, old(self).reason()),
    {
        proof {
            self.asked@ = self.asked@.push(RecordedEvent::PointerMove { dx, dy });
        }
        let error = self.error();
        proof {
            self.failures@ = self.failures@.push(error);
        }
        Err(error)
    }

    fn scroll(&mut self, dx: i32, dy: i32) -> (result: Result<(), InputError>)
        ensures
            final(self).reason() == old(self).reason(),
            result matches Err(error) && unavailable(error, old(self).reason()),
    {
        proof {
            self.asked@ = self.asked@.push(RecordedEvent::Scroll { dx, dy });
        }
        let error = self.error();
        proof {
            self.failures@ = self.failures@.push(error);
        }
        Err(error)
    }

    fn button_down(&mut self, button: MouseButton) -> (result: Result<(), InputError>)
        ensures
            final(self).reason() == old(self).reason(),
            result matches Err(error) && unavailable(error, old(self).reason()),
    {
        proof {
            self.asked@ = self.asked@.push(RecordedEvent::ButtonDown { button });
        }
        let error = self.error();
        proof {
            self.failures@ = self.failures@.push(error);
        }
        Err(error)
    }

    fn button_up(&mut self, button: MouseButton) -> (result: Result<(), InputError>)
        ensures
            final(self).reason() == old(self).reason(),
            result matches Err(error) && unavailable(error, old(self).reason()),
    {
        proof {
            self.asked@ = self.asked@.push(RecordedEvent::ButtonUp { button });
        }
        let error = self.error();
        proof {
            self.failures@ = self.failures@.push(error);
        }
        Err(error)
    }

    fn key_down(&mut self, code: KeyCode) -> (result: Result<(), InputError>)
        ensures
            final(self).reason() == old(self).reason(),
            result matches Err(error) && unavailable(error, old(self).reason()),
    {
        proof {
            self.asked@ = self.asked@.push(RecordedEvent::KeyDown { code });
        }
        let error = self.error();
        proof {
            self.failures@ = self.failures@.push(error);
        }
        Err(error)
    }

    fn key_up(&mut self, code: KeyCode) -> (result: Result<(), InputError>)
        ensures
            final(self).reason() == old(self).reason(),
            result matches Err(error) && unavailable(error, old(self).reason()),
    {
        proof {
            self.asked@ = self.asked@.push(RecordedEvent::KeyUp { code });
        }
        let error = self.error();
        proof {
            self.failures@ = self.failures@.push(error);
        }
        Err(error)
    }

    fn is_key_down(&self, _code: KeyCode) -> (down: bool) {
        false
    }

    /// There is nothing to release.
    fn release_all(&mut self) -> (result: Result<(), InputError>)
        ensures
            final(self).reason() == old(self).reason(),
            result is Ok,
    {
        proof {
            self.asked@ = self.asked@.push(RecordedEvent::ReleaseAll);
        }
        Ok(())
    }
}

/// One stroke leaves Shift as it was, releases the key it strikes, and leaves every other key
/// and every button alone.
pub proof fn lemma_struck(model: InputModel, stroke: KeyStroke)
    requires
        stroke.code != KeyCode::LeftShift,
    ensures
        model.struck(stroke).keys == model.keys.remove(stroke.code),
        model.struck(stroke).buttons == model.buttons,
        model.events.is_prefix_of(model.struck(stroke).events),
{
    assert(model.struck(stroke).keys =~= model.keys.remove(stroke.code));
}

/// Whether typing a text strikes a key.
pub open spec fn strikes(text: Seq<char>, code: KeyCode) -> bool {
    exists|i: int| 0 <= i < text.len() && (#[trigger] strokes(text)[i]).code == code
}

/// What typing a text does to one key, to the buttons and to the log.
proof fn lemma_typed(model: InputModel, text: Seq<char>, code: KeyCode)
    requires
        all_mapped(text),
    ensures
        model.typed(strokes(text)).keys.contains(code) == (model.keys.contains(code) && !strikes(
            text,
            code,
        )),
        model.typed(strokes(text)).buttons == model.buttons,
        model.events.is_prefix_of(model.typed(strokes(text)).events),
    decreases text.len(),
{
    let list = strokes(text);
    if text.len() > 0 {
        let shorter = text.drop_last();
        assert(strokes(shorter) =~= list.drop_last());
        assert forall|i: int| 0 <= i < shorter.len() implies us_stroke(
            #[trigger] shorter[i],
        ) is Some by {
            assert(text[i] == shorter[i]);
        }
        lemma_typed(model, shorter, code);
        assert(us_stroke(text[text.len() - 1]) is Some);
        law_strokes_are_not_modifiers(text.last());
        lemma_struck(model.typed(list.drop_last()), list.last());
        if strikes(shorter, code) {
            let i = choose|i: int|
                0 <= i < shorter.len() && (#[trigger] strokes(shorter)[i]).code == code;
            assert(list[i].code == code);
        }
        if list.last().code == code {
            assert(list[text.len() - 1].code == code);
        } else if strikes(text, code) {
            let i = choose|i: int| 0 <= i < text.len() && (#[trigger] list[i]).code == code;
            assert(strokes(shorter)[i].code == code);
        }
    }
}

/// Typing a text leaves Shift, every other modifier and every button as they were, leaves no key
/// down that it struck, and never takes back an event.
pub proof fn law_typing_preserves_modifiers(model: InputModel, text: Seq<char>)
    requires
        all_mapped(text),
    ensures
        forall|code: KeyCode| #[trigger]
            model.typed(strokes(text)).keys.contains(code) == (model.keys.contains(code)
                && !strikes(text, code)),
        forall|code: KeyCode|
            code.modifier() ==> #[trigger] model.typed(strokes(text)).keys.contains(code)
                == model.keys.contains(code),
        model.typed(strokes(text)).buttons == model.buttons,
        model.events.is_prefix_of(model.typed(strokes(text)).events),
{
    let after = model.typed(strokes(text));
    assert forall|code: KeyCode| #[trigger]
        after.keys.contains(code) == (model.keys.contains(code) && !strikes(text, code)) by {
        lemma_typed(model, text, code);
    }
    assert forall|code: KeyCode| code.modifier() implies #[trigger] after.keys.contains(code)
        == model.keys.contains(code) by {
        lemma_typed(model, text, code);
        if strikes(text, code) {
            let i = choose|i: int|
                0 <= i < text.len() && (#[trigger] strokes(text)[i]).code == code;
            assert(us_stroke(text[i]) is Some);
            law_strokes_are_not_modifiers(text[i]);
        }
    }
    lemma_typed(model, text, KeyCode::LeftShift);
}

/// A command to a recording backend. A release of everything comes with the order in which it
/// takes the buttons and the keys.
pub enum RecordedCommand {
    Move { dx: i32, dy: i32 },
    Scroll { dx: i32, dy: i32 },
    ButtonDown(MouseButton),
    ButtonUp(MouseButton),
    KeyDown(KeyCode),
    KeyUp(KeyCode),
    Type(Seq<char>),
    ReleaseAll { buttons: Seq<MouseButton>, keys: Seq<KeyCode> },
}

impl RecordedCommand {
    /// Whether the backend can be given the command: a text has a stroke for every character, and
    /// a release takes what is held.
    pub open spec fn applies(self, model: InputModel) -> bool {
        match self {
            RecordedCommand::Type(text) => all_mapped(text),
            RecordedCommand::ReleaseAll { buttons, keys } => lists(buttons, model.buttons) && lists(
                keys,
                model.keys,
            ),
            _ => true,
        }
    }

    /// The backend once it has carried out the command.
    pub open spec fn effect(self, model: InputModel) -> InputModel {
        match self {
            RecordedCommand::Move { dx, dy } => model.emitted(
                RecordedEvent::PointerMove { dx, dy },
            ),
            RecordedCommand::Scroll { dx, dy } => model.emitted(RecordedEvent::Scroll { dx, dy }),
            RecordedCommand::ButtonDown(button) => model.button_pressed(button),
            RecordedCommand::ButtonUp(button) => model.button_released(button),
            RecordedCommand::KeyDown(code) => model.key_pressed(code),
            RecordedCommand::KeyUp(code) => model.key_released(code),
            RecordedCommand::Type(text) => model.typed(strokes(text)),
            RecordedCommand::ReleaseAll { buttons, keys } => (InputModel {
                keys: Set::empty(),
                buttons: Set::empty(),
                events: model.events + button_ups(buttons) + key_ups(keys),
            }).emitted(RecordedEvent::ReleaseAll),
        }
    }

    /// The events that the command records.
    pub open spec fn log(self, model: InputModel) -> Seq<RecordedEvent> {
        self.effect(model).events.skip(model.events.len() as int)
    }
}

/// The backend once it has carried out a list of commands.
pub open spec fn after_commands(model: InputModel, commands: Seq<RecordedCommand>) -> InputModel
    decreases commands.len(),
{
    if commands.len() == 0 {
        model
    } else {
        commands.last().effect(after_commands(model, commands.drop_last()))
    }
}

/// Every command of a list applies where its turn comes.
pub open spec fn all_apply(model: InputModel, commands: Seq<RecordedCommand>) -> bool {
    forall|i: int|
        0 <= i < commands.len() ==> (#[trigger] commands[i]).applies(
            after_commands(model, commands.take(i)),
        )
}

/// The events that a list of commands records, in the order of the commands.
pub open spec fn whole_log(model: InputModel, commands: Seq<RecordedCommand>) -> Seq<RecordedEvent>
    decreases commands.len(),
{
    if commands.len() == 0 {
        Seq::empty()
    } else {
        whole_log(model, commands.drop_last()) + commands.last().log(
            after_commands(model, commands.drop_last()),
        )
    }
}

/// The effect of a release with a known order is the effect of a release.
pub proof fn law_release_command_is_a_release(
    backend: RecordingBackend,
    buttons: Seq<MouseButton>,
    keys: Seq<KeyCode>,
)
    requires
        lists(buttons, backend.model().buttons),
        lists(keys, backend.model().keys),
    ensures
        backend.release_effect(
            (RecordedCommand::ReleaseAll { buttons, keys }).effect(backend.model()),
        ),
{
    let recorded = InputModel {
        keys: Set::empty(),
        buttons: Set::empty(),
        events: backend.model().events + button_ups(buttons) + key_ups(keys),
    };
    assert(released_by(backend.model(), recorded, buttons, keys));
}

/// A command adds its events behind those already recorded.
pub proof fn lemma_command_log(model: InputModel, command: RecordedCommand)
    requires
        command.applies(model),
    ensures
        command.effect(model).events == model.events + command.log(model),
{
    if let RecordedCommand::Type(text) = command {
        lemma_typed(model, text, KeyCode::LeftShift);
    }
    let after = command.effect(model).events;
    assert(after.take(model.events.len() as int) =~= model.events);
    assert(after =~= model.events + command.log(model));
}

/// The log of a recording backend is what its commands recorded, in their order: reading it takes
/// nothing away, and a later log begins with every earlier one.
pub proof fn law_log_only_grows(model: InputModel, commands: Seq<RecordedCommand>, earlier: int)
    requires
        all_apply(model, commands),
        0 <= earlier <= commands.len(),
    ensures
        after_commands(model, commands).events == model.events + whole_log(model, commands),
        after_commands(model, commands.take(earlier)).events.is_prefix_of(
            after_commands(model, commands).events,
        ),
    decreases commands.len(),
{
    if commands.len() > 0 {
        let shorter = commands.drop_last();
        assert forall|i: int| 0 <= i < shorter.len() implies (#[trigger] shorter[i]).applies(
            after_commands(model, shorter.take(i)),
        ) by {
            assert(shorter[i] == commands[i]);
            assert(shorter.take(i) =~= commands.take(i));
        }
        let last = commands.last();
        let before = after_commands(model, shorter);
        assert(commands[commands.len() - 1] == last);
        assert(commands.take(commands.len() - 1) =~= shorter);
        lemma_command_log(before, last);
        law_log_only_grows(
            model,
            shorter,
            if earlier <= shorter.len() {
                earlier
            } else {
                shorter.len() as int
            },
        );
        assert(before.events + last.log(before) =~= model.events + whole_log(model, commands));
        if earlier <= shorter.len() {
            assert(shorter.take(earlier) =~= commands.take(earlier));
        } else {
            assert(commands.take(earlier) =~= commands);
        }
    } else {
        assert(commands.take(earlier) =~= commands);
        assert(model.events =~= model.events + whole_log(model, commands));
    }
}

} // verus!
