//! One controller session: sequence checking, the commands that events cause, held state and
//! its cleanup.

pub mod laws;
pub mod limiter;

pub use limiter::{RateLimiter, RATE_BURST, RATE_PER_SECOND};

use crate::input::calls::{calls_stopped, lemma_one_call, typed_calls};
use crate::input::held::HeldSet;
use crate::input::keymap::{all_mapped, law_layout_covers_protocol_text, strokes};
use crate::input::{
    button_ups, command_outcome, failed_with, key_ups, lists, release_outcome, unavailable,
    InputBackend, InputError, InputModel, Readiness, RecordedEvent,
};
use crate::protocol::{
    typeable, ClientEnvelope, ClientEvent, KeyCode, KeyState, MouseButton, ProtocolError,
};
use crate::sensitivity::{scale_pointer, scaled};
use vstd::prelude::*;
use vstd::string::*;

verus! {

pub const HEARTBEAT_TIMEOUT_MS: u64 = 15_000;

pub const HEARTBEAT_TIMEOUT_NANOS: u128 = 15_000_000_000;

/// What a session remembers.
#[verifier::ext_equal]
pub struct SessionModel {
    pub keys: Set<KeyCode>,
    pub buttons: Set<MouseButton>,
    pub last_sequence: Option<u64>,
    pub sensitivity_bits: u64,
}

#[derive(Debug, Clone, Copy, PartialEq, Eq, Structural)]
pub enum SessionOutcome {
    Applied,
    Heartbeat(u64),
}

#[derive(Debug)]
pub enum SessionError {
    Protocol(ProtocolError),
    Sequence,
    Input(InputError),
}

impl SessionError {
    /// The description that the controller is shown.
    pub open spec fn description(self) -> Seq<char> {
        match self {
            SessionError::Protocol(error) => error.description(),
            SessionError::Sequence => "message sequence must increase"@,
            SessionError::Input(error) => error.description(),
        }
    }

    pub fn message(&self) -> (message: String)
        ensures
            message@ == self.description(),
    {
        match self {
            SessionError::Protocol(error) => error.message(),
            SessionError::Sequence => "message sequence must increase".to_owned(),
            SessionError::Input(error) => error.message(),
        }
    }
}

/// What an admitted event asks of the backend.
#[derive(Debug)]
pub enum Command {
    Move { dx: i32, dy: i32 },
    Scroll { dx: i32, dy: i32 },
    ButtonDown(MouseButton),
    ButtonUp(MouseButton),
    KeyDown(KeyCode),
    KeyUp(KeyCode),
    Type(String),
    ReleaseAll,
    /// The event changes nothing: a press of what is held, or a release of what is not.
    Nothing,
    /// A heartbeat with its sequence number, which the backend never sees.
    Heartbeat(u64),
}

impl SessionModel {
    /// The command of an event.
    pub open spec fn command(self, seq: u64, event: ClientEvent) -> Command {
        match event {
            ClientEvent::PointerMove { dx, dy } => Command::Move {
                dx: scaled(dx as int, self.sensitivity_bits) as i32,
                dy: scaled(dy as int, self.sensitivity_bits) as i32,
            },
            ClientEvent::Scroll { dx, dy } => Command::Scroll { dx, dy },
            ClientEvent::PointerButton { button, state } => match state {
                KeyState::Down => if self.buttons.contains(button) {
                    Command::Nothing
                } else {
                    Command::ButtonDown(button)
                },
                KeyState::Up => if self.buttons.contains(button) {
                    Command::ButtonUp(button)
                } else {
                    Command::Nothing
                },
            },
            ClientEvent::Key { code, state } => match state {
                KeyState::Down => if self.keys.contains(code) {
                    Command::Nothing
                } else {
                    Command::KeyDown(code)
                },
                KeyState::Up => if self.keys.contains(code) {
                    Command::KeyUp(code)
                } else {
                    Command::Nothing
                },
            },
            ClientEvent::TextInput { text } => Command::Type(text),
            ClientEvent::ReleaseAll => Command::ReleaseAll,
            ClientEvent::ClientStateReset => Command::ReleaseAll,
            ClientEvent::Heartbeat => Command::Heartbeat(seq),
        }
    }

    /// An envelope is refused for its first protocol fault, then for a sequence number that does
    /// not increase; otherwise its event becomes a command.
    pub open spec fn admission(self, envelope: ClientEnvelope) -> Result<Command, SessionError> {
        match envelope.fault() {
            Some(fault) => Err(SessionError::Protocol(fault)),
            None => match self.last_sequence {
                Some(previous) if envelope.seq <= previous => Err(SessionError::Sequence),
                _ => Ok(self.command(envelope.seq, envelope.event)),
            },
        }
    }

    /// The session once an envelope with this sequence number was admitted.
    pub open spec fn advanced(self, seq: u64) -> SessionModel {
        SessionModel { last_sequence: Some(seq), ..self }
    }

    /// The session once a command has succeeded.
    pub open spec fn settled(self, command: Command) -> SessionModel {
        match command {
            Command::ButtonDown(button) => SessionModel {
                buttons: self.buttons.insert(button),
                ..self
            },
            Command::ButtonUp(button) => SessionModel {
                buttons: self.buttons.remove(button),
                ..self
            },
            Command::KeyDown(code) => SessionModel { keys: self.keys.insert(code), ..self },
            Command::KeyUp(code) => SessionModel { keys: self.keys.remove(code), ..self },
            Command::ReleaseAll => SessionModel {
                keys: Set::empty(),
                buttons: Set::empty(),
                ..self
            },
            _ => self,
        }
    }

    /// The session holds nothing.
    pub open spec fn at_rest(self) -> bool {
        self.keys == Set::<KeyCode>::empty() && self.buttons == Set::<MouseButton>::empty()
    }
}

/// What a session answers once a command has succeeded.
pub open spec fn success(command: Command) -> SessionOutcome {
    match command {
        Command::Heartbeat(seq) => SessionOutcome::Heartbeat(seq),
        _ => SessionOutcome::Applied,
    }
}

/// The backend once a command other than a release of everything has succeeded.
pub open spec fn commanded(model: InputModel, command: Command) -> InputModel {
    match command {
        Command::Move { dx, dy } => model.emitted(RecordedEvent::PointerMove { dx, dy }),
        Command::Scroll { dx, dy } => model.emitted(RecordedEvent::Scroll { dx, dy }),
        Command::ButtonDown(button) => model.button_pressed(button),
        Command::ButtonUp(button) => model.button_released(button),
        Command::KeyDown(code) => model.key_pressed(code),
        Command::KeyUp(code) => model.key_released(code),
        Command::Type(text) => model.typed(strokes(text@)),
        _ => model,
    }
}

/// Whether a command has anything to do: the others succeed with every backend.
pub open spec fn needs_backend(command: Command) -> bool {
    match command {
        Command::Nothing => false,
        Command::Heartbeat(_) => false,
        Command::Type(text) => text@.len() > 0,
        _ => true,
    }
}

/// The calls that a command makes of a backend.
pub open spec fn calls(model: InputModel, command: Command) -> Seq<RecordedEvent> {
    match command {
        Command::Move { dx, dy } => seq![RecordedEvent::PointerMove { dx, dy }],
        Command::Scroll { dx, dy } => seq![RecordedEvent::Scroll { dx, dy }],
        Command::ButtonDown(button) => seq![RecordedEvent::ButtonDown { button }],
        Command::ButtonUp(button) => seq![RecordedEvent::ButtonUp { button }],
        Command::KeyDown(code) => seq![RecordedEvent::KeyDown { code }],
        Command::KeyUp(code) => seq![RecordedEvent::KeyUp { code }],
        Command::Type(text) => typed_calls(
            model.keys.contains(KeyCode::LeftShift),
            strokes(text@),
        ),
        Command::ReleaseAll => seq![RecordedEvent::ReleaseAll],
        Command::Nothing => Seq::empty(),
        Command::Heartbeat(_) => Seq::empty(),
    }
}

/// What giving a command to a backend may come to. Its calls are made in order up to the first
/// failure. A release of everything has the effect of one such release, and a backend that refuses
/// commands has nothing to release.
pub open spec fn performed<B: InputBackend>(
    before: B,
    after: B,
    command: Command,
    result: Result<(), InputError>,
) -> bool {
    &&& !needs_backend(command) ==> result is Ok && after.model() == before.model()
    &&& before.readiness() is Accepts ==> result is Ok
    &&& failed_with(before.failures(), after.failures(), result)
    &&& result is Ok || command is ReleaseAll ==> after.asked() == before.asked() + calls(
        before.model(),
        command,
    )
    &&& if command is ReleaseAll {
        &&& result is Ok ==> {
            &&& before.release_effect(after.model())
            &&& after.model().at_rest()
            &&& before.model().events.is_prefix_of(after.model().events)
        }
        &&& before.readiness() is Refuses ==> result is Ok && after.model() == before.model()
        &&& before.readiness() is Tracks ==> exists|
            buttons: Seq<MouseButton>,
            keys: Seq<KeyCode>,
        | #[trigger]
            release_outcome(before.model(), after.model(), buttons, keys, result)
        &&& before.readiness() is Tracks && before.model().at_rest() ==> result is Ok
    } else {
        &&& result is Ok ==> after.model() == commanded(before.model(), command)
        &&& result is Err ==> exists|count: int| #[trigger]
            calls_stopped(
                before.readiness(),
                before.model(),
                after.model(),
                before.asked(),
                after.asked(),
                calls(before.model(), command),
                count,
            )
        &&& needs_backend(command) && before.readiness() is Refuses ==> after.model()
            == before.model() && (result matches Err(error) && unavailable(
            error,
            before.readiness()->reason,
        ))
    }
}

/// Whether a backend can be given the command: its text has a stroke for every character.
pub open spec fn performable(command: Command) -> bool {
    command matches Command::Type(text) ==> all_mapped(text@)
}

/// Gives a command to a backend.
pub fn perform<B: InputBackend>(command: &Command, backend: &mut B) -> (result: Result<
    (),
    InputError,
>)
    requires
        performable(*command),
    ensures
        final(backend).readiness() == old(backend).readiness(),
        performed(*old(backend), *final(backend), *command, result),
{
    let ghost readiness = backend.readiness();
    let ghost model = backend.model();
    let ghost asked = backend.asked();
    let ghost list = calls(model, *command);
    let result = match command {
        Command::Move { dx, dy } => backend.move_pointer(*dx, *dy),
        Command::Scroll { dx, dy } => backend.scroll(*dx, *dy),
        Command::ButtonDown(button) => backend.button_down(*button),
        Command::ButtonUp(button) => backend.button_up(*button),
        Command::KeyDown(code) => backend.key_down(*code),
        Command::KeyUp(code) => backend.key_up(*code),
        Command::Type(text) => backend.type_text(text.as_str()),
        Command::ReleaseAll => backend.release_all(),
        Command::Nothing => Ok(()),
        Command::Heartbeat(_) => Ok(()),
    };
    proof {
        if list.len() == 0 {
            assert(asked + list =~= asked);
        }
        match command {
            Command::Nothing => {},
            Command::Heartbeat(_) => {},
            Command::Type(text) => {
                assert(text@.len() == 0 ==> strokes(text@).len() == 0);
            },
            Command::ReleaseAll => {
                assert(asked + list =~= asked.push(RecordedEvent::ReleaseAll));
            },
            _ => {
                lemma_one_call(
                    readiness,
                    model,
                    backend.model(),
                    asked,
                    backend.asked(),
                    list[0],
                    result,
                );
            },
        }
    }
    result
}

/// The outcome of an envelope. One that is refused changes nothing. The command of an admitted one
/// is given to the backend, and the session takes over its result.
pub open spec fn processed<B: InputBackend>(
    before: SessionModel,
    after: SessionModel,
    envelope: ClientEnvelope,
    input_before: B,
    input_after: B,
    outcome: Result<SessionOutcome, SessionError>,
) -> bool {
    match before.admission(envelope) {
        Err(refusal) => {
            &&& outcome == Err::<SessionOutcome, SessionError>(refusal)
            &&& after == before
            &&& input_after == input_before
        },
        Ok(command) => exists|result: Result<(), InputError>|
            {
                let admitted = before.advanced(envelope.seq);
                &&& #[trigger] performed(input_before, input_after, command, result)
                &&& result is Ok ==> outcome == Ok::<SessionOutcome, SessionError>(
                    success(command),
                ) && after == admitted.settled(command)
                &&& result matches Err(error) ==> outcome == Err::<SessionOutcome, SessionError>(
                    SessionError::Input(error),
                ) && after == admitted
            },
    }
}

/// A cleanup that took what a session held in the order of two lists: the backend got one call
/// for each button and then for each key, past any failure, and no other; the first failure is
/// the result, and where nothing failed everything is released.
pub open spec fn released_in_turn<B: InputBackend>(
    session: SessionModel,
    before: B,
    after: B,
    run: ReleaseRun,
    buttons: Seq<MouseButton>,
    keys: Seq<KeyCode>,
    result: Result<(), InputError>,
) -> bool {
    &&& lists(buttons, session.buttons)
    &&& lists(keys, session.keys)
    &&& run.follows(before.readiness(), buttons, keys, (buttons.len() + keys.len()) as int)
    &&& run.states[0] == before.model()
    &&& run.states.last() == after.model()
    &&& after.asked() == before.asked() + button_ups(buttons) + key_ups(keys)
    &&& after.failures() == before.failures() + errors_among(run.results)
    &&& result == match first_error(run.results) {
        Some(error) => Err::<(), InputError>(error),
        None => Ok(()),
    }
    &&& result is Ok ==> after.model() == all_released(before.model(), buttons, keys)
}

/// The outcome of a cleanup. A backend that tracks what it was asked to release counts all of it
/// as released, whatever failed; one that refuses commands is left alone.
pub open spec fn cleaned_up<B: InputBackend>(
    session: SessionModel,
    before: B,
    after: B,
    result: Result<(), InputError>,
) -> bool {
    &&& exists|run: ReleaseRun, buttons: Seq<MouseButton>, keys: Seq<KeyCode>| #[trigger]
        released_in_turn(session, before, after, run, buttons, keys, result)
    &&& session.at_rest() ==> result is Ok
    &&& before.readiness() is Accepts ==> result is Ok
    &&& before.readiness() is Tracks ==> {
        &&& after.model().buttons == before.model().buttons.difference(session.buttons)
        &&& after.model().keys == before.model().keys.difference(session.keys)
    }
    &&& before.readiness() matches Readiness::Refuses { reason } ==> {
        &&& after.model() == before.model()
        &&& result is Ok <==> session.at_rest()
        &&& result matches Err(error) ==> unavailable(error, reason)
    }
}

/// The first failure among some results.
pub open spec fn first_error(results: Seq<Result<(), InputError>>) -> Option<InputError>
    decreases results.len(),
{
    if results.len() == 0 {
        None
    } else {
        match first_error(results.drop_last()) {
            Some(error) => Some(error),
            None => match results.last() {
                Ok(_) => None,
                Err(error) => Some(error),
            },
        }
    }
}

/// The failures among some results, in order.
pub open spec fn errors_among(results: Seq<Result<(), InputError>>) -> Seq<InputError>
    decreases results.len(),
{
    if results.len() == 0 {
        Seq::empty()
    } else {
        match results.last() {
            Ok(_) => errors_among(results.drop_last()),
            Err(error) => errors_among(results.drop_last()).push(error),
        }
    }
}

proof fn lemma_first_of_the_errors(results: Seq<Result<(), InputError>>)
    ensures
        first_error(results) is None <==> errors_among(results).len() == 0,
        first_error(results) matches Some(error) ==> error == errors_among(results)[0],
    decreases results.len(),
{
    if results.len() > 0 {
        lemma_first_of_the_errors(results.drop_last());
    }
}

/// The backend once it has released the button or key at a position of two lists, the buttons
/// coming first.
pub open spec fn one_released(
    model: InputModel,
    buttons: Seq<MouseButton>,
    keys: Seq<KeyCode>,
    at: int,
) -> InputModel {
    if at < buttons.len() {
        model.button_released(buttons[at])
    } else {
        model.key_released(keys[at - buttons.len()])
    }
}

/// A run of releases: the backend before and after each of them, and what became of it.
#[verifier::ext_equal]
pub struct ReleaseRun {
    pub states: Seq<InputModel>,
    pub results: Seq<Result<(), InputError>>,
}

impl ReleaseRun {
    /// The run gives the backend the first releases of two lists, one after the other, whatever
    /// becomes of each.
    pub open spec fn follows(
        self,
        readiness: Readiness,
        buttons: Seq<MouseButton>,
        keys: Seq<KeyCode>,
        count: int,
    ) -> bool {
        &&& self.results.len() == count
        &&& self.states.len() == count + 1
        &&& forall|at: int|
            0 <= at < count ==> #[trigger] command_outcome(
                readiness,
                self.states[at],
                self.states[at + 1],
                one_released(self.states[at], buttons, keys, at),
                self.results[at],
            )
    }

    /// The run with one more release.
    pub open spec fn and(self, state: InputModel, result: Result<(), InputError>) -> ReleaseRun {
        ReleaseRun { states: self.states.push(state), results: self.results.push(result) }
    }
}

proof fn lemma_run_goes_on(
    run: ReleaseRun,
    readiness: Readiness,
    buttons: Seq<MouseButton>,
    keys: Seq<KeyCode>,
    count: int,
    state: InputModel,
    result: Result<(), InputError>,
)
    requires
        run.follows(readiness, buttons, keys, count),
        count >= 0,
        command_outcome(
            readiness,
            run.states.last(),
            state,
            one_released(run.states.last(), buttons, keys, count),
            result,
        ),
    ensures
        run.and(state, result).follows(readiness, buttons, keys, count + 1),
        run.and(state, result).states.last() == state,
        run.and(state, result).states[0] == run.states[0],
        failed_with(
            errors_among(run.results),
            errors_among(run.and(state, result).results),
            result,
        ),
        first_error(run.and(state, result).results) == match first_error(run.results) {
            Some(error) => Some(error),
            None => match result {
                Ok(_) => None,
                Err(error) => Some(error),
            },
        },
{
    let longer = run.and(state, result);
    assert(longer.results.drop_last() =~= run.results);
    assert forall|at: int| 0 <= at < count + 1 implies #[trigger] command_outcome(
        readiness,
        longer.states[at],
        longer.states[at + 1],
        one_released(longer.states[at], buttons, keys, at),
        longer.results[at],
    ) by {
        if at < count {
            assert(longer.states[at] == run.states[at]);
            assert(longer.states[at + 1] == run.states[at + 1]);
            assert(longer.results[at] == run.results[at]);
            assert(command_outcome(
                readiness,
                run.states[at],
                run.states[at + 1],
                one_released(run.states[at], buttons, keys, at),
                run.results[at],
            ));
        }
    }
}

/// One controller session.
pub struct SessionState {
    held_keys: HeldSet<KeyCode>,
    held_buttons: HeldSet<MouseButton>,
    last_sequence: Option<u64>,
    sensitivity_bits: u64,
}

impl View for SessionState {
    type V = SessionModel;

    closed spec fn view(&self) -> SessionModel {
        SessionModel {
            keys: self.held_keys@,
            buttons: self.held_buttons@,
            last_sequence: self.last_sequence,
            sensitivity_bits: self.sensitivity_bits,
        }
    }
}

impl SessionState {
    /// A session that holds nothing and has seen no message.
    #[must_use]
    pub fn new(pointer_sensitivity_bits: u64) -> (session: Self)
        ensures
            session@.at_rest(),
            session@.last_sequence is None,
            session@.sensitivity_bits == pointer_sensitivity_bits,
    {
        SessionState {
            held_keys: HeldSet::new(),
            held_buttons: HeldSet::new(),
            last_sequence: None,
            sensitivity_bits: pointer_sensitivity_bits,
        }
    }

    /// Checks an envelope and turns its event into a command.
    pub fn decide(&mut self, envelope: ClientEnvelope) -> (admitted: Result<Command, SessionError>)
        ensures
            admitted == old(self)@.admission(envelope),
            admitted is Ok ==> final(self)@ == old(self)@.advanced(envelope.seq),
            admitted is Err ==> final(self)@ == old(self)@,
            admitted matches Ok(command) ==> performable(command),
    {
        match envelope.validate() {
            Ok(()) => {},
            Err(fault) => return Err(SessionError::Protocol(fault)),
        }
        let seq: u64 = envelope.seq;
        if let Some(previous) = self.last_sequence {
            if seq <= previous {
                return Err(SessionError::Sequence);
            }
        }
        self.last_sequence = Some(seq);
        let command = match envelope.event {
            ClientEvent::PointerMove { dx, dy } => Command::Move {
                dx: scale_pointer(dx, self.sensitivity_bits),
                dy: scale_pointer(dy, self.sensitivity_bits),
            },
            ClientEvent::Scroll { dx, dy } => Command::Scroll { dx, dy },
            ClientEvent::PointerButton { button, state } => {
                let held = self.held_buttons.contains(button);
                match state {
                    KeyState::Down => if held {
                        Command::Nothing
                    } else {
                        Command::ButtonDown(button)
                    },
                    KeyState::Up => if held {
                        Command::ButtonUp(button)
                    } else {
                        Command::Nothing
                    },
                }
            },
            ClientEvent::Key { code, state } => {
                let held = self.held_keys.contains(code);
                match state {
                    KeyState::Down => if held {
                        Command::Nothing
                    } else {
                        Command::KeyDown(code)
                    },
                    KeyState::Up => if held {
                        Command::KeyUp(code)
                    } else {
                        Command::Nothing
                    },
                }
            },
            ClientEvent::TextInput { text } => {
                proof {
                    lemma_valid_text_is_mapped(text@);
                }
                Command::Type(text)
            },
            ClientEvent::ReleaseAll => Command::ReleaseAll,
            ClientEvent::ClientStateReset => Command::ReleaseAll,
            ClientEvent::Heartbeat => Command::Heartbeat(seq),
        };
        Ok(command)
    }

    /// Takes over what became of a command. A failed command leaves the held state as it was.
    pub fn settle(&mut self, command: Command, result: Result<(), InputError>) -> (outcome: Result<
        SessionOutcome,
        SessionError,
    >)
        ensures
            outcome == (match result {
                Ok(_) => Ok::<SessionOutcome, SessionError>(success(command)),
                Err(error) => Err(SessionError::Input(error)),
            }),
            result is Ok ==> final(self)@ == old(self)@.settled(command),
            result is Err ==> final(self)@ == old(self)@,
    {
        if let Err(error) = result {
            return Err(SessionError::Input(error));
        }
        match command {
            Command::ButtonDown(button) => {
                let _ = self.held_buttons.insert(button);
            },
            Command::ButtonUp(button) => {
                let _ = self.held_buttons.remove(button);
            },
            Command::KeyDown(code) => {
                let _ = self.held_keys.insert(code);
            },
            Command::KeyUp(code) => {
                let _ = self.held_keys.remove(code);
            },
            Command::ReleaseAll => {
                self.held_buttons.clear();
                self.held_keys.clear();
            },
            Command::Heartbeat(seq) => return Ok(SessionOutcome::Heartbeat(seq)),
            _ => {},
        }
        Ok(SessionOutcome::Applied)
    }

    /// Admits an envelope, gives its command to the backend, and takes over the result.
    pub fn process<B: InputBackend>(
        &mut self,
        envelope: ClientEnvelope,
        backend: &mut B,
    ) -> (outcome: Result<SessionOutcome, SessionError>)
        ensures
            final(backend).readiness() == old(backend).readiness(),
            processed(
                old(self)@,
                final(self)@,
                envelope,
                *old(backend),
                *final(backend),
                outcome,
            ),
    {
        let command = self.decide(envelope)?;
        let result = perform(&command, backend);
        self.settle(command, result)
    }

    /// Releases whatever the session holds, each button and then each key once, past any failure,
    /// and answers with the first failure. The session holds nothing afterwards.
    pub fn cleanup<B: InputBackend>(&mut self, backend: &mut B) -> (result: Result<(), InputError>)
        ensures
            final(self)@ == old(self)@.settled(Command::ReleaseAll),
            final(backend).readiness() == old(backend).readiness(),
            exists|buttons: Seq<MouseButton>, keys: Seq<KeyCode>| #[trigger]
                lists(buttons, old(self)@.buttons) && #[trigger] lists(keys, old(self)@.keys)
                    && final(backend).asked() == old(backend).asked() + button_ups(buttons)
                    + key_ups(keys),
            cleaned_up(old(self)@, *old(backend), *final(backend), result),
    {
        let buttons = self.held_buttons.items();
        let keys = self.held_keys.items();
        self.held_buttons.clear();
        self.held_keys.clear();
        let ghost before = backend.model();
        let ghost asked = backend.asked();
        let ghost failures = backend.failures();
        let ghost readiness = backend.readiness();
        let ghost mut run = ReleaseRun { states: seq![before], results: Seq::empty() };
        let mut first: Option<InputError> = None;
        let mut i: usize = 0;
        assert(asked + button_ups(buttons@.take(0)) =~= asked);
        assert(failures + errors_among(run.results) =~= failures);
        while i < buttons.len()
            invariant
                i <= buttons@.len(),
                backend.asked() == asked + button_ups(buttons@.take(i as int)),
                backend.failures() == failures + errors_among(run.results),
                readiness is Tracks ==> {
                    let released = buttons_released(before, buttons@.take(i as int));
                    backend.model().buttons == released.buttons && backend.model().keys
                        == released.keys
                },
                run.follows(readiness, buttons@, keys@, i as int),
                run.states[0] == before,
                run.states.last() == backend.model(),
                first == first_error(run.results),
                backend.readiness() == readiness,
                first is None ==> backend.model() == buttons_released(
                    before,
                    buttons@.take(i as int),
                ),
                i == 0 ==> first is None,
                readiness is Accepts ==> first is None,
                readiness matches Readiness::Refuses { reason } ==> {
                    &&& backend.model() == before
                    &&& first is Some <==> i > 0
                    &&& first matches Some(error) ==> unavailable(error, reason)
                },
            decreases buttons@.len() - i,
        {
            let outcome = backend.button_up(buttons[i]);
            proof {
                lemma_run_goes_on(
                    run,
                    readiness,
                    buttons@,
                    keys@,
                    i as int,
                    backend.model(),
                    outcome,
                );
                let longer = run.and(backend.model(), outcome);
                assert(backend.failures() =~= failures + errors_among(longer.results));
                run = longer;
            }
            first = first_failure(first, outcome);
            assert(buttons@.take(i + 1).drop_last() =~= buttons@.take(i as int));
            assert(asked + button_ups(buttons@.take(i + 1)) =~= (asked + button_ups(
                buttons@.take(i as int),
            )).push(RecordedEvent::ButtonUp { button: buttons@[i as int] }));
            i = i + 1;
        }
        assert(buttons@.take(i as int) =~= buttons@);
        let ghost middle = buttons_released(before, buttons@);
        let ghost asked_first = asked + button_ups(buttons@);
        let mut k: usize = 0;
        assert(asked_first + key_ups(keys@.take(0)) =~= asked_first);
        while k < keys.len()
            invariant
                k <= keys@.len(),
                backend.asked() == asked_first + key_ups(keys@.take(k as int)),
                backend.failures() == failures + errors_among(run.results),
                readiness is Tracks ==> {
                    let released = keys_released(middle, keys@.take(k as int));
                    backend.model().buttons == released.buttons && backend.model().keys
                        == released.keys
                },
                run.follows(readiness, buttons@, keys@, buttons@.len() + k),
                run.states[0] == before,
                run.states.last() == backend.model(),
                first == first_error(run.results),
                backend.readiness() == readiness,
                first is None ==> backend.model() == keys_released(middle, keys@.take(k as int)),
                buttons@.len() == 0 && k == 0 ==> first is None,
                readiness is Accepts ==> first is None,
                readiness matches Readiness::Refuses { reason } ==> {
                    &&& backend.model() == before
                    &&& first is Some <==> buttons@.len() + k > 0
                    &&& first matches Some(error) ==> unavailable(error, reason)
                },
            decreases keys@.len() - k,
        {
            let outcome = backend.key_up(keys[k]);
            proof {
                lemma_run_goes_on(
                    run,
                    readiness,
                    buttons@,
                    keys@,
                    buttons@.len() + k,
                    backend.model(),
                    outcome,
                );
                let longer = run.and(backend.model(), outcome);
                assert(backend.failures() =~= failures + errors_among(longer.results));
                run = longer;
            }
            first = first_failure(first, outcome);
            assert(keys@.take(k + 1).drop_last() =~= keys@.take(k as int));
            assert(asked_first + key_ups(keys@.take(k + 1)) =~= (asked_first + key_ups(
                keys@.take(k as int),
            )).push(RecordedEvent::KeyUp { code: keys@[k as int] }));
            k = k + 1;
        }
        assert(keys@.take(k as int) =~= keys@);
        proof {
            assert(run.follows(readiness, buttons@, keys@, (buttons@.len() + keys@.len()) as int));
            lemma_empty_list(buttons@);
            lemma_empty_list(keys@);
            assert(self@ =~= old(self)@.settled(Command::ReleaseAll));
            law_cleanup_releases_everything_held(before, buttons@, keys@);
        }
        let result = match first {
            None => Ok(()),
            Some(error) => Err(error),
        };
        proof {
            assert(lists(buttons@, old(self)@.buttons));
            assert(lists(keys@, old(self)@.keys));
            assert(released_in_turn(
                old(self)@,
                *old(backend),
                *backend,
                run,
                buttons@,
                keys@,
                result,
            ));
        }
        result
    }
}

/// The failure that is kept: the first one.
pub fn first_failure(so_far: Option<InputError>, outcome: Result<(), InputError>) -> (first: Option<
    InputError,
>)
    ensures
        first == (match so_far {
            Some(earlier) => Some(earlier),
            None => match outcome {
                Ok(_) => None,
                Err(error) => Some(error),
            },
        }),
{
    match so_far {
        Some(earlier) => Some(earlier),
        None => match outcome {
            Ok(()) => None,
            Err(error) => Some(error),
        },
    }
}

/// A backend once it has released a list of buttons, one after the other.
pub open spec fn buttons_released(model: InputModel, buttons: Seq<MouseButton>) -> InputModel
    decreases buttons.len(),
{
    if buttons.len() == 0 {
        model
    } else {
        buttons_released(model, buttons.drop_last()).button_released(buttons.last())
    }
}

/// A backend once it has released a list of keys, one after the other.
pub open spec fn keys_released(model: InputModel, keys: Seq<KeyCode>) -> InputModel
    decreases keys.len(),
{
    if keys.len() == 0 {
        model
    } else {
        keys_released(model, keys.drop_last()).key_released(keys.last())
    }
}

/// A backend once it has released a list of buttons and then a list of keys.
pub open spec fn all_released(
    model: InputModel,
    buttons: Seq<MouseButton>,
    keys: Seq<KeyCode>,
) -> InputModel {
    keys_released(buttons_released(model, buttons), keys)
}

/// The list of an empty set is empty.
proof fn lemma_empty_list<T>(list: Seq<T>)
    ensures
        list.to_set() == Set::<T>::empty() <==> list.len() == 0,
{
    if list.len() > 0 {
        assert(list.contains(list[0]));
        assert(list.to_set().contains(list[0]));
        assert(!Set::<T>::empty().contains(list[0]));
    } else {
        assert(list.to_set() =~= Set::<T>::empty());
    }
}

proof fn lemma_buttons_released(model: InputModel, list: Seq<MouseButton>)
    requires
        list.no_duplicates(),
    ensures
        buttons_released(model, list).keys == model.keys,
        buttons_released(model, list).buttons == model.buttons.difference(list.to_set()),
        list.to_set().subset_of(model.buttons) ==> buttons_released(model, list).events
            == model.events + button_ups(list),
    decreases list.len(),
{
    let after = buttons_released(model, list);
    if list.len() > 0 {
        let shorter = list.drop_last();
        assert(shorter.no_duplicates());
        lemma_buttons_released(model, shorter);
        assert forall|b: MouseButton| shorter.contains(b) implies list.contains(b) by {
            let i = choose|i: int| 0 <= i < shorter.len() && shorter[i] == b;
            assert(list[i] == b);
        }
        assert(list.contains(list.last()));
        assert(!shorter.contains(list.last())) by {
            if shorter.contains(list.last()) {
                let i = choose|i: int| 0 <= i < shorter.len() && shorter[i] == list.last();
                assert(list[i] == list[list.len() - 1]);
            }
        }
        assert forall|b: MouseButton| list.contains(b) implies shorter.contains(b) || b
            == list.last() by {
            let i = choose|i: int| 0 <= i < list.len() && list[i] == b;
            if i < shorter.len() {
                assert(shorter[i] == b);
            }
        }
        assert(after.buttons =~= model.buttons.difference(list.to_set()));
        if list.to_set().subset_of(model.buttons) {
            assert(list.to_set().contains(list.last()));
            assert forall|b: MouseButton| shorter.to_set().contains(b) implies model.buttons.contains(
                b,
            ) by {
                assert(list.to_set().contains(b));
            }
            assert(shorter.to_set().subset_of(model.buttons));
            assert(button_ups(list) =~= button_ups(shorter).push(
                RecordedEvent::ButtonUp { button: list.last() },
            ));
            assert(after.events =~= model.events + button_ups(list));
        }
    } else {
        assert(after.buttons =~= model.buttons.difference(list.to_set()));
        assert(after.events =~= model.events + button_ups(list));
    }
}

proof fn lemma_keys_released(model: InputModel, list: Seq<KeyCode>)
    requires
        list.no_duplicates(),
    ensures
        keys_released(model, list).buttons == model.buttons,
        keys_released(model, list).keys == model.keys.difference(list.to_set()),
        list.to_set().subset_of(model.keys) ==> keys_released(model, list).events == model.events
            + key_ups(list),
    decreases list.len(),
{
    let after = keys_released(model, list);
    if list.len() > 0 {
        let shorter = list.drop_last();
        assert(shorter.no_duplicates());
        lemma_keys_released(model, shorter);
        assert forall|b: KeyCode| shorter.contains(b) implies list.contains(b) by {
            let i = choose|i: int| 0 <= i < shorter.len() && shorter[i] == b;
            assert(list[i] == b);
        }
        assert(list.contains(list.last()));
        assert(!shorter.contains(list.last())) by {
            if shorter.contains(list.last()) {
                let i = choose|i: int| 0 <= i < shorter.len() && shorter[i] == list.last();
                assert(list[i] == list[list.len() - 1]);
            }
        }
        assert forall|b: KeyCode| list.contains(b) implies shorter.contains(b) || b
            == list.last() by {
            let i = choose|i: int| 0 <= i < list.len() && list[i] == b;
            if i < shorter.len() {
                assert(shorter[i] == b);
            }
        }
        assert(after.keys =~= model.keys.difference(list.to_set()));
        if list.to_set().subset_of(model.keys) {
            assert(list.to_set().contains(list.last()));
            assert forall|b: KeyCode| shorter.to_set().contains(b) implies model.keys.contains(
                b,
            ) by {
                assert(list.to_set().contains(b));
            }
            assert(shorter.to_set().subset_of(model.keys));
            assert(key_ups(list) =~= key_ups(shorter).push(
                RecordedEvent::KeyUp { code: list.last() },
            ));
            assert(after.events =~= model.events + key_ups(list));
        }
    } else {
        assert(after.keys =~= model.keys.difference(list.to_set()));
        assert(after.events =~= model.events + key_ups(list));
    }
}

/// A successful cleanup leaves the backend holding only what the session did not hold; where the
/// backend held all of it, every held button and key is released exactly once, buttons first.
pub proof fn law_cleanup_releases_everything_held(
    model: InputModel,
    buttons: Seq<MouseButton>,
    keys: Seq<KeyCode>,
)
    requires
        buttons.no_duplicates(),
        keys.no_duplicates(),
    ensures
        all_released(model, buttons, keys).buttons == model.buttons.difference(buttons.to_set()),
        all_released(model, buttons, keys).keys == model.keys.difference(keys.to_set()),
        buttons.to_set().subset_of(model.buttons) && keys.to_set().subset_of(model.keys)
            ==> all_released(model, buttons, keys).events == model.events + button_ups(buttons)
            + key_ups(keys),
{
    lemma_buttons_released(model, buttons);
    lemma_keys_released(buttons_released(model, buttons), keys);
}

/// The calls of a cleanup, whatever becomes of them: one release for each button and each key that
/// the session held, each once, and nothing else.
pub proof fn law_cleanup_asks_once_for_each<B: InputBackend>(
    session: SessionModel,
    before: B,
    after: B,
    result: Result<(), InputError>,
)
    requires
        cleaned_up(session, before, after, result),
    ensures
        before.asked().is_prefix_of(after.asked()),
        ({
            let made = after.asked().skip(before.asked().len() as int);
            &&& made.no_duplicates()
            &&& forall|i: int|
                0 <= i < made.len() ==> (#[trigger] made[i]) is ButtonUp || made[i] is KeyUp
            &&& forall|button: MouseButton| #[trigger]
                made.contains(RecordedEvent::ButtonUp { button }) == session.buttons.contains(
                    button,
                )
            &&& forall|code: KeyCode| #[trigger]
                made.contains(RecordedEvent::KeyUp { code }) == session.keys.contains(code)
        }),
{
    let (run, buttons, keys) = choose|
        run: ReleaseRun,
        buttons: Seq<MouseButton>,
        keys: Seq<KeyCode>,
    | #[trigger]
        released_in_turn(session, before, after, run, buttons, keys, result);
    let made = after.asked().skip(before.asked().len() as int);
    let ups = button_ups(buttons) + key_ups(keys);
    assert(after.asked() =~= before.asked() + ups);
    assert(made =~= ups);
    assert forall|button: MouseButton| #[trigger]
        made.contains(RecordedEvent::ButtonUp { button }) == session.buttons.contains(button) by {
        if session.buttons.contains(button) {
            assert(buttons.to_set().contains(button));
            let i = choose|i: int| 0 <= i < buttons.len() && buttons[i] == button;
            assert(ups[i] == RecordedEvent::ButtonUp { button });
        }
        if made.contains(RecordedEvent::ButtonUp { button }) {
            let i = choose|i: int|
                0 <= i < made.len() && made[i] == RecordedEvent::ButtonUp { button };
            assert(buttons[i] == button);
            assert(buttons.to_set().contains(button));
        }
    }
    assert forall|code: KeyCode| #[trigger]
        made.contains(RecordedEvent::KeyUp { code }) == session.keys.contains(code) by {
        if session.keys.contains(code) {
            assert(keys.to_set().contains(code));
            let i = choose|i: int| 0 <= i < keys.len() && keys[i] == code;
            assert(ups[buttons.len() + i] == RecordedEvent::KeyUp { code });
        }
        if made.contains(RecordedEvent::KeyUp { code }) {
            let i = choose|i: int| 0 <= i < made.len() && made[i] == RecordedEvent::KeyUp { code };
            assert(keys[i - buttons.len()] == code);
            assert(keys.to_set().contains(code));
        }
    }
}

/// A cleanup answers with the first failure of its calls, and succeeds where none of them failed.
pub proof fn law_cleanup_reports_the_first_failure<B: InputBackend>(
    session: SessionModel,
    before: B,
    after: B,
    result: Result<(), InputError>,
)
    requires
        cleaned_up(session, before, after, result),
    ensures
        before.failures().is_prefix_of(after.failures()),
        result is Ok <==> after.failures() == before.failures(),
        result matches Err(error) ==> after.failures().len() > before.failures().len()
            && after.failures()[before.failures().len() as int] == error,
{
    let (run, buttons, keys) = choose|
        run: ReleaseRun,
        buttons: Seq<MouseButton>,
        keys: Seq<KeyCode>,
    | #[trigger]
        released_in_turn(session, before, after, run, buttons, keys, result);
    lemma_first_of_the_errors(run.results);
    let news = errors_among(run.results);
    assert(after.failures() == before.failures() + news);
    assert(after.failures().take(before.failures().len() as int) =~= before.failures());
    if news.len() == 0 {
        assert(before.failures() + news =~= before.failures());
    }
}

/// A second cleanup makes no call of the backend and succeeds.
pub proof fn law_second_cleanup_is_idle<B: InputBackend>(
    session: SessionModel,
    before: B,
    after: B,
    result: Result<(), InputError>,
)
    requires
        cleaned_up(session.settled(Command::ReleaseAll), before, after, result),
    ensures
        after.asked() == before.asked(),
        after.model() == before.model(),
        result is Ok,
{
    let settled = session.settled(Command::ReleaseAll);
    let (run, buttons, keys) = choose|
        run: ReleaseRun,
        buttons: Seq<MouseButton>,
        keys: Seq<KeyCode>,
    | #[trigger]
        released_in_turn(settled, before, after, run, buttons, keys, result);
    lemma_empty_list(buttons);
    lemma_empty_list(keys);
    assert(before.asked() + button_ups(buttons) + key_ups(keys) =~= before.asked());
}

/// Once an envelope was admitted, no envelope with its sequence number or an earlier one is
/// admitted again, whatever becomes of the command.
pub proof fn law_sequence_numbers_increase(
    session: SessionModel,
    first: ClientEnvelope,
    second: ClientEnvelope,
)
    requires
        session.admission(first) is Ok,
        second.seq <= first.seq,
    ensures
        session.advanced(first.seq).admission(second) is Err,
        session.advanced(first.seq).settled(session.admission(first)->Ok_0).admission(second) is Err,
        session.advanced(first.seq).settled(Command::ReleaseAll).admission(second) is Err,
{
}

/// A client state reset is a release of everything under another name, and either leaves the
/// session holding nothing.
pub proof fn law_reset_is_release_all(session: SessionModel, seq: u64)
    ensures
        session.command(seq, ClientEvent::ClientStateReset) == session.command(
            seq,
            ClientEvent::ReleaseAll,
        ),
        session.settled(session.command(seq, ClientEvent::ReleaseAll)).at_rest(),
{
}

/// A press of a key or button that is not held, and then its release, give the backend both
/// commands and leave the session as it was.
pub proof fn law_press_then_release_restores(
    session: SessionModel,
    code: KeyCode,
    button: MouseButton,
    seq: u64,
)
    ensures
        !session.keys.contains(code) ==> {
            let down = session.command(seq, ClientEvent::Key { code, state: KeyState::Down });
            let up = session.settled(down).command(
                seq,
                ClientEvent::Key { code, state: KeyState::Up },
            );
            &&& down == Command::KeyDown(code)
            &&& up == Command::KeyUp(code)
            &&& session.settled(down).settled(up) == session
        },
        !session.buttons.contains(button) ==> {
            let down = session.command(
                seq,
                ClientEvent::PointerButton { button, state: KeyState::Down },
            );
            let up = session.settled(down).command(
                seq,
                ClientEvent::PointerButton { button, state: KeyState::Up },
            );
            &&& down == Command::ButtonDown(button)
            &&& up == Command::ButtonUp(button)
            &&& session.settled(down).settled(up) == session
        },
{
    if !session.keys.contains(code) {
        assert(session.keys.insert(code).remove(code) =~= session.keys);
    }
    if !session.buttons.contains(button) {
        assert(session.buttons.insert(button).remove(button) =~= session.buttons);
    }
}

/// A text that passes the protocol's checks has a stroke for every character.
proof fn lemma_valid_text_is_mapped(text: Seq<char>)
    requires
        !(exists|i: int| 0 <= i < text.len() && !typeable(#[trigger] text[i])),
    ensures
        all_mapped(text),
{
    assert forall|i: int| 0 <= i < text.len() implies crate::input::keymap::us_stroke(
        #[trigger] text[i],
    ) is Some by {
        law_layout_covers_protocol_text(text[i]);
        assert(typeable(text[i]));
    }
}

} // verus!
