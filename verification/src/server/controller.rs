//! One control channel: what is sent and when it ends.

use crate::clock::{elapsed, elapsed_nanos, MAX_NANOS};
use crate::input::{button_ups, key_ups, lists, BackendStatus, InputBackend, InputError};
use crate::protocol::{ClientEnvelope, KeyCode, MouseButton, ServerMessage, PROTOCOL_VERSION};
use crate::session::limiter::LimiterModel;
use crate::session::{
    cleaned_up, processed, Command, RateLimiter, SessionError, SessionModel, SessionOutcome,
    SessionState, HEARTBEAT_TIMEOUT_MS, HEARTBEAT_TIMEOUT_NANOS, RATE_BURST, RATE_PER_SECOND,
};
use vstd::prelude::*;
use vstd::string::*;

verus! {

/// The contents of a message to the controller.
#[verifier::ext_equal]
pub enum MessageModel {
    Ready {
        v: u8,
        backend: Seq<char>,
        input_available: bool,
        pointer_sensitivity_bits: u64,
        heartbeat_timeout_ms: u64,
    },
    Pong { v: u8, seq: u64 },
    Error { v: u8, code: Seq<char>, message: Seq<char> },
}

impl View for ServerMessage {
    type V = MessageModel;

    open spec fn view(&self) -> MessageModel {
        match self {
            ServerMessage::Ready {
                v,
                backend,
                input_available,
                pointer_sensitivity_bits,
                heartbeat_timeout_ms,
            } => MessageModel::Ready {
                v: *v,
                backend: backend@,
                input_available: *input_available,
                pointer_sensitivity_bits: *pointer_sensitivity_bits,
                heartbeat_timeout_ms: *heartbeat_timeout_ms,
            },
            ServerMessage::Pong { v, seq } => MessageModel::Pong { v: *v, seq: *seq },
            ServerMessage::Error { v, code, message } => MessageModel::Error {
                v: *v,
                code: code@,
                message: message@,
            },
        }
    }
}

/// What to do next with the channel.
#[derive(Debug)]
pub enum Step {
    Continue,
    /// Sends a message, and ends where it cannot be sent.
    Send(ServerMessage),
    /// Sends a message and ends.
    SendLast(ServerMessage),
    /// Answers a ping, and ends where the answer cannot be sent.
    Pong(Vec<u8>),
    Stop,
}

/// The contents of a step.
#[verifier::ext_equal]
pub enum StepModel {
    Continue,
    Send(MessageModel),
    SendLast(MessageModel),
    Pong(Seq<u8>),
    Stop,
}

impl View for Step {
    type V = StepModel;

    open spec fn view(&self) -> StepModel {
        match self {
            Step::Continue => StepModel::Continue,
            Step::Send(message) => StepModel::Send(message@),
            Step::SendLast(message) => StepModel::SendLast(message@),
            Step::Pong(payload) => StepModel::Pong(payload@),
            Step::Stop => StepModel::Stop,
        }
    }
}

/// The contents of an error message.
pub open spec fn error_message(code: Seq<char>, message: Seq<char>) -> MessageModel {
    MessageModel::Error { v: PROTOCOL_VERSION, code, message }
}

fn error(code: &'static str, message: &str) -> (sent: ServerMessage)
    ensures
        sent@ == error_message(code@, message@),
{
    ServerMessage::Error { v: PROTOCOL_VERSION, code, message: message.to_owned() }
}

/// What the outcome of an envelope leads to: a heartbeat is answered, a command that the backend
/// refuses is reported, and a message that breaks the protocol ends the channel.
pub open spec fn step_for(outcome: Result<SessionOutcome, SessionError>) -> StepModel {
    match outcome {
        Ok(SessionOutcome::Applied) => StepModel::Continue,
        Ok(SessionOutcome::Heartbeat(seq)) => StepModel::Send(
            MessageModel::Pong { v: PROTOCOL_VERSION, seq },
        ),
        Err(SessionError::Input(error)) => StepModel::Send(
            error_message("input_unavailable"@, error.description()),
        ),
        Err(error) => StepModel::SendLast(error_message("invalid_message"@, error.description())),
    }
}

pub fn outcome_step(outcome: &Result<SessionOutcome, SessionError>) -> (step: Step)
    ensures
        step@ == step_for(*outcome),
{
    match outcome {
        Ok(SessionOutcome::Applied) => Step::Continue,
        Ok(SessionOutcome::Heartbeat(seq)) => Step::Send(
            ServerMessage::Pong { v: PROTOCOL_VERSION, seq: *seq },
        ),
        Err(SessionError::Input(failure)) => Step::Send(
            error("input_unavailable", failure.message().as_str()),
        ),
        Err(refusal) => Step::SendLast(error("invalid_message", refusal.message().as_str())),
    }
}

/// The first message of a channel.
pub fn ready(backend: BackendStatus, pointer_sensitivity_bits: u64) -> (message: ServerMessage)
    ensures
        message@ == (MessageModel::Ready {
            v: PROTOCOL_VERSION,
            backend: backend.name@,
            input_available: backend.available,
            pointer_sensitivity_bits,
            heartbeat_timeout_ms: HEARTBEAT_TIMEOUT_MS,
        }),
{
    ServerMessage::Ready {
        v: PROTOCOL_VERSION,
        backend: backend.name,
        input_available: backend.available,
        pointer_sensitivity_bits,
        heartbeat_timeout_ms: HEARTBEAT_TIMEOUT_MS,
    }
}

/// A frame that is not text.
#[derive(Debug)]
pub enum Frame {
    Ping(Vec<u8>),
    Pong,
    Close,
    Binary,
}

/// One control channel.
pub struct Controller {
    session: SessionState,
    limiter: RateLimiter,
    last_activity: u128,
}

/// What is remembered of a channel.
#[verifier::ext_equal]
pub struct ControllerModel {
    pub session: SessionModel,
    pub limiter: LimiterModel,
    pub last_activity: u128,
}

impl View for Controller {
    type V = ControllerModel;

    closed spec fn view(&self) -> ControllerModel {
        ControllerModel {
            session: self.session@,
            limiter: self.limiter@,
            last_activity: self.last_activity,
        }
    }
}

impl ControllerModel {
    /// Whether the controller has been silent for too long.
    pub open spec fn timed_out(self, now: u128) -> bool {
        elapsed(self.last_activity, now) > HEARTBEAT_TIMEOUT_NANOS
    }

    /// What a text message leads to before it is read.
    pub open spec fn text_step(self, now: u128) -> StepModel {
        if self.limiter.allows(now) {
            StepModel::Continue
        } else {
            StepModel::SendLast(error_message("rate_limited"@, "message rate limit exceeded"@))
        }
    }

    /// What a look at the clock leads to.
    pub open spec fn tick_step(self, now: u128) -> StepModel {
        if self.timed_out(now) {
            StepModel::SendLast(error_message("heartbeat_timeout"@, "controller timed out"@))
        } else {
            StepModel::Continue
        }
    }

    /// A text message has arrived: it is a sign of life, and it costs credit.
    pub open spec fn text_taken(self, now: u128) -> ControllerModel {
        ControllerModel {
            session: self.session,
            limiter: self.limiter.after(now),
            last_activity: now,
        }
    }

    /// Another frame has arrived: only a pong is a sign of life.
    pub open spec fn frame_taken(self, frame: Frame, now: u128) -> ControllerModel {
        if frame is Pong {
            ControllerModel { last_activity: now, ..self }
        } else {
            self
        }
    }

    /// What another frame leads to.
    pub open spec fn frame_step(frame: Frame) -> StepModel {
        match frame {
            Frame::Ping(payload) => StepModel::Pong(payload@),
            Frame::Pong => StepModel::Continue,
            Frame::Close => StepModel::Stop,
            Frame::Binary => StepModel::SendLast(
                error_message("binary_unsupported"@, "binary messages are not accepted"@),
            ),
        }
    }
}

impl Controller {
    pub fn new(pointer_sensitivity_bits: u64, now: u128) -> (controller: Self)
        requires
            now <= MAX_NANOS,
        ensures
            controller@.session.at_rest(),
            controller@.session.last_sequence is None,
            controller@.session.sensitivity_bits == pointer_sensitivity_bits,
            controller@.limiter == (LimiterModel {
                credit: RATE_BURST * 1_000_000_000,
                last_refill: now,
                rate: RATE_PER_SECOND,
                burst: RATE_BURST,
            }),
            controller@.last_activity == now,
    {
        Controller {
            session: SessionState::new(pointer_sensitivity_bits),
            limiter: RateLimiter::standard(now),
            last_activity: now,
        }
    }

    /// Looks whether the controller has been silent for too long.
    pub fn tick(&self, now: u128) -> (step: Step)
        ensures
            step@ == self@.tick_step(now),
    {
        if elapsed_nanos(self.last_activity, now) > HEARTBEAT_TIMEOUT_NANOS {
            Step::SendLast(error("heartbeat_timeout", "controller timed out"))
        } else {
            Step::Continue
        }
    }

    /// Counts a text message. It is read only where the step is to continue.
    pub fn text_arrived(&mut self, now: u128) -> (step: Step)
        requires
            now <= MAX_NANOS,
        ensures
            step@ == old(self)@.text_step(now),
            final(self)@ == old(self)@.text_taken(now),
    {
        self.last_activity = now;
        if self.limiter.allow_at(now) {
            Step::Continue
        } else {
            Step::SendLast(error("rate_limited", "message rate limit exceeded"))
        }
    }

    /// Carries out a text message, given the envelope in it where it is one.
    pub fn message<B: InputBackend>(
        &mut self,
        envelope: Option<ClientEnvelope>,
        backend: &mut B,
    ) -> (step: Step)
        ensures
            final(backend).readiness() == old(backend).readiness(),
            final(self)@.limiter == old(self)@.limiter,
            final(self)@.last_activity == old(self)@.last_activity,
            match envelope {
                None => {
                    &&& step@ == StepModel::SendLast(
                        error_message(
                            "malformed_message"@,
                            "message does not match protocol v1"@,
                        ),
                    )
                    &&& final(self)@ == old(self)@
                    &&& *final(backend) == *old(backend)
                },
                Some(envelope) => exists|outcome: Result<SessionOutcome, SessionError>|
                    step@ == step_for(outcome) && #[trigger] processed(
                        old(self)@.session,
                        final(self)@.session,
                        envelope,
                        *old(backend),
                        *final(backend),
                        outcome,
                    ),
            },
    {
        match envelope {
            None => {
                Step::SendLast(error("malformed_message", "message does not match protocol v1"))
            },
            Some(envelope) => {
                let outcome = self.session.process(envelope, backend);
                outcome_step(&outcome)
            },
        }
    }

    /// Takes a frame that is not text.
    pub fn frame_arrived(&mut self, frame: Frame, now: u128) -> (step: Step)
        ensures
            step@ == ControllerModel::frame_step(frame),
            final(self)@ == old(self)@.frame_taken(frame, now),
    {
        match frame {
            Frame::Ping(payload) => Step::Pong(payload),
            Frame::Pong => {
                self.last_activity = now;
                Step::Continue
            },
            Frame::Close => Step::Stop,
            Frame::Binary => Step::SendLast(
                error("binary_unsupported", "binary messages are not accepted"),
            ),
        }
    }

    /// Releases whatever the controller holds, when the channel has ended.
    pub fn finish<B: InputBackend>(&mut self, backend: &mut B) -> (result: Result<(), InputError>)
        ensures
            final(self)@ == (ControllerModel {
                session: old(self)@.session.settled(Command::ReleaseAll),
                ..old(self)@
            }),
            final(backend).readiness() == old(backend).readiness(),
            exists|buttons: Seq<MouseButton>, keys: Seq<KeyCode>| #[trigger]
                lists(buttons, old(self)@.session.buttons) && #[trigger] lists(
                    keys,
                    old(self)@.session.keys,
                ) && final(backend).asked() == old(backend).asked() + button_ups(buttons)
                    + key_ups(keys),
            cleaned_up(old(self)@.session, *old(backend), *final(backend), result),
    {
        self.session.cleanup(backend)
    }
}

/// A controller that is heard of often enough is never cut off, and a silent one is: the channel
/// ends exactly when more than the timeout has passed since the last text message or pong.
pub proof fn law_silence_ends_the_channel(controller: ControllerModel, now: u128)
    requires
        controller.last_activity <= now,
    ensures
        controller.timed_out(now) <==> now > controller.last_activity + HEARTBEAT_TIMEOUT_NANOS,
{
}

/// Only a message that breaks the protocol ends the channel: whatever the backend does, it does
/// not.
pub proof fn law_backend_failure_keeps_the_channel(failure: InputError)
    ensures
        step_for(Err(SessionError::Input(failure))) is Send,
{
}

/// A controller is cut off once it has been silent for more than fifteen seconds, and it is told so
/// in milliseconds when its channel opens.
pub proof fn law_fifteen_seconds_of_silence(controller: ControllerModel, now: u128)
    ensures
        controller.timed_out(now) <==> now > controller.last_activity + 15_000_000_000,
        HEARTBEAT_TIMEOUT_MS * 1_000_000 == HEARTBEAT_TIMEOUT_NANOS,
{
}

/// What a controller is answered: a heartbeat is answered with its own number and version 1; a
/// command that was carried out is not answered; one that the backend refused is reported, and the
/// channel goes on; anything that breaks the protocol ends it with a message.
pub proof fn law_answers_to_a_controller<B: InputBackend>(
    session: SessionModel,
    after: SessionModel,
    envelope: ClientEnvelope,
    input: B,
    input_after: B,
    outcome: Result<SessionOutcome, SessionError>,
)
    requires
        processed(session, after, envelope, input, input_after, outcome),
    ensures
        outcome is Ok && envelope.event is Heartbeat ==> step_for(outcome) == StepModel::Send(
            MessageModel::Pong { v: 1, seq: envelope.seq },
        ),
        outcome is Ok && !(envelope.event is Heartbeat) ==> step_for(outcome) is Continue,
        envelope.v != 1 || (session.last_sequence matches Some(previous) && envelope.seq
            <= previous) ==> {
            &&& step_for(outcome) matches StepModel::SendLast(MessageModel::Error { v, .. }) && v
                == 1
            &&& after == session
            &&& input_after == input
        },
        outcome matches Err(SessionError::Input(failure)) ==> (step_for(
            outcome,
        ) matches StepModel::Send(MessageModel::Error { v, message, .. }) && v == 1 && message
            == failure.description()),
{
}

/// A ping is answered with its own payload, a closed channel is closed, and binary frames end the
/// channel with a message.
pub proof fn law_other_frames(frame: Frame)
    ensures
        frame matches Frame::Ping(payload) ==> ControllerModel::frame_step(frame)
            == StepModel::Pong(payload@),
        frame is Pong ==> ControllerModel::frame_step(frame) is Continue,
        frame is Close ==> ControllerModel::frame_step(frame) is Stop,
        frame is Binary ==> ControllerModel::frame_step(frame) is SendLast,
{
}

/// A text message and a pong are signs of life, and no other frame is: a controller is cut off
/// exactly where more than fifteen seconds have passed since the last of them. A text message is
/// read exactly where there is credit for it, costs the credit of one message then, and otherwise
/// ends the channel.
pub proof fn law_signs_of_life(
    controller: ControllerModel,
    frame: Frame,
    arrived: u128,
    now: u128,
)
    ensures
        controller.text_taken(arrived).tick_step(now) is SendLast <==> now > arrived
            + 15_000_000_000,
        controller.tick_step(now) is SendLast <==> now > controller.last_activity + 15_000_000_000,
        controller.tick_step(now) is SendLast || controller.tick_step(now) is Continue,
        frame is Pong ==> (controller.frame_taken(frame, arrived).tick_step(now) is SendLast <==> now
            > arrived + 15_000_000_000),
        !(frame is Pong) ==> controller.frame_taken(frame, arrived) == controller,
        controller.text_taken(arrived).session == controller.session,
        controller.frame_taken(frame, arrived).session == controller.session,
        controller.frame_taken(frame, arrived).limiter == controller.limiter,
        controller.text_step(arrived) is Continue <==> controller.limiter.refilled(arrived)
            >= 1_000_000_000,
        !(controller.text_step(arrived) is Continue) ==> controller.text_step(arrived) is SendLast,
        controller.text_taken(arrived).limiter.credit == controller.limiter.refilled(arrived)
            - if controller.text_step(arrived) is Continue {
            1_000_000_000int
        } else {
            0
        },
{
}

} // verus!
