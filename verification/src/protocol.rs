//! The versioned control protocol: client envelopes, their bounds, and server messages.

use crate::text::{chars_of, push_decimal};
use vstd::prelude::*;
use vstd::string::*;

verus! {

pub const PROTOCOL_VERSION: u8 = 1;

/// The largest WebSocket message that the control channel accepts.
pub const MAX_MESSAGE_BYTES: usize = 4096;

pub const MAX_TEXT_CHARS: usize = 128;

pub const MAX_POINTER_DELTA: i32 = 2048;

pub const MAX_SCROLL_DELTA: i32 = 120;

/// One client message: protocol version, sequence number and event.
#[derive(Debug, Clone, PartialEq)]
pub struct ClientEnvelope {
    pub v: u8,
    pub seq: u64,
    pub event: ClientEvent,
}

#[derive(Debug, Clone, PartialEq)]
pub enum ClientEvent {
    PointerMove { dx: i32, dy: i32 },
    PointerButton { button: MouseButton, state: KeyState },
    Scroll { dx: i32, dy: i32 },
    Key { code: KeyCode, state: KeyState },
    TextInput { text: String },
    ReleaseAll,
    Heartbeat,
    ClientStateReset,
}

#[derive(Debug, Clone, Copy, PartialEq, Eq, Hash, Structural)]
pub enum MouseButton {
    Left,
    Right,
    Middle,
}

#[derive(Debug, Clone, Copy, PartialEq, Eq, Structural)]
pub enum KeyState {
    Down,
    Up,
}

/// The physical keys of the protocol, by their position on a US keyboard.
#[derive(Debug, Clone, Copy, PartialEq, Eq, Hash, Structural)]
pub enum KeyCode {
    KeyA,
    KeyB,
    KeyC,
    KeyD,
    KeyE,
    KeyF,
    KeyG,
    KeyH,
    KeyI,
    KeyJ,
    KeyK,
    KeyL,
    KeyM,
    KeyN,
    KeyO,
    KeyP,
    KeyQ,
    KeyR,
    KeyS,
    KeyT,
    KeyU,
    KeyV,
    KeyW,
    KeyX,
    KeyY,
    KeyZ,
    Digit0,
    Digit1,
    Digit2,
    Digit3,
    Digit4,
    Digit5,
    Digit6,
    Digit7,
    Digit8,
    Digit9,
    Space,
    Minus,
    Equal,
    LeftBracket,
    RightBracket,
    Backslash,
    Semicolon,
    Apostrophe,
    Grave,
    Comma,
    Period,
    Slash,
    LeftCtrl,
    RightCtrl,
    LeftAlt,
    RightAlt,
    LeftShift,
    RightShift,
    LeftMeta,
    RightMeta,
    Escape,
    Tab,
    Enter,
    Backspace,
    Delete,
    Insert,
    ArrowUp,
    ArrowDown,
    ArrowLeft,
    ArrowRight,
    Home,
    End,
    PageUp,
    PageDown,
    CapsLock,
    PrintScreen,
    ScrollLock,
    Pause,
    F1,
    F2,
    F3,
    F4,
    F5,
    F6,
    F7,
    F8,
    F9,
    F10,
    F11,
    F12,
    VolumeMute,
    VolumeDown,
    VolumeUp,
    MediaPrevious,
    MediaPlayPause,
    MediaNext,
}

impl KeyCode {
    /// Control, Alt, Shift and Meta, on either side.
    pub open spec fn modifier(self) -> bool {
        ||| self is LeftCtrl || self is RightCtrl
        ||| self is LeftAlt || self is RightAlt
        ||| self is LeftShift || self is RightShift
        ||| self is LeftMeta || self is RightMeta
    }

    #[must_use]
    pub fn is_modifier(self) -> (yes: bool)
        ensures
            yes == self.modifier(),
    {
        matches!(
            self,
            KeyCode::LeftCtrl
                | KeyCode::RightCtrl
                | KeyCode::LeftAlt
                | KeyCode::RightAlt
                | KeyCode::LeftShift
                | KeyCode::RightShift
                | KeyCode::LeftMeta
                | KeyCode::RightMeta
        )
    }
}

/// A message to the controller. `pointer_sensitivity_bits` is the binary64 bit pattern of the
/// configured multiplier.
#[derive(Debug, Clone, PartialEq)]
pub enum ServerMessage {
    Ready {
        v: u8,
        backend: String,
        input_available: bool,
        pointer_sensitivity_bits: u64,
        heartbeat_timeout_ms: u64,
    },
    Pong { v: u8, seq: u64 },
    Error { v: u8, code: &'static str, message: String },
}

/// Why an envelope is refused.
#[derive(Debug, PartialEq, Eq)]
pub enum ProtocolError {
    Version(u8),
    OutOfRange(&'static str),
    TextTooLong,
    UnsupportedText,
}

impl ProtocolError {
    /// The description that the controller is shown.
    pub open spec fn description(self) -> Seq<char> {
        match self {
            ProtocolError::Version(v) => "unsupported protocol version "@ + crate::text::decimal(
                v as nat,
            ),
            ProtocolError::OutOfRange(field) => field@ + " is outside the permitted range"@,
            ProtocolError::TextTooLong => "text input is too long"@,
            ProtocolError::UnsupportedText =>
                "text input contains characters unsupported by the US-ASCII input path"@,
        }
    }

    pub fn message(&self) -> (message: String)
        ensures
            message@ == self.description(),
    {
        match self {
            ProtocolError::Version(v) => {
                let mut message = "unsupported protocol version ".to_owned();
                push_decimal(&mut message, *v as u64);
                message
            },
            ProtocolError::OutOfRange(field) => (*field).to_owned().concat(
                " is outside the permitted range",
            ),
            ProtocolError::TextTooLong => "text input is too long".to_owned(),
            ProtocolError::UnsupportedText =>
                "text input contains characters unsupported by the US-ASCII input path".to_owned(),
        }
    }
}

/// A character of the text path: newline, tab, space or a printing US-ASCII character.
pub open spec fn typeable(c: char) -> bool {
    c == '\n' || c == '\t' || c == ' ' || '!' <= c <= '~'
}

/// Whether `value` lies in `-maximum..=maximum`.
pub open spec fn within(value: int, maximum: int) -> bool {
    -maximum <= value <= maximum
}

/// The first rule that an event breaks, if it breaks one.
pub open spec fn event_fault(event: ClientEvent) -> Option<ProtocolError> {
    match event {
        ClientEvent::PointerMove { dx, dy } => if !within(dx as int, MAX_POINTER_DELTA as int) {
            Some(ProtocolError::OutOfRange("pointer dx"))
        } else if !within(dy as int, MAX_POINTER_DELTA as int) {
            Some(ProtocolError::OutOfRange("pointer dy"))
        } else {
            None
        },
        ClientEvent::Scroll { dx, dy } => if !within(dx as int, MAX_SCROLL_DELTA as int) {
            Some(ProtocolError::OutOfRange("scroll dx"))
        } else if !within(dy as int, MAX_SCROLL_DELTA as int) {
            Some(ProtocolError::OutOfRange("scroll dy"))
        } else {
            None
        },
        ClientEvent::TextInput { text } => if text@.len() > MAX_TEXT_CHARS {
            Some(ProtocolError::TextTooLong)
        } else if exists|i: int| 0 <= i < text@.len() && !typeable(#[trigger] text@[i]) {
            Some(ProtocolError::UnsupportedText)
        } else {
            None
        },
        _ => None,
    }
}

impl ClientEnvelope {
    /// The first rule that the envelope breaks, the version checked before the event.
    pub open spec fn fault(self) -> Option<ProtocolError> {
        if self.v != PROTOCOL_VERSION {
            Some(ProtocolError::Version(self.v))
        } else {
            event_fault(self.event)
        }
    }

    /// Accepts exactly the envelopes without a fault, and names the first fault of the others.
    pub fn validate(&self) -> (checked: Result<(), ProtocolError>)
        ensures
            checked == (match self.fault() {
                None => Ok::<(), ProtocolError>(()),
                Some(fault) => Err(fault),
            }),
    {
        if self.v != PROTOCOL_VERSION {
            return Err(ProtocolError::Version(self.v));
        }
        match &self.event {
            ClientEvent::PointerMove { dx, dy } => {
                validate_range(*dx, MAX_POINTER_DELTA, "pointer dx")?;
                validate_range(*dy, MAX_POINTER_DELTA, "pointer dy")?;
            },
            ClientEvent::Scroll { dx, dy } => {
                validate_range(*dx, MAX_SCROLL_DELTA, "scroll dx")?;
                validate_range(*dy, MAX_SCROLL_DELTA, "scroll dy")?;
            },
            ClientEvent::TextInput { text } => {
                if text.as_str().unicode_len() > MAX_TEXT_CHARS {
                    return Err(ProtocolError::TextTooLong);
                }
                let chars = chars_of(text.as_str());
                let mut i: usize = 0;
                while i < chars.len()
                    invariant
                        self.event matches ClientEvent::TextInput { text } && chars@ == text@
                            && text@.len() <= MAX_TEXT_CHARS,
                        self.v == PROTOCOL_VERSION,
                        i <= chars@.len(),
                        forall|j: int| 0 <= j < i ==> typeable(#[trigger] chars@[j]),
                    decreases chars@.len() - i,
                {
                    let c: char = chars[i];
                    if !(c == '\n' || c == '\t' || c == ' ' || ('!' <= c && c <= '~')) {
                        assert(!typeable(chars@[i as int]));
                        return Err(ProtocolError::UnsupportedText);
                    }
                    i = i + 1;
                }
            },
            ClientEvent::PointerButton { .. }
            | ClientEvent::Key { .. }
            | ClientEvent::ReleaseAll
            | ClientEvent::Heartbeat
            | ClientEvent::ClientStateReset => {},
        }
        Ok(())
    }
}

/// Accepts exactly the values of `-maximum..=maximum`.
pub fn validate_range(value: i32, maximum: i32, field: &'static str) -> (checked: Result<
    (),
    ProtocolError,
>)
    requires
        maximum != i32::MIN,
    ensures
        checked == (if within(value as int, maximum as int) {
            Ok::<(), ProtocolError>(())
        } else {
            Err(ProtocolError::OutOfRange(field))
        }),
{
    if -maximum <= value && value <= maximum {
        Ok(())
    } else {
        Err(ProtocolError::OutOfRange(field))
    }
}

/// An envelope keeps to the protocol exactly where it has version 1, moves the pointer by at most
/// 2048 and scrolls by at most 120 along each axis, and carries at most 128 characters of text, all
/// of them printing ASCII characters, spaces, tabs or newlines.
pub proof fn law_protocol_bounds(envelope: ClientEnvelope)
    ensures
        envelope.fault() is None <==> envelope.v == 1 && match envelope.event {
            ClientEvent::PointerMove { dx, dy } => -2048 <= dx <= 2048 && -2048 <= dy <= 2048,
            ClientEvent::Scroll { dx, dy } => -120 <= dx <= 120 && -120 <= dy <= 120,
            ClientEvent::TextInput { text } => text@.len() <= 128 && forall|i: int|
                0 <= i < text@.len() ==> 32 <= #[trigger] text@[i] as int <= 126 || text@[i] as int
                    == 9 || text@[i] as int == 10,
            _ => true,
        },
{
    if let ClientEvent::TextInput { text } = envelope.event {
        assert forall|i: int| 0 <= i < text@.len() implies (typeable(#[trigger] text@[i]) <==> (32
            <= text@[i] as int <= 126 || text@[i] as int == 9 || text@[i] as int == 10)) by {}
        if forall|i: int|
            0 <= i < text@.len() ==> 32 <= #[trigger] text@[i] as int <= 126 || text@[i] as int == 9
                || text@[i] as int == 10 {
            assert(forall|i: int| 0 <= i < text@.len() ==> typeable(#[trigger] text@[i]));
        }
    }
}

/// A refusal names what is wrong: the version where it is another, the field that is out of range,
/// the first of two, or the length or the characters of a text.
pub proof fn law_protocol_refusal_names_the_fault(envelope: ClientEnvelope)
    ensures
        match envelope.fault() {
            None => true,
            Some(ProtocolError::Version(v)) => envelope.v == v && v != 1,
            Some(ProtocolError::OutOfRange(field)) => envelope.v == 1 && match envelope.event {
                ClientEvent::PointerMove { dx, dy } => if dx < -2048 || dx > 2048 {
                    field@ == "pointer dx"@
                } else {
                    field@ == "pointer dy"@ && (dy < -2048 || dy > 2048)
                },
                ClientEvent::Scroll { dx, dy } => if dx < -120 || dx > 120 {
                    field@ == "scroll dx"@
                } else {
                    field@ == "scroll dy"@ && (dy < -120 || dy > 120)
                },
                _ => false,
            },
            Some(ProtocolError::TextTooLong) => envelope.v == 1 && (
            envelope.event matches ClientEvent::TextInput { text } && text@.len() > 128),
            Some(ProtocolError::UnsupportedText) => envelope.v == 1 && (
            envelope.event matches ClientEvent::TextInput { text } && text@.len() <= 128
                && exists|i: int|
                0 <= i < text@.len() && !(32 <= #[trigger] text@[i] as int <= 126 || text@[i] as int
                    == 9 || text@[i] as int == 10)),
        },
{
    if let ClientEvent::TextInput { text } = envelope.event {
        if exists|i: int| 0 <= i < text@.len() && !typeable(#[trigger] text@[i]) {
            let i = choose|i: int| 0 <= i < text@.len() && !typeable(#[trigger] text@[i]);
            assert(!(32 <= text@[i] as int <= 126 || text@[i] as int == 9 || text@[i] as int == 10));
        }
    }
}

} // verus!
