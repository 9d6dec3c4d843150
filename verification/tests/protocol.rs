use portway::protocol::{ClientEnvelope, ClientEvent, KeyCode, ProtocolError};

#[test]
fn validates_bounds_and_text() {
    let movement = ClientEnvelope {
        v: 1,
        seq: 1,
        event: ClientEvent::PointerMove { dx: 4096, dy: 0 },
    };
    assert_eq!(
        movement.validate(),
        Err(ProtocolError::OutOfRange("pointer dx"))
    );

    let unicode = ClientEnvelope {
        v: 1,
        seq: 2,
        event: ClientEvent::TextInput { text: "é".into() },
    };
    assert_eq!(unicode.validate(), Err(ProtocolError::UnsupportedText));
}

fn fault(event: ClientEvent) -> Option<ProtocolError> {
    let envelope = ClientEnvelope { v: 1, seq: 1, event };
    envelope.validate().err()
}

#[test]
fn each_field_has_its_range() {
    assert_eq!(fault(ClientEvent::PointerMove { dx: 2048, dy: -2048 }), None);
    assert_eq!(
        fault(ClientEvent::PointerMove { dx: 0, dy: -2049 }),
        Some(ProtocolError::OutOfRange("pointer dy"))
    );
    assert_eq!(fault(ClientEvent::Scroll { dx: 120, dy: -120 }), None);
    assert_eq!(
        fault(ClientEvent::Scroll { dx: -121, dy: 500 }),
        Some(ProtocolError::OutOfRange("scroll dx"))
    );
    assert_eq!(
        fault(ClientEvent::Scroll { dx: 0, dy: i32::MIN }),
        Some(ProtocolError::OutOfRange("scroll dy"))
    );
    assert_eq!(
        ProtocolError::OutOfRange("scroll dy").message(),
        "scroll dy is outside the permitted range"
    );
}

#[test]
fn text_is_short_printing_ascii() {
    let text = |text: &str| {
        fault(ClientEvent::TextInput {
            text: text.to_owned(),
        })
    };
    assert_eq!(text(""), None);
    assert_eq!(text("a\n\t ~!"), None);
    assert_eq!(text(&"x".repeat(128)), None);
    assert_eq!(text(&"x".repeat(129)), Some(ProtocolError::TextTooLong));
    // The length is counted in characters and judged first.
    assert_eq!(text(&"é".repeat(128)), Some(ProtocolError::UnsupportedText));
    assert_eq!(text(&"é".repeat(129)), Some(ProtocolError::TextTooLong));
    assert_eq!(text("\r"), Some(ProtocolError::UnsupportedText));
    assert_eq!(text("\u{7f}"), Some(ProtocolError::UnsupportedText));
    assert_eq!(
        ProtocolError::TextTooLong.message(),
        "text input is too long"
    );
    assert_eq!(
        ProtocolError::UnsupportedText.message(),
        "text input contains characters unsupported by the US-ASCII input path"
    );
}

#[test]
fn the_version_is_checked_first() {
    let envelope = ClientEnvelope {
        v: 3,
        seq: 1,
        event: ClientEvent::PointerMove { dx: 9_999, dy: 0 },
    };
    assert_eq!(envelope.validate(), Err(ProtocolError::Version(3)));
}

#[test]
fn modifiers_are_known() {
    assert!(KeyCode::LeftShift.is_modifier());
    assert!(KeyCode::RightAlt.is_modifier());
    assert!(!KeyCode::KeyA.is_modifier());
    assert!(!KeyCode::CapsLock.is_modifier());
}
