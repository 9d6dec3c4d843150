use portway::input::{InputBackend, InputError, RecordedEvent, RecordingBackend, UnavailableBackend};
use portway::protocol::{
    ClientEnvelope, ClientEvent, KeyCode, KeyState, MouseButton, ProtocolError, PROTOCOL_VERSION,
};
use portway::session::{RateLimiter, SessionError, SessionOutcome, SessionState};

fn envelope(seq: u64, event: ClientEvent) -> ClientEnvelope {
    ClientEnvelope {
        v: PROTOCOL_VERSION,
        seq,
        event,
    }
}

fn key(code: KeyCode, state: KeyState) -> ClientEvent {
    ClientEvent::Key { code, state }
}

#[test]
fn applies_motion_scroll_and_ordered_press_release() {
    let mut backend = RecordingBackend::new();
    let mut session = SessionState::new(1.5_f64.to_bits());

    session
        .process(
            envelope(1, ClientEvent::PointerMove { dx: 4, dy: -2 }),
            &mut backend,
        )
        .unwrap();
    session
        .process(
            envelope(2, ClientEvent::Scroll { dx: 1, dy: -3 }),
            &mut backend,
        )
        .unwrap();
    session
        .process(
            envelope(3, key(KeyCode::LeftCtrl, KeyState::Down)),
            &mut backend,
        )
        .unwrap();
    session
        .process(envelope(4, key(KeyCode::KeyC, KeyState::Down)), &mut backend)
        .unwrap();
    session
        .process(envelope(5, key(KeyCode::KeyC, KeyState::Up)), &mut backend)
        .unwrap();

    assert_eq!(
        backend.handle().events(),
        vec![
            RecordedEvent::PointerMove { dx: 6, dy: -3 },
            RecordedEvent::Scroll { dx: 1, dy: -3 },
            RecordedEvent::KeyDown {
                code: KeyCode::LeftCtrl
            },
            RecordedEvent::KeyDown {
                code: KeyCode::KeyC
            },
            RecordedEvent::KeyUp {
                code: KeyCode::KeyC
            },
        ]
    );
}

#[test]
fn cleanup_releases_held_state() {
    let mut backend = RecordingBackend::new();
    let mut session = SessionState::new(1.0_f64.to_bits());
    session
        .process(
            envelope(
                1,
                ClientEvent::PointerButton {
                    button: MouseButton::Left,
                    state: KeyState::Down,
                },
            ),
            &mut backend,
        )
        .unwrap();
    session
        .process(
            envelope(2, key(KeyCode::LeftAlt, KeyState::Down)),
            &mut backend,
        )
        .unwrap();

    session.cleanup(&mut backend).unwrap();

    let events = backend.handle().events();
    assert!(events.contains(&RecordedEvent::ButtonUp {
        button: MouseButton::Left
    }));
    assert!(events.contains(&RecordedEvent::KeyUp {
        code: KeyCode::LeftAlt
    }));
}

#[test]
fn rejects_replayed_sequence() {
    let mut backend = RecordingBackend::default();
    let mut session = SessionState::new(1.0_f64.to_bits());
    session
        .process(envelope(2, ClientEvent::Heartbeat), &mut backend)
        .unwrap();
    assert!(matches!(
        session.process(envelope(2, ClientEvent::Heartbeat), &mut backend),
        Err(SessionError::Sequence)
    ));
}

#[test]
fn rate_limiter_exhausts_and_refills() {
    let start: u128 = 5_000_000_000;
    let mut limiter = RateLimiter::new(10, 2, start);
    assert!(limiter.allow_at(start));
    assert!(limiter.allow_at(start));
    assert!(!limiter.allow_at(start));
    assert!(limiter.allow_at(start + 100_000_000));
}

#[test]
fn rate_limiter_refills_by_the_nanosecond() {
    let mut limiter = RateLimiter::new(10, 1, 0);
    assert!(limiter.allow_at(0));
    assert!(!limiter.allow_at(99_999_999));
    assert!(limiter.allow_at(100_000_000));
}

#[test]
fn rate_limiter_never_exceeds_its_burst() {
    let mut limiter = RateLimiter::standard(0);
    let day: u128 = 86_400_000_000_000;
    let passed = (0..1_000).filter(|_| limiter.allow_at(day)).count();
    assert_eq!(passed, 500);
    // A clock that goes back brings nothing.
    assert!(!limiter.allow_at(0));
}

#[test]
fn standard_rate_is_250_a_second() {
    let mut limiter = RateLimiter::standard(0);
    for _ in 0..500 {
        assert!(limiter.allow_at(0));
    }
    let second: u128 = 1_000_000_000;
    let passed = (0..1_000).filter(|_| limiter.allow_at(second)).count();
    assert_eq!(passed, 250);
}

#[test]
fn heartbeats_are_answered_with_their_sequence() {
    let mut backend = RecordingBackend::new();
    let mut session = SessionState::new(1.0_f64.to_bits());
    assert_eq!(
        session
            .process(envelope(7, ClientEvent::Heartbeat), &mut backend)
            .unwrap(),
        SessionOutcome::Heartbeat(7)
    );
    assert!(backend.handle().events().is_empty());
}

#[test]
fn invalid_envelope_changes_nothing() {
    let mut backend = RecordingBackend::new();
    let mut session = SessionState::new(1.0_f64.to_bits());
    let wrong = ClientEnvelope {
        v: 2,
        seq: 9,
        event: ClientEvent::Heartbeat,
    };
    let error = session.process(wrong, &mut backend).unwrap_err();
    assert!(matches!(
        error,
        SessionError::Protocol(ProtocolError::Version(2))
    ));
    assert_eq!(error.message(), "unsupported protocol version 2");
    // The sequence number of the refused envelope is still free.
    assert!(session
        .process(envelope(1, ClientEvent::Heartbeat), &mut backend)
        .is_ok());
    let replayed = session
        .process(envelope(1, ClientEvent::Heartbeat), &mut backend)
        .unwrap_err();
    assert_eq!(replayed.message(), "message sequence must increase");
}

#[test]
fn repeated_presses_and_stray_releases_are_ignored() {
    let mut backend = RecordingBackend::new();
    let mut session = SessionState::new(1.0_f64.to_bits());
    let events = [
        key(KeyCode::KeyA, KeyState::Up),
        key(KeyCode::KeyA, KeyState::Down),
        key(KeyCode::KeyA, KeyState::Down),
        key(KeyCode::KeyA, KeyState::Up),
        key(KeyCode::KeyA, KeyState::Up),
    ];
    for (seq, event) in (1_u64..).zip(events) {
        assert_eq!(
            session.process(envelope(seq, event), &mut backend).unwrap(),
            SessionOutcome::Applied
        );
    }
    assert_eq!(
        backend.handle().events(),
        vec![
            RecordedEvent::KeyDown {
                code: KeyCode::KeyA
            },
            RecordedEvent::KeyUp {
                code: KeyCode::KeyA
            },
        ]
    );
}

#[test]
fn unavailable_backend_refuses_and_keeps_the_session() {
    let mut backend = UnavailableBackend::new("no device".to_owned());
    let mut session = SessionState::new(1.0_f64.to_bits());
    let error = session
        .process(
            envelope(1, key(KeyCode::KeyA, KeyState::Down)),
            &mut backend,
        )
        .unwrap_err();
    assert!(matches!(
        error,
        SessionError::Input(InputError::Unavailable(_))
    ));
    assert_eq!(
        error.message(),
        "input backend is unavailable: no device"
    );
    // Nothing is held, so there is nothing to release.
    assert!(session.cleanup(&mut backend).is_ok());
    // The sequence number is used up all the same.
    assert!(matches!(
        session.process(envelope(1, ClientEvent::Heartbeat), &mut backend),
        Err(SessionError::Sequence)
    ));
    assert!(session
        .process(envelope(2, ClientEvent::ReleaseAll), &mut backend)
        .is_ok());
}

#[test]
fn reset_releases_everything() {
    let mut backend = RecordingBackend::new();
    let mut session = SessionState::new(1.0_f64.to_bits());
    session
        .process(
            envelope(1, key(KeyCode::LeftShift, KeyState::Down)),
            &mut backend,
        )
        .unwrap();
    session
        .process(envelope(2, ClientEvent::ClientStateReset), &mut backend)
        .unwrap();
    assert!(!backend.is_key_down(KeyCode::LeftShift));
    assert_eq!(
        backend.handle().events().last(),
        Some(&RecordedEvent::ReleaseAll)
    );
    session.cleanup(&mut backend).unwrap();
    assert_eq!(backend.handle().events().len(), 3);
}

#[test]
fn text_is_typed_through_the_session() {
    let mut backend = RecordingBackend::new();
    let mut session = SessionState::new(1.0_f64.to_bits());
    session
        .process(
            envelope(
                1,
                ClientEvent::TextInput {
                    text: "A\n".to_owned(),
                },
            ),
            &mut backend,
        )
        .unwrap();
    assert_eq!(
        backend.handle().events(),
        vec![
            RecordedEvent::KeyDown {
                code: KeyCode::LeftShift
            },
            RecordedEvent::KeyDown {
                code: KeyCode::KeyA
            },
            RecordedEvent::KeyUp {
                code: KeyCode::KeyA
            },
            RecordedEvent::KeyUp {
                code: KeyCode::LeftShift
            },
            RecordedEvent::KeyDown {
                code: KeyCode::Enter
            },
            RecordedEvent::KeyUp {
                code: KeyCode::Enter
            },
        ]
    );
}
