use portway::input::{InputBackend, RecordedEvent, RecordingBackend, UnavailableBackend};
use portway::protocol::{
    ClientEnvelope, ClientEvent, KeyCode, KeyState, ServerMessage, PROTOCOL_VERSION,
};
use portway::server::controller::{ready, Controller, Frame, Step};

const SECOND: u128 = 1_000_000_000;

fn envelope(seq: u64, event: ClientEvent) -> Option<ClientEnvelope> {
    Some(ClientEnvelope {
        v: PROTOCOL_VERSION,
        seq,
        event,
    })
}

fn controller() -> Controller {
    Controller::new(1.0_f64.to_bits(), 0)
}

fn last_error(step: Step) -> (&'static str, String) {
    match step {
        Step::SendLast(ServerMessage::Error { v: 1, code, message }) => (code, message),
        other => panic!("{other:?}"),
    }
}

#[test]
fn the_channel_opens_with_the_status_of_the_backend() {
    let backend = RecordingBackend::new();
    assert_eq!(
        ready(backend.status(), 1.5_f64.to_bits()),
        ServerMessage::Ready {
            v: 1,
            backend: "mock".to_owned(),
            input_available: true,
            pointer_sensitivity_bits: 1.5_f64.to_bits(),
            heartbeat_timeout_ms: 15_000,
        }
    );
}

#[test]
fn heartbeats_are_answered() {
    let mut backend = RecordingBackend::new();
    let mut channel = controller();
    assert!(matches!(
        channel.message(envelope(3, ClientEvent::Heartbeat), &mut backend),
        Step::Send(ServerMessage::Pong { v: 1, seq: 3 })
    ));
}

#[test]
fn a_failed_command_is_reported_and_the_channel_goes_on() {
    let mut backend = UnavailableBackend::new("no device".to_owned());
    let mut channel = controller();
    let step = channel.message(
        envelope(1, ClientEvent::Scroll { dx: 1, dy: 0 }),
        &mut backend,
    );
    match step {
        Step::Send(ServerMessage::Error { v: 1, code, message }) => {
            assert_eq!(code, "input_unavailable");
            assert_eq!(message, "input backend is unavailable: no device");
        }
        other => panic!("{other:?}"),
    }
}

#[test]
fn a_message_that_breaks_the_protocol_ends_the_channel() {
    let mut backend = RecordingBackend::new();
    let mut channel = controller();
    assert_eq!(
        last_error(channel.message(None, &mut backend)),
        (
            "malformed_message",
            "message does not match protocol v1".to_owned()
        )
    );
    assert_eq!(
        last_error(channel.message(
            envelope(1, ClientEvent::Scroll { dx: 121, dy: 0 }),
            &mut backend
        )),
        (
            "invalid_message",
            "scroll dx is outside the permitted range".to_owned()
        )
    );
    assert!(backend.handle().events().is_empty());
}

#[test]
fn silence_ends_the_channel() {
    let mut channel = controller();
    assert!(matches!(channel.tick(15 * SECOND), Step::Continue));
    assert_eq!(
        last_error(channel.tick(15 * SECOND + 1)),
        ("heartbeat_timeout", "controller timed out".to_owned())
    );
    assert!(matches!(channel.text_arrived(14 * SECOND), Step::Continue));
    assert!(matches!(channel.tick(29 * SECOND), Step::Continue));
    assert!(matches!(
        channel.frame_arrived(Frame::Pong, 20 * SECOND),
        Step::Continue
    ));
    assert!(matches!(channel.tick(35 * SECOND), Step::Continue));
    // A ping is no sign of life.
    assert!(matches!(
        channel.frame_arrived(Frame::Ping(vec![1, 2]), 30 * SECOND),
        Step::Pong(payload) if payload == vec![1, 2]
    ));
    assert!(matches!(channel.tick(36 * SECOND), Step::SendLast(_)));
}

#[test]
fn other_frames_end_the_channel() {
    let mut channel = controller();
    assert!(matches!(
        channel.frame_arrived(Frame::Close, 0),
        Step::Stop
    ));
    assert_eq!(
        last_error(channel.frame_arrived(Frame::Binary, 0)),
        (
            "binary_unsupported",
            "binary messages are not accepted".to_owned()
        )
    );
}

#[test]
fn a_flood_ends_the_channel() {
    let mut channel = controller();
    for _ in 0..500 {
        assert!(matches!(channel.text_arrived(0), Step::Continue));
    }
    assert_eq!(
        last_error(channel.text_arrived(0)),
        ("rate_limited", "message rate limit exceeded".to_owned())
    );
}

#[test]
fn whatever_is_held_is_released_at_the_end() {
    let mut backend = RecordingBackend::new();
    let mut channel = controller();
    for (seq, code) in [(1, KeyCode::LeftCtrl), (2, KeyCode::KeyV)] {
        let event = ClientEvent::Key {
            code,
            state: KeyState::Down,
        };
        assert!(matches!(
            channel.message(envelope(seq, event), &mut backend),
            Step::Continue
        ));
    }
    channel.finish(&mut backend).unwrap();
    let events = backend.handle().events();
    assert_eq!(events.len(), 4);
    for code in [KeyCode::LeftCtrl, KeyCode::KeyV] {
        assert!(events.contains(&RecordedEvent::KeyUp { code }));
        assert!(!backend.is_key_down(code));
    }
}
