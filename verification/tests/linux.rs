use portway::input::linux::{
    create_keyboard, create_mouse, device_name, ioctl_none, ioctl_size, ioctl_write,
    linux_button_code, linux_key_code, DeviceEvent, EventWriter, UinputBackend, UinputState,
    VirtualDevice, KEY_CAPABILITIES,
    UI_DEV_CREATE, UI_DEV_DESTROY, UI_DEV_SETUP, UI_SET_EVBIT, UI_SET_KEYBIT, UI_SET_RELBIT,
};
use portway::input::InputBackend;
use portway::protocol::{
    ClientEnvelope, ClientEvent, KeyCode, KeyState, MouseButton, PROTOCOL_VERSION,
};
use portway::server::controller::Controller;
use portway::session::SessionState;
use std::sync::{Arc, Mutex};

fn mouse(event_type: u16, code: u16, value: i32) -> DeviceEvent {
    DeviceEvent {
        device: VirtualDevice::Mouse,
        event_type,
        code,
        value,
    }
}

fn keyboard(event_type: u16, code: u16, value: i32) -> DeviceEvent {
    DeviceEvent {
        device: VirtualDevice::Keyboard,
        event_type,
        code,
        value,
    }
}

#[test]
fn request_numbers_are_those_of_the_kernel() {
    let base = u32::from(b'U');
    assert_eq!(ioctl_none(base, 1), UI_DEV_CREATE);
    assert_eq!(ioctl_none(base, 2), UI_DEV_DESTROY);
    assert_eq!(ioctl_write(base, 3, ioctl_size(92)), UI_DEV_SETUP);
    assert_eq!(ioctl_write(base, 100, ioctl_size(4)), UI_SET_EVBIT);
    assert_eq!(UI_DEV_CREATE, 0x5501);
    assert_eq!(UI_DEV_DESTROY, 0x5502);
    assert_eq!(UI_DEV_SETUP, 0x405c_5503);
    assert_eq!(UI_SET_EVBIT, 0x4004_5564);
    assert_eq!(UI_SET_KEYBIT, 0x4004_5565);
    assert_eq!(UI_SET_RELBIT, 0x4004_5566);
}

#[test]
fn motion_reports_only_what_moves() {
    let state = UinputState::new();
    assert_eq!(
        state.move_pointer(3, -4),
        vec![mouse(2, 0, 3), mouse(2, 1, -4), mouse(0, 0, 0)]
    );
    assert_eq!(state.move_pointer(0, 5), vec![mouse(2, 1, 5), mouse(0, 0, 0)]);
    assert_eq!(state.move_pointer(0, 0), vec![mouse(0, 0, 0)]);
    assert_eq!(
        state.scroll(1, -1),
        vec![mouse(2, 6, 1), mouse(2, 8, -1), mouse(0, 0, 0)]
    );
}

#[test]
fn presses_and_releases_are_reported_once() {
    let mut state = UinputState::new();
    assert_eq!(
        state.key_down(KeyCode::KeyA),
        vec![keyboard(1, 30, 1), keyboard(0, 0, 0)]
    );
    assert!(state.is_key_down(KeyCode::KeyA));
    assert!(state.key_down(KeyCode::KeyA).is_empty());
    assert_eq!(
        state.key_up(KeyCode::KeyA),
        vec![keyboard(1, 30, 0), keyboard(0, 0, 0)]
    );
    assert!(state.key_up(KeyCode::KeyA).is_empty());
    assert_eq!(
        state.button_down(MouseButton::Right),
        vec![mouse(1, 0x111, 1), mouse(0, 0, 0)]
    );
    assert!(state.button_down(MouseButton::Right).is_empty());
    assert_eq!(
        state.button_up(MouseButton::Right),
        vec![mouse(1, 0x111, 0), mouse(0, 0, 0)]
    );
    assert!(state.button_up(MouseButton::Right).is_empty());
}

/// Takes so many records, and fails from then on.
struct Log {
    records: Arc<Mutex<Vec<DeviceEvent>>>,
    room: usize,
}

impl EventWriter for Log {
    fn write(&self, event: DeviceEvent) -> Result<(), String> {
        let mut records = self.records.lock().unwrap();
        if records.len() < self.room {
            records.push(event);
            Ok(())
        } else {
            Err("device gone".to_owned())
        }
    }
}

fn backend(room: usize) -> (UinputBackend<Log>, Arc<Mutex<Vec<DeviceEvent>>>) {
    let records = Arc::new(Mutex::new(Vec::new()));
    let writer = Log {
        records: Arc::clone(&records),
        room,
    };
    (UinputBackend::new(writer), records)
}

#[test]
fn a_release_of_everything_takes_the_buttons_first() {
    let (mut backend, records) = backend(100);
    backend.key_down(KeyCode::LeftShift).unwrap();
    backend.button_down(MouseButton::Left).unwrap();
    backend.release_all().unwrap();
    assert!(!backend.is_key_down(KeyCode::LeftShift));
    assert_eq!(
        records.lock().unwrap()[4..],
        [
            mouse(1, 0x110, 0),
            mouse(0, 0, 0),
            keyboard(1, 42, 0),
            keyboard(0, 0, 0)
        ]
    );
    backend.release_all().unwrap();
    assert_eq!(records.lock().unwrap().len(), 8);
}

#[test]
fn the_device_backend_writes_the_records_of_its_commands() {
    let (mut backend, records) = backend(100);
    let status = backend.status();
    assert_eq!(status.name, "uinput");
    assert!(status.available);
    assert_eq!(
        status.detail.as_deref(),
        Some("mouse and keyboard opened through /dev/uinput")
    );
    backend.move_pointer(1, 0).unwrap();
    backend.scroll(0, 2).unwrap();
    backend.type_text("A").unwrap();
    backend.button_down(MouseButton::Middle).unwrap();
    backend.button_up(MouseButton::Middle).unwrap();
    backend.key_up(KeyCode::KeyZ).unwrap();
    assert_eq!(
        *records.lock().unwrap(),
        vec![
            mouse(2, 0, 1),
            mouse(0, 0, 0),
            mouse(2, 8, 2),
            mouse(0, 0, 0),
            keyboard(1, 42, 1),
            keyboard(0, 0, 0),
            keyboard(1, 30, 1),
            keyboard(0, 0, 0),
            keyboard(1, 30, 0),
            keyboard(0, 0, 0),
            keyboard(1, 42, 0),
            keyboard(0, 0, 0),
            mouse(1, 0x112, 1),
            mouse(0, 0, 0),
            mouse(1, 0x112, 0),
            mouse(0, 0, 0),
        ]
    );
}

#[test]
fn the_first_failed_write_ends_a_command() {
    let (mut backend, records) = backend(1);
    let error = backend.move_pointer(1, 1).unwrap_err();
    assert_eq!(error.message(), "input device operation failed: device gone");
    assert_eq!(*records.lock().unwrap(), vec![mouse(2, 0, 1)]);
    assert!(backend.key_down(KeyCode::KeyA).is_err());
    // The key counts as held, so that its release is tried.
    assert!(backend.is_key_down(KeyCode::KeyA));
    assert!(backend.release_all().is_err());
}

#[test]
fn a_failed_release_ends_a_release_of_everything() {
    let (mut backend, records) = backend(5);
    backend.key_down(KeyCode::KeyA).unwrap();
    backend.button_down(MouseButton::Left).unwrap();
    let error = backend.release_all().unwrap_err();
    assert_eq!(error.message(), "input device operation failed: device gone");
    assert_eq!(records.lock().unwrap()[4..], [mouse(1, 0x110, 0)]);
    // The button was tried and counts as released; the key was not reached.
    assert!(backend.is_key_down(KeyCode::KeyA));
    assert!(backend.button_up(MouseButton::Left).is_ok());
    assert!(backend.release_all().is_err());
    assert!(!backend.is_key_down(KeyCode::KeyA));
    // Nothing is held any more, so nothing is written.
    assert!(backend.release_all().is_ok());
    assert_eq!(records.lock().unwrap().len(), 5);
}

#[test]
fn typing_ends_at_the_first_failed_call() {
    let (mut backend, records) = backend(3);
    assert!(backend.type_text("Ab").is_err());
    assert_eq!(
        *records.lock().unwrap(),
        vec![keyboard(1, 42, 1), keyboard(0, 0, 0), keyboard(1, 30, 1)]
    );
    // What was asked for counts as held, and nothing behind it was tried.
    assert!(backend.is_key_down(KeyCode::LeftShift));
    assert!(backend.is_key_down(KeyCode::KeyA));
    assert!(!backend.is_key_down(KeyCode::KeyB));
    assert!(backend.type_text("").is_ok());
    assert!(backend.type_text("\u{e9}").is_err());
    assert_eq!(records.lock().unwrap().len(), 3);
}

fn press(seq: u64, code: KeyCode) -> ClientEnvelope {
    ClientEnvelope {
        v: PROTOCOL_VERSION,
        seq,
        event: ClientEvent::Key {
            code,
            state: KeyState::Down,
        },
    }
}

#[test]
fn a_cleanup_goes_on_past_a_failure() {
    let (mut backend, records) = backend(4);
    let mut session = SessionState::new(1.0_f64.to_bits());
    session.process(press(1, KeyCode::KeyA), &mut backend).unwrap();
    session.process(press(2, KeyCode::KeyB), &mut backend).unwrap();
    let error = session.cleanup(&mut backend).unwrap_err();
    assert_eq!(error.message(), "input device operation failed: device gone");
    // Both releases were asked for, though the first failed.
    assert!(!backend.is_key_down(KeyCode::KeyA));
    assert!(!backend.is_key_down(KeyCode::KeyB));
    // A second cleanup has nothing to ask for.
    assert!(session.cleanup(&mut backend).is_ok());
    assert_eq!(records.lock().unwrap().len(), 4);
}

#[test]
fn the_end_of_a_channel_asks_for_every_release() {
    let (mut backend, _records) = backend(4);
    let mut channel = Controller::new(1.0_f64.to_bits(), 0);
    channel.message(Some(press(1, KeyCode::KeyA)), &mut backend);
    channel.message(Some(press(2, KeyCode::KeyB)), &mut backend);
    assert!(backend.is_key_down(KeyCode::KeyA));
    assert!(backend.is_key_down(KeyCode::KeyB));
    assert!(channel.finish(&mut backend).is_err());
    assert!(!backend.is_key_down(KeyCode::KeyA));
    assert!(!backend.is_key_down(KeyCode::KeyB));
    assert!(channel.finish(&mut backend).is_ok());
}

#[test]
fn devices_declare_what_they_emit() {
    let setup = create_mouse();
    assert_eq!(setup.len(), 9);
    for button in [MouseButton::Left, MouseButton::Right, MouseButton::Middle] {
        assert!(setup
            .iter()
            .any(|capability| capability.request == UI_SET_KEYBIT
                && capability.value == linux_button_code(button)));
    }
    let setup = create_keyboard();
    assert_eq!(setup.len(), KEY_CAPABILITIES.len() + 1);
    assert_eq!(setup[0].request, UI_SET_EVBIT);
    assert_eq!(setup[0].value, 1);
    assert_eq!(setup[1].value, 1);
    assert!(setup
        .iter()
        .any(|capability| capability.value == linux_key_code(KeyCode::MediaNext)));
}

#[test]
fn device_names_are_filled_up_with_zeros() {
    let record = device_name(b"mouse");
    assert_eq!(record.len(), 80);
    assert_eq!(&record[..6], b"mouse\0");
    assert!(record[5..].iter().all(|byte| *byte == 0));
    let long = device_name(&[b'x'; 100]);
    assert_eq!(long, vec![b'x'; 80]);
}
