use portway::input::keymap::map_character;
use portway::config::BackendKind;
use portway::input::linux::{linux_key_code, KEY_CAPABILITIES};
use portway::input::select::needs_device;
use portway::input::{
    create_backend, map_text, InputBackend, InputError, KeyStroke, RecordedEvent, RecordingBackend,
    SelectedBackend, UnavailableBackend,
};
use portway::protocol::{KeyCode, MouseButton};

#[test]
fn maps_us_shift_combinations() {
    assert_eq!(
        map_text("aA!?_").unwrap(),
        vec![
            KeyStroke {
                code: KeyCode::KeyA,
                shift: false
            },
            KeyStroke {
                code: KeyCode::KeyA,
                shift: true
            },
            KeyStroke {
                code: KeyCode::Digit1,
                shift: true
            },
            KeyStroke {
                code: KeyCode::Slash,
                shift: true
            },
            KeyStroke {
                code: KeyCode::Minus,
                shift: true
            },
        ]
    );
}

#[test]
fn rejects_unicode_before_emitting() {
    assert!(matches!(
        map_text("oké"),
        Err(InputError::UnsupportedCharacter('é'))
    ));
}

#[test]
fn every_exposed_key_is_declared_as_a_capability() {
    let representative = [
        KeyCode::KeyA,
        KeyCode::Digit0,
        KeyCode::LeftMeta,
        KeyCode::F12,
        KeyCode::MediaPlayPause,
    ];
    for key in representative {
        assert!(KEY_CAPABILITIES.contains(&linux_key_code(key)));
    }
}

#[test]
fn records_order_and_release_all() {
    let mut backend = RecordingBackend::new();
    backend.key_down(KeyCode::LeftCtrl).unwrap();
    backend.button_down(MouseButton::Left).unwrap();
    backend.release_all().unwrap();
    let events = backend.handle().events();
    assert_eq!(
        events[0],
        RecordedEvent::KeyDown {
            code: KeyCode::LeftCtrl
        }
    );
    assert!(events.contains(&RecordedEvent::ButtonUp {
        button: MouseButton::Left
    }));
    assert!(events.contains(&RecordedEvent::KeyUp {
        code: KeyCode::LeftCtrl
    }));
    assert_eq!(events.last(), Some(&RecordedEvent::ReleaseAll));
}

#[test]
fn text_preserves_sticky_shift() {
    let mut backend = RecordingBackend::new();
    backend.key_down(KeyCode::LeftShift).unwrap();
    backend.type_text("aA").unwrap();
    assert!(backend.is_key_down(KeyCode::LeftShift));

    let events = backend.handle().events();
    assert_eq!(
        events.first(),
        Some(&RecordedEvent::KeyDown {
            code: KeyCode::LeftShift
        })
    );
    assert_eq!(
        events
            .iter()
            .filter(|event| **event
                == RecordedEvent::KeyDown {
                    code: KeyCode::LeftShift
                })
            .count(),
        2
    );
    assert!(events.contains(&RecordedEvent::KeyUp {
        code: KeyCode::LeftShift
    }));
}

#[test]
fn the_recording_backend_describes_itself() {
    let status = RecordingBackend::default().status();
    assert_eq!(status.name, "mock");
    assert!(status.available);
    assert_eq!(
        status.detail.as_deref(),
        Some("events are recorded and no host input is emitted")
    );
}

#[test]
fn the_unavailable_backend_refuses_every_command() {
    let mut backend = UnavailableBackend::new("no uinput".to_owned());
    let status = backend.status();
    assert_eq!(status.name, "unavailable");
    assert!(!status.available);
    assert_eq!(status.detail.as_deref(), Some("no uinput"));
    assert!(backend.move_pointer(1, 1).is_err());
    assert!(backend.scroll(1, 1).is_err());
    assert!(backend.button_down(MouseButton::Left).is_err());
    assert!(backend.button_up(MouseButton::Left).is_err());
    assert!(backend.key_down(KeyCode::KeyA).is_err());
    assert!(backend.key_up(KeyCode::KeyA).is_err());
    assert!(!backend.is_key_down(KeyCode::KeyA));
    assert!(backend.type_text("").is_ok());
    assert!(backend.type_text("a").is_err());
    assert!(backend.release_all().is_ok());
}

#[test]
fn unsupported_text_emits_nothing() {
    let mut backend = RecordingBackend::new();
    let error = backend.type_text("ok\u{e9}").unwrap_err();
    assert_eq!(error.message(), "unsupported text character 'é'");
    assert!(backend.handle().events().is_empty());
    assert_eq!(
        map_character('\r').unwrap_err().message(),
        "unsupported text character '\\r'"
    );
    assert_eq!(
        InputError::Device("gone".to_owned()).message(),
        "input device operation failed: gone"
    );
}

#[test]
fn every_protocol_character_has_a_stroke_of_its_own() {
    let characters: Vec<char> = ('!'..='~').chain([' ', '\n', '\t']).collect();
    let strokes: Vec<KeyStroke> = characters
        .iter()
        .map(|c| map_character(*c).unwrap())
        .collect();
    for (i, stroke) in strokes.iter().enumerate() {
        assert!(!stroke.code.is_modifier());
        assert!(!strokes[..i].contains(stroke));
    }
}

#[test]
fn repeated_presses_are_recorded_once() {
    let mut backend = RecordingBackend::new();
    backend.button_down(MouseButton::Middle).unwrap();
    backend.button_down(MouseButton::Middle).unwrap();
    backend.button_up(MouseButton::Middle).unwrap();
    backend.button_up(MouseButton::Middle).unwrap();
    assert_eq!(backend.handle().events().len(), 2);
}

#[test]
fn the_configured_backend_is_selected() {
    let device = || Ok::<RecordingBackend, String>(RecordingBackend::new());
    let missing = || Err::<RecordingBackend, String>("no such file".to_owned());
    assert!(!needs_device(BackendKind::Mock));
    assert!(needs_device(BackendKind::Auto));
    assert!(needs_device(BackendKind::Uinput));
    assert!(matches!(
        create_backend(BackendKind::Mock, missing()),
        Ok(SelectedBackend::Recording(_))
    ));
    assert!(matches!(
        create_backend(BackendKind::Auto, device()),
        Ok(SelectedBackend::Device(_))
    ));
    assert!(matches!(
        create_backend(BackendKind::Uinput, device()),
        Ok(SelectedBackend::Device(_))
    ));
    assert_eq!(
        create_backend(BackendKind::Uinput, missing()).err(),
        Some("no such file".to_owned())
    );
    let mut degraded = create_backend(BackendKind::Auto, missing()).unwrap();
    assert_eq!(degraded.status().detail.as_deref(), Some("no such file"));
    assert!(degraded.key_down(KeyCode::KeyA).is_err());
    let mut device = create_backend(BackendKind::Auto, device()).unwrap();
    device.type_text("A").unwrap();
    assert!(!device.is_key_down(KeyCode::LeftShift));
    match device {
        SelectedBackend::Device(backend) => assert_eq!(backend.handle().events().len(), 4),
        _ => unreachable!(),
    }
}

#[test]
fn reading_the_log_takes_nothing_away() {
    let mut backend = RecordingBackend::new();
    backend.move_pointer(1, 2).unwrap();
    let copy = backend.handle().clone();
    let first = backend.handle().events();
    assert_eq!(backend.handle().events(), first);
    assert_eq!(copy.events(), first);
    backend.type_text("x").unwrap();
    backend.release_all().unwrap();
    let later = backend.handle().events();
    assert_eq!(later[..first.len()], first[..]);
    assert_eq!(later.len(), 4);
}

#[test]
fn a_release_is_recorded_once() {
    let mut backend = RecordingBackend::new();
    backend.key_down(KeyCode::KeyA).unwrap();
    backend.release_all().unwrap();
    assert_eq!(
        backend.handle().events(),
        vec![
            RecordedEvent::KeyDown {
                code: KeyCode::KeyA
            },
            RecordedEvent::KeyUp {
                code: KeyCode::KeyA
            },
            RecordedEvent::ReleaseAll,
        ]
    );
}

#[test]
fn presses_and_releases_alternate_in_the_log() {
    let mut backend = RecordingBackend::new();
    backend.key_down(KeyCode::LeftShift).unwrap();
    backend.key_down(KeyCode::LeftShift).unwrap();
    backend.type_text("aB").unwrap();
    backend.key_up(KeyCode::LeftShift).unwrap();
    backend.key_down(KeyCode::LeftShift).unwrap();
    backend.release_all().unwrap();
    backend.key_down(KeyCode::LeftShift).unwrap();
    let mut down = false;
    for event in backend.handle().events() {
        match event {
            RecordedEvent::KeyDown {
                code: KeyCode::LeftShift,
            } => {
                assert!(!down);
                down = true;
            }
            RecordedEvent::KeyUp {
                code: KeyCode::LeftShift,
            } => {
                assert!(down);
                down = false;
            }
            _ => {}
        }
    }
    assert!(down);
    assert!(backend.is_key_down(KeyCode::LeftShift));
}
