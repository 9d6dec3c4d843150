//! The Linux virtual devices: request numbers, capabilities, key numbers and the event records
//! that each command writes.

use super::held::HeldSet;
use super::{
    button_ups, command_outcome, key_ups, lemma_skip_to_set, lists, release_outcome, released_by,
    released_in_part, BackendStatus, InputBackend, InputError, InputModel, Readiness, RecordedEvent,
};
use crate::protocol::{KeyCode, MouseButton};
use vstd::prelude::*;
use vstd::string::*;

verus! {

pub const UINPUT_IOCTL_BASE: u32 = 85;

pub const UI_DEV_CREATE: u64 = 0x5501;

pub const UI_DEV_DESTROY: u64 = 0x5502;

pub const UI_DEV_SETUP: u64 = 0x405c_5503;

pub const UI_SET_EVBIT: u64 = 0x4004_5564;

pub const UI_SET_KEYBIT: u64 = 0x4004_5565;

pub const UI_SET_RELBIT: u64 = 0x4004_5566;

/// The size of the setup record: a device identity, an 80-byte name and one 32-bit count.
pub const SETUP_BYTES: usize = 92;

/// The size of a capability argument.
pub const CAPABILITY_BYTES: usize = 4;

pub const EV_SYN: u16 = 0;

pub const EV_KEY: u16 = 1;

pub const EV_REL: u16 = 2;

pub const SYN_REPORT: u16 = 0;

pub const REL_X: u16 = 0;

pub const REL_Y: u16 = 1;

pub const REL_HWHEEL: u16 = 6;

pub const REL_WHEEL: u16 = 8;

pub const BTN_LEFT: u16 = 0x110;

pub const BTN_RIGHT: u16 = 0x111;

pub const BTN_MIDDLE: u16 = 0x112;

pub const BUS_USB: u16 = 0x03;

pub const VENDOR_ID: u16 = 0x1209;

pub const MOUSE_PRODUCT_ID: u16 = 0x2721;

pub const KEYBOARD_PRODUCT_ID: u16 = 0x2722;

/// The length of a device name record.
pub const NAME_BYTES: usize = 80;

/// The key numbers that the virtual keyboard declares.
pub const KEY_CAPABILITIES: [u16; 92] = [
    1, 2, 3, 4, 5, 6, 7, 8, 9, 10, 11, 12, 13, 14, 15, 16, 17, 18, 19, 20, 21, 22, 23, 24, 25,
    26, 27, 28, 29, 30, 31, 32, 33, 34, 35, 36, 37, 38, 39, 40, 41, 42, 43, 44, 45, 46, 47, 48,
    49, 50, 51, 52, 53, 54, 56, 57, 58, 59, 60, 61, 62, 63, 64, 65, 66, 67, 68, 70, 87, 88, 97,
    99, 100, 102, 103, 104, 105, 106, 107, 108, 109, 110, 111, 113, 114, 115, 119, 125, 126, 163,
    164, 165,
];

/// A request without an argument: type in bits 8 and up, number below.
pub open spec fn none_request(kind: u32, number: u32) -> u64 {
    ((kind << 8) | number) as u64
}

/// A request with an argument to read: direction in bits 30 and up, the argument's size from
/// bit 16, type from bit 8, number below.
pub open spec fn write_request(kind: u32, number: u32, size: u32) -> u64 {
    ((1u32 << 30) | (size << 16) | (kind << 8) | number) as u64
}

pub fn ioctl_none(kind: u32, number: u32) -> (request: u64)
    ensures
        request == none_request(kind, number),
{
    ((kind << 8) | number) as u64
}

pub fn ioctl_write(kind: u32, number: u32, size: u32) -> (request: u64)
    ensures
        request == write_request(kind, number, size),
{
    ((1u32 << 30) | (size << 16) | (kind << 8) | number) as u64
}

/// The size field of a request holds fourteen bits.
pub fn ioctl_size(size: usize) -> (field: u32)
    requires
        size <= 0x3fff,
    ensures
        field == size,
{
    size as u32
}

/// The request constants are the encodings of their type, number and argument size.
pub proof fn law_request_numbers()
    ensures
        UI_DEV_CREATE == none_request(UINPUT_IOCTL_BASE, 1),
        UI_DEV_DESTROY == none_request(UINPUT_IOCTL_BASE, 2),
        UI_DEV_SETUP == write_request(UINPUT_IOCTL_BASE, 3, SETUP_BYTES as u32),
        UI_SET_EVBIT == write_request(UINPUT_IOCTL_BASE, 100, CAPABILITY_BYTES as u32),
        UI_SET_KEYBIT == write_request(UINPUT_IOCTL_BASE, 101, CAPABILITY_BYTES as u32),
        UI_SET_RELBIT == write_request(UINPUT_IOCTL_BASE, 102, CAPABILITY_BYTES as u32),
{
    assert(((85u32 << 8) | 1u32) as u64 == 0x5501u64 && ((85u32 << 8) | 2u32) as u64 == 0x5502u64)
        by (bit_vector);
    assert(((1u32 << 30) | (92u32 << 16) | (85u32 << 8) | 3u32) as u64 == 0x405c_5503u64)
        by (bit_vector);
    assert(((1u32 << 30) | (4u32 << 16) | (85u32 << 8) | 100u32) as u64 == 0x4004_5564u64)
        by (bit_vector);
    assert(((1u32 << 30) | (4u32 << 16) | (85u32 << 8) | 101u32) as u64 == 0x4004_5565u64)
        by (bit_vector);
    assert(((1u32 << 30) | (4u32 << 16) | (85u32 << 8) | 102u32) as u64 == 0x4004_5566u64)
        by (bit_vector);
}

/// The kernel's number of a mouse button.
pub open spec fn button_number(button: MouseButton) -> u16 {
    match button {
        MouseButton::Left => BTN_LEFT,
        MouseButton::Right => BTN_RIGHT,
        MouseButton::Middle => BTN_MIDDLE,
    }
}

/// The kernel's number of a key.
pub open spec fn key_number(code: KeyCode) -> u16 {
    match code {
        KeyCode::KeyA => 30,
        KeyCode::KeyB => 48,
        KeyCode::KeyC => 46,
        KeyCode::KeyD => 32,
        KeyCode::KeyE => 18,
        KeyCode::KeyF => 33,
        KeyCode::KeyG => 34,
        KeyCode::KeyH => 35,
        KeyCode::KeyI => 23,
        KeyCode::KeyJ => 36,
        KeyCode::KeyK => 37,
        KeyCode::KeyL => 38,
        KeyCode::KeyM => 50,
        KeyCode::KeyN => 49,
        KeyCode::KeyO => 24,
        KeyCode::KeyP => 25,
        KeyCode::KeyQ => 16,
        KeyCode::KeyR => 19,
        KeyCode::KeyS => 31,
        KeyCode::KeyT => 20,
        KeyCode::KeyU => 22,
        KeyCode::KeyV => 47,
        KeyCode::KeyW => 17,
        KeyCode::KeyX => 45,
        KeyCode::KeyY => 21,
        KeyCode::KeyZ => 44,
        KeyCode::Digit0 => 11,
        KeyCode::Digit1 => 2,
        KeyCode::Digit2 => 3,
        KeyCode::Digit3 => 4,
        KeyCode::Digit4 => 5,
        KeyCode::Digit5 => 6,
        KeyCode::Digit6 => 7,
        KeyCode::Digit7 => 8,
        KeyCode::Digit8 => 9,
        KeyCode::Digit9 => 10,
        KeyCode::Space => 57,
        KeyCode::Minus => 12,
        KeyCode::Equal => 13,
        KeyCode::LeftBracket => 26,
        KeyCode::RightBracket => 27,
        KeyCode::Backslash => 43,
        KeyCode::Semicolon => 39,
        KeyCode::Apostrophe => 40,
        KeyCode::Grave => 41,
        KeyCode::Comma => 51,
        KeyCode::Period => 52,
        KeyCode::Slash => 53,
        KeyCode::LeftCtrl => 29,
        KeyCode::RightCtrl => 97,
        KeyCode::LeftAlt => 56,
        KeyCode::RightAlt => 100,
        KeyCode::LeftShift => 42,
        KeyCode::RightShift => 54,
        KeyCode::LeftMeta => 125,
        KeyCode::RightMeta => 126,
        KeyCode::Escape => 1,
        KeyCode::Tab => 15,
        KeyCode::Enter => 28,
        KeyCode::Backspace => 14,
        KeyCode::Delete => 111,
        KeyCode::Insert => 110,
        KeyCode::ArrowUp => 103,
        KeyCode::ArrowDown => 108,
        KeyCode::ArrowLeft => 105,
        KeyCode::ArrowRight => 106,
        KeyCode::Home => 102,
        KeyCode::End => 107,
        KeyCode::PageUp => 104,
        KeyCode::PageDown => 109,
        KeyCode::CapsLock => 58,
        KeyCode::PrintScreen => 99,
        KeyCode::ScrollLock => 70,
        KeyCode::Pause => 119,
        KeyCode::F1 => 59,
        KeyCode::F2 => 60,
        KeyCode::F3 => 61,
        KeyCode::F4 => 62,
        KeyCode::F5 => 63,
        KeyCode::F6 => 64,
        KeyCode::F7 => 65,
        KeyCode::F8 => 66,
        KeyCode::F9 => 67,
        KeyCode::F10 => 68,
        KeyCode::F11 => 87,
        KeyCode::F12 => 88,
        KeyCode::VolumeMute => 113,
        KeyCode::VolumeDown => 114,
        KeyCode::VolumeUp => 115,
        KeyCode::MediaPrevious => 165,
        KeyCode::MediaPlayPause => 164,
        KeyCode::MediaNext => 163,
    }
}

pub fn linux_button_code(button: MouseButton) -> (number: u16)
    ensures
        number == button_number(button),
{
    match button {
        MouseButton::Left => BTN_LEFT,
        MouseButton::Right => BTN_RIGHT,
        MouseButton::Middle => BTN_MIDDLE,
    }
}

pub fn linux_key_code(code: KeyCode) -> (number: u16)
    ensures
        number == key_number(code),
{
    match code {
        KeyCode::KeyA => 30,
        KeyCode::KeyB => 48,
        KeyCode::KeyC => 46,
        KeyCode::KeyD => 32,
        KeyCode::KeyE => 18,
        KeyCode::KeyF => 33,
        KeyCode::KeyG => 34,
        KeyCode::KeyH => 35,
        KeyCode::KeyI => 23,
        KeyCode::KeyJ => 36,
        KeyCode::KeyK => 37,
        KeyCode::KeyL => 38,
        KeyCode::KeyM => 50,
        KeyCode::KeyN => 49,
        KeyCode::KeyO => 24,
        KeyCode::KeyP => 25,
        KeyCode::KeyQ => 16,
        KeyCode::KeyR => 19,
        KeyCode::KeyS => 31,
        KeyCode::KeyT => 20,
        KeyCode::KeyU => 22,
        KeyCode::KeyV => 47,
        KeyCode::KeyW => 17,
        KeyCode::KeyX => 45,
        KeyCode::KeyY => 21,
        KeyCode::KeyZ => 44,
        KeyCode::Digit0 => 11,
        KeyCode::Digit1 => 2,
        KeyCode::Digit2 => 3,
        KeyCode::Digit3 => 4,
        KeyCode::Digit4 => 5,
        KeyCode::Digit5 => 6,
        KeyCode::Digit6 => 7,
        KeyCode::Digit7 => 8,
        KeyCode::Digit8 => 9,
        KeyCode::Digit9 => 10,
        KeyCode::Space => 57,
        KeyCode::Minus => 12,
        KeyCode::Equal => 13,
        KeyCode::LeftBracket => 26,
        KeyCode::RightBracket => 27,
        KeyCode::Backslash => 43,
        KeyCode::Semicolon => 39,
        KeyCode::Apostrophe => 40,
        KeyCode::Grave => 41,
        KeyCode::Comma => 51,
        KeyCode::Period => 52,
        KeyCode::Slash => 53,
        KeyCode::LeftCtrl => 29,
        KeyCode::RightCtrl => 97,
        KeyCode::LeftAlt => 56,
        KeyCode::RightAlt => 100,
        KeyCode::LeftShift => 42,
        KeyCode::RightShift => 54,
        KeyCode::LeftMeta => 125,
        KeyCode::RightMeta => 126,
        KeyCode::Escape => 1,
        KeyCode::Tab => 15,
        KeyCode::Enter => 28,
        KeyCode::Backspace => 14,
        KeyCode::Delete => 111,
        KeyCode::Insert => 110,
        KeyCode::ArrowUp => 103,
        KeyCode::ArrowDown => 108,
        KeyCode::ArrowLeft => 105,
        KeyCode::ArrowRight => 106,
        KeyCode::Home => 102,
        KeyCode::End => 107,
        KeyCode::PageUp => 104,
        KeyCode::PageDown => 109,
        KeyCode::CapsLock => 58,
        KeyCode::PrintScreen => 99,
        KeyCode::ScrollLock => 70,
        KeyCode::Pause => 119,
        KeyCode::F1 => 59,
        KeyCode::F2 => 60,
        KeyCode::F3 => 61,
        KeyCode::F4 => 62,
        KeyCode::F5 => 63,
        KeyCode::F6 => 64,
        KeyCode::F7 => 65,
        KeyCode::F8 => 66,
        KeyCode::F9 => 67,
        KeyCode::F10 => 68,
        KeyCode::F11 => 87,
        KeyCode::F12 => 88,
        KeyCode::VolumeMute => 113,
        KeyCode::VolumeDown => 114,
        KeyCode::VolumeUp => 115,
        KeyCode::MediaPrevious => 165,
        KeyCode::MediaPlayPause => 164,
        KeyCode::MediaNext => 163,
    }
}

/// Every key of the protocol is declared as a capability.
pub proof fn law_every_key_is_declared(code: KeyCode)
    ensures
        KEY_CAPABILITIES@.contains(key_number(code)),
{
}

/// No two keys share a number.
pub proof fn law_key_numbers_are_distinct(a: KeyCode, b: KeyCode)
    requires
        key_number(a) == key_number(b),
    ensures
        a == b,
{
}

/// The virtual device that an event record is written to.
#[derive(Debug, Clone, Copy, PartialEq, Eq, Structural)]
pub enum VirtualDevice {
    Mouse,
    Keyboard,
}

/// One event record, to be written to its device. The records of one command are written in
/// order, and the first failed write ends the command.
#[derive(Debug, Clone, Copy, PartialEq, Eq, Structural)]
pub struct DeviceEvent {
    pub device: VirtualDevice,
    pub event_type: u16,
    pub code: u16,
    pub value: i32,
}

/// The record that ends a report.
pub open spec fn sync_event(device: VirtualDevice) -> DeviceEvent {
    DeviceEvent { device, event_type: EV_SYN, code: SYN_REPORT, value: 0 }
}

/// The change of one axis; an axis that does not move has no record.
pub open spec fn axis(code: u16, value: i32) -> Seq<DeviceEvent> {
    if value != 0 {
        seq![DeviceEvent { device: VirtualDevice::Mouse, event_type: EV_REL, code, value }]
    } else {
        Seq::empty()
    }
}

/// The report of a change along two axes.
pub open spec fn motion(
    horizontal: u16,
    vertical: u16,
    dx: i32,
    dy: i32,
) -> Seq<DeviceEvent> {
    axis(horizontal, dx) + axis(vertical, dy) + seq![sync_event(VirtualDevice::Mouse)]
}

/// The report of a button or key that goes down (1) or up (0).
pub open spec fn switch(device: VirtualDevice, code: u16, value: i32) -> Seq<DeviceEvent> {
    seq![DeviceEvent { device, event_type: EV_KEY, code, value }, sync_event(device)]
}

/// The records of a command that has something to do. A release of everything has none of its own.
pub open spec fn records_of(event: RecordedEvent) -> Seq<DeviceEvent> {
    match event {
        RecordedEvent::PointerMove { dx, dy } => motion(REL_X, REL_Y, dx, dy),
        RecordedEvent::Scroll { dx, dy } => motion(REL_HWHEEL, REL_WHEEL, dx, dy),
        RecordedEvent::ButtonDown { button } => switch(
            VirtualDevice::Mouse,
            button_number(button),
            1,
        ),
        RecordedEvent::ButtonUp { button } => switch(
            VirtualDevice::Mouse,
            button_number(button),
            0,
        ),
        RecordedEvent::KeyDown { code } => switch(VirtualDevice::Keyboard, key_number(code), 1),
        RecordedEvent::KeyUp { code } => switch(VirtualDevice::Keyboard, key_number(code), 0),
        RecordedEvent::ReleaseAll => Seq::empty(),
    }
}

/// The records of some commands, one after the other.
pub open spec fn records_of_all(events: Seq<RecordedEvent>) -> Seq<DeviceEvent>
    decreases events.len(),
{
    if events.len() == 0 {
        Seq::empty()
    } else {
        records_of_all(events.drop_last()) + records_of(events.last())
    }
}

fn sync_record(device: VirtualDevice) -> (event: DeviceEvent)
    ensures
        event == sync_event(device),
{
    DeviceEvent { device, event_type: EV_SYN, code: SYN_REPORT, value: 0 }
}

fn motion_records(horizontal: u16, vertical: u16, dx: i32, dy: i32) -> (events: Vec<DeviceEvent>)
    ensures
        events@ == motion(horizontal, vertical, dx, dy),
{
    let mut events: Vec<DeviceEvent> = Vec::new();
    if dx != 0 {
        events.push(
            DeviceEvent {
                device: VirtualDevice::Mouse,
                event_type: EV_REL,
                code: horizontal,
                value: dx,
            },
        );
    }
    if dy != 0 {
        events.push(
            DeviceEvent {
                device: VirtualDevice::Mouse,
                event_type: EV_REL,
                code: vertical,
                value: dy,
            },
        );
    }
    events.push(sync_record(VirtualDevice::Mouse));
    assert(events@ =~= motion(horizontal, vertical, dx, dy));
    events
}

fn switch_records(device: VirtualDevice, code: u16, value: i32) -> (events: Vec<DeviceEvent>)
    ensures
        events@ == switch(device, code, value),
{
    let mut events: Vec<DeviceEvent> = Vec::new();
    events.push(DeviceEvent { device, event_type: EV_KEY, code, value });
    events.push(sync_record(device));
    assert(events@ =~= switch(device, code, value));
    events
}

/// What the virtual devices hold down. Each command answers with the event records to write; the
/// state changes before the first of them is written.
pub struct UinputState {
    keys: HeldSet<KeyCode>,
    buttons: HeldSet<MouseButton>,
}

impl UinputState {
    pub closed spec fn keys(&self) -> Set<KeyCode> {
        self.keys@
    }

    pub closed spec fn buttons(&self) -> Set<MouseButton> {
        self.buttons@
    }

    pub fn new() -> (state: Self)
        ensures
            state.keys() == Set::<KeyCode>::empty(),
            state.buttons() == Set::<MouseButton>::empty(),
    {
        UinputState { keys: HeldSet::new(), buttons: HeldSet::new() }
    }

    pub fn move_pointer(&self, dx: i32, dy: i32) -> (events: Vec<DeviceEvent>)
        ensures
            events@ == records_of(RecordedEvent::PointerMove { dx, dy }),
    {
        motion_records(REL_X, REL_Y, dx, dy)
    }

    pub fn scroll(&self, dx: i32, dy: i32) -> (events: Vec<DeviceEvent>)
        ensures
            events@ == records_of(RecordedEvent::Scroll { dx, dy }),
    {
        motion_records(REL_HWHEEL, REL_WHEEL, dx, dy)
    }

    pub fn button_down(&mut self, button: MouseButton) -> (events: Vec<DeviceEvent>)
        ensures
            final(self).keys() == old(self).keys(),
            final(self).buttons() == old(self).buttons().insert(button),
            events@ == (if old(self).buttons().contains(button) {
                Seq::empty()
            } else {
                records_of(RecordedEvent::ButtonDown { button })
            }),
    {
        if self.buttons.insert(button) {
            switch_records(VirtualDevice::Mouse, linux_button_code(button), 1)
        } else {
            Vec::new()
        }
    }

    pub fn button_up(&mut self, button: MouseButton) -> (events: Vec<DeviceEvent>)
        ensures
            final(self).keys() == old(self).keys(),
            final(self).buttons() == old(self).buttons().remove(button),
            events@ == (if old(self).buttons().contains(button) {
                records_of(RecordedEvent::ButtonUp { button })
            } else {
                Seq::empty()
            }),
    {
        if self.buttons.remove(button) {
            switch_records(VirtualDevice::Mouse, linux_button_code(button), 0)
        } else {
            Vec::new()
        }
    }

    pub fn key_down(&mut self, code: KeyCode) -> (events: Vec<DeviceEvent>)
        ensures
            final(self).keys() == old(self).keys().insert(code),
            final(self).buttons() == old(self).buttons(),
            events@ == (if old(self).keys().contains(code) {
                Seq::empty()
            } else {
                records_of(RecordedEvent::KeyDown { code })
            }),
    {
        if self.keys.insert(code) {
            switch_records(VirtualDevice::Keyboard, linux_key_code(code), 1)
        } else {
            Vec::new()
        }
    }

    pub fn key_up(&mut self, code: KeyCode) -> (events: Vec<DeviceEvent>)
        ensures
            final(self).keys() == old(self).keys().remove(code),
            final(self).buttons() == old(self).buttons(),
            events@ == (if old(self).keys().contains(code) {
                records_of(RecordedEvent::KeyUp { code })
            } else {
                Seq::empty()
            }),
    {
        if self.keys.remove(code) {
            switch_records(VirtualDevice::Keyboard, linux_key_code(code), 0)
        } else {
            Vec::new()
        }
    }

    pub fn is_key_down(&self, code: KeyCode) -> (down: bool)
        ensures
            down == self.keys().contains(code),
    {
        self.keys.contains(code)
    }
}

/// A capability to declare: the request and its argument.
#[derive(Debug, Clone, Copy, PartialEq, Eq, Structural)]
pub struct Capability {
    pub request: u64,
    pub value: u16,
}

/// The capabilities of the virtual mouse: three buttons and four relative axes.
pub open spec fn mouse_setup() -> Seq<Capability> {
    seq![
        Capability { request: UI_SET_EVBIT, value: EV_KEY },
        Capability { request: UI_SET_EVBIT, value: EV_REL },
        Capability { request: UI_SET_KEYBIT, value: BTN_LEFT },
        Capability { request: UI_SET_KEYBIT, value: BTN_RIGHT },
        Capability { request: UI_SET_KEYBIT, value: BTN_MIDDLE },
        Capability { request: UI_SET_RELBIT, value: REL_X },
        Capability { request: UI_SET_RELBIT, value: REL_Y },
        Capability { request: UI_SET_RELBIT, value: REL_WHEEL },
        Capability { request: UI_SET_RELBIT, value: REL_HWHEEL },
    ]
}

/// The capabilities of the virtual keyboard: key events, then every declared key.
pub open spec fn keyboard_setup() -> Seq<Capability> {
    seq![Capability { request: UI_SET_EVBIT, value: EV_KEY }] + KEY_CAPABILITIES@.map_values(
        |value: u16| Capability { request: UI_SET_KEYBIT, value },
    )
}

pub fn create_mouse() -> (setup: Vec<Capability>)
    ensures
        setup@ == mouse_setup(),
{
    let setup = vec![
        Capability { request: UI_SET_EVBIT, value: EV_KEY },
        Capability { request: UI_SET_EVBIT, value: EV_REL },
        Capability { request: UI_SET_KEYBIT, value: BTN_LEFT },
        Capability { request: UI_SET_KEYBIT, value: BTN_RIGHT },
        Capability { request: UI_SET_KEYBIT, value: BTN_MIDDLE },
        Capability { request: UI_SET_RELBIT, value: REL_X },
        Capability { request: UI_SET_RELBIT, value: REL_Y },
        Capability { request: UI_SET_RELBIT, value: REL_WHEEL },
        Capability { request: UI_SET_RELBIT, value: REL_HWHEEL },
    ];
    assert(setup@ =~= mouse_setup());
    setup
}

pub fn create_keyboard() -> (setup: Vec<Capability>)
    ensures
        setup@ == keyboard_setup(),
{
    let mut setup: Vec<Capability> = Vec::new();
    setup.push(Capability { request: UI_SET_EVBIT, value: EV_KEY });
    let mut i: usize = 0;
    while i < KEY_CAPABILITIES.len()
        invariant
            i <= KEY_CAPABILITIES@.len(),
            setup@ == keyboard_setup().take(i + 1),
        decreases KEY_CAPABILITIES@.len() - i,
    {
        setup.push(Capability { request: UI_SET_KEYBIT, value: KEY_CAPABILITIES[i] });
        assert(setup@ =~= keyboard_setup().take(i + 2));
        i = i + 1;
    }
    assert(setup@ =~= keyboard_setup());
    setup
}

/// Every event record of a command names a code that its device has declared.
pub proof fn law_commands_use_declared_codes(code: KeyCode, button: MouseButton)
    ensures
        keyboard_setup().contains(Capability { request: UI_SET_KEYBIT, value: key_number(code) }),
        mouse_setup().contains(
            Capability { request: UI_SET_KEYBIT, value: button_number(button) },
        ),
{
    law_every_key_is_declared(code);
    let at = choose|at: int|
        0 <= at < KEY_CAPABILITIES@.len() && KEY_CAPABILITIES@[at] == key_number(code);
    assert(keyboard_setup()[at + 1] == Capability {
        request: UI_SET_KEYBIT,
        value: key_number(code),
    });
    assert(mouse_setup()[2].value == BTN_LEFT);
    assert(mouse_setup()[3].value == BTN_RIGHT);
    assert(mouse_setup()[4].value == BTN_MIDDLE);
}

/// The name record: the first eighty bytes of the name, filled up with zeros.
pub open spec fn name_record(name: Seq<u8>) -> Seq<u8> {
    Seq::new(
        NAME_BYTES as nat,
        |i: int| if i < name.len() {
            name[i]
        } else {
            0u8
        },
    )
}

pub fn device_name(name: &[u8]) -> (record: Vec<u8>)
    ensures
        record@ == name_record(name@),
{
    let mut record: Vec<u8> = Vec::new();
    let mut i: usize = 0;
    while i < NAME_BYTES
        invariant
            i <= NAME_BYTES,
            record@ == name_record(name@).take(i as int),
        decreases NAME_BYTES - i,
    {
        let byte: u8 = if i < name.len() {
            name[i]
        } else {
            0
        };
        record.push(byte);
        assert(record@ =~= name_record(name@).take(i + 1));
        i = i + 1;
    }
    assert(record@ =~= name_record(name@));
    record
}

/// What takes the event records: the two device files. Nothing is claimed of what it does with
/// one, nor of what it answers.
pub trait EventWriter: Send {
    fn write(&self, event: DeviceEvent) -> Result<(), String>;
}

/// A record that was handed to a writer, and the answer.
pub type Delivery = (DeviceEvent, Result<(), String>);

/// A list of records that were all taken.
pub open spec fn all_taken(list: Seq<DeviceEvent>) -> Seq<Delivery> {
    list.map_values(|event: DeviceEvent| (event, Ok::<(), String>(())))
}

/// The first records of a list, the last of which failed.
pub open spec fn failed_at(list: Seq<DeviceEvent>, count: int, reason: String) -> Seq<Delivery> {
    all_taken(list.take(count - 1)).push((list[count - 1], Err::<(), String>(reason)))
}

/// The first records of a list were handed over, and the last of them failed.
pub open spec fn stopped_at(
    before: Seq<Delivery>,
    after: Seq<Delivery>,
    list: Seq<DeviceEvent>,
    count: int,
    error: InputError,
) -> bool {
    &&& error is Device
    &&& 0 < count <= list.len()
    &&& after == before + failed_at(list, count, error->Device_0)
}

/// What was handed over for a list of records: all of it, or, where one failed, the part up to
/// that one.
pub open spec fn handed(
    before: Seq<Delivery>,
    after: Seq<Delivery>,
    list: Seq<DeviceEvent>,
    result: Result<(), InputError>,
) -> bool {
    match result {
        Ok(_) => after == before + all_taken(list),
        Err(error) => exists|count: int| #[trigger] stopped_at(before, after, list, count, error),
    }
}

/// What was emitted between two states is what the writer took: the records of the events that
/// came in, in their order, and no others.
pub open spec fn written(
    events_before: Seq<RecordedEvent>,
    events_after: Seq<RecordedEvent>,
    before: Seq<Delivery>,
    after: Seq<Delivery>,
) -> bool {
    &&& events_before.is_prefix_of(events_after)
    &&& after == before + all_taken(
        records_of_all(events_after.skip(events_before.len() as int)),
    )
}

proof fn lemma_one_written(
    events: Seq<RecordedEvent>,
    event: RecordedEvent,
    before: Seq<Delivery>,
    after: Seq<Delivery>,
)
    requires
        after == before + all_taken(records_of(event)),
    ensures
        written(events, events.push(event), before, after),
{
    let longer = events.push(event);
    let news = longer.skip(events.len() as int);
    assert(news =~= seq![event]);
    assert(news.drop_last() =~= Seq::<RecordedEvent>::empty());
    reveal_with_fuel(records_of_all, 2);
    assert(records_of_all(news) =~= records_of(event));
    assert(longer.take(events.len() as int) =~= events);
}

proof fn lemma_nothing_written(
    events: Seq<RecordedEvent>,
    before: Seq<Delivery>,
    after: Seq<Delivery>,
)
    requires
        after == before + all_taken(Seq::empty()),
    ensures
        written(events, events, before, after),
{
    assert(events.skip(events.len() as int) =~= Seq::<RecordedEvent>::empty());
    assert(records_of_all(Seq::<RecordedEvent>::empty()) =~= Seq::<DeviceEvent>::empty());
    assert(events.take(events.len() as int) =~= events);
}

proof fn lemma_records_append(first: Seq<RecordedEvent>, second: Seq<RecordedEvent>)
    ensures
        records_of_all(first + second) == records_of_all(first) + records_of_all(second),
    decreases second.len(),
{
    if second.len() == 0 {
        assert(first + second =~= first);
        assert(records_of_all(first) + Seq::<DeviceEvent>::empty() =~= records_of_all(first));
    } else {
        assert((first + second).drop_last() =~= first + second.drop_last());
        lemma_records_append(first, second.drop_last());
        assert(records_of_all(first + second) =~= records_of_all(first) + records_of_all(second));
    }
}

proof fn lemma_button_releases(list: Seq<MouseButton>)
    ensures
        records_of_all(button_ups(list)) == button_up_records(list),
    decreases list.len(),
{
    if list.len() > 0 {
        let shorter = list.drop_last();
        let n = list.len() - 1;
        lemma_button_releases(shorter);
        lemma_next_button(list, Seq::empty(), n);
        assert(list.take(n) =~= shorter);
        assert(list.take(n + 1) =~= list);
        assert(button_ups(list).drop_last() =~= button_ups(shorter));
    } else {
        assert(records_of_all(button_ups(list)) =~= button_up_records(list));
    }
}

proof fn lemma_key_releases(list: Seq<KeyCode>)
    ensures
        records_of_all(key_ups(list)) == key_up_records(list),
    decreases list.len(),
{
    if list.len() > 0 {
        let shorter = list.drop_last();
        let n = list.len() - 1;
        lemma_key_releases(shorter);
        lemma_next_key(Seq::empty(), list, n);
        assert(list.take(n) =~= shorter);
        assert(list.take(n + 1) =~= list);
        let none = Seq::<MouseButton>::empty();
        assert(release_records(none, shorter) =~= key_up_records(shorter));
        assert(release_records(none, list) =~= key_up_records(list));
        assert(key_ups(list).drop_last() =~= key_ups(shorter));
    } else {
        assert(records_of_all(key_ups(list)) =~= key_up_records(list));
    }
}

/// A writer, and everything that it was handed.
struct DeviceLog<W: EventWriter> {
    writer: W,
    log: Ghost<Seq<Delivery>>,
}

impl<W: EventWriter> DeviceLog<W> {
    /// The writer was handed every record of the log, and answered as the log says.
    #[verifier::type_invariant]
    spec fn true_to_the_writer(self) -> bool {
        forall|i: int|
            0 <= i < self.log@.len() ==> call_ensures(
                W::write,
                (&self.writer, (#[trigger] self.log@[i]).0),
                self.log@[i].1,
            )
    }

    fn write(&mut self, event: DeviceEvent) -> (outcome: Result<(), String>)
        ensures
            final(self).writer == old(self).writer,
            final(self).log@ == old(self).log@.push((event, outcome)),
    {
        proof {
            use_type_invariant(&*self);
        }
        let outcome = self.writer.write(event);
        proof {
            self.log@ = self.log@.push((event, outcome));
        }
        outcome
    }
}

/// The records of releasing a list of buttons, one after the other.
pub open spec fn button_up_records(list: Seq<MouseButton>) -> Seq<DeviceEvent> {
    Seq::new(
        2 * list.len(),
        |i: int| switch(VirtualDevice::Mouse, button_number(list[i / 2]), 0)[i % 2],
    )
}

/// The records of releasing a list of keys, one after the other.
pub open spec fn key_up_records(list: Seq<KeyCode>) -> Seq<DeviceEvent> {
    Seq::new(
        2 * list.len(),
        |i: int| switch(VirtualDevice::Keyboard, key_number(list[i / 2]), 0)[i % 2],
    )
}

/// The records of a release of everything.
pub open spec fn release_records(buttons: Seq<MouseButton>, keys: Seq<KeyCode>) -> Seq<
    DeviceEvent,
> {
    button_up_records(buttons) + key_up_records(keys)
}

/// A failure in the part of a list that comes next is a failure in the list.
proof fn lemma_failed_at(
    done: Seq<DeviceEvent>,
    next: Seq<DeviceEvent>,
    list: Seq<DeviceEvent>,
    count: int,
    reason: String,
)
    requires
        0 < count <= next.len(),
        done.len() + next.len() <= list.len(),
        list.take((done.len() + next.len()) as int) == done + next,
    ensures
        all_taken(done) + failed_at(next, count, reason) == failed_at(
            list,
            done.len() + count,
            reason,
        ),
{
    let front = done + next;
    assert forall|i: int| 0 <= i < front.len() implies list[i] == front[i] by {
        assert(list.take(front.len() as int)[i] == list[i]);
    }
    let n = done.len() + count;
    assert(list.take(n - 1) =~= done + next.take(count - 1));
    assert(all_taken(list.take(n - 1)) =~= all_taken(done) + all_taken(next.take(count - 1)));
    assert(list[n - 1] == next[count - 1]);
    assert(all_taken(done) + failed_at(next, count, reason) =~= failed_at(list, n, reason));
}

/// The records of one more button come next.
proof fn lemma_next_button(buttons: Seq<MouseButton>, keys: Seq<KeyCode>, i: int)
    requires
        0 <= i < buttons.len(),
    ensures
        button_up_records(buttons.take(i)) + switch(
            VirtualDevice::Mouse,
            button_number(buttons[i]),
            0,
        ) == button_up_records(buttons.take(i + 1)),
        release_records(buttons, keys).take(2 * (i + 1)) == button_up_records(buttons.take(i + 1)),
{
    let longer = button_up_records(buttons.take(i + 1));
    let next = switch(VirtualDevice::Mouse, button_number(buttons[i]), 0);
    assert(button_up_records(buttons.take(i)) + next =~= longer) by {
        assert forall|j: int| 0 <= j < longer.len() implies (button_up_records(buttons.take(i))
            + next)[j] == longer[j] by {
            if j < 2 * i {
                assert(buttons.take(i)[j / 2] == buttons.take(i + 1)[j / 2]);
            } else {
                assert(j / 2 == i);
            }
        }
    }
    assert(release_records(buttons, keys).take(2 * (i + 1)) =~= longer) by {
        assert forall|j: int| 0 <= j < longer.len() implies release_records(buttons, keys)[j]
            == longer[j] by {
            assert(buttons.take(i + 1)[j / 2] == buttons[j / 2]);
        }
    }
}

/// The records of one more key come next.
proof fn lemma_next_key(buttons: Seq<MouseButton>, keys: Seq<KeyCode>, k: int)
    requires
        0 <= k < keys.len(),
    ensures
        release_records(buttons, keys.take(k)) + switch(
            VirtualDevice::Keyboard,
            key_number(keys[k]),
            0,
        ) == release_records(buttons, keys.take(k + 1)),
        release_records(buttons, keys).take(2 * (buttons.len() + k + 1)) == release_records(
            buttons,
            keys.take(k + 1),
        ),
{
    let longer = key_up_records(keys.take(k + 1));
    let next = switch(VirtualDevice::Keyboard, key_number(keys[k]), 0);
    assert(key_up_records(keys.take(k)) + next =~= longer) by {
        assert forall|j: int| 0 <= j < longer.len() implies (key_up_records(keys.take(k)) + next)[j]
            == longer[j] by {
            if j < 2 * k {
                assert(keys.take(k)[j / 2] == keys.take(k + 1)[j / 2]);
            } else {
                assert(j / 2 == k);
            }
        }
    }
    assert(release_records(buttons, keys.take(k)) + next =~= release_records(
        buttons,
        keys.take(k + 1),
    ));
    let n = 2 * (buttons.len() + k + 1);
    assert(release_records(buttons, keys).take(n) =~= release_records(buttons, keys.take(k + 1)))
        by {
        assert forall|j: int| 0 <= j < n implies release_records(buttons, keys)[j]
            == release_records(buttons, keys.take(k + 1))[j] by {
            if j >= 2 * buttons.len() {
                let at = j - 2 * buttons.len();
                assert(keys.take(k + 1)[at / 2] == keys[at / 2]);
            }
        }
    }
}

/// The backend that controls the host through its virtual mouse and keyboard.
pub struct UinputBackend<W: EventWriter> {
    out: DeviceLog<W>,
    state: UinputState,
    events: Ghost<Seq<RecordedEvent>>,
    asked: Ghost<Seq<RecordedEvent>>,
    failures: Ghost<Seq<InputError>>,
}

impl<W: EventWriter> UinputBackend<W> {
    pub closed spec fn writer(&self) -> W {
        self.out.writer
    }

    /// Every record that was handed to the writer, with the answer.
    pub closed spec fn deliveries(&self) -> Seq<Delivery> {
        self.out.log@
    }

    /// The writer was handed every one of the records, and answered as they say.
    pub open spec fn delivered(&self) -> bool {
        forall|i: int|
            0 <= i < self.deliveries().len() ==> call_ensures(
                W::write,
                (&self.writer(), (#[trigger] self.deliveries()[i]).0),
                self.deliveries()[i].1,
            )
    }

    pub fn new(writer: W) -> (backend: Self)
        ensures
            backend.model() == (InputModel {
                keys: Set::empty(),
                buttons: Set::empty(),
                events: Seq::empty(),
            }),
            backend.asked() == Seq::<RecordedEvent>::empty(),
            backend.writer() == writer,
            backend.deliveries() == Seq::<Delivery>::empty(),
    {
        UinputBackend {
            out: DeviceLog { writer, log: Ghost(Seq::empty()) },
            state: UinputState::new(),
            events: Ghost(Seq::empty()),
            asked: Ghost(Seq::empty()),
            failures: Ghost(Seq::empty()),
        }
    }

    /// Hands the records of one command to the writer. The first failed write ends the command.
    fn write(&mut self, list: &Vec<DeviceEvent>) -> (result: Result<(), InputError>)
        ensures
            final(self).state == old(self).state,
            final(self).events == old(self).events,
            final(self).asked == old(self).asked,
            final(self).failures == old(self).failures,
            final(self).writer() == old(self).writer(),
            final(self).delivered(),
            handed(old(self).deliveries(), final(self).deliveries(), list@, result),
    {
        let ghost before = self.deliveries();
        let mut i: usize = 0;
        assert(before + all_taken(list@.take(0)) =~= before);
        while i < list.len()
            invariant
                i <= list@.len(),
                self.state == old(self).state,
                self.events == old(self).events,
                self.asked == old(self).asked,
                self.failures == old(self).failures,
                self.writer() == old(self).writer(),
                before == old(self).deliveries(),
                self.deliveries() == before + all_taken(list@.take(i as int)),
            decreases list@.len() - i,
        {
            match self.out.write(list[i]) {
                Ok(unit) => {
                    proof {
                        assert(unit == ());
                        assert(all_taken(list@.take(i + 1)) =~= all_taken(
                            list@.take(i as int),
                        ).push((list@[i as int], Ok::<(), String>(()))));
                        assert(self.deliveries() =~= before + all_taken(list@.take(i + 1)));
                    }
                },
                Err(reason) => {
                    let error = InputError::Device(reason);
                    proof {
                        use_type_invariant(&self.out);
                        assert(self.deliveries() =~= before + failed_at(
                            list@,
                            i + 1,
                            error->Device_0,
                        ));
                        assert(stopped_at(before, self.deliveries(), list@, i + 1, error));
                    }
                    return Err(error);
                },
            }
            i = i + 1;
        }
        proof {
            use_type_invariant(&self.out);
            assert(list@.take(i as int) =~= list@);
        }
        Ok(())
    }

    /// Takes down that a command failed.
    fn failed(&mut self, error: InputError) -> (same: InputError)
        ensures
            same == error,
            final(self).failures() == old(self).failures().push(error),
            final(self).model() == old(self).model(),
            final(self).asked() == old(self).asked(),
            final(self).writer() == old(self).writer(),
            final(self).deliveries() == old(self).deliveries(),
    {
        proof {
            self.failures@ = self.failures@.push(error);
        }
        error
    }

    /// Releases a button.
    fn lift_button(&mut self, button: MouseButton) -> (result: Result<(), InputError>)
        ensures
            final(self).asked() == old(self).asked(),
            final(self).failures() == old(self).failures(),
            final(self).writer() == old(self).writer(),
            final(self).delivered(),
            result is Ok ==> written(
                old(self).model().events,
                final(self).model().events,
                old(self).deliveries(),
                final(self).deliveries(),
            ),
            command_outcome(
                Readiness::Tracks,
                old(self).model(),
                final(self).model(),
                old(self).model().button_released(button),
                result,
            ),
            handed(
                old(self).deliveries(),
                final(self).deliveries(),
                if old(self).model().buttons.contains(button) {
                    records_of(RecordedEvent::ButtonUp { button })
                } else {
                    Seq::empty()
                },
                result,
            ),
    {
        let list = self.state.button_up(button);
        assert(self.state.buttons() =~= old(self).model().button_released(button).buttons);
        self.write(&list)?;
        proof {
            if old(self).model().buttons.contains(button) {
                self.events@ = self.events@.push(RecordedEvent::ButtonUp { button });
            }
            assert(self.model() =~= old(self).model().button_released(button));
            if old(self).model().buttons.contains(button) {
                lemma_one_written(
                    old(self).model().events,
                    RecordedEvent::ButtonUp { button },
                    old(self).deliveries(),
                    self.deliveries(),
                );
            } else {
                lemma_nothing_written(
                    old(self).model().events,
                    old(self).deliveries(),
                    self.deliveries(),
                );
            }
        }
        Ok(())
    }

    /// Releases a key.
    fn lift_key(&mut self, code: KeyCode) -> (result: Result<(), InputError>)
        ensures
            final(self).asked() == old(self).asked(),
            final(self).failures() == old(self).failures(),
            final(self).writer() == old(self).writer(),
            final(self).delivered(),
            result is Ok ==> written(
                old(self).model().events,
                final(self).model().events,
                old(self).deliveries(),
                final(self).deliveries(),
            ),
            command_outcome(
                Readiness::Tracks,
                old(self).model(),
                final(self).model(),
                old(self).model().key_released(code),
                result,
            ),
            handed(
                old(self).deliveries(),
                final(self).deliveries(),
                if old(self).model().keys.contains(code) {
                    records_of(RecordedEvent::KeyUp { code })
                } else {
                    Seq::empty()
                },
                result,
            ),
    {
        let list = self.state.key_up(code);
        assert(self.state.keys() =~= old(self).model().key_released(code).keys);
        self.write(&list)?;
        proof {
            if old(self).model().keys.contains(code) {
                self.events@ = self.events@.push(RecordedEvent::KeyUp { code });
            }
            assert(self.model() =~= old(self).model().key_released(code));
            if old(self).model().keys.contains(code) {
                lemma_one_written(
                    old(self).model().events,
                    RecordedEvent::KeyUp { code },
                    old(self).deliveries(),
                    self.deliveries(),
                );
            } else {
                lemma_nothing_written(
                    old(self).model().events,
                    old(self).deliveries(),
                    self.deliveries(),
                );
            }
        }
        Ok(())
    }
}

impl<W: EventWriter> InputBackend for UinputBackend<W> {
    closed spec fn model(&self) -> InputModel {
        InputModel { keys: self.state.keys(), buttons: self.state.buttons(), events: self.events@ }
    }

    open spec fn readiness(&self) -> Readiness {
        Readiness::Tracks
    }

    closed spec fn failures(&self) -> Seq<InputError> {
        self.failures@
    }

    closed spec fn asked(&self) -> Seq<RecordedEvent> {
        self.asked@
    }

    open spec fn release_effect(&self, after: InputModel) -> bool {
        exists|buttons: Seq<MouseButton>, keys: Seq<KeyCode>| #[trigger]
            released_by(self.model(), after, buttons, keys)
    }

    fn status(&self) -> (status: BackendStatus)
        ensures
            status.name@ == "uinput"@,
            status.available,
            status.detail matches Some(detail) && detail@
                == "mouse and keyboard opened through /dev/uinput"@,
    {
        BackendStatus {
            name: "uinput".to_owned(),
            available: true,
            detail: Some("mouse and keyboard opened through /dev/uinput".to_owned()),
        }
    }

    fn move_pointer(&mut self, dx: i32, dy: i32) -> (result: Result<(), InputError>)
        ensures
            final(self).writer() == old(self).writer(),
            final(self).delivered(),
            result is Ok ==> written(
                old(self).model().events,
                final(self).model().events,
                old(self).deliveries(),
                final(self).deliveries(),
            ),
            handed(
                old(self).deliveries(),
                final(self).deliveries(),
                records_of(RecordedEvent::PointerMove { dx, dy }),
                result,
            ),
    {
        proof {
            self.asked@ = self.asked@.push(RecordedEvent::PointerMove { dx, dy });
        }
        let list = self.state.move_pointer(dx, dy);
        if let Err(error) = self.write(&list) {
            return Err(self.failed(error));
        }
        proof {
            self.events@ = self.events@.push(RecordedEvent::PointerMove { dx, dy });
            lemma_one_written(
                old(self).model().events,
                RecordedEvent::PointerMove { dx, dy },
                old(self).deliveries(),
                self.deliveries(),
            );
        }
        Ok(())
    }

    fn scroll(&mut self, dx: i32, dy: i32) -> (result: Result<(), InputError>)
        ensures
            final(self).writer() == old(self).writer(),
            final(self).delivered(),
            result is Ok ==> written(
                old(self).model().events,
                final(self).model().events,
                old(self).deliveries(),
                final(self).deliveries(),
            ),
            handed(
                old(self).deliveries(),
                final(self).deliveries(),
                records_of(RecordedEvent::Scroll { dx, dy }),
                result,
            ),
    {
        proof {
            self.asked@ = self.asked@.push(RecordedEvent::Scroll { dx, dy });
        }
        let list = self.state.scroll(dx, dy);
        if let Err(error) = self.write(&list) {
            return Err(self.failed(error));
        }
        proof {
            self.events@ = self.events@.push(RecordedEvent::Scroll { dx, dy });
            lemma_one_written(
                old(self).model().events,
                RecordedEvent::Scroll { dx, dy },
                old(self).deliveries(),
                self.deliveries(),
            );
        }
        Ok(())
    }

    fn button_down(&mut self, button: MouseButton) -> (result: Result<(), InputError>)
        ensures
            final(self).writer() == old(self).writer(),
            final(self).delivered(),
            result is Ok ==> written(
                old(self).model().events,
                final(self).model().events,
                old(self).deliveries(),
                final(self).deliveries(),
            ),
            handed(
                old(self).deliveries(),
                final(self).deliveries(),
                if old(self).model().buttons.contains(button) {
                    Seq::empty()
                } else {
                    records_of(RecordedEvent::ButtonDown { button })
                },
                result,
            ),
    {
        proof {
            self.asked@ = self.asked@.push(RecordedEvent::ButtonDown { button });
        }
        let list = self.state.button_down(button);
        assert(self.state.buttons() =~= old(self).model().button_pressed(button).buttons);
        if let Err(error) = self.write(&list) {
            return Err(self.failed(error));
        }
        proof {
            if !old(self).model().buttons.contains(button) {
                self.events@ = self.events@.push(RecordedEvent::ButtonDown { button });
            }
            assert(self.model() =~= old(self).model().button_pressed(button));
            if old(self).model().buttons.contains(button) {
                lemma_nothing_written(
                    old(self).model().events,
                    old(self).deliveries(),
                    self.deliveries(),
                );
            } else {
                lemma_one_written(
                    old(self).model().events,
                    RecordedEvent::ButtonDown { button },
                    old(self).deliveries(),
                    self.deliveries(),
                );
            }
        }
        Ok(())
    }

    fn button_up(&mut self, button: MouseButton) -> (result: Result<(), InputError>)
        ensures
            final(self).writer() == old(self).writer(),
            final(self).delivered(),
            result is Ok ==> written(
                old(self).model().events,
                final(self).model().events,
                old(self).deliveries(),
                final(self).deliveries(),
            ),
            handed(
                old(self).deliveries(),
                final(self).deliveries(),
                if old(self).model().buttons.contains(button) {
                    records_of(RecordedEvent::ButtonUp { button })
                } else {
                    Seq::empty()
                },
                result,
            ),
    {
        proof {
            self.asked@ = self.asked@.push(RecordedEvent::ButtonUp { button });
        }
        if let Err(error) = self.lift_button(button) {
            return Err(self.failed(error));
        }
        Ok(())
    }

    fn key_down(&mut self, code: KeyCode) -> (result: Result<(), InputError>)
        ensures
            final(self).writer() == old(self).writer(),
            final(self).delivered(),
            result is Ok ==> written(
                old(self).model().events,
                final(self).model().events,
                old(self).deliveries(),
                final(self).deliveries(),
            ),
            handed(
                old(self).deliveries(),
                final(self).deliveries(),
                if old(self).model().keys.contains(code) {
                    Seq::empty()
                } else {
                    records_of(RecordedEvent::KeyDown { code })
                },
                result,
            ),
    {
        proof {
            self.asked@ = self.asked@.push(RecordedEvent::KeyDown { code });
        }
        let list = self.state.key_down(code);
        assert(self.state.keys() =~= old(self).model().key_pressed(code).keys);
        if let Err(error) = self.write(&list) {
            let error = self.failed(error);
            assert(self.asked() == old(self).asked().push(RecordedEvent::KeyDown { code }));
            return Err(error);
        }
        proof {
            if !old(self).model().keys.contains(code) {
                self.events@ = self.events@.push(RecordedEvent::KeyDown { code });
            }
            assert(self.model() =~= old(self).model().key_pressed(code));
            if old(self).model().keys.contains(code) {
                lemma_nothing_written(
                    old(self).model().events,
                    old(self).deliveries(),
                    self.deliveries(),
                );
            } else {
                lemma_one_written(
                    old(self).model().events,
                    RecordedEvent::KeyDown { code },
                    old(self).deliveries(),
                    self.deliveries(),
                );
            }
        }
        Ok(())
    }

    fn key_up(&mut self, code: KeyCode) -> (result: Result<(), InputError>)
        ensures
            final(self).writer() == old(self).writer(),
            final(self).delivered(),
            result is Ok ==> written(
                old(self).model().events,
                final(self).model().events,
                old(self).deliveries(),
                final(self).deliveries(),
            ),
            handed(
                old(self).deliveries(),
                final(self).deliveries(),
                if old(self).model().keys.contains(code) {
                    records_of(RecordedEvent::KeyUp { code })
                } else {
                    Seq::empty()
                },
                result,
            ),
    {
        proof {
            self.asked@ = self.asked@.push(RecordedEvent::KeyUp { code });
        }
        if let Err(error) = self.lift_key(code) {
            return Err(self.failed(error));
        }
        Ok(())
    }

    fn is_key_down(&self, code: KeyCode) -> (down: bool) {
        self.state.is_key_down(code)
    }

    /// Releases every held button and then every held key. The first failed write ends it.
    fn release_all(&mut self) -> (result: Result<(), InputError>)
        ensures
            final(self).writer() == old(self).writer(),
            final(self).delivered(),
            result is Ok ==> written(
                old(self).model().events,
                final(self).model().events,
                old(self).deliveries(),
                final(self).deliveries(),
            ),
            old(self).model().at_rest() ==> result is Ok,
            exists|buttons: Seq<MouseButton>, keys: Seq<KeyCode>|
                {
                    &&& #[trigger] release_outcome(
                        old(self).model(),
                        final(self).model(),
                        buttons,
                        keys,
                        result,
                    )
                    &&& handed(
                        old(self).deliveries(),
                        final(self).deliveries(),
                        release_records(buttons, keys),
                        result,
                    )
                },
    {
        proof {
            self.asked@ = self.asked@.push(RecordedEvent::ReleaseAll);
            use_type_invariant(&self.out);
        }
        let buttons = self.state.buttons.items();
        let keys = self.state.keys.items();
        let ghost before = self.model();
        let ghost start = self.deliveries();
        let ghost ups = button_ups(buttons@) + key_ups(keys@);
        let ghost whole = release_records(buttons@, keys@);
        let mut i: usize = 0;
        proof {
            assert(ups.take(0) =~= Seq::<RecordedEvent>::empty());
            assert(buttons@.skip(0) =~= buttons@);
            assert(button_up_records(buttons@.take(0)) =~= Seq::<DeviceEvent>::empty());
            assert(start + all_taken(button_up_records(buttons@.take(0))) =~= start);
        }
        while i < buttons.len()
            invariant
                i <= buttons@.len(),
                lists(buttons@, before.buttons),
                lists(keys@, before.keys),
                before == old(self).model(),
                start == old(self).deliveries(),
                ups == button_ups(buttons@) + key_ups(keys@),
                whole == release_records(buttons@, keys@),
                self.asked() == old(self).asked().push(RecordedEvent::ReleaseAll),
                self.writer() == old(self).writer(),
                self.failures() == old(self).failures(),
                self.delivered(),
                self.model().keys == before.keys,
                self.model().buttons == buttons@.skip(i as int).to_set(),
                self.model().events == before.events + ups.take(i as int),
                self.deliveries() == start + all_taken(
                    button_up_records(buttons@.take(i as int)),
                ),
            decreases buttons@.len() - i,
        {
            let button = buttons[i];
            let ghost done = button_up_records(buttons@.take(i as int));
            let ghost next = switch(VirtualDevice::Mouse, button_number(button), 0);
            proof {
                lemma_skip_to_set(buttons@, i as int);
                lemma_next_button(buttons@, keys@, i as int);
                assert(ups[i as int] == RecordedEvent::ButtonUp { button });
                assert(ups.take(i + 1) =~= ups.take(i as int).push(ups[i as int]));
            }
            if let Err(error) = self.lift_button(button) {
                let error = self.failed(error);
                proof {
                    assert(before.buttons.contains(button)) by {
                        assert(buttons@.contains(buttons@[i as int]));
                    }
                    let count = choose|count: int| #[trigger]
                        stopped_at(
                            start + all_taken(done),
                            self.deliveries(),
                            next,
                            count,
                            error,
                        );
                    lemma_failed_at(done, next, whole, count, error->Device_0);
                    assert(self.deliveries() =~= start + failed_at(
                        whole,
                        done.len() + count,
                        error->Device_0,
                    ));
                    assert(stopped_at(
                        start,
                        self.deliveries(),
                        whole,
                        done.len() + count,
                        error,
                    ));
                    assert(released_in_part(before, self.model(), buttons@, keys@, i + 1));
                    assert(release_outcome(before, self.model(), buttons@, keys@, Err(error)));
                }
                return Err(error);
            }
            proof {
                assert(all_taken(done + next) =~= all_taken(done) + all_taken(next));
                assert(self.deliveries() =~= start + all_taken(
                    button_up_records(buttons@.take(i + 1)),
                ));
            }
            i = i + 1;
        }
        let mut k: usize = 0;
        proof {
            assert(buttons@.take(i as int) =~= buttons@);
            assert(buttons@.skip(i as int).to_set() =~= Set::<MouseButton>::empty());
            assert(keys@.skip(0) =~= keys@);
            assert(release_records(buttons@, keys@.take(0)) =~= button_up_records(buttons@));
        }
        while k < keys.len()
            invariant
                k <= keys@.len(),
                lists(buttons@, before.buttons),
                lists(keys@, before.keys),
                before == old(self).model(),
                start == old(self).deliveries(),
                ups == button_ups(buttons@) + key_ups(keys@),
                whole == release_records(buttons@, keys@),
                self.asked() == old(self).asked().push(RecordedEvent::ReleaseAll),
                self.writer() == old(self).writer(),
                self.failures() == old(self).failures(),
                self.delivered(),
                self.model().buttons == Set::<MouseButton>::empty(),
                self.model().keys == keys@.skip(k as int).to_set(),
                self.model().events == before.events + ups.take(buttons@.len() + k),
                self.deliveries() == start + all_taken(
                    release_records(buttons@, keys@.take(k as int)),
                ),
            decreases keys@.len() - k,
        {
            let code = keys[k];
            let ghost done = release_records(buttons@, keys@.take(k as int));
            let ghost next = switch(VirtualDevice::Keyboard, key_number(code), 0);
            let ghost at = buttons@.len() + k;
            proof {
                lemma_skip_to_set(keys@, k as int);
                lemma_next_key(buttons@, keys@, k as int);
                assert(ups[at] == RecordedEvent::KeyUp { code });
                assert(ups.take(at + 1) =~= ups.take(at).push(ups[at]));
            }
            if let Err(error) = self.lift_key(code) {
                let error = self.failed(error);
                proof {
                    assert(before.keys.contains(code)) by {
                        assert(keys@.contains(keys@[k as int]));
                    }
                    let count = choose|count: int| #[trigger]
                        stopped_at(
                            start + all_taken(done),
                            self.deliveries(),
                            next,
                            count,
                            error,
                        );
                    lemma_failed_at(done, next, whole, count, error->Device_0);
                    assert(self.deliveries() =~= start + failed_at(
                        whole,
                        done.len() + count,
                        error->Device_0,
                    ));
                    assert(stopped_at(
                        start,
                        self.deliveries(),
                        whole,
                        done.len() + count,
                        error,
                    ));
                    assert(released_in_part(before, self.model(), buttons@, keys@, at + 1));
                    assert(release_outcome(before, self.model(), buttons@, keys@, Err(error)));
                }
                return Err(error);
            }
            proof {
                assert(all_taken(done + next) =~= all_taken(done) + all_taken(next));
                assert(self.deliveries() =~= start + all_taken(
                    release_records(buttons@, keys@.take(k + 1)),
                ));
            }
            k = k + 1;
        }
        proof {
            assert(keys@.take(k as int) =~= keys@);
            assert(keys@.skip(k as int).to_set() =~= Set::<KeyCode>::empty());
            assert(ups.take(ups.len() as int) =~= ups);
            assert(before.events + ups =~= before.events + button_ups(buttons@) + key_ups(keys@));
            assert(released_by(before, self.model(), buttons@, keys@));
            lemma_button_releases(buttons@);
            lemma_key_releases(keys@);
            lemma_records_append(button_ups(buttons@), key_ups(keys@));
            assert(self.model().events.skip(before.events.len() as int) =~= ups);
            assert(self.model().events.take(before.events.len() as int) =~= before.events);
            assert(release_outcome(before, self.model(), buttons@, keys@, Ok(())));
        }
        Ok(())
    }
}

} // verus!
