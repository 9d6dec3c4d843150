//! What the kernel reads of the event records: the number of a key is the position of the key on
//! the keyboard, row by row.

use super::linux::{
    keyboard_setup, mouse_setup, name_record, records_of, release_records, Capability, DeviceEvent,
    VirtualDevice,
};
use super::RecordedEvent;
use crate::protocol::{KeyCode, MouseButton};
use vstd::prelude::*;

verus! {

/// The key at a position of the keyboard: the rows from Escape and the digits down to the space
/// bar, the function keys, the keys between the blocks, and the keys for volume and playback.
pub open spec fn kernel_key(number: u16) -> Option<KeyCode> {
    if number == 1 {
        Some(KeyCode::Escape)
    } else if number == 2 {
        Some(KeyCode::Digit1)
    } else if number == 3 {
        Some(KeyCode::Digit2)
    } else if number == 4 {
        Some(KeyCode::Digit3)
    } else if number == 5 {
        Some(KeyCode::Digit4)
    } else if number == 6 {
        Some(KeyCode::Digit5)
    } else if number == 7 {
        Some(KeyCode::Digit6)
    } else if number == 8 {
        Some(KeyCode::Digit7)
    } else if number == 9 {
        Some(KeyCode::Digit8)
    } else if number == 10 {
        Some(KeyCode::Digit9)
    } else if number == 11 {
        Some(KeyCode::Digit0)
    } else if number == 12 {
        Some(KeyCode::Minus)
    } else if number == 13 {
        Some(KeyCode::Equal)
    } else if number == 14 {
        Some(KeyCode::Backspace)
    } else if number == 15 {
        Some(KeyCode::Tab)
    } else if number == 16 {
        Some(KeyCode::KeyQ)
    } else if number == 17 {
        Some(KeyCode::KeyW)
    } else if number == 18 {
        Some(KeyCode::KeyE)
    } else if number == 19 {
        Some(KeyCode::KeyR)
    } else if number == 20 {
        Some(KeyCode::KeyT)
    } else if number == 21 {
        Some(KeyCode::KeyY)
    } else if number == 22 {
        Some(KeyCode::KeyU)
    } else if number == 23 {
        Some(KeyCode::KeyI)
    } else if number == 24 {
        Some(KeyCode::KeyO)
    } else if number == 25 {
        Some(KeyCode::KeyP)
    } else if number == 26 {
        Some(KeyCode::LeftBracket)
    } else if number == 27 {
        Some(KeyCode::RightBracket)
    } else if number == 28 {
        Some(KeyCode::Enter)
    } else if number == 29 {
        Some(KeyCode::LeftCtrl)
    } else if number == 30 {
        Some(KeyCode::KeyA)
    } else if number == 31 {
        Some(KeyCode::KeyS)
    } else if number == 32 {
        Some(KeyCode::KeyD)
    } else if number == 33 {
        Some(KeyCode::KeyF)
    } else if number == 34 {
        Some(KeyCode::KeyG)
    } else if number == 35 {
        Some(KeyCode::KeyH)
    } else if number == 36 {
        Some(KeyCode::KeyJ)
    } else if number == 37 {
        Some(KeyCode::KeyK)
    } else if number == 38 {
        Some(KeyCode::KeyL)
    } else if number == 39 {
        Some(KeyCode::Semicolon)
    } else if number == 40 {
        Some(KeyCode::Apostrophe)
    } else if number == 41 {
        Some(KeyCode::Grave)
    } else if number == 42 {
        Some(KeyCode::LeftShift)
    } else if number == 43 {
        Some(KeyCode::Backslash)
    } else if number == 44 {
        Some(KeyCode::KeyZ)
    } else if number == 45 {
        Some(KeyCode::KeyX)
    } else if number == 46 {
        Some(KeyCode::KeyC)
    } else if number == 47 {
        Some(KeyCode::KeyV)
    } else if number == 48 {
        Some(KeyCode::KeyB)
    } else if number == 49 {
        Some(KeyCode::KeyN)
    } else if number == 50 {
        Some(KeyCode::KeyM)
    } else if number == 51 {
        Some(KeyCode::Comma)
    } else if number == 52 {
        Some(KeyCode::Period)
    } else if number == 53 {
        Some(KeyCode::Slash)
    } else if number == 54 {
        Some(KeyCode::RightShift)
    } else if number == 56 {
        Some(KeyCode::LeftAlt)
    } else if number == 57 {
        Some(KeyCode::Space)
    } else if number == 58 {
        Some(KeyCode::CapsLock)
    } else if number == 59 {
        Some(KeyCode::F1)
    } else if number == 60 {
        Some(KeyCode::F2)
    } else if number == 61 {
        Some(KeyCode::F3)
    } else if number == 62 {
        Some(KeyCode::F4)
    } else if number == 63 {
        Some(KeyCode::F5)
    } else if number == 64 {
        Some(KeyCode::F6)
    } else if number == 65 {
        Some(KeyCode::F7)
    } else if number == 66 {
        Some(KeyCode::F8)
    } else if number == 67 {
        Some(KeyCode::F9)
    } else if number == 68 {
        Some(KeyCode::F10)
    } else if number == 70 {
        Some(KeyCode::ScrollLock)
    } else if number == 87 {
        Some(KeyCode::F11)
    } else if number == 88 {
        Some(KeyCode::F12)
    } else if number == 97 {
        Some(KeyCode::RightCtrl)
    } else if number == 99 {
        Some(KeyCode::PrintScreen)
    } else if number == 100 {
        Some(KeyCode::RightAlt)
    } else if number == 102 {
        Some(KeyCode::Home)
    } else if number == 103 {
        Some(KeyCode::ArrowUp)
    } else if number == 104 {
        Some(KeyCode::PageUp)
    } else if number == 105 {
        Some(KeyCode::ArrowLeft)
    } else if number == 106 {
        Some(KeyCode::ArrowRight)
    } else if number == 107 {
        Some(KeyCode::End)
    } else if number == 108 {
        Some(KeyCode::ArrowDown)
    } else if number == 109 {
        Some(KeyCode::PageDown)
    } else if number == 110 {
        Some(KeyCode::Insert)
    } else if number == 111 {
        Some(KeyCode::Delete)
    } else if number == 113 {
        Some(KeyCode::VolumeMute)
    } else if number == 114 {
        Some(KeyCode::VolumeDown)
    } else if number == 115 {
        Some(KeyCode::VolumeUp)
    } else if number == 119 {
        Some(KeyCode::Pause)
    } else if number == 125 {
        Some(KeyCode::LeftMeta)
    } else if number == 126 {
        Some(KeyCode::RightMeta)
    } else if number == 163 {
        Some(KeyCode::MediaNext)
    } else if number == 164 {
        Some(KeyCode::MediaPlayPause)
    } else if number == 165 {
        Some(KeyCode::MediaPrevious)
    } else {
        None
    }
}

/// The mouse button with a number.
pub open spec fn kernel_button(number: u16) -> Option<MouseButton> {
    if number == 272 {
        Some(MouseButton::Left)
    } else if number == 273 {
        Some(MouseButton::Right)
    } else if number == 274 {
        Some(MouseButton::Middle)
    } else {
        None
    }
}

/// How far the records of a report move an axis.
pub open spec fn moved(records: Seq<DeviceEvent>, axis: u16) -> int
    decreases records.len(),
{
    if records.len() == 0 {
        0
    } else if records.last().event_type == 2 && records.last().code == axis {
        moved(records.drop_last(), axis) + records.last().value
    } else {
        moved(records.drop_last(), axis)
    }
}

/// A report to a device: records of that device, the last of which and no other ends the report.
pub open spec fn report_to(device: VirtualDevice, records: Seq<DeviceEvent>) -> bool {
    &&& records.len() > 0
    &&& forall|i: int| 0 <= i < records.len() ==> (#[trigger] records[i]).device == device
    &&& forall|i: int|
        0 <= i < records.len() ==> ((#[trigger] records[i]).event_type == 0 <==> i == records.len()
            - 1)
    &&& records.last().code == 0
    &&& records.last().value == 0
}

/// The report presses or releases one thing, and that is all of it.
pub open spec fn turns(records: Seq<DeviceEvent>, number: u16, down: bool) -> bool {
    &&& records.len() == 2
    &&& records[0].event_type == 1
    &&& records[0].code == number
    &&& records[0].value == if down {
        1i32
    } else {
        0i32
    }
}

/// What the kernel reads of the records of a command is the command: a movement moves the pointer
/// right and down by its deltas and no wheel, a scroll turns the wheels by its deltas and does not
/// move the pointer, and a press or release turns that button or key and nothing else.
pub proof fn law_kernel_reads_the_command(event: RecordedEvent)
    ensures
        ({
            let records = records_of(event);
            match event {
                RecordedEvent::PointerMove { dx, dy } => {
                    &&& report_to(VirtualDevice::Mouse, records)
                    &&& moved(records, 0) == dx
                    &&& moved(records, 1) == dy
                    &&& forall|axis: u16| axis > 1 ==> #[trigger] moved(records, axis) == 0
                    &&& forall|i: int|
                        0 <= i < records.len() ==> (#[trigger] records[i]).event_type != 1
                },
                RecordedEvent::Scroll { dx, dy } => {
                    &&& report_to(VirtualDevice::Mouse, records)
                    &&& moved(records, 6) == dx
                    &&& moved(records, 8) == dy
                    &&& forall|axis: u16|
                        axis != 6 && axis != 8 ==> #[trigger] moved(records, axis) == 0
                    &&& forall|i: int|
                        0 <= i < records.len() ==> (#[trigger] records[i]).event_type != 1
                },
                RecordedEvent::ButtonDown { button } => report_to(VirtualDevice::Mouse, records)
                    && turns(records, records[0].code, true) && kernel_button(records[0].code)
                    == Some(button),
                RecordedEvent::ButtonUp { button } => report_to(VirtualDevice::Mouse, records)
                    && turns(records, records[0].code, false) && kernel_button(records[0].code)
                    == Some(button),
                RecordedEvent::KeyDown { code } => report_to(VirtualDevice::Keyboard, records)
                    && turns(records, records[0].code, true) && kernel_key(records[0].code) == Some(
                    code,
                ),
                RecordedEvent::KeyUp { code } => report_to(VirtualDevice::Keyboard, records)
                    && turns(records, records[0].code, false) && kernel_key(records[0].code)
                    == Some(code),
                RecordedEvent::ReleaseAll => records.len() == 0,
            }
        }),
{
    let records = records_of(event);
    if event is PointerMove || event is Scroll {
        assert forall|axis: u16| true implies #[trigger] moved(records, axis) == lone_axis(
            records,
            axis,
        ) by {
            lemma_moved(records, axis);
        }
    }
}

/// How far a report of at most three records moves an axis.
spec fn lone_axis(records: Seq<DeviceEvent>, axis: u16) -> int {
    share(records, 0, axis) + share(records, 1, axis) + share(records, 2, axis)
}

spec fn share(records: Seq<DeviceEvent>, at: int, axis: u16) -> int {
    if at < records.len() && records[at].event_type == 2 && records[at].code == axis {
        records[at].value as int
    } else {
        0
    }
}

proof fn lemma_moved(records: Seq<DeviceEvent>, axis: u16)
    requires
        records.len() <= 3,
    ensures
        moved(records, axis) == lone_axis(records, axis),
{
    reveal_with_fuel(moved, 4);
    if records.len() >= 1 {
        let one = records.drop_last();
        if one.len() >= 1 {
            let two = one.drop_last();
            if two.len() >= 1 {
                assert(two.drop_last().len() == 0);
            }
        }
    }
}

/// A release of everything is one release for each button and then for each key.
pub proof fn law_kernel_reads_every_release(
    buttons: Seq<MouseButton>,
    keys: Seq<KeyCode>,
    at: int,
)
    ensures
        release_records(buttons, keys).len() == 2 * (buttons.len() + keys.len()),
        0 <= at < buttons.len() ==> release_records(buttons, keys).subrange(2 * at, 2 * at + 2)
            == records_of(RecordedEvent::ButtonUp { button: buttons[at] }),
        0 <= at < keys.len() ==> release_records(buttons, keys).subrange(
            2 * (buttons.len() + at),
            2 * (buttons.len() + at) + 2,
        ) == records_of(RecordedEvent::KeyUp { code: keys[at] }),
{
    let whole = release_records(buttons, keys);
    if 0 <= at < buttons.len() {
        let up = records_of(RecordedEvent::ButtonUp { button: buttons[at] });
        assert(2 * at / 2 == at && (2 * at + 1) / 2 == at);
        assert(whole.subrange(2 * at, 2 * at + 2) =~= up);
    }
    if 0 <= at < keys.len() {
        let n = 2 * (buttons.len() + at);
        let up = records_of(RecordedEvent::KeyUp { code: keys[at] });
        assert(2 * at / 2 == at && (2 * at + 1) / 2 == at);
        assert(whole.subrange(n, n + 2) =~= up);
    }
}

/// Every record of a command was declared by the device that it goes to: its key or button, or its
/// axis.
pub proof fn law_records_are_declared(event: RecordedEvent, i: int)
    requires
        0 <= i < records_of(event).len(),
    ensures
        ({
            let record = records_of(event)[i];
            let setup = match record.device {
                VirtualDevice::Mouse => mouse_setup(),
                VirtualDevice::Keyboard => keyboard_setup(),
            };
            &&& record.event_type == 1 ==> setup.contains(
                Capability { request: 0x4004_5565, value: record.code },
            )
            &&& record.event_type == 2 ==> setup.contains(
                Capability { request: 0x4004_5566, value: record.code },
            )
            &&& record.event_type != 0 ==> setup.contains(
                Capability { request: 0x4004_5564, value: record.event_type },
            )
        }),
{
    assert(mouse_setup()[0].value == 1 && mouse_setup()[1].value == 2);
    assert(mouse_setup()[5].value == 0 && mouse_setup()[6].value == 1);
    assert(mouse_setup()[7].value == 8 && mouse_setup()[8].value == 6);
    assert(keyboard_setup()[0].value == 1);
    match event {
        RecordedEvent::KeyDown { code } => {
            super::linux::law_commands_use_declared_codes(code, MouseButton::Left);
        },
        RecordedEvent::KeyUp { code } => {
            super::linux::law_commands_use_declared_codes(code, MouseButton::Left);
        },
        RecordedEvent::ButtonDown { button } => {
            super::linux::law_commands_use_declared_codes(KeyCode::KeyA, button);
        },
        RecordedEvent::ButtonUp { button } => {
            super::linux::law_commands_use_declared_codes(KeyCode::KeyA, button);
        },
        _ => {},
    }
}

/// The record of a device name reads as that name: the name comes first, and a zero ends it.
pub proof fn law_device_name_is_kept(name: Seq<u8>)
    requires
        name.len() <= 79,
    ensures
        name_record(name).len() == 80,
        name_record(name).take(name.len() as int) == name,
        forall|i: int| name.len() <= i < 80 ==> #[trigger] name_record(name)[i] == 0,
{
    assert(name_record(name).take(name.len() as int) =~= name);
}

/// The modifier keys are those at eight places of the keyboard: Control, Shift, Alt and Meta, left
/// and right.
pub proof fn law_modifier_keys(number: u16)
    ensures
        kernel_key(number) matches Some(code) ==> (code.modifier() <==> number == 29 || number == 97
            || number == 42 || number == 54 || number == 56 || number == 100 || number == 125
            || number == 126),
{
}

} // verus!
