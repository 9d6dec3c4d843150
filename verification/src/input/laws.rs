//! What holds of the log of a recording backend.

use super::keymap::{strokes, KeyStroke};
use super::{
    after_commands, all_apply, button_ups, key_ups, InputModel, RecordedCommand, RecordedEvent,
};
use crate::protocol::{KeyCode, MouseButton};
use crate::session::{
    all_released, buttons_released, keys_released, law_cleanup_releases_everything_held,
};
use vstd::prelude::*;

verus! {

/// What can be pressed and released.
pub enum Switch {
    Key(KeyCode),
    Button(MouseButton),
}

impl Switch {
    pub open spec fn press(self) -> RecordedEvent {
        match self {
            Switch::Key(code) => RecordedEvent::KeyDown { code },
            Switch::Button(button) => RecordedEvent::ButtonDown { button },
        }
    }

    pub open spec fn release(self) -> RecordedEvent {
        match self {
            Switch::Key(code) => RecordedEvent::KeyUp { code },
            Switch::Button(button) => RecordedEvent::ButtonUp { button },
        }
    }

    pub open spec fn held(self, model: InputModel) -> bool {
        match self {
            Switch::Key(code) => model.keys.contains(code),
            Switch::Button(button) => model.buttons.contains(button),
        }
    }

    /// Whether the last event of a log that concerns the switch is a press.
    pub open spec fn down_after(self, log: Seq<RecordedEvent>) -> bool
        decreases log.len(),
    {
        if log.len() == 0 {
            false
        } else if log.last() == self.press() {
            true
        } else if log.last() == self.release() {
            false
        } else {
            self.down_after(log.drop_last())
        }
    }

    /// Presses and releases of the switch alternate in a log, a press coming first.
    pub open spec fn alternates(self, log: Seq<RecordedEvent>) -> bool {
        forall|i: int|
            0 <= i < log.len() ==> {
                &&& (#[trigger] log[i]) == self.press() ==> !self.down_after(log.take(i))
                &&& log[i] == self.release() ==> self.down_after(log.take(i))
            }
    }

    /// The log tells the story of the switch up to its present state.
    pub open spec fn told(self, model: InputModel) -> bool {
        self.alternates(model.events) && self.down_after(model.events) == self.held(model)
    }
}

/// The log tells the story of every switch.
pub open spec fn all_told(model: InputModel) -> bool {
    forall|switch: Switch| #[trigger] switch.told(model)
}

/// One more event behind a log.
proof fn lemma_event(switch: Switch, log: Seq<RecordedEvent>, event: RecordedEvent)
    requires
        switch.alternates(log),
        event == switch.press() ==> !switch.down_after(log),
        event == switch.release() ==> switch.down_after(log),
    ensures
        switch.alternates(log.push(event)),
        switch.down_after(log.push(event)) == if event == switch.press() {
            true
        } else if event == switch.release() {
            false
        } else {
            switch.down_after(log)
        },
{
    let longer = log.push(event);
    assert(longer.drop_last() =~= log);
    assert forall|i: int| 0 <= i < longer.len() implies {
        &&& (#[trigger] longer[i]) == switch.press() ==> !switch.down_after(longer.take(i))
        &&& longer[i] == switch.release() ==> switch.down_after(longer.take(i))
    } by {
        assert(longer.take(i) =~= log.take(i));
        if i < log.len() {
            assert(longer[i] == log[i]);
        } else {
            assert(log.take(i) =~= log);
        }
    }
}

proof fn lemma_emitted(model: InputModel, event: RecordedEvent)
    requires
        all_told(model),
        event is PointerMove || event is Scroll || event is ReleaseAll,
    ensures
        all_told(model.emitted(event)),
{
    assert forall|switch: Switch| #[trigger] switch.told(model.emitted(event)) by {
        assert(switch.told(model));
        lemma_event(switch, model.events, event);
    }
}

proof fn lemma_key_pressed(model: InputModel, code: KeyCode)
    requires
        all_told(model),
    ensures
        all_told(model.key_pressed(code)),
{
    if !model.keys.contains(code) {
        assert forall|switch: Switch| #[trigger] switch.told(model.key_pressed(code)) by {
            assert(switch.told(model));
            lemma_event(switch, model.events, RecordedEvent::KeyDown { code });
        }
    }
}

proof fn lemma_key_released(model: InputModel, code: KeyCode)
    requires
        all_told(model),
    ensures
        all_told(model.key_released(code)),
{
    if model.keys.contains(code) {
        assert forall|switch: Switch| #[trigger] switch.told(model.key_released(code)) by {
            assert(switch.told(model));
            lemma_event(switch, model.events, RecordedEvent::KeyUp { code });
        }
    }
}

proof fn lemma_button_pressed(model: InputModel, button: MouseButton)
    requires
        all_told(model),
    ensures
        all_told(model.button_pressed(button)),
{
    if !model.buttons.contains(button) {
        assert forall|switch: Switch| #[trigger] switch.told(model.button_pressed(button)) by {
            assert(switch.told(model));
            lemma_event(switch, model.events, RecordedEvent::ButtonDown { button });
        }
    }
}

proof fn lemma_button_released(model: InputModel, button: MouseButton)
    requires
        all_told(model),
    ensures
        all_told(model.button_released(button)),
{
    if model.buttons.contains(button) {
        assert forall|switch: Switch| #[trigger] switch.told(model.button_released(button)) by {
            assert(switch.told(model));
            lemma_event(switch, model.events, RecordedEvent::ButtonUp { button });
        }
    }
}

proof fn lemma_shift_set(model: InputModel, wanted: bool)
    requires
        all_told(model),
    ensures
        all_told(model.shift_set(wanted)),
{
    if wanted {
        lemma_key_pressed(model, KeyCode::LeftShift);
    } else {
        lemma_key_released(model, KeyCode::LeftShift);
    }
}

proof fn lemma_typed_is_told(model: InputModel, list: Seq<KeyStroke>)
    requires
        all_told(model),
    ensures
        all_told(model.typed(list)),
    decreases list.len(),
{
    if list.len() > 0 {
        lemma_typed_is_told(model, list.drop_last());
        let start = model.typed(list.drop_last());
        let stroke = list.last();
        let ready = start.shift_set(stroke.shift);
        lemma_shift_set(start, stroke.shift);
        lemma_key_pressed(ready, stroke.code);
        lemma_key_released(ready.key_pressed(stroke.code), stroke.code);
        lemma_shift_set(
            ready.key_pressed(stroke.code).key_released(stroke.code),
            start.keys.contains(KeyCode::LeftShift),
        );
    }
}

proof fn lemma_buttons_released_are_told(model: InputModel, buttons: Seq<MouseButton>)
    requires
        all_told(model),
    ensures
        all_told(buttons_released(model, buttons)),
    decreases buttons.len(),
{
    if buttons.len() > 0 {
        lemma_buttons_released_are_told(model, buttons.drop_last());
        lemma_button_released(buttons_released(model, buttons.drop_last()), buttons.last());
    }
}

proof fn lemma_keys_released_are_told(model: InputModel, keys: Seq<KeyCode>)
    requires
        all_told(model),
    ensures
        all_told(keys_released(model, keys)),
    decreases keys.len(),
{
    if keys.len() > 0 {
        lemma_keys_released_are_told(model, keys.drop_last());
        lemma_key_released(keys_released(model, keys.drop_last()), keys.last());
    }
}

proof fn lemma_command_is_told(model: InputModel, command: RecordedCommand)
    requires
        all_told(model),
        command.applies(model),
    ensures
        all_told(command.effect(model)),
{
    match command {
        RecordedCommand::Move { dx, dy } => {
            lemma_emitted(model, RecordedEvent::PointerMove { dx, dy });
        },
        RecordedCommand::Scroll { dx, dy } => {
            lemma_emitted(model, RecordedEvent::Scroll { dx, dy });
        },
        RecordedCommand::ButtonDown(button) => lemma_button_pressed(model, button),
        RecordedCommand::ButtonUp(button) => lemma_button_released(model, button),
        RecordedCommand::KeyDown(code) => lemma_key_pressed(model, code),
        RecordedCommand::KeyUp(code) => lemma_key_released(model, code),
        RecordedCommand::Type(text) => lemma_typed_is_told(model, strokes(text)),
        RecordedCommand::ReleaseAll { buttons, keys } => {
            let released = all_released(model, buttons, keys);
            lemma_buttons_released_are_told(model, buttons);
            lemma_keys_released_are_told(buttons_released(model, buttons), keys);
            law_cleanup_releases_everything_held(model, buttons, keys);
            assert(released =~= InputModel {
                keys: Set::empty(),
                buttons: Set::empty(),
                events: model.events + button_ups(buttons) + key_ups(keys),
            });
            lemma_emitted(released, RecordedEvent::ReleaseAll);
        },
    }
}

/// In the log of a recording backend the presses and releases of every key and button alternate,
/// a press coming first, and the last of them tells whether it is down.
pub proof fn law_presses_and_releases_alternate(
    fresh: InputModel,
    commands: Seq<RecordedCommand>,
    switch: Switch,
)
    requires
        fresh.at_rest(),
        fresh.events == Seq::<RecordedEvent>::empty(),
        all_apply(fresh, commands),
    ensures
        switch.alternates(after_commands(fresh, commands).events),
        switch.down_after(after_commands(fresh, commands).events) == switch.held(
            after_commands(fresh, commands),
        ),
{
    lemma_commands_are_told(fresh, commands);
    assert(switch.told(after_commands(fresh, commands)));
}

proof fn lemma_commands_are_told(fresh: InputModel, commands: Seq<RecordedCommand>)
    requires
        fresh.at_rest(),
        fresh.events == Seq::<RecordedEvent>::empty(),
        all_apply(fresh, commands),
    ensures
        all_told(after_commands(fresh, commands)),
    decreases commands.len(),
{
    if commands.len() > 0 {
        let shorter = commands.drop_last();
        assert forall|i: int| 0 <= i < shorter.len() implies (#[trigger] shorter[i]).applies(
            after_commands(fresh, shorter.take(i)),
        ) by {
            assert(shorter[i] == commands[i]);
            assert(shorter.take(i) =~= commands.take(i));
        }
        lemma_commands_are_told(fresh, shorter);
        assert(commands[commands.len() - 1] == commands.last());
        assert(commands.take(commands.len() - 1) =~= shorter);
        lemma_command_is_told(after_commands(fresh, shorter), commands.last());
    } else {
        assert forall|switch: Switch| #[trigger] switch.told(fresh) by {}
    }
}

} // verus!
