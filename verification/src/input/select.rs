//! The backend that a configuration asks for.

use super::{
    release_outcome, BackendStatus, InputBackend, InputError, InputModel, Readiness, RecordedEvent,
    RecordingBackend, UnavailableBackend,
};
use crate::config::BackendKind;
use crate::protocol::{KeyCode, MouseButton};
use vstd::prelude::*;

verus! {

/// One of the backends; `D` is the host's input device.
pub enum SelectedBackend<D> {
    Recording(RecordingBackend),
    Device(D),
    Unavailable(UnavailableBackend),
}

/// Whether the host's input device has to be opened.
pub fn needs_device(kind: BackendKind) -> (needed: bool)
    ensures
        needed == (kind != BackendKind::Mock),
{
    match kind {
        BackendKind::Mock => false,
        BackendKind::Uinput => true,
        BackendKind::Auto => true,
    }
}

/// Selects the backend, given the device or why it could not be opened. A required device that
/// cannot be opened is an error; otherwise a backend that refuses every command takes its place.
/// Nothing depends on the device where the mock is asked for.
pub fn create_backend<D: InputBackend>(
    kind: BackendKind,
    device: Result<D, String>,
) -> (selected: Result<SelectedBackend<D>, String>)
    ensures
        match (kind, device) {
            (BackendKind::Mock, _) => selected matches Ok(SelectedBackend::Recording(backend))
                && backend.model() == (InputModel {
                keys: Set::empty(),
                buttons: Set::empty(),
                events: Seq::empty(),
            }),
            (_, Ok(device)) => selected == Ok::<SelectedBackend<D>, String>(
                SelectedBackend::Device(device),
            ),
            (BackendKind::Uinput, Err(reason)) => selected == Err::<SelectedBackend<D>, String>(
                reason,
            ),
            (BackendKind::Auto, Err(reason)) => selected matches Ok(SelectedBackend::Unavailable(
                backend,
            )) && backend.reason() == reason@,
        },
{
    match kind {
        BackendKind::Mock => Ok(SelectedBackend::Recording(RecordingBackend::new())),
        BackendKind::Uinput => match device {
            Ok(device) => Ok(SelectedBackend::Device(device)),
            Err(reason) => Err(reason),
        },
        BackendKind::Auto => match device {
            Ok(device) => Ok(SelectedBackend::Device(device)),
            Err(reason) => Ok(SelectedBackend::Unavailable(UnavailableBackend::new(reason))),
        },
    }
}

impl<D: InputBackend> InputBackend for SelectedBackend<D> {
    open spec fn model(&self) -> InputModel {
        match self {
            SelectedBackend::Recording(backend) => backend.model(),
            SelectedBackend::Device(backend) => backend.model(),
            SelectedBackend::Unavailable(backend) => backend.model(),
        }
    }

    open spec fn readiness(&self) -> Readiness {
        match self {
            SelectedBackend::Recording(backend) => backend.readiness(),
            SelectedBackend::Device(backend) => backend.readiness(),
            SelectedBackend::Unavailable(backend) => backend.readiness(),
        }
    }

    open spec fn failures(&self) -> Seq<InputError> {
        match self {
            SelectedBackend::Recording(backend) => backend.failures(),
            SelectedBackend::Device(backend) => backend.failures(),
            SelectedBackend::Unavailable(backend) => backend.failures(),
        }
    }

    open spec fn asked(&self) -> Seq<RecordedEvent> {
        match self {
            SelectedBackend::Recording(backend) => backend.asked(),
            SelectedBackend::Device(backend) => backend.asked(),
            SelectedBackend::Unavailable(backend) => backend.asked(),
        }
    }

    open spec fn release_effect(&self, after: InputModel) -> bool {
        match self {
            SelectedBackend::Recording(backend) => backend.release_effect(after),
            SelectedBackend::Device(backend) => backend.release_effect(after),
            SelectedBackend::Unavailable(backend) => backend.release_effect(after),
        }
    }

    fn status(&self) -> (status: BackendStatus)
        ensures
            self is Recording ==> status.name@ == "mock"@ && status.available && (
            status.detail matches Some(detail) && detail@
                == "events are recorded and no host input is emitted"@),
            self matches SelectedBackend::Device(backend) ==> call_ensures(
                D::status,
                (&backend,),
                status,
            ),
            self matches SelectedBackend::Unavailable(backend) ==> status.name@ == "unavailable"@
                && !status.available && (status.detail matches Some(detail) && detail@
                == backend.reason()),
    {
        match self {
            SelectedBackend::Recording(backend) => backend.status(),
            SelectedBackend::Device(backend) => backend.status(),
            SelectedBackend::Unavailable(backend) => backend.status(),
        }
    }

    fn move_pointer(&mut self, dx: i32, dy: i32) -> (result: Result<(), InputError>) {
        match self {
            SelectedBackend::Recording(backend) => backend.move_pointer(dx, dy),
            SelectedBackend::Device(backend) => backend.move_pointer(dx, dy),
            SelectedBackend::Unavailable(backend) => backend.move_pointer(dx, dy),
        }
    }

    fn scroll(&mut self, dx: i32, dy: i32) -> (result: Result<(), InputError>) {
        match self {
            SelectedBackend::Recording(backend) => backend.scroll(dx, dy),
            SelectedBackend::Device(backend) => backend.scroll(dx, dy),
            SelectedBackend::Unavailable(backend) => backend.scroll(dx, dy),
        }
    }

    fn button_down(&mut self, button: MouseButton) -> (result: Result<(), InputError>) {
        match self {
            SelectedBackend::Recording(backend) => backend.button_down(button),
            SelectedBackend::Device(backend) => backend.button_down(button),
            SelectedBackend::Unavailable(backend) => backend.button_down(button),
        }
    }

    fn button_up(&mut self, button: MouseButton) -> (result: Result<(), InputError>) {
        match self {
            SelectedBackend::Recording(backend) => backend.button_up(button),
            SelectedBackend::Device(backend) => backend.button_up(button),
            SelectedBackend::Unavailable(backend) => backend.button_up(button),
        }
    }

    fn key_down(&mut self, code: KeyCode) -> (result: Result<(), InputError>) {
        let result = match self {
            SelectedBackend::Recording(backend) => backend.key_down(code),
            SelectedBackend::Device(backend) => backend.key_down(code),
            SelectedBackend::Unavailable(backend) => backend.key_down(code),
        };
        assert(self.asked() == old(self).asked().push(RecordedEvent::KeyDown { code }));
        result
    }

    fn key_up(&mut self, code: KeyCode) -> (result: Result<(), InputError>) {
        let result = match self {
            SelectedBackend::Recording(backend) => backend.key_up(code),
            SelectedBackend::Device(backend) => backend.key_up(code),
            SelectedBackend::Unavailable(backend) => backend.key_up(code),
        };
        assert(self.asked() == old(self).asked().push(RecordedEvent::KeyUp { code }));
        result
    }

    fn is_key_down(&self, code: KeyCode) -> (down: bool) {
        match self {
            SelectedBackend::Recording(backend) => backend.is_key_down(code),
            SelectedBackend::Device(backend) => backend.is_key_down(code),
            SelectedBackend::Unavailable(backend) => backend.is_key_down(code),
        }
    }

    fn release_all(&mut self) -> (result: Result<(), InputError>) {
        let result = match self {
            SelectedBackend::Recording(backend) => backend.release_all(),
            SelectedBackend::Device(backend) => backend.release_all(),
            SelectedBackend::Unavailable(backend) => backend.release_all(),
        };
        proof {
            if old(self).readiness() is Tracks {
                let (buttons, keys) = choose|
                    buttons: Seq<MouseButton>,
                    keys: Seq<KeyCode>,
                | #[trigger]
                    release_outcome(old(self).model(), self.model(), buttons, keys, result);
                assert(release_outcome(old(self).model(), self.model(), buttons, keys, result));
            }
        }
        result
    }
}

/// The mock is selected where it is asked for, whatever became of the device; the device is
/// selected where it could be opened; and where it could not, a server that insists on it fails
/// for that reason, and one that does not gets a backend that refuses every command for it.
pub proof fn law_selected_backend<D: InputBackend>(
    kind: BackendKind,
    device: Result<D, String>,
    selected: Result<SelectedBackend<D>, String>,
)
    requires
        call_ensures(create_backend::<D>, (kind, device), selected),
    ensures
        kind is Mock ==> (selected matches Ok(backend) && backend.readiness() is Accepts
            && backend.model().at_rest() && backend.model().events.len() == 0),
        !(kind is Mock) ==> (device matches Ok(opened) ==> selected == Ok::<
            SelectedBackend<D>,
            String,
        >(SelectedBackend::Device(opened))),
        kind is Uinput ==> (device matches Err(reason) ==> selected == Err::<
            SelectedBackend<D>,
            String,
        >(reason)),
        kind is Auto ==> (device matches Err(reason) ==> (selected matches Ok(backend)
            && backend.readiness() == (Readiness::Refuses { reason: reason@ }))),
{
}

} // verus!
