use vstd::prelude::*;
use crate::linux::{LinuxEnvironment, LinuxHotkeyBackend, LinuxSession};

verus! {

/// Which Wayland shortcut mechanisms the machine offers.
#[derive(Debug, Clone, Copy, PartialEq, Eq, Structural)]
pub struct BackendAvailability {
    pub compositor_installed: bool,
    pub portal_available: bool,
    pub evdev_available: bool,
}

/// X11 on X11; on Wayland the compositor's shortcuts, then the portal, then
/// evdev, in that order of preference; setup needed otherwise.
pub open spec fn backend_spec(environment: LinuxEnvironment, availability: BackendAvailability) -> LinuxHotkeyBackend {
    match environment.session {
        LinuxSession::X11 => LinuxHotkeyBackend::X11,
        LinuxSession::Unsupported => LinuxHotkeyBackend::NeedsSetup,
        LinuxSession::Wayland => if availability.compositor_installed {
            LinuxHotkeyBackend::CompositorCommand
        } else if availability.portal_available {
            LinuxHotkeyBackend::Portal
        } else if availability.evdev_available {
            LinuxHotkeyBackend::Evdev
        } else {
            LinuxHotkeyBackend::NeedsSetup
        },
    }
}

pub fn choose_backend_with_availability(environment: LinuxEnvironment, availability: BackendAvailability) -> (r: LinuxHotkeyBackend)
    ensures
        r == backend_spec(environment, availability),
{
    match environment.session {
        LinuxSession::X11 => LinuxHotkeyBackend::X11,
        LinuxSession::Unsupported => LinuxHotkeyBackend::NeedsSetup,
        LinuxSession::Wayland => {
            if availability.compositor_installed {
                LinuxHotkeyBackend::CompositorCommand
            } else if availability.portal_available {
                LinuxHotkeyBackend::Portal
            } else if availability.evdev_available {
                LinuxHotkeyBackend::Evdev
            } else {
                LinuxHotkeyBackend::NeedsSetup
            }
        },
    }
}

} // verus!
