//! The Linux permission snapshot: microphone, global shortcut and paste, each
//! judged from the session and from what the desktop offers.
use vstd::prelude::*;
use crate::linux::hotkeys::backend::{backend_spec, choose_backend_with_availability, BackendAvailability};
use crate::linux::{
    desktop_supports_compositor_commands, supports_compositor_commands, wayland_paste_message,
    LinuxDesktop, LinuxEnvironment, LinuxHotkeyBackend, LinuxSession,
};
use crate::permissions::{kind_name, kind_name_spec, probe_state_spec};
use crate::protocol::{
    all_required_granted_spec, required_all_granted, requirement_is, LinuxHotkeyBackendKind,
    PermissionKind, PermissionRequirement, PermissionSnapshot, PermissionState,
};
use crate::text::concat_str;

pub use crate::permissions::{is_known_microphone_denial, microphone_state_from_probe_result};

verus! {

#[derive(Debug, Clone, Copy)]
pub struct PermissionManager;

pub open spec fn unsupported_session_description() -> Seq<char> {
    "Start Parrot from a desktop session so this feature can be checked."@
}

/// Granted with the description for the session kind, or unknown outside a
/// desktop session.
pub open spec fn platform_state_spec(session: LinuxSession, x11: Seq<char>, wayland: Seq<char>) -> (PermissionState, Seq<char>) {
    match session {
        LinuxSession::X11 => (PermissionState::Granted, x11),
        LinuxSession::Wayland => (PermissionState::Granted, wayland),
        LinuxSession::Unsupported => (PermissionState::Unknown, unsupported_session_description()),
    }
}

pub fn linux_platform_state(session: LinuxSession, x11_description: &str, wayland_description: &str) -> (r: (PermissionState, String))
    ensures
        r.0 == platform_state_spec(session, x11_description@, wayland_description@).0,
        r.1@ == platform_state_spec(session, x11_description@, wayland_description@).1,
{
    match session {
        LinuxSession::X11 => (PermissionState::Granted, String::from_str(x11_description)),
        LinuxSession::Wayland => (PermissionState::Granted, String::from_str(wayland_description)),
        LinuxSession::Unsupported => (
            PermissionState::Unknown,
            String::from_str("Start Parrot from a desktop session so this feature can be checked."),
        ),
    }
}

/// How the global shortcut fares: X11 grabs work; on Wayland the compositor's
/// shortcuts, the portal or evdev grant it, in that order, and otherwise the
/// advice depends on the desktop.
pub open spec fn shortcut_state_spec(session: LinuxSession, desktop: LinuxDesktop, availability: BackendAvailability) -> (PermissionState, Seq<char>) {
    match session {
        LinuxSession::X11 => (PermissionState::Granted, "Using X11 global keyboard grabs."@),
        LinuxSession::Unsupported => (PermissionState::Unknown, unsupported_session_description()),
        LinuxSession::Wayland => if availability.compositor_installed {
            (PermissionState::Granted, "Using compositor keybindings that call Parrot record commands."@)
        } else if availability.portal_available {
            (PermissionState::Granted, "Using the XDG GlobalShortcuts portal for runtime shortcut activation."@)
        } else if availability.evdev_available {
            (PermissionState::Granted, "Using kernel-level evdev shortcut detection."@)
        } else if desktop == LinuxDesktop::Hyprland {
            (PermissionState::NotDetermined, "Install compositor shortcuts from Parrot to use this Wayland desktop without input-device permissions."@)
        } else if supports_compositor_commands(desktop) {
            (PermissionState::NotDetermined, "Configure compositor shortcuts to call Parrot record commands, or enable the evdev fallback by adding your user to the input group."@)
        } else {
            (PermissionState::NotDetermined, "Enable the evdev fallback by adding your user to the input group, or configure desktop shortcuts manually."@)
        },
    }
}

pub fn linux_shortcut_state(session: LinuxSession, desktop: LinuxDesktop, availability: BackendAvailability) -> (r: (PermissionState, String))
    ensures
        r.0 == shortcut_state_spec(session, desktop, availability).0,
        r.1@ == shortcut_state_spec(session, desktop, availability).1,
{
    match session {
        LinuxSession::X11 => (PermissionState::Granted, String::from_str("Using X11 global keyboard grabs.")),
        LinuxSession::Unsupported => (
            PermissionState::Unknown,
            String::from_str("Start Parrot from a desktop session so this feature can be checked."),
        ),
        LinuxSession::Wayland => {
            if availability.compositor_installed {
                (
                    PermissionState::Granted,
                    String::from_str("Using compositor keybindings that call Parrot record commands."),
                )
            } else if availability.portal_available {
                (
                    PermissionState::Granted,
                    String::from_str("Using the XDG GlobalShortcuts portal for runtime shortcut activation."),
                )
            } else if availability.evdev_available {
                (PermissionState::Granted, String::from_str("Using kernel-level evdev shortcut detection."))
            } else if desktop == LinuxDesktop::Hyprland {
                (
                    PermissionState::NotDetermined,
                    String::from_str("Install compositor shortcuts from Parrot to use this Wayland desktop without input-device permissions."),
                )
            } else if desktop_supports_compositor_commands(desktop) {
                (
                    PermissionState::NotDetermined,
                    String::from_str("Configure compositor shortcuts to call Parrot record commands, or enable the evdev fallback by adding your user to the input group."),
                )
            } else {
                (
                    PermissionState::NotDetermined,
                    String::from_str("Enable the evdev fallback by adding your user to the input group, or configure desktop shortcuts manually."),
                )
            }
        },
    }
}

/// The backend a snapshot reports: unsupported outside a desktop session,
/// otherwise the one the shortcut monitor would choose.
pub open spec fn backend_kind_spec(session: LinuxSession, desktop: LinuxDesktop, availability: BackendAvailability) -> LinuxHotkeyBackendKind {
    match session {
        LinuxSession::Unsupported => LinuxHotkeyBackendKind::Unsupported,
        _ => match backend_spec(LinuxEnvironment { session, desktop }, availability) {
            LinuxHotkeyBackend::X11 => LinuxHotkeyBackendKind::X11,
            LinuxHotkeyBackend::CompositorCommand => LinuxHotkeyBackendKind::Compositor,
            LinuxHotkeyBackend::Portal => LinuxHotkeyBackendKind::Portal,
            LinuxHotkeyBackend::Evdev => LinuxHotkeyBackendKind::Evdev,
            LinuxHotkeyBackend::NeedsSetup => LinuxHotkeyBackendKind::NeedsSetup,
        },
    }
}

pub fn linux_hotkey_backend_kind(session: LinuxSession, desktop: LinuxDesktop, availability: BackendAvailability) -> (r: LinuxHotkeyBackendKind)
    ensures
        r == backend_kind_spec(session, desktop, availability),
{
    match session {
        LinuxSession::Unsupported => LinuxHotkeyBackendKind::Unsupported,
        _ => match choose_backend_with_availability(LinuxEnvironment { session, desktop }, availability) {
            LinuxHotkeyBackend::X11 => LinuxHotkeyBackendKind::X11,
            LinuxHotkeyBackend::CompositorCommand => LinuxHotkeyBackendKind::Compositor,
            LinuxHotkeyBackend::Portal => LinuxHotkeyBackendKind::Portal,
            LinuxHotkeyBackend::Evdev => LinuxHotkeyBackendKind::Evdev,
            LinuxHotkeyBackend::NeedsSetup => LinuxHotkeyBackendKind::NeedsSetup,
        },
    }
}

pub open spec fn paste_x11_description() -> Seq<char> {
    "Paste finished dictation into the focused text field."@
}

pub open spec fn paste_wayland_description() -> Seq<char> {
    "Automatic paste needs a Wayland clipboard and a compositor paste helper."@
}

/// The Linux snapshot: the microphone always required; the shortcut required
/// in any desktop session; paste required on X11 only; ready exactly when
/// every required requirement is granted.
pub open spec fn is_linux_snapshot(
    r: PermissionSnapshot,
    microphone: PermissionState,
    session: LinuxSession,
    desktop: LinuxDesktop,
    availability: BackendAvailability,
) -> bool {
    let shortcut = shortcut_state_spec(session, desktop, availability);
    let paste = platform_state_spec(session, paste_x11_description(), paste_wayland_description());
    let shortcut_required = session == LinuxSession::X11 || session == LinuxSession::Wayland;
    let paste_required = session == LinuxSession::X11;
    let reqs = r.requirements@;
    &&& reqs.len() == 3
    &&& requirement_is(reqs[0], PermissionKind::Microphone, "Microphone"@, microphone, true, false, false)
    &&& reqs[0].description@ == "Record your voice locally for dictation."@
    &&& requirement_is(reqs[1], PermissionKind::GlobalShortcut, "Global shortcut"@, shortcut.0, shortcut_required, false, false)
    &&& reqs[1].description@ == shortcut.1
    &&& requirement_is(reqs[2], PermissionKind::Paste, "Automatic paste"@, paste.0, paste_required, false, false)
    &&& reqs[2].description@ == paste.1
    &&& r.all_required_granted == all_required_granted_spec(reqs)
    &&& r.all_required_granted == (microphone == PermissionState::Granted
        && (shortcut_required ==> shortcut.0 == PermissionState::Granted)
        && (paste_required ==> paste.0 == PermissionState::Granted))
    &&& r.microphone == Some(microphone)
    &&& r.accessibility is None
    &&& r.input_monitoring is None
    &&& r.all_granted == Some(r.all_required_granted)
    &&& r.linux_hotkey_backend == Some(backend_kind_spec(session, desktop, availability))
}

fn linux_requirement(kind: PermissionKind, title: &str, description: String, state: PermissionState, required: bool) -> (r: PermissionRequirement)
    ensures
        requirement_is(r, kind, title@, state, required, false, false),
        r.description == description,
{
    PermissionRequirement {
        kind,
        title: String::from_str(title),
        description,
        state,
        required,
        requestable: false,
        opens_settings: false,
    }
}

pub fn linux_snapshot(
    microphone: PermissionState,
    session: LinuxSession,
    desktop: LinuxDesktop,
    availability: BackendAvailability,
) -> (r: PermissionSnapshot)
    ensures
        is_linux_snapshot(r, microphone, session, desktop, availability),
{
    let (shortcut_state, shortcut_description) = linux_shortcut_state(session, desktop, availability);
    let (paste_state, paste_description) = linux_platform_state(
        session,
        "Paste finished dictation into the focused text field.",
        wayland_paste_message(),
    );
    let shortcut_required = session == LinuxSession::X11 || session == LinuxSession::Wayland;
    let paste_required = session == LinuxSession::X11;
    let mut requirements: Vec<PermissionRequirement> = Vec::new();
    requirements.push(
        linux_requirement(
            PermissionKind::Microphone,
            "Microphone",
            String::from_str("Record your voice locally for dictation."),
            microphone,
            true,
        ),
    );
    requirements.push(
        linux_requirement(
            PermissionKind::GlobalShortcut,
            "Global shortcut",
            shortcut_description,
            shortcut_state,
            shortcut_required,
        ),
    );
    requirements.push(
        linux_requirement(PermissionKind::Paste, "Automatic paste", paste_description, paste_state, paste_required),
    );
    let all_required_granted = required_all_granted(&requirements);
    proof {
        let reqs = requirements@;
        if microphone == PermissionState::Granted && (shortcut_required ==> shortcut_state
            == PermissionState::Granted) && (paste_required ==> paste_state == PermissionState::Granted) {
            assert forall|i: int| 0 <= i < reqs.len() && #[trigger] reqs[i].required implies reqs[i].state
                == PermissionState::Granted by {
                assert(i == 0 || i == 1 || i == 2);
            }
        } else {
            if microphone != PermissionState::Granted {
                assert(reqs[0].required);
            } else if shortcut_required && shortcut_state != PermissionState::Granted {
                assert(reqs[1].required);
            } else {
                assert(reqs[2].required);
            }
        }
    }
    PermissionSnapshot {
        requirements,
        all_required_granted,
        microphone: Some(microphone),
        accessibility: None,
        input_monitoring: None,
        all_granted: Some(all_required_granted),
        linux_hotkey_backend: Some(linux_hotkey_backend_kind(session, desktop, availability)),
    }
}

/// The refusal for a permission that Linux has no dialog for.
pub open spec fn no_dialog_message(kind: PermissionKind) -> Seq<char> {
    "Linux permission `"@ + kind_name_spec(kind) + "` does not have a native permission dialog."@
}

impl PermissionManager {
    /// The snapshot for the outcome of probing the default input device, the
    /// session, the desktop, and the shortcut mechanisms found on the machine.
    pub fn statuses(
        &self,
        microphone_probe: Result<(), String>,
        session: LinuxSession,
        desktop: LinuxDesktop,
        availability: BackendAvailability,
    ) -> (r: PermissionSnapshot)
        ensures
            is_linux_snapshot(r, probe_state_spec(microphone_probe), session, desktop, availability),
    {
        linux_snapshot(microphone_state_from_probe_result(microphone_probe), session, desktop, availability)
    }

    /// Microphone, shortcut and paste answer with a fresh snapshot; the macOS
    /// permissions have no Linux dialog and are refused.
    pub fn request_permission(
        &self,
        kind: PermissionKind,
        open_settings: bool,
        microphone_probe: Result<(), String>,
        session: LinuxSession,
        desktop: LinuxDesktop,
        availability: BackendAvailability,
    ) -> (r: Result<PermissionSnapshot, String>)
        ensures
            (kind == PermissionKind::Microphone || kind == PermissionKind::GlobalShortcut || kind
                == PermissionKind::Paste) ==> (r matches Ok(s) && is_linux_snapshot(
                s,
                probe_state_spec(microphone_probe),
                session,
                desktop,
                availability,
            )),
            (kind == PermissionKind::Accessibility || kind == PermissionKind::InputMonitoring || kind
                == PermissionKind::FocusedTextContext) ==> (r matches Err(e) && e@ == no_dialog_message(kind)),
    {
        match kind {
            PermissionKind::Microphone | PermissionKind::GlobalShortcut | PermissionKind::Paste => {
                Ok(self.statuses(microphone_probe, session, desktop, availability))
            },
            _ => {
                let head = concat_str("Linux permission `", kind_name(kind));
                Err(concat_str(head.as_str(), "` does not have a native permission dialog."))
            },
        }
    }
}

} // verus!
