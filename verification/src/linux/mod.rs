use vstd::prelude::*;
use crate::language::ascii_lowercase_chars;
use crate::text::{
    ascii_lower_seq, chars_of, contains_chars, contains_seq, is_blank, trim_seq, trim_str,
};

pub mod audio;
pub mod evdev_keys;
pub mod hotkeys;
pub mod paste;
pub mod permissions;
pub mod pulse_audio;
pub mod shortcut_capture;

verus! {

#[derive(Debug, Clone, Copy, PartialEq, Eq, Structural)]
pub enum LinuxSession {
    X11,
    Wayland,
    Unsupported,
}

#[derive(Debug, Clone, Copy, PartialEq, Eq, Structural)]
pub enum LinuxDesktop {
    Hyprland,
    Sway,
    River,
    Niri,
    Gnome,
    Kde,
    Unknown,
}

#[derive(Debug, Clone, Copy, PartialEq, Eq, Structural)]
pub enum LinuxHotkeyBackend {
    X11,
    CompositorCommand,
    Portal,
    Evdev,
    NeedsSetup,
}

#[derive(Debug, Clone, Copy, PartialEq, Eq, Structural)]
pub struct LinuxEnvironment {
    pub session: LinuxSession,
    pub desktop: LinuxDesktop,
}

/// A value that is present and not blank.
pub open spec fn present(value: Option<Seq<char>>) -> bool {
    value matches Some(v) && trim_seq(v).len() != 0
}

/// The session kind from `XDG_SESSION_TYPE` and `DISPLAY`: Wayland when the
/// session type says so; X11 when a display is set and the type is X11 or
/// anything but Wayland; unsupported otherwise.
pub open spec fn classify_session_spec(session_type: Option<Seq<char>>, display: Option<Seq<char>>) -> LinuxSession {
    let kind = match session_type {
        Some(t) => Some(ascii_lower_seq(trim_seq(t))),
        None => None,
    };
    if kind == Some("wayland"@) {
        LinuxSession::Wayland
    } else if present(display) {
        LinuxSession::X11
    } else {
        LinuxSession::Unsupported
    }
}

fn opt_chars(value: Option<&str>) -> (r: Option<Vec<char>>)
    ensures
        match value {
            Some(v) => r matches Some(c) && c@ == v@,
            None => r is None,
        },
{
    match value {
        Some(v) => Some(chars_of(v)),
        None => None,
    }
}

fn present_exec(value: Option<&str>) -> (r: bool)
    ensures
        r == present(match value { Some(v) => Some(v@), None => None }),
{
    match value {
        Some(v) => !is_blank(v),
        None => false,
    }
}

pub fn classify_session(session_type: Option<&str>, display: Option<&str>) -> (r: LinuxSession)
    ensures
        r == classify_session_spec(
            match session_type { Some(v) => Some(v@), None => None },
            match display { Some(v) => Some(v@), None => None },
        ),
{
    let is_wayland = match session_type {
        Some(t) => {
            let lowered = ascii_lowercase_chars(&trim_str(t));
            let wayland = chars_of("wayland");
            crate::text::chars_eq(&lowered, &wayland)
        },
        None => false,
    };
    if is_wayland {
        LinuxSession::Wayland
    } else if present_exec(display) {
        LinuxSession::X11
    } else {
        LinuxSession::Unsupported
    }
}

/// The desktop from the Hyprland signature and the XDG desktop names: Hyprland
/// when the signature is set, else by the first name found in
/// "current:session" (ASCII lower-cased).
pub open spec fn classify_desktop_spec(
    hyprland_signature: Option<Seq<char>>,
    current_desktop: Option<Seq<char>>,
    session_desktop: Option<Seq<char>>,
) -> LinuxDesktop {
    let combined = ascii_lower_seq(match current_desktop { Some(v) => v, None => Seq::empty() })
        + ":"@ + ascii_lower_seq(match session_desktop { Some(v) => v, None => Seq::empty() });
    if present(hyprland_signature) {
        LinuxDesktop::Hyprland
    } else if contains_seq(combined, "hyprland"@) {
        LinuxDesktop::Hyprland
    } else if contains_seq(combined, "sway"@) {
        LinuxDesktop::Sway
    } else if contains_seq(combined, "river"@) {
        LinuxDesktop::River
    } else if contains_seq(combined, "niri"@) {
        LinuxDesktop::Niri
    } else if contains_seq(combined, "gnome"@) {
        LinuxDesktop::Gnome
    } else if contains_seq(combined, "kde"@) || contains_seq(combined, "plasma"@) {
        LinuxDesktop::Kde
    } else {
        LinuxDesktop::Unknown
    }
}

pub fn classify_desktop(
    hyprland_signature: Option<&str>,
    current_desktop: Option<&str>,
    session_desktop: Option<&str>,
) -> (r: LinuxDesktop)
    ensures
        r == classify_desktop_spec(
            match hyprland_signature { Some(v) => Some(v@), None => None },
            match current_desktop { Some(v) => Some(v@), None => None },
            match session_desktop { Some(v) => Some(v@), None => None },
        ),
{
    if present_exec(hyprland_signature) {
        return LinuxDesktop::Hyprland;
    }
    let current = match opt_chars(current_desktop) {
        Some(c) => c,
        None => Vec::new(),
    };
    let session = match opt_chars(session_desktop) {
        Some(c) => c,
        None => Vec::new(),
    };
    let mut combined = ascii_lowercase_chars(&current);
    combined.push(':');
    let lowered_session = ascii_lowercase_chars(&session);
    let ghost first = combined@;
    crate::text::extend_chars(&mut combined, &lowered_session);
    proof {
        reveal_strlit(":");
        assert(combined@ =~= ascii_lower_seq(match current_desktop { Some(v) => v@, None => Seq::empty() })
            + ":"@ + ascii_lower_seq(match session_desktop { Some(v) => v@, None => Seq::empty() }));
    }
    if contains_chars(&combined, &chars_of("hyprland")) {
        LinuxDesktop::Hyprland
    } else if contains_chars(&combined, &chars_of("sway")) {
        LinuxDesktop::Sway
    } else if contains_chars(&combined, &chars_of("river")) {
        LinuxDesktop::River
    } else if contains_chars(&combined, &chars_of("niri")) {
        LinuxDesktop::Niri
    } else if contains_chars(&combined, &chars_of("gnome")) {
        LinuxDesktop::Gnome
    } else if contains_chars(&combined, &chars_of("kde")) || contains_chars(&combined, &chars_of("plasma")) {
        LinuxDesktop::Kde
    } else {
        LinuxDesktop::Unknown
    }
}

pub open spec fn supports_compositor_commands(desktop: LinuxDesktop) -> bool {
    desktop == LinuxDesktop::Hyprland || desktop == LinuxDesktop::Sway || desktop == LinuxDesktop::River
        || desktop == LinuxDesktop::Niri
}

pub fn desktop_supports_compositor_commands(desktop: LinuxDesktop) -> (r: bool)
    ensures
        r == supports_compositor_commands(desktop),
{
    match desktop {
        LinuxDesktop::Hyprland | LinuxDesktop::Sway | LinuxDesktop::River | LinuxDesktop::Niri => true,
        _ => false,
    }
}

pub fn wayland_hotkey_message() -> (r: &'static str)
    ensures
        r@ == "Use compositor shortcuts, the XDG GlobalShortcuts portal, or the evdev fallback for Linux dictation shortcuts."@,
{
    "Use compositor shortcuts, the XDG GlobalShortcuts portal, or the evdev fallback for Linux dictation shortcuts."
}

pub fn wayland_paste_message() -> (r: &'static str)
    ensures
        r@ == "Automatic paste needs a Wayland clipboard and a compositor paste helper."@,
{
    "Automatic paste needs a Wayland clipboard and a compositor paste helper."
}

/// The line that makes Hyprland read Parrot's shortcut file.
pub const HYPRLAND_SOURCE_LINE: &'static str = "source = ~/.config/hypr/parrot.conf";

/// Whether a Hyprland configuration's text sources Parrot's shortcut file.
pub fn hyprland_config_sources_parrot(contents: &str) -> (r: bool)
    ensures
        r == contains_seq(contents@, HYPRLAND_SOURCE_LINE@),
{
    crate::text::contains_str(contents, HYPRLAND_SOURCE_LINE)
}

} // verus!
