use parrot_core::linux::audio::{
    device_entries, microphone_capture_error, microphone_stream_error_message,
    selected_device_index, selected_uid_exists, selected_uid_for_pulse_backend,
    stable_device_uid,
};
use parrot_core::linux::evdev_keys::{
    any_modifier_held, capture_evdev_key_event, evdev_key_to_linux_key, handle_evdev_key_event, key_event_kind,
    looks_like_keyboard, shortcut_from_evdev_keys, KEY_A, KEY_ESC, KEY_F9, KEY_LEFTCTRL, KEY_RIGHTMETA,
    KEY_SPACE,
};
use parrot_core::linux::hotkeys::backend::{choose_backend_with_availability, BackendAvailability};
use parrot_core::linux::hotkeys::engine::HotkeyEngine;
use parrot_core::linux::hotkeys::keys::{
    XK_ALT_L, XK_ALT_R, XK_CONTROL_L, XK_CONTROL_R, XK_ESCAPE, XK_F1, XK_SPACE,
};
use parrot_core::linux::hotkeys::types::{monitor_update, HotkeyAction, HotkeySource, KeyEventKind, MonitorUpdate};
use parrot_core::linux::hotkeys::validation::{validate_shortcut, validate_shortcut_pair};
use parrot_core::linux::paste::{
    effective_uid_from_proc_status, hyprland_paste_shortcut, hyprland_window_selector,
    paste_target_for_session, PasteTarget, RECORDING_OVERLAY_TITLE, is_hyprland_session, paste_route, previous_window_selector, wayland_display_choice,
    wayland_paste_failure, HyprlandClient, PasteRoute,
};
use parrot_core::linux::permissions::{linux_snapshot, PermissionManager};
use parrot_core::linux::pulse_audio::{
    check_selected_source, input_devices_from_sources, list_sources_from_short_output,
    recording_source_name, PulseSource,
};
use parrot_core::linux::shortcut_capture::unsupported_wayland_shortcut_configuration_message;
use parrot_core::linux::shortcut_capture::{shortcut_from_linux_key_codes, CaptureState};
use parrot_core::linux::{
    classify_desktop, classify_session, hyprland_config_sources_parrot, LinuxDesktop,
    LinuxEnvironment, LinuxHotkeyBackend, LinuxSession,
};
use parrot_core::protocol::{
    default_linux_hands_free_shortcut, default_linux_push_to_talk_shortcut, AudioDevice,
    LinuxHotkeyBackendKind, PermissionKind, PermissionState, ShortcutChord, ShortcutKey,
    ShortcutMode, ShortcutModifier, ShortcutPlatformCodes, ShortcutSettings,
};

fn shortcut(name: &str, mode: ShortcutMode, keys: Vec<u32>) -> ShortcutSettings {
    ShortcutSettings {
        display_name: name.into(),
        mode,
        enabled: true,
        double_tap_toggle: false,
        chord: Some(ShortcutChord {
            modifiers: vec![ShortcutModifier::Control],
            key: Some(ShortcutKey::Space),
        }),
        platform_codes: ShortcutPlatformCodes {
            macos_key_codes: None,
            windows_virtual_keys: None,
            linux_key_codes: Some(keys),
        },
    }
}

/// What the machine offered when the original tests ran: the portal answers.
fn test_availability() -> BackendAvailability {
    BackendAvailability {
        compositor_installed: false,
        portal_available: true,
        evdev_available: false,
    }
}

#[test]
fn tests_hold_shortcut_starts_on_key_down_and_stops_on_key_up() {
    let push = default_linux_push_to_talk_shortcut();
    let hands = default_linux_hands_free_shortcut();
    let mut engine = HotkeyEngine::new(push, hands);

    let down = engine.handle_key_event(XK_F1 + 8, KeyEventKind::Down);
    assert_eq!(down.actions, vec![HotkeyAction::Start { source: HotkeySource::PushToTalk }]);
    assert!(down.consume);

    let up = engine.handle_key_event(XK_F1 + 8, KeyEventKind::Up);
    assert_eq!(up.actions, vec![HotkeyAction::Stop { source: HotkeySource::PushToTalk }]);
    assert!(up.consume);
}

#[test]
fn tests_generic_modifier_chord_matches_left_and_right_modifier_keys() {
    let push = default_linux_push_to_talk_shortcut();
    let hands = shortcut("Ctrl + Alt + Space", ShortcutMode::Toggle, vec![XK_CONTROL_L, XK_ALT_L, XK_SPACE]);
    let mut engine = HotkeyEngine::new(push, hands);

    assert!(engine.handle_key_event(XK_CONTROL_R, KeyEventKind::Down).actions.is_empty());
    assert!(engine.handle_key_event(XK_ALT_R, KeyEventKind::Down).actions.is_empty());
    let space = engine.handle_key_event(XK_SPACE, KeyEventKind::Down);
    assert_eq!(space.actions, vec![HotkeyAction::Start { source: HotkeySource::HandsFree }]);
    assert!(space.consume);
}

#[test]
fn tests_toggle_shortcut_alternates_on_new_chord_presses() {
    let push = default_linux_push_to_talk_shortcut();
    let hands = default_linux_hands_free_shortcut();
    let mut engine = HotkeyEngine::new(push, hands);

    for key in [XK_CONTROL_L, XK_SPACE] {
        let _ = engine.handle_key_event(key, KeyEventKind::Down);
    }
    for key in [XK_SPACE, XK_CONTROL_L] {
        let _ = engine.handle_key_event(key, KeyEventKind::Up);
    }
    let _ = engine.handle_key_event(XK_CONTROL_L, KeyEventKind::Down);
    let stop = engine.handle_key_event(XK_SPACE, KeyEventKind::Down);

    assert_eq!(stop.actions, vec![HotkeyAction::Stop { source: HotkeySource::HandsFree }]);
}

#[test]
fn tests_escape_emits_cancel_only_when_cancellation_is_enabled() {
    let push = default_linux_push_to_talk_shortcut();
    let hands = default_linux_hands_free_shortcut();
    let mut engine = HotkeyEngine::new(push, hands);

    assert!(engine.handle_key_event(XK_ESCAPE, KeyEventKind::Down).actions.is_empty());
    engine.set_cancellation_enabled(true);
    let outcome = engine.handle_key_event(XK_ESCAPE, KeyEventKind::Down);
    assert_eq!(outcome.actions, vec![HotkeyAction::Cancel]);
    assert!(outcome.consume);
}

#[test]
fn linux_unchanged_keys_produce_no_actions() {
    let mut engine = HotkeyEngine::new(default_linux_push_to_talk_shortcut(), default_linux_hands_free_shortcut());
    let first = engine.handle_key_event(XK_F1 + 8, KeyEventKind::Down);
    assert_eq!(first.actions.len(), 1);
    let repeat = engine.handle_key_event(XK_F1 + 8, KeyEventKind::Down);
    assert!(repeat.actions.is_empty());
}

#[test]
fn shortcut_rejects_modifier_only_chord() {
    let toggle = shortcut("Ctrl", ShortcutMode::Toggle, vec![XK_CONTROL_L]);

    let error = validate_shortcut(&toggle).unwrap_err();

    assert!(error.contains("Linux shortcuts need a function key"));
}

#[test]
fn linux_default_shortcuts_form_a_valid_pair() {
    assert!(validate_shortcut_pair(&default_linux_push_to_talk_shortcut(), &default_linux_hands_free_shortcut()).is_ok());
    assert!(validate_shortcut_pair(&default_linux_push_to_talk_shortcut(), &default_linux_push_to_talk_shortcut()).is_err());
}

#[test]
fn backend_selects_x11_on_x11() {
    let backend = choose_backend_with_availability(
        LinuxEnvironment { session: LinuxSession::X11, desktop: LinuxDesktop::Unknown },
        BackendAvailability { compositor_installed: false, portal_available: false, evdev_available: false },
    );

    assert_eq!(backend, LinuxHotkeyBackend::X11);
}

#[test]
fn backend_selects_compositor_when_hyprland_config_is_installed() {
    let backend = choose_backend_with_availability(
        LinuxEnvironment { session: LinuxSession::Wayland, desktop: LinuxDesktop::Hyprland },
        BackendAvailability { compositor_installed: true, portal_available: true, evdev_available: true },
    );

    assert_eq!(backend, LinuxHotkeyBackend::CompositorCommand);
}

#[test]
fn backend_falls_back_to_portal_when_no_compositor_config() {
    let backend = choose_backend_with_availability(
        LinuxEnvironment { session: LinuxSession::Wayland, desktop: LinuxDesktop::Hyprland },
        BackendAvailability { compositor_installed: false, portal_available: true, evdev_available: true },
    );

    assert_eq!(backend, LinuxHotkeyBackend::Portal);
}

#[test]
fn backend_falls_back_to_evdev_when_portal_is_unavailable() {
    let backend = choose_backend_with_availability(
        LinuxEnvironment { session: LinuxSession::Wayland, desktop: LinuxDesktop::Gnome },
        BackendAvailability { compositor_installed: false, portal_available: false, evdev_available: true },
    );

    assert_eq!(backend, LinuxHotkeyBackend::Evdev);
}

#[test]
fn classifies_wayland_before_display() {
    assert_eq!(classify_session(Some("wayland"), Some(":0")), LinuxSession::Wayland);
}

#[test]
fn treats_display_as_x11_when_session_is_unset() {
    assert_eq!(classify_session(None, Some(":1")), LinuxSession::X11);
}

#[test]
fn missing_display_is_unsupported() {
    assert_eq!(classify_session(Some("x11"), None), LinuxSession::Unsupported);
    assert_eq!(classify_session(None, None), LinuxSession::Unsupported);
}

#[test]
fn detect_desktop_from_env_hyprland() {
    assert_eq!(classify_desktop(Some("abc123"), Some("GNOME"), None), LinuxDesktop::Hyprland);
    assert_eq!(classify_desktop(None, Some("Hyprland"), None), LinuxDesktop::Hyprland);
}

#[test]
fn detect_desktop_from_env_wlroots_compositors() {
    assert_eq!(classify_desktop(None, Some("sway"), None), LinuxDesktop::Sway);
    assert_eq!(classify_desktop(None, Some("river"), None), LinuxDesktop::River);
    assert_eq!(classify_desktop(None, Some("niri"), None), LinuxDesktop::Niri);
}

#[test]
fn detect_desktop_from_env_gnome_and_kde() {
    assert_eq!(classify_desktop(None, Some("GNOME"), None), LinuxDesktop::Gnome);
    assert_eq!(classify_desktop(None, Some("KDE"), Some("plasma")), LinuxDesktop::Kde);
}

#[test]
fn compositor_installed_requires_hyprland_source() {
    assert!(hyprland_config_sources_parrot("source = ~/.config/hypr/parrot.conf\n"));
    assert!(!hyprland_config_sources_parrot("# no parrot here\n"));
}

#[test]
fn paste_target_capture_is_stable_for_x11() {
    assert_eq!(
        paste_target_for_session(LinuxSession::X11, None),
        Some(PasteTarget { session: "x11".into(), hyprland_window: None })
    );
    let wayland = paste_target_for_session(LinuxSession::Wayland, None).expect("wayland should have a paste target");
    assert_eq!(wayland.session, "wayland");
    assert_eq!(paste_target_for_session(LinuxSession::Unsupported, None), None);
}

#[test]
fn paste_target_round_trips_hyprland_window_in_platform_id() {
    let target = PasteTarget { session: "wayland".into(), hyprland_window: Some("address:0xabc".into()) };

    let platform_id = target.platform_id();
    assert_eq!(
        PasteTarget::from_platform_id(platform_id),
        PasteTarget { session: "wayland".into(), hyprland_window: Some("address:0xabc".into()) }
    );

    assert_eq!(
        PasteTarget::from_platform_id("wayland".into()),
        PasteTarget { session: "wayland".into(), hyprland_window: None }
    );
}

#[test]
fn hyprland_window_selector_skips_recording_overlay() {
    assert_eq!(hyprland_window_selector(Some("0x123"), Some(RECORDING_OVERLAY_TITLE)), None);
    assert_eq!(hyprland_window_selector(Some("0x456"), Some("Notes")), Some("address:0x456".into()));
    assert_eq!(hyprland_window_selector(Some("0x0"), Some("Notes")), None);
}

#[test]
fn hyprland_paste_shortcut_targets_captured_window() {
    let target = PasteTarget { session: "wayland".into(), hyprland_window: Some("address:0xabc".into()) };

    assert_eq!(hyprland_paste_shortcut(Some(&target)), "CTRL, V, address:0xabc");
}

#[test]
fn hyprland_paste_shortcut_defaults_to_active_window() {
    assert_eq!(hyprland_paste_shortcut(None), "CTRL, V, activewindow");

    let target = PasteTarget { session: "wayland".into(), hyprland_window: None };
    assert_eq!(hyprland_paste_shortcut(Some(&target)), "CTRL, V, activewindow");
}

#[test]
fn effective_uid_parses_proc_status_line() {
    assert_eq!(
        effective_uid_from_proc_status("Name:\tparrot\nUid:\t1000\t1000\t1000\t1000\n"),
        Some("1000".into())
    );
}

#[test]
fn effective_uid_is_absent_without_uid_line() {
    assert_eq!(effective_uid_from_proc_status("Name:\tparrot\n"), None);
}

#[test]
fn linux_snapshot_uses_linux_requirements() {
    let snapshot = linux_snapshot(PermissionState::Granted, LinuxSession::X11, LinuxDesktop::Unknown, test_availability());

    assert_eq!(snapshot.requirements.len(), 3);
    assert_eq!(snapshot.requirements[0].kind, PermissionKind::Microphone);
    assert_eq!(snapshot.requirements[1].kind, PermissionKind::GlobalShortcut);
    assert_eq!(snapshot.requirements[2].kind, PermissionKind::Paste);
    assert_eq!(snapshot.accessibility, None);
    assert_eq!(snapshot.input_monitoring, None);
    assert!(snapshot.all_required_granted);
}

#[test]
fn linux_readiness_depends_on_required_linux_requirements() {
    let snapshot = linux_snapshot(PermissionState::Granted, LinuxSession::Wayland, LinuxDesktop::Unknown, test_availability());

    assert!(snapshot.all_required_granted);
    assert!(snapshot.requirements[1].required);
    assert_eq!(snapshot.requirements[1].state, PermissionState::Granted);
}

#[test]
fn classify_session_can_drive_snapshot_without_env() {
    let session = classify_session(Some("x11"), Some(":0"));
    assert!(linux_snapshot(PermissionState::Granted, session, LinuxDesktop::Unknown, test_availability()).all_required_granted);
}

#[test]
fn wayland_without_shortcut_mechanism_is_not_ready() {
    let none = BackendAvailability { compositor_installed: false, portal_available: false, evdev_available: false };
    let snapshot = linux_snapshot(PermissionState::Granted, LinuxSession::Wayland, LinuxDesktop::Hyprland, none);
    assert!(!snapshot.all_required_granted);
    assert_eq!(snapshot.requirements[1].state, PermissionState::NotDetermined);
    assert!(snapshot.requirements[1].description.starts_with("Install compositor shortcuts"));
    assert_eq!(snapshot.linux_hotkey_backend, Some(LinuxHotkeyBackendKind::NeedsSetup));
    assert!(!snapshot.requirements[2].required);
}

#[test]
fn linux_permission_requests_without_dialog_are_refused() {
    let manager = PermissionManager;
    let error = manager
        .request_permission(PermissionKind::Accessibility, false, Ok(()), LinuxSession::X11, LinuxDesktop::Unknown, test_availability())
        .unwrap_err();
    assert_eq!(error, "Linux permission `Accessibility` does not have a native permission dialog.");
    let snapshot = manager
        .request_permission(PermissionKind::Microphone, false, Err("Permission denied".into()), LinuxSession::X11, LinuxDesktop::Unknown, test_availability())
        .unwrap();
    assert_eq!(snapshot.microphone, Some(PermissionState::Denied));
    assert!(!snapshot.all_required_granted);
    assert_eq!(snapshot.linux_hotkey_backend, Some(LinuxHotkeyBackendKind::X11));
}

#[test]
fn parses_sources_and_skips_monitors() {
    let output = "\
45\talsa_input.pci-0000_00_1f.3.analog-stereo\tPipeWire\tfloat32le 2ch 48000Hz\tRUNNING
46\talsa_output.pci-0000_00_1f.3.analog-stereo.monitor\tPipeWire\tfloat32le 2ch 48000Hz\tIDLE
";

    let sources = list_sources_from_short_output(output, Some("alsa_input.pci-0000_00_1f.3.analog-stereo"));

    assert_eq!(sources.len(), 1);
    assert_eq!(sources[0].name, "alsa_input.pci-0000_00_1f.3.analog-stereo");
    assert!(sources[0].is_default);
}

#[test]
fn pulse_sources_become_devices_after_the_system_default() {
    let sources = vec![PulseSource { name: "mic".into(), description: "mic".into(), is_default: false }];
    let devices = input_devices_from_sources(&sources);
    assert_eq!(devices.len(), 2);
    assert_eq!(devices[0].uid, "pulse:default");
    assert_eq!(devices[0].name, "System Default");
    assert!(devices[0].is_default);
    assert_eq!(devices[1].uid, "pulse:mic");
    assert!(!devices[1].is_default);

    assert_eq!(recording_source_name(Some("pulse:mic")).as_deref(), Some("mic"));
    assert_eq!(recording_source_name(Some("pulse:default")), None);
    assert_eq!(recording_source_name(Some("cpal:x")), None);

    assert!(check_selected_source(&devices, Some("pulse:mic")).is_ok());
    assert!(check_selected_source(&devices, Some("pulse:default")).is_ok());
    assert_eq!(
        check_selected_source(&devices, Some("pulse:gone")).unwrap_err(),
        "Selected PulseAudio/PipeWire source is not available: gone"
    );
}

#[test]
fn stable_uid_is_deterministic_and_distinguishes_duplicates() {
    assert_eq!(stable_device_uid("USB Mic", 0), stable_device_uid("usb mic", 0));
    assert_ne!(stable_device_uid("USB Mic", 0), stable_device_uid("USB Mic", 1));
}

#[test]
fn stable_uid_has_a_fixed_shape() {
    // FNV-1a of the empty input is its offset basis.
    assert_eq!(stable_device_uid("   ", 3), "cpal:cbf29ce484222325:3");
    let uid = stable_device_uid("USB Mic", 12);
    assert!(uid.starts_with("cpal:"));
    assert!(uid.ends_with(":12"));
    assert_eq!(uid.len(), "cpal:".len() + 16 + ":12".len());
}

#[test]
fn device_entries_rank_duplicates_and_claim_default_once() {
    let names = vec!["Mic".to_string(), "Mic".to_string(), "Line".to_string()];
    let entries = device_entries(&names, Some("Mic"));
    assert_eq!(entries[0].uid, stable_device_uid("Mic", 0));
    assert_eq!(entries[1].uid, stable_device_uid("Mic", 1));
    assert_eq!(entries[2].uid, stable_device_uid("Line", 0));
    assert!(entries[0].is_default);
    assert!(!entries[1].is_default);
    assert!(!entries[2].is_default);
}

#[test]
fn selected_device_falls_back_to_default_then_first_device() {
    let entries = [("one", false), ("two", true)];
    assert_eq!(selected_device_index(&entries, Some("missing")), 1);
    assert_eq!(selected_device_index(&entries, Some("one")), 0);

    let entries = [("one", false), ("two", false)];
    assert_eq!(selected_device_index(&entries, Some("missing")), 0);
}

#[test]
fn selected_uid_exists_checks_linux_device_list() {
    let devices = vec![AudioDevice { uid: "cpal:one".into(), name: "Microphone".into(), is_default: true }];

    assert!(selected_uid_exists(&devices, "cpal:one"));
    assert!(!selected_uid_exists(&devices, "macos:stale"));
}

#[test]
fn stale_cpal_uid_is_ignored_when_pulse_is_available() {
    assert_eq!(selected_uid_for_pulse_backend(true, Some("cpal:stale")), None);
    assert_eq!(selected_uid_for_pulse_backend(true, Some("pulse:default")), Some("pulse:default"));
    assert_eq!(selected_uid_for_pulse_backend(false, Some("cpal:stale")), Some("cpal:stale"));
}

#[test]
fn microphone_privacy_errors_include_linux_guidance() {
    let error = microphone_capture_error("start", "USB Mic", "access denied");

    assert!(error.contains("Linux microphone access is blocked"));
    assert!(error.contains("PipeWire/PulseAudio"));
}

#[test]
fn microphone_errors_name_the_action_and_device() {
    assert_eq!(
        microphone_capture_error("open", "USB Mic", "device busy"),
        "Could not open Linux microphone `USB Mic`: device busy"
    );
    assert!(microphone_stream_error_message("USB Mic", "unplugged").ends_with("Details: unplugged"));
    assert!(microphone_stream_error_message("USB Mic", "Permission denied").starts_with("Linux microphone access was blocked"));
}

#[test]
fn maps_ctrl_space() {
    assert_eq!(evdev_key_to_linux_key(KEY_LEFTCTRL), Some(XK_CONTROL_L));
    assert_eq!(evdev_key_to_linux_key(KEY_SPACE), Some(XK_SPACE));
}

#[test]
fn maps_f9() {
    assert_eq!(evdev_key_to_linux_key(KEY_F9), Some(XK_F1 + 8));
}

#[test]
fn shortcut_from_evdev_keys_uses_linux_key_codes() {
    let shortcut = shortcut_from_evdev_keys(vec![KEY_LEFTCTRL, KEY_SPACE], ShortcutMode::Toggle).unwrap();

    assert_eq!(shortcut.display_name, "Ctrl + Space");
    assert_eq!(shortcut.linux_key_codes(), &[XK_CONTROL_L, XK_SPACE]);
}

#[test]
fn unknown_evdev_codes_have_no_keysym() {
    assert_eq!(evdev_key_to_linux_key(0), None);
    assert_eq!(evdev_key_to_linux_key(30), Some('a' as u32));
    assert_eq!(evdev_key_to_linux_key(11), Some('0' as u32));
}

#[test]
fn wayland_unsupported_configuration_message_names_portal_version() {
    let message = unsupported_wayland_shortcut_configuration_message(1);

    assert!(message.contains("version 1"));
    assert!(message.contains("cannot show Parrot's shortcut picker"));
}

#[test]
fn ctrl_space_capture_produces_linux_key_codes() {
    let shortcut = shortcut_from_linux_key_codes(vec![XK_CONTROL_L, XK_SPACE], ShortcutMode::Toggle).unwrap();

    assert_eq!(shortcut.display_name, "Ctrl + Space");
    assert_eq!(shortcut.linux_key_codes(), &[XK_CONTROL_L, XK_SPACE]);
}

#[test]
fn rejects_modifier_only_capture() {
    let error = shortcut_from_linux_key_codes(vec![XK_CONTROL_L], ShortcutMode::Hold).unwrap_err();

    assert!(error.contains("Linux shortcuts need a function key"));
}

#[test]
fn linux_capture_releases_reset_modifiers() {
    let mut state = CaptureState::new(ShortcutMode::Toggle);
    assert!(state.handle_key_down(XK_CONTROL_L).unwrap().is_none());
    assert!(state.handle_key_up(XK_CONTROL_L).unwrap().is_none());
}

fn client(address: &str, title: &str, focus: Option<i64>) -> HyprlandClient {
    HyprlandClient { address: Some(address.into()), title: Some(title.into()), focus_history_id: focus }
}

#[test]
fn previous_hyprland_window_is_first_in_focus_history() {
    let clients = vec![
        client("0xa", "Editor", Some(2)),
        client("0xb", "Parrot Recording", Some(0)),
        client("0xc", "Terminal", Some(1)),
        client("0x0", "Nothing", Some(1)),
        client("0xd", "Browser", None),
    ];
    assert_eq!(previous_window_selector(&clients).as_deref(), Some("address:0xc"));
    let tied = vec![client("0xe", "One", None), client("0xf", "Two", None)];
    assert_eq!(previous_window_selector(&tied).as_deref(), Some("address:0xe"));
    let none = vec![client(" ", "Blank", Some(0)), client("0x1", "Parrot Recording", Some(1))];
    assert_eq!(previous_window_selector(&none), None);
}

#[test]
fn wayland_display_is_the_last_socket_name() {
    let names: Vec<String> = vec!["bus".into(), "wayland-1".into(), "wayland-0".into(), "pipewire-0".into()];
    assert_eq!(wayland_display_choice(&names).as_deref(), Some("wayland-1"));
    let none: Vec<String> = vec!["bus".into(), "wayland".into()];
    assert_eq!(wayland_display_choice(&none), None);
    let mixed: Vec<String> = vec!["wayland-10".into(), "wayland-9".into(), "wayland-1".into()];
    assert_eq!(wayland_display_choice(&mixed).as_deref(), Some("wayland-9"));
}

#[test]
fn paste_routes_follow_the_session() {
    assert_eq!(paste_route("  ", LinuxSession::Unsupported), Ok(PasteRoute::Nothing));
    assert_eq!(paste_route("hi", LinuxSession::X11), Ok(PasteRoute::X11));
    assert_eq!(paste_route("hi", LinuxSession::Wayland), Ok(PasteRoute::Wayland));
    assert_eq!(
        paste_route("hi", LinuxSession::Unsupported).unwrap_err(),
        "Automatic paste needs a desktop session with clipboard and paste support."
    );
}

#[test]
fn hyprland_is_recognized_from_any_sign() {
    assert!(is_hyprland_session(true, None, false));
    assert!(is_hyprland_session(false, Some("GNOME:Hyprland"), false));
    assert!(is_hyprland_session(false, None, true));
    assert!(!is_hyprland_session(false, Some("KDE"), false));
}

#[test]
fn wayland_paste_failures_list_each_helper() {
    assert!(wayland_paste_failure(&vec![]).ends_with("No supported Wayland paste helper was found."));
    let errors = vec![("wtype".to_string(), "exit 1".to_string()), ("dotool".to_string(), "missing uinput".to_string())];
    assert_eq!(
        wayland_paste_failure(&errors),
        "Text was copied to the clipboard, but Parrot could not press Ctrl+V automatically. Paste manually with Ctrl+V. Details: wtype: exit 1; dotool: missing uinput"
    );
}

#[test]
fn hotkey_monitor_follows_recording_outcomes() {
    let start = HotkeyAction::Start { source: HotkeySource::HandsFree };
    assert_eq!(monitor_update(start, false), MonitorUpdate { force_off: None, cancellation_enabled: true });
    assert_eq!(
        monitor_update(start, true),
        MonitorUpdate { force_off: Some(HotkeySource::HandsFree), cancellation_enabled: false }
    );
    let stop = HotkeyAction::Stop { source: HotkeySource::PushToTalk };
    assert_eq!(monitor_update(stop, true), MonitorUpdate { force_off: None, cancellation_enabled: false });
    assert_eq!(monitor_update(HotkeyAction::Cancel, false), MonitorUpdate { force_off: None, cancellation_enabled: false });
}

#[test]
fn evdev_events_drive_the_hotkey_engine() {
    assert_eq!(key_event_kind(0), Some(KeyEventKind::Up));
    assert_eq!(key_event_kind(1), Some(KeyEventKind::Down));
    assert_eq!(key_event_kind(2), None);
    let mut engine = HotkeyEngine::new(default_linux_push_to_talk_shortcut(), default_linux_hands_free_shortcut());
    assert_eq!(
        handle_evdev_key_event(&mut engine, KEY_F9, 1),
        vec![HotkeyAction::Start { source: HotkeySource::PushToTalk }]
    );
    assert!(handle_evdev_key_event(&mut engine, KEY_F9, 2).is_empty());
    assert!(handle_evdev_key_event(&mut engine, 0, 1).is_empty());
    assert_eq!(
        handle_evdev_key_event(&mut engine, KEY_F9, 0),
        vec![HotkeyAction::Stop { source: HotkeySource::PushToTalk }]
    );
}

#[test]
fn evdev_events_drive_shortcut_capture() {
    let mut state = CaptureState::new(ShortcutMode::Toggle);
    assert_eq!(capture_evdev_key_event(&mut state, KEY_LEFTCTRL, 1), Ok(None));
    assert_eq!(capture_evdev_key_event(&mut state, KEY_SPACE, 2), Ok(None));
    let shortcut = capture_evdev_key_event(&mut state, KEY_SPACE, 1).unwrap().unwrap();
    assert_eq!(shortcut.platform_codes.linux_key_codes, Some(vec![XK_CONTROL_L, XK_SPACE]));
    let mut other = CaptureState::new(ShortcutMode::Hold);
    assert_eq!(capture_evdev_key_event(&mut other, KEY_ESC, 1).unwrap_err(), "Shortcut capture cancelled.");
}

#[test]
fn keyboards_and_held_modifiers_are_recognized() {
    assert!(looks_like_keyboard(&vec![KEY_A, KEY_SPACE]));
    assert!(looks_like_keyboard(&vec![KEY_SPACE, KEY_F9]));
    assert!(!looks_like_keyboard(&vec![KEY_A, KEY_F9]));
    assert!(any_modifier_held(&vec![KEY_A, KEY_RIGHTMETA]));
    assert!(!any_modifier_held(&vec![KEY_A, KEY_SPACE]));
}

#[test]
fn hotkey_runs_alternate_per_source_and_acting_events_are_consumed() {
    let push = default_linux_push_to_talk_shortcut();
    let hands = default_linux_hands_free_shortcut();
    let mut engine = HotkeyEngine::new(push, hands);
    engine.set_cancellation_enabled(true);
    let f9 = XK_F1 + 8;
    let events = [
        (f9, KeyEventKind::Down),
        (XK_CONTROL_L, KeyEventKind::Down),
        (XK_SPACE, KeyEventKind::Down),
        (f9, KeyEventKind::Up),
        (XK_ESCAPE, KeyEventKind::Down),
        (XK_ESCAPE, KeyEventKind::Up),
        (XK_SPACE, KeyEventKind::Up),
        (XK_CONTROL_L, KeyEventKind::Up),
        (f9, KeyEventKind::Down),
        (f9, KeyEventKind::Down),
        (XK_CONTROL_L, KeyEventKind::Down),
        (XK_SPACE, KeyEventKind::Down),
        (f9, KeyEventKind::Up),
    ];
    let mut all = Vec::new();
    for (key, kind) in events {
        let outcome = engine.handle_key_event(key, kind);
        if !outcome.actions.is_empty() {
            assert!(outcome.consume);
        }
        if outcome.actions.contains(&HotkeyAction::Cancel) {
            assert_eq!(outcome.actions, vec![HotkeyAction::Cancel]);
        }
        all.extend(outcome.actions);
    }
    let ptt = HotkeySource::PushToTalk;
    let hf = HotkeySource::HandsFree;
    assert_eq!(
        all,
        vec![
            HotkeyAction::Start { source: ptt },
            HotkeyAction::Start { source: hf },
            HotkeyAction::Stop { source: ptt },
            HotkeyAction::Cancel,
            HotkeyAction::Start { source: ptt },
            HotkeyAction::Stop { source: hf },
            HotkeyAction::Stop { source: ptt },
        ]
    );
    for source in [ptt, hf] {
        let mine: Vec<HotkeyAction> = all
            .iter()
            .copied()
            .filter(|a| *a == HotkeyAction::Start { source } || *a == HotkeyAction::Stop { source })
            .collect();
        for (k, a) in mine.iter().enumerate() {
            if k % 2 == 0 {
                assert_eq!(*a, HotkeyAction::Start { source });
            } else {
                assert_eq!(*a, HotkeyAction::Stop { source });
            }
        }
    }
}
