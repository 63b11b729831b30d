use parrot_core::linux;
use parrot_core::permissions::{is_known_microphone_denial, microphone_state_from_probe_result};
use parrot_core::protocol::{
    default_windows_hands_free_shortcut, default_windows_push_to_talk_shortcut, PermissionKind,
    PermissionState, ShortcutChord, ShortcutKey, ShortcutMode, ShortcutModifier,
    ShortcutPlatformCodes, ShortcutSettings,
};
use parrot_core::windows::focused_text::{bounded_suffix, context_character_limit};
use parrot_core::windows::hotkeys::{
    shortcuts_conflict, validate_shortcut, validate_shortcut_pair, HotkeyAction, HotkeyEngine,
    HotkeySource, KeyEventKind,
};
use parrot_core::windows::paste::{format_for_paste, paste_plan, ClipboardBackup, PastePlan, UNAVAILABLE_MESSAGE};
use parrot_core::windows::permissions::{microphone_snapshot, PermissionManager};
use parrot_core::windows::shortcut_capture::{shortcut_from_windows_virtual_keys, CaptureState};
use parrot_core::windows::windows_keys::{
    VK_ALT, VK_CONTROL, VK_ESCAPE, VK_F1, VK_LALT, VK_LCONTROL, VK_RALT, VK_RCONTROL, VK_SPACE,
};

use parrot_core::core_service::HotkeyStartDecision;
use parrot_core::protocol::{AppSettings, AudioDevice};
use parrot_core::windows::hotkey_session::{CancelOutcome, StoppedRecording, WindowsHotkeySession};
use parrot_core::windows::paste::PasteTarget;
use parrot_core::windows::service::{
    capture_outcome, clear_missing_selected_input_uid, validate_captured_shortcut, windows_settings_or_default,
};
use parrot_core::windows::shortcut_capture::ShortcutCaptureTarget;

fn shortcut(name: &str, mode: ShortcutMode, keys: Vec<u16>) -> ShortcutSettings {
    ShortcutSettings {
        display_name: name.into(),
        mode,
        enabled: true,
        double_tap_toggle: false,
        chord: Some(ShortcutChord {
            modifiers: vec![ShortcutModifier::Control],
            key: Some(ShortcutKey::Space),
        }),
        platform_codes: ShortcutPlatformCodes {
            macos_key_codes: None,
            windows_virtual_keys: Some(keys),
            linux_key_codes: None,
        },
    }
}

#[test]
fn hotkeys_hold_shortcut_starts_on_key_down_and_stops_on_key_up() {
    let push = default_windows_push_to_talk_shortcut();
    let hands = default_windows_hands_free_shortcut();
    let mut engine = HotkeyEngine::new(push, hands);

    let down = engine.handle_key_event(VK_RCONTROL, KeyEventKind::Down);
    assert_eq!(down.actions, vec![HotkeyAction::Start { source: HotkeySource::PushToTalk }]);
    assert!(down.consume);

    let repeat = engine.handle_key_event(VK_RCONTROL, KeyEventKind::Down);
    assert!(repeat.actions.is_empty());
    assert!(repeat.consume);

    let up = engine.handle_key_event(VK_RCONTROL, KeyEventKind::Up);
    assert_eq!(up.actions, vec![HotkeyAction::Stop { source: HotkeySource::PushToTalk }]);
    assert!(up.consume);
}

#[test]
fn hotkeys_generic_modifier_chord_matches_left_and_right_modifier_keys() {
    let push = default_windows_push_to_talk_shortcut();
    let hands = shortcut("Generic Ctrl + Alt + Space", ShortcutMode::Toggle, vec![VK_CONTROL, VK_ALT, 0x20]);
    let mut engine = HotkeyEngine::new(push, hands);

    assert!(engine.handle_key_event(VK_LCONTROL, KeyEventKind::Down).actions.is_empty());
    assert!(engine.handle_key_event(VK_RALT, KeyEventKind::Down).actions.is_empty());
    let space = engine.handle_key_event(0x20, KeyEventKind::Down);
    assert_eq!(space.actions, vec![HotkeyAction::Start { source: HotkeySource::HandsFree }]);
    assert!(space.consume);
}

#[test]
fn hotkeys_toggle_shortcut_alternates_on_new_chord_presses() {
    let push = default_windows_push_to_talk_shortcut();
    let hands = default_windows_hands_free_shortcut();
    let mut engine = HotkeyEngine::new(push, hands);

    for key in [VK_LCONTROL, 0x20] {
        let _ = engine.handle_key_event(key, KeyEventKind::Down);
    }
    for key in [0x20, VK_LCONTROL] {
        let _ = engine.handle_key_event(key, KeyEventKind::Up);
    }
    let _ = engine.handle_key_event(VK_LCONTROL, KeyEventKind::Down);
    let stop = engine.handle_key_event(0x20, KeyEventKind::Down);

    assert_eq!(stop.actions, vec![HotkeyAction::Stop { source: HotkeySource::HandsFree }]);
}

#[test]
fn rejected_toggle_start_can_be_forced_off_without_losing_chord_release() {
    let push = default_windows_push_to_talk_shortcut();
    let hands = default_windows_hands_free_shortcut();
    let mut engine = HotkeyEngine::new(push, hands);

    for key in [VK_LCONTROL, 0x20] {
        let _ = engine.handle_key_event(key, KeyEventKind::Down);
    }

    engine.force_toggle_off(HotkeySource::HandsFree);

    for key in [0x20, VK_LCONTROL] {
        let _ = engine.handle_key_event(key, KeyEventKind::Up);
    }

    let outcome = engine.handle_key_event(VK_LCONTROL, KeyEventKind::Down);
    assert!(outcome.actions.is_empty());

    let start_again = engine.handle_key_event(0x20, KeyEventKind::Down);
    assert_eq!(start_again.actions, vec![HotkeyAction::Start { source: HotkeySource::HandsFree }]);
}

#[test]
fn hotkeys_escape_emits_cancel_only_when_cancellation_is_enabled() {
    let push = default_windows_push_to_talk_shortcut();
    let hands = default_windows_hands_free_shortcut();
    let mut engine = HotkeyEngine::new(push, hands);

    assert!(engine.handle_key_event(VK_ESCAPE, KeyEventKind::Down).actions.is_empty());
    engine.set_cancellation_enabled(true);
    let outcome = engine.handle_key_event(VK_ESCAPE, KeyEventKind::Down);
    assert_eq!(outcome.actions, vec![HotkeyAction::Cancel]);
    assert!(outcome.consume);
}

#[test]
fn disabled_shortcuts_do_not_trigger() {
    let mut push = default_windows_push_to_talk_shortcut();
    push.enabled = false;
    let hands = default_windows_hands_free_shortcut();
    let mut engine = HotkeyEngine::new(push, hands);

    assert!(engine.handle_key_event(VK_RCONTROL, KeyEventKind::Down).actions.is_empty());
}

#[test]
fn duplicate_shortcut_detection_uses_windows_virtual_keys() {
    let push = default_windows_push_to_talk_shortcut();
    let duplicate = shortcut("Ctrl", ShortcutMode::Toggle, vec![VK_CONTROL]);

    assert!(shortcuts_conflict(&push, &duplicate));
    assert!(validate_shortcut_pair(&push, &duplicate).is_err());
}

#[test]
fn different_windows_default_shortcuts_are_valid() {
    assert!(validate_shortcut_pair(&default_windows_push_to_talk_shortcut(), &default_windows_hands_free_shortcut()).is_ok());
}

#[test]
fn toggle_shortcut_rejects_modifier_only_chord() {
    let toggle = shortcut("Right Ctrl", ShortcutMode::Toggle, vec![VK_RCONTROL]);

    assert!(validate_shortcut(&toggle).is_err());
}

#[test]
fn escape_is_reserved_in_windows_shortcuts() {
    let hold = shortcut("Esc", ShortcutMode::Hold, vec![VK_ESCAPE]);
    assert_eq!(validate_shortcut(&hold).unwrap_err(), "Escape is reserved for cancelling dictation.");
}

#[test]
fn disabling_cancellation_resets_stale_pressed_keys_and_chords() {
    let push = default_windows_push_to_talk_shortcut();
    let hands = default_windows_hands_free_shortcut();
    let mut engine = HotkeyEngine::new(push, hands);

    let first = engine.handle_key_event(VK_RCONTROL, KeyEventKind::Down);
    assert_eq!(first.actions, vec![HotkeyAction::Start { source: HotkeySource::PushToTalk }]);

    engine.set_cancellation_enabled(false);

    let second = engine.handle_key_event(VK_RCONTROL, KeyEventKind::Down);
    assert_eq!(second.actions, vec![HotkeyAction::Start { source: HotkeySource::PushToTalk }]);
}

#[test]
fn contextual_paste_uses_shared_formatter() {
    assert_eq!(format_for_paste("world.", Some("Hello")), " world.");
    assert_eq!(format_for_paste("hello.", Some("Done.")), " Hello.");
}

#[test]
fn paste_non_text_clipboard_backup_is_noop_restore() {
    assert_eq!(ClipboardBackup::NonTextOrEmpty.text_to_restore(), None);
    assert_eq!(ClipboardBackup::Text("previous".into()).text_to_restore(), Some("previous"));

}

#[test]
fn paste_reports_platform_unavailable_on_non_windows() {
    assert_eq!(paste_plan("hello"), PastePlan::Paste);
    assert_eq!(UNAVAILABLE_MESSAGE, "Windows paste is unavailable on this platform.");
}

#[test]
fn blank_text_is_not_pasted() {
    assert_eq!(paste_plan("  \n"), PastePlan::Skip);
}

#[test]
fn bounded_suffix_limits_by_characters() {
    assert_eq!(bounded_suffix("abcdef", 3), "def");
    assert_eq!(bounded_suffix("åß∂ƒ", 2), "∂ƒ");
}

#[test]
fn zero_context_limit_returns_none() {
    assert_eq!(context_character_limit(0), None);
    assert_eq!(context_character_limit(50), Some(50));
    assert_eq!(context_character_limit(10_000), Some(120));
}

#[test]
fn snapshot_requires_only_microphone() {
    let snapshot = microphone_snapshot(PermissionState::Granted);

    assert_eq!(snapshot.requirements.len(), 1);
    assert_eq!(snapshot.requirements[0].kind, PermissionKind::Microphone);
    assert!(snapshot.all_required_granted);
    assert_eq!(snapshot.microphone, Some(PermissionState::Granted));
    assert_eq!(snapshot.accessibility, None);
    assert_eq!(snapshot.input_monitoring, None);
}

#[test]
fn denied_microphone_snapshot_is_not_ready() {
    let snapshot = microphone_snapshot(PermissionState::Denied);

    assert!(!snapshot.all_required_granted);
    assert_eq!(snapshot.requirements[0].state, PermissionState::Denied);
}

#[test]
fn permissions_classifies_known_privacy_errors_as_denied() {
    assert!(is_known_microphone_denial("Windows privacy settings returned access denied"));
    assert!(is_known_microphone_denial("Permission denied"));
    assert!(!is_known_microphone_denial("No input devices were found"));

}

#[test]
fn permissions_maps_mocked_microphone_probe_results() {
    assert_eq!(microphone_state_from_probe_result(Ok(())), PermissionState::Granted);
    assert_eq!(
        microphone_state_from_probe_result(Err("Windows privacy settings returned access denied".into())),
        PermissionState::Denied
    );
    assert_eq!(
        microphone_state_from_probe_result(Err("No input devices were found".into())),
        PermissionState::Unknown
    );
}

#[test]
fn windows_permission_requests() {
    let manager = PermissionManager;
    assert_eq!(
        manager.request_permission(PermissionKind::Paste, false, Ok(()), Ok(())).unwrap_err(),
        "Windows permission `Paste` is not requestable by native-core"
    );
    assert_eq!(
        manager
            .request_permission(PermissionKind::Microphone, true, Err("failed to open Windows microphone settings: boom".into()), Ok(()))
            .unwrap_err(),
        "failed to open Windows microphone settings: boom"
    );
    let snapshot = manager.request_permission(PermissionKind::Microphone, true, Ok(()), Ok(())).unwrap();
    assert!(snapshot.all_required_granted);
    let snapshot = manager.statuses(Err("device gone".into()));
    assert_eq!(snapshot.microphone, Some(PermissionState::Unknown));
}

#[test]
fn builds_single_modifier_hold_shortcut_with_windows_virtual_keys() {
    let shortcut = shortcut_from_windows_virtual_keys(vec![VK_RCONTROL], ShortcutMode::Hold).unwrap();

    assert_eq!(shortcut.display_name, "Right Ctrl");
    assert_eq!(shortcut.mode, ShortcutMode::Hold);
    assert!(shortcut.enabled);
    assert!(!shortcut.double_tap_toggle);
    assert_eq!(shortcut.windows_virtual_keys(), &[VK_RCONTROL]);
    assert_eq!(shortcut.chord.as_ref().unwrap().modifiers, vec![ShortcutModifier::Control]);
    assert_eq!(shortcut.chord.as_ref().unwrap().key, None);
}

#[test]
fn shortcut_capture_builds_modifier_key_chord() {
    let shortcut = shortcut_from_windows_virtual_keys(vec![VK_LCONTROL, VK_LALT, VK_SPACE], ShortcutMode::Toggle).unwrap();

    assert_eq!(shortcut.display_name, "Left Ctrl + Left Alt + Space");
    assert_eq!(shortcut.chord.as_ref().unwrap().modifiers, vec![ShortcutModifier::Control, ShortcutModifier::Alt]);
    assert_eq!(shortcut.chord.as_ref().unwrap().key, Some(ShortcutKey::Space));
    assert_eq!(shortcut.windows_virtual_keys(), &[VK_LCONTROL, VK_LALT, VK_SPACE]);

}

#[test]
fn shortcut_capture_builds_function_key_capture_without_modifier() {
    let shortcut = shortcut_from_windows_virtual_keys(vec![VK_F1 + 4], ShortcutMode::Hold).expect("function key shortcut should be valid");

    assert_eq!(shortcut.display_name, "F5");
    assert_eq!(shortcut.chord.as_ref().unwrap().key, Some(ShortcutKey::Function(5)));

}

#[test]
fn rejects_toggle_modifier_only_capture() {
    let error = shortcut_from_windows_virtual_keys(vec![VK_RCONTROL], ShortcutMode::Toggle).unwrap_err();

    assert!(error.contains("Hands-free mode needs a modifier plus key"));
}

#[test]
fn shortcut_capture_capture_state_cancels_on_escape() {
    let mut state = CaptureState::new(ShortcutMode::Hold);
    let error = state.handle_key_down(VK_ESCAPE).unwrap_err();
    assert_eq!(error, "Shortcut capture cancelled.");

}

#[test]
fn capture_state_saves_single_modifier_on_release_for_hold_mode() {
    let mut state = CaptureState::new(ShortcutMode::Hold);

    assert!(state.handle_key_down(VK_RCONTROL).unwrap().is_none());
    let shortcut = state.handle_key_up(VK_RCONTROL).unwrap().unwrap();

    assert_eq!(shortcut.display_name, "Right Ctrl");
    assert_eq!(shortcut.windows_virtual_keys(), &[VK_RCONTROL]);
}

#[test]
fn shortcut_capture_capture_state_saves_modifier_key_chord_on_key_down() {
    let mut state = CaptureState::new(ShortcutMode::Toggle);

    assert!(state.handle_key_down(VK_LCONTROL).unwrap().is_none());
    assert!(state.handle_key_down(VK_LALT).unwrap().is_none());
    let shortcut = state.handle_key_down(VK_SPACE).unwrap().unwrap();

    assert_eq!(shortcut.display_name, "Left Ctrl + Left Alt + Space");
    assert_eq!(shortcut.windows_virtual_keys(), &[VK_LCONTROL, VK_LALT, VK_SPACE]);

}

#[test]
fn non_text_clipboard_backup_is_noop_restore() {
    assert_eq!(linux::paste::ClipboardBackup::NonTextOrEmpty.text_to_restore(), None);
    assert_eq!(
        linux::paste::ClipboardBackup::Text("previous".into()).text_to_restore(),
        Some("previous")
    );
}

#[test]
fn classifies_known_privacy_errors_as_denied() {
    assert!(linux::permissions::is_known_microphone_denial("Permission denied"));
    assert!(!linux::permissions::is_known_microphone_denial("No input devices were found"));
}

#[test]
fn builds_modifier_key_chord() {
    let xk_control_l = linux::hotkeys::keys::XK_CONTROL_L;
    let xk_alt_l = linux::hotkeys::keys::XK_ALT_L;
    let xk_space = linux::hotkeys::keys::XK_SPACE;
    let shortcut = linux::shortcut_capture::shortcut_from_linux_key_codes(vec![xk_control_l, xk_alt_l, xk_space], ShortcutMode::Toggle).unwrap();

    assert_eq!(shortcut.display_name, "Ctrl + Alt + Space");
    assert_eq!(shortcut.chord.as_ref().unwrap().modifiers, vec![ShortcutModifier::Control, ShortcutModifier::Alt]);
    assert_eq!(shortcut.chord.as_ref().unwrap().key, Some(ShortcutKey::Space));
    assert_eq!(shortcut.linux_key_codes(), &[xk_control_l, xk_alt_l, xk_space]);
}

#[test]
fn builds_function_key_capture_without_modifier() {
    let xk_f1 = linux::hotkeys::keys::XK_F1;
    let shortcut = linux::shortcut_capture::shortcut_from_linux_key_codes(vec![xk_f1 + 4], ShortcutMode::Hold)
        .expect("function key shortcut should be valid");

    assert_eq!(shortcut.display_name, "F5");
    assert_eq!(shortcut.chord.as_ref().unwrap().key, Some(ShortcutKey::Function(5)));
    assert_eq!(shortcut.linux_key_codes(), &[xk_f1 + 4]);
}

#[test]
fn capture_state_cancels_on_escape() {
    let mut state = linux::shortcut_capture::CaptureState::new(ShortcutMode::Hold);
    let error = state.handle_key_down(linux::hotkeys::keys::XK_ESCAPE).unwrap_err();
    assert_eq!(error, "Shortcut capture cancelled.");
}

#[test]
fn capture_state_saves_modifier_key_chord_on_key_down() {
    let xk_control_l = linux::hotkeys::keys::XK_CONTROL_L;
    let xk_alt_l = linux::hotkeys::keys::XK_ALT_L;
    let xk_space = linux::hotkeys::keys::XK_SPACE;
    let mut state = linux::shortcut_capture::CaptureState::new(ShortcutMode::Toggle);

    assert!(state.handle_key_down(xk_control_l).unwrap().is_none());
    assert!(state.handle_key_down(xk_alt_l).unwrap().is_none());
    let shortcut = state.handle_key_down(xk_space).unwrap().unwrap();

    assert_eq!(shortcut.display_name, "Ctrl + Alt + Space");
    assert_eq!(shortcut.linux_key_codes(), &[xk_control_l, xk_alt_l, xk_space]);
}

#[test]
fn maps_mocked_microphone_probe_results() {
    assert_eq!(
        linux::permissions::microphone_state_from_probe_result(Ok(())),
        PermissionState::Granted
    );
    assert_eq!(
        linux::permissions::microphone_state_from_probe_result(Err("Permission denied".into())),
        PermissionState::Denied
    );
    assert_eq!(
        linux::permissions::microphone_state_from_probe_result(Err("No input devices were found".into())),
        PermissionState::Unknown
    );
}


#[test]
fn windows_hotkey_session_runs_start_stop_finish() {
    let target = Some(PasteTarget { hwnd: 7, process_id: 8, thread_id: 9 });
    let mut session = WindowsHotkeySession::new();
    assert_eq!(session.start_decision(), HotkeyStartDecision::Start);
    session.recording_started(HotkeySource::HandsFree, target);
    assert_eq!(session.start_decision(), HotkeyStartDecision::AlreadyRecording);
    assert_eq!(session.begin_stop(HotkeySource::PushToTalk), None);
    let stopped = session.begin_stop(HotkeySource::HandsFree).unwrap();
    assert_eq!(stopped, StoppedRecording { generation: 2, paste_target: target });
    assert_eq!(session.start_decision(), HotkeyStartDecision::StillProcessing);
    assert!(session.finish_processing(stopped.generation, false));
    assert_eq!(session.start_decision(), HotkeyStartDecision::Start);
}

#[test]
fn windows_hotkey_cancel_silences_the_running_result() {
    let mut session = WindowsHotkeySession::new();
    assert_eq!(session.cancel(), CancelOutcome { was_active: false, signal_run: false });
    session.recording_started(HotkeySource::PushToTalk, None);
    let stopped = session.begin_stop(HotkeySource::PushToTalk).unwrap();
    assert_eq!(session.cancel(), CancelOutcome { was_active: true, signal_run: true });
    assert!(!session.finish_processing(stopped.generation, false));
    session.recording_started(HotkeySource::PushToTalk, None);
    let again = session.begin_stop(HotkeySource::PushToTalk).unwrap();
    assert!(!session.finish_processing(again.generation, true));
    assert!(!session.stop_worker());
}

#[test]
fn windows_service_settings_and_capture_rules() {
    let settings = windows_settings_or_default(None);
    assert_eq!(settings.push_to_talk_shortcut.display_name, "Right Ctrl");
    assert_eq!(settings.hands_free_shortcut.display_name, "Left Ctrl + Space");
    let same_as_hands = settings.hands_free_shortcut.clone();
    assert_eq!(
        validate_captured_shortcut(&settings, ShortcutCaptureTarget::PushToTalk, &same_as_hands).unwrap_err(),
        "Push to talk and hands-free mode need different shortcuts."
    );
    let push = settings.push_to_talk_shortcut.clone();
    assert!(validate_captured_shortcut(&settings, ShortcutCaptureTarget::PushToTalk, &push).is_ok());
    assert_eq!(capture_outcome(Ok(push.clone()), Ok(())), Ok(push.clone()));
    assert_eq!(capture_outcome(Ok(push), Err("hook".into())).unwrap_err(), "hook");
    assert_eq!(
        capture_outcome(Err("Shortcut capture cancelled.".into()), Err("hook failed".into())).unwrap_err(),
        "Shortcut capture cancelled. Hotkey monitor did not restart: hook failed"
    );
}

#[test]
fn windows_forgets_a_missing_microphone() {
    let mut settings = AppSettings { selected_input_uid: Some("mic-2".into()), ..AppSettings::default() };
    let devices = vec![AudioDevice { uid: "mic-1".into(), name: "Mic".into(), is_default: true }];
    clear_missing_selected_input_uid(&mut settings, &Ok(devices.clone()));
    assert_eq!(settings.selected_input_uid, None);
    settings.selected_input_uid = Some("mic-1".into());
    clear_missing_selected_input_uid(&mut settings, &Ok(devices));
    assert_eq!(settings.selected_input_uid.as_deref(), Some("mic-1"));
    clear_missing_selected_input_uid(&mut settings, &Err("no audio".into()));
    assert_eq!(settings.selected_input_uid, None);
}

#[test]
fn hotkeys_runs_alternate_per_source_and_acting_events_are_consumed() {
    let push = default_windows_push_to_talk_shortcut();
    let hands = default_windows_hands_free_shortcut();
    let mut engine = HotkeyEngine::new(push, hands);
    let mut all = Vec::new();
    let run = |engine: &mut HotkeyEngine, events: &[(u16, KeyEventKind)], all: &mut Vec<HotkeyAction>| {
        for (key, kind) in events {
            let outcome = engine.handle_key_event(*key, *kind);
            if !outcome.actions.is_empty() {
                assert!(outcome.consume);
            }
            if outcome.actions.contains(&HotkeyAction::Cancel) {
                assert_eq!(outcome.actions, vec![HotkeyAction::Cancel]);
            }
            all.extend(outcome.actions);
        }
    };
    run(
        &mut engine,
        &[
            (VK_RCONTROL, KeyEventKind::Down),
            (VK_RCONTROL, KeyEventKind::Up),
            (VK_LCONTROL, KeyEventKind::Down),
            (VK_SPACE, KeyEventKind::Down),
            (VK_SPACE, KeyEventKind::Up),
            (VK_LCONTROL, KeyEventKind::Up),
        ],
        &mut all,
    );
    engine.set_cancellation_enabled(true);
    run(
        &mut engine,
        &[
            (VK_ESCAPE, KeyEventKind::Down),
            (VK_ESCAPE, KeyEventKind::Up),
            (VK_RCONTROL, KeyEventKind::Down),
            (VK_LCONTROL, KeyEventKind::Down),
            (VK_SPACE, KeyEventKind::Down),
            (VK_RCONTROL, KeyEventKind::Up),
        ],
        &mut all,
    );
    let ptt = HotkeySource::PushToTalk;
    let hf = HotkeySource::HandsFree;
    assert_eq!(
        all,
        vec![
            HotkeyAction::Start { source: ptt },
            HotkeyAction::Stop { source: ptt },
            HotkeyAction::Start { source: hf },
            HotkeyAction::Cancel,
            HotkeyAction::Start { source: ptt },
            HotkeyAction::Stop { source: hf },
            HotkeyAction::Stop { source: ptt },
        ]
    );
    for source in [ptt, hf] {
        let mine: Vec<HotkeyAction> = all
            .iter()
            .copied()
            .filter(|a| *a == HotkeyAction::Start { source } || *a == HotkeyAction::Stop { source })
            .collect();
        for (k, a) in mine.iter().enumerate() {
            if k % 2 == 0 {
                assert_eq!(*a, HotkeyAction::Start { source });
            } else {
                assert_eq!(*a, HotkeyAction::Stop { source });
            }
        }
    }
}
