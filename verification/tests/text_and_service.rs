use parrot_core::assets::SoundManifest;
use parrot_core::cleanup::sanitize;
use parrot_core::core_service::{
    cleanup_model_id_for, cleanup_output_text, cleanup_rules_for, require_downloaded,
    should_capture_hotkey_paste_target, HotkeySession, HotkeyStartDecision, HotkeyStopRecording,
    PasteTarget, EMPTY_CLEANUP_MESSAGE,
};
use parrot_core::models::{ModelFileState, Platform};
use parrot_core::paste::format_contextual_paste;
use parrot_core::protocol::{AppSettings, NativeCoreMethod, SoundEvent};
use parrot_core::windows::json_lines::check_request_line;
use parrot_core::windows::whisper_protocol::{WhisperHelperRequest, WhisperHelperResponse};

#[test]
fn contextual_paste_leaves_text_alone_without_context() {
    assert_eq!(format_contextual_paste("hello", None), "hello");
    assert_eq!(format_contextual_paste("hello", Some("")), "hello");
}

#[test]
fn contextual_paste_separates_and_capitalizes() {
    assert_eq!(format_contextual_paste("world.", Some("Hello")), " world.");
    assert_eq!(format_contextual_paste("hello.", Some("Done.")), " Hello.");
    assert_eq!(format_contextual_paste("hello there", Some("Line one.\n")), "Hello there");
    assert_eq!(format_contextual_paste("world", Some("Hello ")), "world");
    assert_eq!(format_contextual_paste("  x", Some("a")), " x");
}

#[test]
fn sanitize_removes_reasoning_blocks_and_prefixes() {
    assert_eq!(sanitize("<think>plan</think>Hello world."), "Hello world.");
    assert_eq!(sanitize("Output: Hello"), "Hello");
    assert_eq!(sanitize("<|im_start|>assistant\nHi there<|im_end|>"), "Hi there");
    assert_eq!(sanitize("> Hello"), "Hello");
    assert_eq!(sanitize("Final answer: Done."), "Done.");
}

#[test]
fn sanitize_drops_plain_text_reasoning() {
    assert_eq!(sanitize("Reasoning: 1. Think about it"), "");
}

#[test]
fn cleanup_output_refuses_empty_text() {
    assert_eq!(cleanup_output_text("<think>only thoughts</think>").unwrap_err(), EMPTY_CLEANUP_MESSAGE);
    assert_eq!(cleanup_output_text("Output: Fine.").unwrap(), "Fine.");
}

#[test]
fn hotkey_session_round_trip() {
    let mut session = HotkeySession::new();
    assert_eq!(session.start_decision(), HotkeyStartDecision::Start);
    let target = Some(PasteTarget { platform_id: "x11".into() });
    session.recording_started(target.clone());
    assert_eq!(session.start_decision(), HotkeyStartDecision::AlreadyRecording);
    let stop = session.begin_stop_hotkey_recording();
    assert_eq!(stop, HotkeyStopRecording::Started { paste_target: target });
    assert_eq!(session.start_decision(), HotkeyStartDecision::StillProcessing);
    assert_eq!(session.begin_stop_hotkey_recording(), HotkeyStopRecording::Busy);
    session.finish_stopped_hotkey_recording();
    assert_eq!(session, HotkeySession::new());
    assert_eq!(session.begin_stop_hotkey_recording(), HotkeyStopRecording::Idle);
}

#[test]
fn hotkey_cancel_reports_whether_recording() {
    let mut session = HotkeySession::new();
    assert!(!session.cancel_hotkey_recording());
    session.recording_started(None);
    assert!(session.cancel_hotkey_recording());
    assert_eq!(session, HotkeySession::new());
}

#[test]
fn service_model_decisions() {
    let mut settings = AppSettings::default();
    settings.cleanup_model_id = "  ".into();
    assert_eq!(cleanup_model_id_for(&settings), "cleanup");
    assert_eq!(cleanup_rules_for(&settings, "Default rules."), "Default rules.");
    settings.cleanup_prompt = "Mine.".into();
    assert_eq!(cleanup_rules_for(&settings, "Default rules."), "Mine.");
    assert!(should_capture_hotkey_paste_target(&settings, Platform::Linux));
    assert!(!should_capture_hotkey_paste_target(&settings, Platform::Windows));

    let downloading = ModelFileState { local_bytes: 0, downloading: true, progress_bytes: 1, progress_total_bytes: 2, error: None };
    assert_eq!(require_downloaded("Speech", &downloading).unwrap_err(), "Speech is still downloading.");
    let missing = ModelFileState { local_bytes: 0, downloading: false, progress_bytes: 0, progress_total_bytes: 1, error: None };
    assert_eq!(require_downloaded("Speech", &missing).unwrap_err(), "Speech download required.");
    let ready = ModelFileState { local_bytes: 10, downloading: false, progress_bytes: 10, progress_total_bytes: 10, error: None };
    assert!(require_downloaded("Speech", &ready).is_ok());
}

#[test]
fn native_core_method_preserves_wire_names() {
    assert_eq!(NativeCoreMethod::PermissionStatuses.as_str(), "permissionStatuses");
    assert_eq!(NativeCoreMethod::CaptureShortcut.as_str(), "captureShortcut");
}

#[test]
fn sound_paths_join_the_shared_resources_dir() {
    let manifest = SoundManifest {
        recording_start: "sounds/recording-start.wav".into(),
        recording_success: "sounds/recording-success.wav".into(),
        recording_cancel: "sounds/recording-cancel.wav".into(),
        recording_error: "sounds/recording-error.wav".into(),
    };
    assert_eq!(manifest.relative_path(SoundEvent::RecordingSuccess), "sounds/recording-success.wav");
    assert_eq!(manifest.path_for("/res/shared", SoundEvent::RecordingError), "/res/shared/sounds/recording-error.wav");
}

#[test]
fn whisper_helper_messages() {
    let warm = WhisperHelperRequest::warm("1".into(), "/m.bin".into());
    assert_eq!(warm.method, "warm");
    let failure = WhisperHelperResponse::error("2".into(), "boom".into());
    assert_eq!(failure.error.as_deref(), Some("boom"));
    assert!(failure.result.is_none());
}

#[test]
fn blank_request_lines_are_refused() {
    assert!(check_request_line("   ").is_err());
    assert!(check_request_line("{\"id\":1}").is_ok());
}
