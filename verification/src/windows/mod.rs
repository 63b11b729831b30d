pub mod focused_text;
pub mod hotkey_session;
pub mod hotkeys;
pub mod json_lines;
pub mod model_pipelines;
pub mod model_downloads;
pub mod paste;
pub mod permissions;
pub mod service;
pub mod shortcut_capture;
pub mod whisper_protocol;
pub mod windows_keys;
