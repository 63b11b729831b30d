//! Decisions of the Windows native-core service around its requests: the
//! settings it runs with, whether a captured shortcut can be saved, and what
//! a capture reports when the hotkey monitor does not come back.
use vstd::prelude::*;
use crate::linux::audio::selected_uid_exists;
use crate::protocol::{is_default_app_settings, AppSettings, AudioDevice, ShortcutSettings};
use crate::settings::{normalize_settings_for_platform, settings_normalized, SettingsPlatform};
use crate::text::{chars_of, extend_chars, string_from_chars};
use crate::windows::hotkeys::{result_view, validate_shortcut_pair, validate_shortcut_pair_spec};
use crate::windows::shortcut_capture::ShortcutCaptureTarget;

verus! {

/// The settings the service runs with: those it was given (the defaults when
/// none), normalized for Windows.
pub fn windows_settings_or_default(settings: Option<AppSettings>) -> (r: AppSettings)
    ensures
        match settings {
            Some(s) => settings_normalized(SettingsPlatform::Windows, s, r),
            None => exists|d: AppSettings| #[trigger] is_default_app_settings(d) && settings_normalized(
                SettingsPlatform::Windows,
                d,
                r,
            ),
        },
{
    let mut settings = match settings {
        Some(s) => s,
        None => AppSettings::default(),
    };
    let ghost given = settings;
    normalize_settings_for_platform(&mut settings, SettingsPlatform::Windows);
    assert(settings_normalized(SettingsPlatform::Windows, given, settings));
    settings
}

/// A selected microphone is forgotten when the device list cannot be read or
/// does not hold it.
pub fn clear_missing_selected_input_uid(settings: &mut AppSettings, devices: &Result<Vec<AudioDevice>, String>)
    ensures
        match old(settings).selected_input_uid {
            None => *final(settings) == *old(settings),
            Some(uid) => match devices {
                Err(_) => *final(settings) == (AppSettings { selected_input_uid: None, ..*old(settings) }),
                Ok(list) => if exists|i: int| 0 <= i < list@.len() && #[trigger] list@[i].uid@ == uid@ {
                    *final(settings) == *old(settings)
                } else {
                    *final(settings) == (AppSettings { selected_input_uid: None, ..*old(settings) })
                },
            },
        },
{
    let missing = match &settings.selected_input_uid {
        None => false,
        Some(uid) => match devices {
            Err(_) => true,
            Ok(list) => !selected_uid_exists(list.as_slice(), uid.as_str()),
        },
    };
    if missing {
        settings.selected_input_uid = None;
    }
}

/// A captured shortcut can be saved when, in place of the one it replaces,
/// the pair of shortcuts is valid.
pub fn validate_captured_shortcut(
    settings: &AppSettings,
    target: ShortcutCaptureTarget,
    shortcut: &ShortcutSettings,
) -> (r: Result<(), String>)
    ensures
        result_view(r) == match target {
            ShortcutCaptureTarget::PushToTalk => validate_shortcut_pair_spec(*shortcut, settings.hands_free_shortcut),
            ShortcutCaptureTarget::HandsFree => validate_shortcut_pair_spec(settings.push_to_talk_shortcut, *shortcut),
        },
{
    match target {
        ShortcutCaptureTarget::PushToTalk => validate_shortcut_pair(shortcut, &settings.hands_free_shortcut),
        ShortcutCaptureTarget::HandsFree => validate_shortcut_pair(&settings.push_to_talk_shortcut, shortcut),
    }
}

/// What a shortcut capture reports once the hotkey monitor it paused was
/// restarted: the shortcut when both went well, else the failure, both
/// failures together.
pub fn capture_outcome(captured: Result<ShortcutSettings, String>, restarted: Result<(), String>) -> (r: Result<
    ShortcutSettings,
    String,
>)
    ensures
        match (captured, restarted) {
            (Ok(s), Ok(())) => r == Ok::<ShortcutSettings, String>(s),
            (Ok(_), Err(e)) => r == Err::<ShortcutSettings, String>(e),
            (Err(e), Ok(())) => r == Err::<ShortcutSettings, String>(e),
            (Err(c), Err(m)) => r matches Err(e) && e@ == c@ + " Hotkey monitor did not restart: "@ + m@,
        },
{
    match (captured, restarted) {
        (Ok(s), Ok(())) => Ok(s),
        (Ok(_), Err(e)) => Err(e),
        (Err(e), Ok(())) => Err(e),
        (Err(c), Err(m)) => {
            let mut out = chars_of(c.as_str());
            extend_chars(&mut out, &chars_of(" Hotkey monitor did not restart: "));
            extend_chars(&mut out, &chars_of(m.as_str()));
            Err(string_from_chars(&out))
        },
    }
}

} // verus!
