use parrot_core::legacy_shortcut::shortcut_from_stored_fields;
use parrot_core::protocol::{
    AppSettings, DictationLanguageMode, DictionaryEntry, ShortcutChord, ShortcutKey, ShortcutMode,
    ShortcutModifier, ShortcutPlatformCodes, ShortcutSettings, DEFAULT_CLEANUP_MODEL_ID,
};
use parrot_core::settings::{
    default_settings_for_platform, display_name_for_linux_keys, display_name_for_windows_keys,
    is_macos_default_shortcut, normalize_cleanup_model_id, normalize_dictation_language,
    normalize_dictionary_entries, normalize_settings_for_platform, normalize_shortcuts_for_platform,
    SettingsPlatform,
};

fn legacy_shortcut(display_name: &str, codes: Vec<u16>, mode: ShortcutMode) -> ShortcutSettings {
    shortcut_from_stored_fields(
        display_name.to_string(),
        codes,
        mode,
        true,
        false,
        None,
        ShortcutPlatformCodes::default(),
    )
}

#[test]
fn default_shortcuts_use_platform_neutral_shape_with_macos_codes() {
    let settings = AppSettings::default();

    assert_eq!(settings.push_to_talk_shortcut.display_name, "Fn");
    assert_eq!(settings.push_to_talk_shortcut.macos_key_codes(), &[63]);
    assert_eq!(settings.hands_free_shortcut.display_name, "Control + Space");
    assert_eq!(settings.hands_free_shortcut.macos_key_codes(), &[59, 49]);
    assert_eq!(
        settings.hands_free_shortcut.chord,
        Some(ShortcutChord {
            modifiers: vec![ShortcutModifier::Control],
            key: Some(ShortcutKey::Space),
        })
    );
}

#[test]
fn deserializes_missing_shortcut_flags_to_back_compatible_defaults() {
    let push = legacy_shortcut("Fn", vec![63], ShortcutMode::Hold);
    let hands = legacy_shortcut("Control + Space", vec![59, 49], ShortcutMode::Toggle);
    let settings = AppSettings {
        push_to_talk_shortcut: push,
        hands_free_shortcut: hands,
        ..AppSettings::default()
    };

    assert!(settings.push_to_talk_shortcut.enabled);
    assert!(!settings.push_to_talk_shortcut.double_tap_toggle);
    assert!(settings.hands_free_shortcut.enabled);
    assert!(!settings.hands_free_shortcut.double_tap_toggle);
    assert!(!settings.paste_into_recording_start_window);
    assert!(!settings.input_monitoring_permission_shown_in_onboarding);
}

#[test]
fn migrates_old_macos_key_codes_into_platform_codes_and_chord() {
    let shortcut = legacy_shortcut("Fn", vec![63], ShortcutMode::Hold);

    assert_eq!(shortcut.macos_key_codes(), &[63]);
    assert_eq!(
        shortcut.chord,
        Some(ShortcutChord {
            modifiers: vec![ShortcutModifier::Fn],
            key: None
        })
    );
}

#[test]
fn normalizes_old_macos_shortcuts_to_windows_defaults() {
    let mut settings = AppSettings {
        push_to_talk_shortcut: legacy_shortcut("Fn", vec![63], ShortcutMode::Hold),
        hands_free_shortcut: legacy_shortcut("Control + Space", vec![59, 49], ShortcutMode::Toggle),
        ..AppSettings::default()
    };

    assert!(normalize_shortcuts_for_platform(&mut settings, SettingsPlatform::Windows));

    assert_eq!(settings.push_to_talk_shortcut.display_name, "Right Ctrl");
    assert_eq!(settings.push_to_talk_shortcut.windows_virtual_keys(), &[163]);
    assert!(settings.push_to_talk_shortcut.macos_key_codes().is_empty());
    assert!(matches!(settings.push_to_talk_shortcut.mode, ShortcutMode::Hold));

    assert_eq!(settings.hands_free_shortcut.display_name, "Left Ctrl + Space");
    assert_eq!(settings.hands_free_shortcut.windows_virtual_keys(), &[162, 32]);
    assert!(settings.hands_free_shortcut.macos_key_codes().is_empty());
    assert!(matches!(settings.hands_free_shortcut.mode, ShortcutMode::Toggle));
}

#[test]
fn migrates_old_windows_hands_free_default_to_left_control_space() {
    let mut settings = default_settings_for_platform(SettingsPlatform::Windows);
    settings.hands_free_shortcut = ShortcutSettings {
        display_name: "Ctrl + Alt + Space".into(),
        mode: ShortcutMode::Toggle,
        enabled: true,
        double_tap_toggle: false,
        chord: Some(ShortcutChord {
            modifiers: vec![ShortcutModifier::Control, ShortcutModifier::Alt],
            key: Some(ShortcutKey::Space),
        }),
        platform_codes: ShortcutPlatformCodes {
            macos_key_codes: None,
            windows_virtual_keys: Some(vec![17, 18, 32]),
            linux_key_codes: None,
        },
    };

    assert!(normalize_shortcuts_for_platform(&mut settings, SettingsPlatform::Windows));

    assert_eq!(settings.hands_free_shortcut.display_name, "Left Ctrl + Space");
    assert_eq!(settings.hands_free_shortcut.windows_virtual_keys(), &[162, 32]);
}

#[test]
fn migrates_intermediate_windows_hands_free_default_to_left_control_space() {
    let mut settings = default_settings_for_platform(SettingsPlatform::Windows);
    settings.hands_free_shortcut = ShortcutSettings {
        display_name: "Left Ctrl + Left Alt + Space".into(),
        mode: ShortcutMode::Toggle,
        enabled: true,
        double_tap_toggle: false,
        chord: Some(ShortcutChord {
            modifiers: vec![ShortcutModifier::Control, ShortcutModifier::Alt],
            key: Some(ShortcutKey::Space),
        }),
        platform_codes: ShortcutPlatformCodes {
            macos_key_codes: None,
            windows_virtual_keys: Some(vec![162, 164, 32]),
            linux_key_codes: None,
        },
    };

    assert!(normalize_shortcuts_for_platform(&mut settings, SettingsPlatform::Windows));

    assert_eq!(settings.hands_free_shortcut.display_name, "Left Ctrl + Space");
    assert_eq!(settings.hands_free_shortcut.windows_virtual_keys(), &[162, 32]);
}

#[test]
fn preserves_custom_windows_hands_free_shortcut_with_generic_modifiers() {
    let mut settings = default_settings_for_platform(SettingsPlatform::Windows);
    settings.hands_free_shortcut.display_name = "Custom Ctrl + Alt + Space".into();
    settings.hands_free_shortcut.platform_codes.windows_virtual_keys = Some(vec![17, 18, 32]);

    assert!(!normalize_shortcuts_for_platform(&mut settings, SettingsPlatform::Windows));
    assert_eq!(settings.hands_free_shortcut.display_name, "Custom Ctrl + Alt + Space");
    assert_eq!(settings.hands_free_shortcut.windows_virtual_keys(), &[17, 18, 32]);
    assert!(settings.hands_free_shortcut.macos_key_codes().is_empty());
    assert!(matches!(settings.hands_free_shortcut.mode, ShortcutMode::Toggle));
}

#[test]
fn default_settings_for_platform_preserves_macos_and_sets_windows_defaults() {
    let macos = default_settings_for_platform(SettingsPlatform::Macos);
    assert_eq!(macos.push_to_talk_shortcut.display_name, "Fn");
    assert_eq!(macos.push_to_talk_shortcut.macos_key_codes(), &[63]);
    assert_eq!(macos.hands_free_shortcut.display_name, "Control + Space");
    assert_eq!(macos.hands_free_shortcut.macos_key_codes(), &[59, 49]);

    let windows = default_settings_for_platform(SettingsPlatform::Windows);
    assert_eq!(windows.push_to_talk_shortcut.display_name, "Right Ctrl");
    assert_eq!(windows.push_to_talk_shortcut.windows_virtual_keys(), &[163]);
    assert_eq!(windows.hands_free_shortcut.display_name, "Left Ctrl + Space");
    assert_eq!(windows.hands_free_shortcut.windows_virtual_keys(), &[162, 32]);

    let linux = default_settings_for_platform(SettingsPlatform::Linux);
    assert_eq!(linux.push_to_talk_shortcut.display_name, "F9");
    assert_eq!(linux.push_to_talk_shortcut.linux_key_codes(), &[0xffc6]);
    assert_eq!(linux.hands_free_shortcut.display_name, "Ctrl + Space");
    assert_eq!(linux.hands_free_shortcut.linux_key_codes(), &[0xffe3, 0x20]);
}

#[test]
fn normalizes_old_macos_shortcuts_to_linux_defaults() {
    let mut settings = AppSettings {
        push_to_talk_shortcut: legacy_shortcut("Fn", vec![63], ShortcutMode::Hold),
        hands_free_shortcut: legacy_shortcut("Control + Space", vec![59, 49], ShortcutMode::Toggle),
        ..AppSettings::default()
    };

    assert!(normalize_shortcuts_for_platform(&mut settings, SettingsPlatform::Linux));

    assert_eq!(settings.push_to_talk_shortcut.display_name, "F9");
    assert_eq!(settings.push_to_talk_shortcut.linux_key_codes(), &[0xffc6]);
    assert!(settings.push_to_talk_shortcut.macos_key_codes().is_empty());
    assert_eq!(settings.hands_free_shortcut.display_name, "Ctrl + Space");
    assert_eq!(settings.hands_free_shortcut.linux_key_codes(), &[0xffe3, 0x20]);
    assert!(settings.hands_free_shortcut.macos_key_codes().is_empty());
}

#[test]
fn derives_safe_windows_virtual_keys_from_chord() {
    let mut settings = AppSettings {
        hands_free_shortcut: ShortcutSettings {
            display_name: "Ctrl + Alt + K".into(),
            mode: ShortcutMode::Toggle,
            enabled: true,
            double_tap_toggle: false,
            chord: Some(ShortcutChord {
                modifiers: vec![ShortcutModifier::Control, ShortcutModifier::Alt],
                key: Some(ShortcutKey::Character("k".into())),
            }),
            platform_codes: Default::default(),
        },
        ..AppSettings::default()
    };

    assert!(normalize_shortcuts_for_platform(&mut settings, SettingsPlatform::Windows));

    assert_eq!(settings.hands_free_shortcut.windows_virtual_keys(), &[17, 18, 75]);
    assert!(settings.hands_free_shortcut.macos_key_codes().is_empty());
}

#[test]
fn fn_chord_without_windows_codes_migrates_to_windows_default() {
    let mut settings = AppSettings {
        push_to_talk_shortcut: ShortcutSettings {
            display_name: "Fn".into(),
            mode: ShortcutMode::Hold,
            enabled: true,
            double_tap_toggle: false,
            chord: Some(ShortcutChord {
                modifiers: vec![ShortcutModifier::Fn],
                key: None,
            }),
            platform_codes: Default::default(),
        },
        ..AppSettings::default()
    };

    assert!(normalize_shortcuts_for_platform(&mut settings, SettingsPlatform::Windows));

    assert_eq!(settings.push_to_talk_shortcut.display_name, "Right Ctrl");
    assert_eq!(settings.push_to_talk_shortcut.windows_virtual_keys(), &[163]);
}

#[test]
fn normalizes_dictionary_entries_to_terms_only() {
    let mut settings = AppSettings {
        dictionary_entries: vec![
            DictionaryEntry {
                id: "entry-1".into(),
                term: " Project   Atlas ".into(),
            },
            DictionaryEntry {
                id: "entry-2".into(),
                term: "project atlas".into(),
            },
        ],
        ..AppSettings::default()
    };

    assert!(normalize_dictionary_entries(&mut settings));
    assert_eq!(settings.dictionary_entries.len(), 1);
    assert_eq!(settings.dictionary_entries[0].term, "Project Atlas");
}

#[test]
fn normalizes_valid_specific_language() {
    let mut settings = AppSettings {
        dictation_language_mode: DictationLanguageMode::Specific,
        dictation_language_code: Some(" ES ".into()),
        ..AppSettings::default()
    };

    assert!(normalize_dictation_language(&mut settings));
    assert!(matches!(settings.dictation_language_mode, DictationLanguageMode::Specific));
    assert_eq!(settings.dictation_language_code.as_deref(), Some("es"));
}

#[test]
fn normalizes_specific_language_locale_to_catalog_casing() {
    let mut settings = AppSettings {
        dictation_language_mode: DictationLanguageMode::Specific,
        dictation_language_code: Some(" pt-br ".into()),
        ..AppSettings::default()
    };

    assert!(normalize_dictation_language(&mut settings));
    assert_eq!(settings.dictation_language_code.as_deref(), Some("pt-BR"));
}

#[test]
fn english_specific_locale_stays_specific_to_preserve_locale() {
    let mut settings = AppSettings {
        dictation_language_mode: DictationLanguageMode::Specific,
        dictation_language_code: Some("en-gb".into()),
        ..AppSettings::default()
    };

    assert!(normalize_dictation_language(&mut settings));
    assert!(matches!(settings.dictation_language_mode, DictationLanguageMode::Specific));
    assert_eq!(settings.dictation_language_code.as_deref(), Some("en-GB"));
}

#[test]
fn empty_specific_language_falls_back_to_english() {
    let mut settings = AppSettings {
        dictation_language_mode: DictationLanguageMode::Specific,
        dictation_language_code: Some(" ".into()),
        ..AppSettings::default()
    };

    assert!(normalize_dictation_language(&mut settings));
    assert!(matches!(settings.dictation_language_mode, DictationLanguageMode::English));
    assert!(settings.dictation_language_code.is_none());
}

#[test]
fn english_specific_language_routes_to_english_mode() {
    let mut settings = AppSettings {
        dictation_language_mode: DictationLanguageMode::Specific,
        dictation_language_code: Some("en".into()),
        ..AppSettings::default()
    };

    assert!(normalize_dictation_language(&mut settings));
    assert!(matches!(settings.dictation_language_mode, DictationLanguageMode::English));
    assert!(settings.dictation_language_code.is_none());
}

#[test]
fn normalize_cleanup_model_id_defaults_unknown_id() {
    let mut settings = AppSettings {
        cleanup_model_id: "invalid-model-id".into(),
        ..AppSettings::default()
    };

    assert!(normalize_cleanup_model_id(&mut settings));
    assert_eq!(settings.cleanup_model_id, DEFAULT_CLEANUP_MODEL_ID);
}

#[test]
fn normalize_cleanup_model_id_defaults_empty_id() {
    let mut settings = AppSettings {
        cleanup_model_id: " ".into(),
        ..AppSettings::default()
    };

    assert!(normalize_cleanup_model_id(&mut settings));
    assert_eq!(settings.cleanup_model_id, DEFAULT_CLEANUP_MODEL_ID);
}

#[test]
fn settings_normalization_is_stable_on_a_second_run() {
    for platform in [SettingsPlatform::Macos, SettingsPlatform::Windows, SettingsPlatform::Linux] {
        let mut settings = AppSettings {
            dictation_language_mode: DictationLanguageMode::Specific,
            dictation_language_code: Some(" pt-br ".into()),
            cleanup_model_id: "nope".into(),
            ..AppSettings::default()
        };
        normalize_settings_for_platform(&mut settings, platform);
        let once = settings.clone();
        assert!(!normalize_settings_for_platform(&mut settings, platform));
        assert_eq!(settings, once);
    }
}

#[test]
fn known_cleanup_model_id_is_kept() {
    let mut settings = AppSettings {
        cleanup_model_id: "cleanup-gemma-4-e2b".into(),
        ..AppSettings::default()
    };
    assert!(!normalize_cleanup_model_id(&mut settings));
    assert_eq!(settings.cleanup_model_id, "cleanup-gemma-4-e2b");
}

#[test]
fn key_labels_join_with_plus() {
    assert_eq!(display_name_for_windows_keys(&[162, 164, 32]), "Left Ctrl + Left Alt + Space");
    assert_eq!(display_name_for_windows_keys(&[163]), "Right Ctrl");
    assert_eq!(display_name_for_linux_keys(&[0xffe3, 0x20]), "Ctrl + Space");
    assert_eq!(display_name_for_linux_keys(&[0xffc6]), "F9");
}

#[test]
fn macos_defaults_are_recognized() {
    let settings = AppSettings::default();
    assert!(is_macos_default_shortcut(&settings.push_to_talk_shortcut));
    assert!(is_macos_default_shortcut(&settings.hands_free_shortcut));
    let windows = default_settings_for_platform(SettingsPlatform::Windows);
    assert!(!is_macos_default_shortcut(&windows.push_to_talk_shortcut));
}

#[test]
fn decodes_legacy_shortcut_shape_into_platform_codes() {
    let shortcut = legacy_shortcut("Fn", vec![63], ShortcutMode::Hold);

    assert_eq!(shortcut.macos_key_codes(), &[63]);
    assert_eq!(
        shortcut.chord,
        Some(ShortcutChord {
            modifiers: vec![ShortcutModifier::Fn],
            key: None
        })
    );
    assert!(shortcut.enabled);
    assert!(!shortcut.double_tap_toggle);
}

#[test]
fn deserializes_missing_cleanup_model_id_to_default() {
    let settings = AppSettings::default();

    assert_eq!(settings.cleanup_model_id, DEFAULT_CLEANUP_MODEL_ID);
}

#[test]
fn language_normalization_is_stable() {
    for (mode, code) in [
        (DictationLanguageMode::Specific, Some(" PT-br ")),
        (DictationLanguageMode::Specific, Some("De")),
        (DictationLanguageMode::Specific, Some("en")),
        (DictationLanguageMode::Detect, Some("fr")),
    ] {
        let mut settings = AppSettings {
            dictation_language_mode: mode,
            dictation_language_code: code.map(String::from),
            ..AppSettings::default()
        };
        normalize_dictation_language(&mut settings);
        let once = settings.clone();
        assert!(!normalize_dictation_language(&mut settings));
        assert_eq!(settings, once);
    }
}

#[test]
fn dictionary_normalization_is_stable() {
    let mut settings = AppSettings {
        dictionary_entries: vec![
            DictionaryEntry { id: "a".into(), term: "  Open   AI ".into() },
            DictionaryEntry { id: " ".into(), term: "Verus".into() },
            DictionaryEntry { id: "c".into(), term: "open ai".into() },
            DictionaryEntry { id: "d".into(), term: "   ".into() },
        ],
        ..AppSettings::default()
    };
    assert!(normalize_dictionary_entries(&mut settings));
    let once = settings.clone();
    assert_eq!(once.dictionary_entries.len(), 2);
    assert_eq!(once.dictionary_entries[0].term, "Open AI");
    assert!(!normalize_dictionary_entries(&mut settings));
    assert_eq!(settings, once);
}

#[test]
fn windows_legacy_hands_free_in_hold_mode_migrates_on_the_second_run() {
    let mut settings = AppSettings {
        hands_free_shortcut: ShortcutSettings {
            display_name: "Ctrl + Alt + Space".into(),
            mode: ShortcutMode::Hold,
            enabled: true,
            double_tap_toggle: false,
            chord: None,
            platform_codes: ShortcutPlatformCodes {
                macos_key_codes: None,
                windows_virtual_keys: Some(vec![17, 18, 32]),
                linux_key_codes: None,
            },
        },
        ..AppSettings::default()
    };
    normalize_shortcuts_for_platform(&mut settings, SettingsPlatform::Windows);
    assert_eq!(settings.hands_free_shortcut.display_name, "Ctrl + Alt + Space");
    assert!(normalize_shortcuts_for_platform(&mut settings, SettingsPlatform::Windows));
    assert_eq!(settings.hands_free_shortcut.display_name, "Left Ctrl + Space");
}
