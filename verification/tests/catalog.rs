use parrot_core::core_service::MACOS_PLATFORM_ADAPTER_FILES;
use parrot_core::language::{canonical_language_code, speech_code_for_language_code};
use parrot_core::model_runtime::{
    cleanup_batch_tokens, linux_unsupported_cleanup_model, thread_count_for,
    MAX_CLEANUP_BATCH_TOKENS,
};
use parrot_core::models::validate_gguf_magic;

#[test]
fn canonicalizes_catalog_locale_casing() {
    assert_eq!(canonical_language_code(" pt-br ").as_deref(), Some("pt-BR"));
    assert_eq!(speech_code_for_language_code("pt-BR").as_deref(), Some("pt"));
}

#[test]
fn unknown_language_code_keeps_its_normalized_form() {
    assert_eq!(canonical_language_code(" xx-nowhere ").as_deref(), Some("xx-nowhere"));
    assert_eq!(canonical_language_code("   "), None);
}

#[test]
fn gguf_magic_validation_is_future_ready() {
    assert!(validate_gguf_magic(b"GGUFrest").is_ok());
    assert!(validate_gguf_magic(b"NOPE").is_err());
}

#[test]
fn documents_current_macos_adapter_files() {
    let files = MACOS_PLATFORM_ADAPTER_FILES
        .iter()
        .map(|(file, _)| *file)
        .collect::<Vec<_>>();

    assert!(files.contains(&"AudioRecorder.swift"));
    assert!(files.contains(&"HotkeyMonitor.swift"));
    assert!(files.contains(&"TextPaster.swift"));
}

#[test]
fn cleanup_batch_caps_context_sized_batches() {
    assert_eq!(cleanup_batch_tokens(0), 1);
    assert_eq!(cleanup_batch_tokens(128), 128);
    assert_eq!(cleanup_batch_tokens(2048), MAX_CLEANUP_BATCH_TOKENS);
}

#[test]
fn default_thread_count_stays_in_supported_range() {
    assert_eq!(thread_count_for(None), 4);
    assert_eq!(thread_count_for(Some(0)), 1);
    assert_eq!(thread_count_for(Some(8)), 8);
    assert_eq!(thread_count_for(Some(64)), 16);
    for n in 0..40 {
        let count = thread_count_for(Some(n));
        assert!((1..=16).contains(&count));
    }
}
