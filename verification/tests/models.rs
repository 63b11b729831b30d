use parrot_core::core_service::{
    cleanup_descriptor_for, cleanup_outcome, cleanup_prompt_for, descriptor_for_public_id, kept_transcript,
    paste_text_for, requested_model, speech_descriptor_for, transcript_language, transcript_text,
};
use parrot_core::language::{DictationLanguageSettings, SpeechModelSlot};
use parrot_core::prompts::cleanup_output_token_budget;
use parrot_core::model_runtime::{
    check_cleanup_model_file, check_whisper_audio, cleanup_context_tokens, fit_cleanup_output,
    linux_unsupported_cleanup_model, prompt_batch_plan, require_model_file, PromptBatch,
};
use parrot_core::windows::model_pipelines::{
    cleanup_fallback, cleanup_start, descriptor_and_path, windows_speech_descriptor, CleanupStart,
};
use parrot_core::models::{
    cleanup_model_for, cleanup_models, cleanup_temp_file_name, model_by_public_id, model_status,
    required_models, speech_model_for, validate_catalog, Architecture, CleanupPromptFormat,
    ModelCatalogManifest, ModelDescriptor, ModelFileState, ModelRuntime, Platform,
};
use parrot_core::protocol::{AppSettings, DictationLanguageMode, ModelRole, NativeCorePaths};
use parrot_core::windows::model_downloads::{
    checksum_verdict, download_total_bytes, download_url, downloaded_after_chunk, failed_progress,
    model_file_state, model_path, started_progress, temp_model_path, windows_descriptor_for,
    windows_descriptors, DownloadProgress, DownloadStart, WindowsModelStore,
};

fn descriptor(public_id: &str, concrete_id: &str, role: ModelRole, runtime: ModelRuntime) -> ModelDescriptor {
    ModelDescriptor {
        public_id: public_id.into(),
        concrete_id: concrete_id.into(),
        role,
        runtime,
        speech_slot: None,
        platforms: vec![Platform::Macos, Platform::Windows, Platform::Linux],
        architectures: vec![Architecture::AppleSilicon, Architecture::Intel, Architecture::X86_64],
        repo_id: Some("org/repo".into()),
        file_name: Some(format!("{concrete_id}.bin")),
        model_id: None,
        display_name: format!("Model {public_id}"),
        subtitle: "Local model".into(),
        expected_bytes: 1000,
        sha256: None,
        license: "MIT".into(),
        prompt_format: None,
        has_sampler: false,
        context_tokens: None,
        output_tokens: None,
    }
}

fn catalog() -> ModelCatalogManifest {
    let mut apple = descriptor("speech", "whisperkit-openai-whisper-small-en", ModelRole::Speech, ModelRuntime::Whisperkit);
    apple.speech_slot = Some(SpeechModelSlot::Speech);
    apple.architectures = vec![Architecture::AppleSilicon];
    apple.platforms = vec![Platform::Macos];
    let mut intel = descriptor("speech", "whispercpp-small-en", ModelRole::Speech, ModelRuntime::Whispercpp);
    intel.speech_slot = Some(SpeechModelSlot::Speech);
    intel.architectures = vec![Architecture::Intel, Architecture::X86_64];
    intel.file_name = Some("ggml-small.en-q5_1.bin".into());
    let mut multi = descriptor("speech-multilingual", "whispercpp-small", ModelRole::Speech, ModelRuntime::Whispercpp);
    multi.speech_slot = Some(SpeechModelSlot::SpeechMultilingual);
    let mut qwen = descriptor("cleanup", "llama-qwen3-5-2b-q8-0", ModelRole::Cleanup, ModelRuntime::LlamaCpp);
    qwen.prompt_format = Some(CleanupPromptFormat::Qwen3Chatml);
    qwen.has_sampler = true;
    let mut gemma = descriptor("cleanup-gemma-4-e2b", "llama-gemma-4-e2b", ModelRole::Cleanup, ModelRuntime::LlamaCpp);
    gemma.prompt_format = Some(CleanupPromptFormat::Gemma4Turns);
    gemma.has_sampler = true;
    ModelCatalogManifest {
        default_cleanup_public_id: "cleanup".into(),
        models: vec![apple, intel, multi, qwen, gemma],
    }
}

fn paths() -> NativeCorePaths {
    NativeCorePaths {
        app_data_dir: "/data".into(),
        models_dir: "/data/models".into(),
        speech_models_dir: "/data/models/speech".into(),
        cleanup_models_dir: "/data/models/cleanup".into(),
        resources_dir: "/res".into(),
        shared_resources_dir: "/res/shared".into(),
        temp_dir: "/tmp".into(),
    }
}

#[test]
fn manifest_is_valid() {
    validate_catalog(&catalog()).unwrap();
}

#[test]
fn catalog_errors_name_the_broken_model() {
    let mut manifest = catalog();
    manifest.default_cleanup_public_id = "  ".into();
    assert_eq!(validate_catalog(&manifest).unwrap_err(), "default cleanup public ID is empty");

    let mut manifest = catalog();
    manifest.default_cleanup_public_id = "missing".into();
    assert_eq!(validate_catalog(&manifest).unwrap_err(), "default cleanup model `missing` does not exist");

    let mut manifest = catalog();
    manifest.models[4].prompt_format = None;
    assert_eq!(
        validate_catalog(&manifest).unwrap_err(),
        "cleanup model `cleanup-gemma-4-e2b` is missing prompt format"
    );

    let mut manifest = catalog();
    manifest.models[2].expected_bytes = 0;
    assert_eq!(
        validate_catalog(&manifest).unwrap_err(),
        "model `speech-multilingual` expected bytes must be positive"
    );
}

#[test]
fn cleanup_models_have_prompt_formats() {
    let manifest = catalog();
    let models = cleanup_models(&manifest);
    assert_eq!(models.len(), 2);
    for model in models {
        assert!(model.prompt_format.is_some(), "{}", model.public_id);
    }
}

#[test]
fn apple_silicon_and_intel_speech_routing_still_work() {
    let manifest = catalog();
    let apple = speech_model_for(&manifest, SpeechModelSlot::Speech, Platform::Macos, Architecture::AppleSilicon).unwrap();
    let intel = speech_model_for(&manifest, SpeechModelSlot::Speech, Platform::Macos, Architecture::Intel).unwrap();

    assert_eq!(apple.public_id, "speech");
    assert_eq!(apple.concrete_id, "whisperkit-openai-whisper-small-en");
    assert_eq!(intel.public_id, "speech");
    assert_eq!(intel.file_name.as_deref(), Some("ggml-small.en-q5_1.bin"));
}

#[test]
fn required_models_follow_language_settings() {
    let settings = DictationLanguageSettings {
        dictation_language_mode: DictationLanguageMode::Specific,
        dictation_language_code: Some("es".into()),
        cleanup_model_id: "cleanup-gemma-4-e2b".into(),
    };

    let manifest = catalog();
    let required = required_models(&manifest, &settings, Platform::Macos, Architecture::AppleSilicon);
    let ids = required.iter().map(|model| model.public_id.as_str()).collect::<Vec<_>>();

    assert_eq!(ids, vec!["speech-multilingual", "cleanup-gemma-4-e2b"]);
}

#[test]
fn unknown_cleanup_choice_requires_the_default_cleanup_model() {
    let settings = DictationLanguageSettings {
        dictation_language_mode: DictationLanguageMode::English,
        dictation_language_code: None,
        cleanup_model_id: "gone".into(),
    };
    let manifest = catalog();
    let required = required_models(&manifest, &settings, Platform::Windows, Architecture::X86_64);
    let ids = required.iter().map(|model| model.public_id.as_str()).collect::<Vec<_>>();
    assert_eq!(ids, vec!["speech", "cleanup"]);
}

#[test]
fn lookups_find_the_first_matching_entry() {
    let manifest = catalog();
    assert_eq!(model_by_public_id(&manifest, "speech").unwrap().concrete_id, "whisperkit-openai-whisper-small-en");
    assert!(cleanup_model_for(&manifest, "speech").is_none());
    assert_eq!(cleanup_model_for(&manifest, "cleanup").unwrap().concrete_id, "llama-qwen3-5-2b-q8-0");
    assert_eq!(
        cleanup_temp_file_name(&manifest, "cleanup").as_deref(),
        Some("llama-qwen3-5-2b-q8-0.bin.download")
    );
}

#[test]
fn model_status_reports_download_state() {
    let manifest = catalog();
    let d = &manifest.models[3];
    let done = model_status(d, ModelFileState { local_bytes: 1000, downloading: false, progress_bytes: 0, progress_total_bytes: 0, error: None }, true);
    assert!(done.downloaded);
    assert_eq!(done.progress_bytes, 1000);
    assert_eq!(done.progress_total_bytes, 1000);
    assert!(done.required);

    let partial = model_status(d, ModelFileState { local_bytes: 0, downloading: true, progress_bytes: 300, progress_total_bytes: 2000, error: None }, false);
    assert!(!partial.downloaded);
    assert!(partial.downloading);
    assert_eq!(partial.progress_bytes, 300);
    assert_eq!(partial.progress_total_bytes, 2000);
}

#[test]
fn linux_refuses_the_cleanup_model_that_aborts() {
    let manifest = catalog();
    assert_eq!(
        linux_unsupported_cleanup_model(&manifest.models[3]).as_deref(),
        Some("Model cleanup is currently disabled on Linux because llama.cpp aborts while initializing this GGUF.")
    );
    assert!(linux_unsupported_cleanup_model(&manifest.models[4]).is_none());
}

#[test]
fn windows_model_files_live_in_their_role_directory() {
    let manifest = catalog();
    let cleanup = &manifest.models[3];
    let path = model_path(cleanup, &paths()).unwrap();
    assert!(path.starts_with("/data/models/cleanup"));
    assert!(path.ends_with("llama-qwen3-5-2b-q8-0.bin"));
    let temp = temp_model_path(cleanup, &paths()).unwrap();
    assert!(temp.ends_with("llama-qwen3-5-2b-q8-0.bin.download"));
    let speech = &manifest.models[2];
    assert!(model_path(speech, &paths()).unwrap().starts_with("/data/models/speech"));

    let mut nameless = cleanup.clone();
    nameless.file_name = None;
    assert_eq!(model_path(&nameless, &paths()).unwrap_err(), "model `cleanup` is missing a file name");
}

#[test]
fn windows_download_url_points_at_the_repository_file() {
    let manifest = catalog();
    assert_eq!(
        download_url(&manifest.models[3]).unwrap(),
        "https://huggingface.co/org/repo/resolve/main/llama-qwen3-5-2b-q8-0.bin?download=true"
    );
    let mut repoless = manifest.models[3].clone();
    repoless.repo_id = None;
    assert_eq!(download_url(&repoless).unwrap_err(), "model `cleanup` is missing a repo");
}

#[test]
fn windows_file_state_prefers_live_download_progress() {
    let manifest = catalog();
    let d = &manifest.models[3];
    let live = model_file_state(d, Some(DownloadProgress { downloading: true, progress_bytes: 10, progress_total_bytes: 99, error: None }), 0, 5);
    assert!(live.downloading);
    assert_eq!(live.progress_bytes, 10);
    assert_eq!(live.progress_total_bytes, 99);

    let partial = model_file_state(d, None, 0, 400);
    assert!(!partial.downloading);
    assert_eq!(partial.progress_bytes, 400);
    assert_eq!(partial.progress_total_bytes, 1000);

    let done = model_file_state(d, None, 1500, 400);
    assert_eq!(done.progress_bytes, 1500);
    assert_eq!(done.progress_total_bytes, 1500);

    let started = started_progress(d, 7);
    assert!(started.downloading);
    assert_eq!(started.progress_total_bytes, 1000);
    let failed = failed_progress(d, 7, "network down".into());
    assert!(!failed.downloading);
    assert_eq!(failed.error.as_deref(), Some("network down"));
}

#[test]
fn download_models_have_repo_and_file_names() {
    for model in catalog().models {
        if matches!(model.runtime, ModelRuntime::Whispercpp | ModelRuntime::LlamaCpp) {
            assert!(model.repo_id.is_some(), "{}", model.public_id);
            assert!(model.file_name.is_some(), "{}", model.public_id);
        }
    }
}

#[test]
fn windows_store_refuses_unknown_models_and_unconfigured_paths() {
    let manifest = catalog();
    let mut store = WindowsModelStore::new();
    assert_eq!(store.download_target(&manifest, "nope").unwrap_err(), "Unknown Windows model: nope");
    assert_eq!(
        store.download_target(&manifest, "speech").unwrap_err(),
        "native-core paths are not initialized"
    );
    store.configure_paths(paths());
    let (descriptor, path) = store.download_target(&manifest, "speech").unwrap();
    assert_eq!(descriptor.concrete_id, "whispercpp-small-en");
    assert_eq!(path, model_path(&descriptor, &paths()).unwrap());
    let (model, temp) = store.delete_model(&manifest, "speech").unwrap();
    assert_eq!(model, path);
    assert_eq!(temp, temp_model_path(&descriptor, &paths()).unwrap());
    assert_eq!(store.delete_model(&manifest, "nope").unwrap_err(), "Unknown Windows model: nope");
}

#[test]
fn windows_store_reads_back_recorded_progress() {
    let mut store = WindowsModelStore::new();
    assert!(store.progress("speech").is_none());
    store.record_progress("speech", DownloadProgress { downloading: true, progress_bytes: 5, progress_total_bytes: 10, error: None });
    store.record_progress("cleanup", DownloadProgress { downloading: false, progress_bytes: 1, progress_total_bytes: 2, error: Some("x".into()) });
    store.record_progress("speech", DownloadProgress { downloading: true, progress_bytes: 7, progress_total_bytes: 10, error: None });
    assert_eq!(store.progress("speech").unwrap().progress_bytes, 7);
    assert_eq!(store.progress("cleanup").unwrap().error.as_deref(), Some("x"));
    store.forget_progress("speech");
    assert!(store.progress("speech").is_none());
    assert_eq!(store.progress("cleanup").unwrap().progress_bytes, 1);
}

#[test]
fn windows_download_lifecycle_is_tracked() {
    let manifest = catalog();
    let descriptor = windows_descriptor_for(&manifest, "speech").unwrap();
    let mut store = WindowsModelStore::new();
    assert_eq!(store.begin_download(&descriptor, 40), DownloadStart::Started);
    let started = store.progress("speech").unwrap();
    assert!(started.downloading);
    assert_eq!(started.progress_bytes, 40);
    assert_eq!(started.progress_total_bytes, 1000);
    assert_eq!(store.begin_download(&descriptor, 0), DownloadStart::AlreadyDownloading);
    store.record_download_progress(&descriptor, 600, 0);
    let moving = store.progress("speech").unwrap();
    assert_eq!((moving.progress_bytes, moving.progress_total_bytes), (600, 1));
    assert!(!store.finish_download(&descriptor, Err("network down".into()), 600));
    let failed = store.progress("speech").unwrap();
    assert!(!failed.downloading);
    assert_eq!(failed.error.as_deref(), Some("network down"));
    assert_eq!(store.begin_download(&descriptor, 600), DownloadStart::Started);
    assert!(store.finish_download(&descriptor, Ok(()), 0));
    assert!(store.progress("speech").is_none());
}

#[test]
fn windows_statuses_combine_progress_and_file_sizes() {
    let manifest = catalog();
    let mut store = WindowsModelStore::new();
    let descriptors = windows_descriptors(&manifest);
    let ids: Vec<&str> = descriptors.iter().map(|d| d.public_id.as_str()).collect();
    assert_eq!(ids, vec!["speech", "speech-multilingual", "cleanup", "cleanup-gemma-4-e2b"]);
    let speech = windows_descriptor_for(&manifest, "speech").unwrap();
    store.begin_download(&speech, 10);
    let language = DictationLanguageSettings {
        dictation_language_mode: DictationLanguageMode::English,
        dictation_language_code: None,
        cleanup_model_id: "cleanup".into(),
    };
    let statuses = store.statuses(&manifest, &language, &descriptors, &vec![0, 0, 1000, 0], &vec![0, 0, 0, 300]);
    assert_eq!(statuses.len(), 4);
    assert!(statuses[0].downloading && statuses[0].required);
    assert_eq!(statuses[0].progress_bytes, 10);
    assert!(!statuses[1].required);
    assert!(statuses[2].downloaded && statuses[2].required);
    assert!(!statuses[3].downloaded);
    assert_eq!(statuses[3].progress_bytes, 300);
}

#[test]
fn download_sizes_saturate_and_fall_back() {
    assert_eq!(download_total_bytes(Some(4096), 10), 4096);
    assert_eq!(download_total_bytes(None, 10), 10);
    assert_eq!(download_total_bytes(None, 0), 1);
    assert_eq!(download_total_bytes(Some(u64::MAX), 10), i64::MAX);
    assert_eq!(downloaded_after_chunk(100, 28), 128);
    assert_eq!(downloaded_after_chunk(i64::MAX - 1, 5), i64::MAX);
}

#[test]
fn checksums_compare_hex_in_either_case() {
    let mut d = descriptor("speech", "whispercpp-small-en", ModelRole::Speech, ModelRuntime::Whispercpp);
    assert!(checksum_verdict(&d, "anything").is_ok());
    d.sha256 = Some("ABCDEF01".into());
    assert!(checksum_verdict(&d, "abcdef01").is_ok());
    assert_eq!(
        checksum_verdict(&d, "00").unwrap_err(),
        "speech checksum mismatch: expected ABCDEF01, got 00"
    );
}

fn language(mode: DictationLanguageMode, code: Option<&str>) -> DictationLanguageSettings {
    DictationLanguageSettings {
        dictation_language_mode: mode,
        dictation_language_code: code.map(String::from),
        cleanup_model_id: "cleanup".into(),
    }
}

#[test]
fn recordings_use_the_speech_model_for_their_language() {
    let manifest = catalog();
    let english = speech_descriptor_for(&manifest, &language(DictationLanguageMode::English, None), Platform::Windows, Architecture::X86_64).unwrap();
    assert_eq!(english.concrete_id, "whispercpp-small-en");
    let detect = speech_descriptor_for(&manifest, &language(DictationLanguageMode::Detect, None), Platform::Windows, Architecture::X86_64).unwrap();
    assert_eq!(detect.concrete_id, "whispercpp-small");
    let mut bare = catalog();
    bare.models.retain(|m| m.role == ModelRole::Cleanup);
    assert_eq!(
        speech_descriptor_for(&bare, &language(DictationLanguageMode::English, None), Platform::Linux, Architecture::X86_64).unwrap_err(),
        "No speech model is available for this platform."
    );
}

#[test]
fn transcripts_are_trimmed_and_refused_when_empty() {
    assert_eq!(transcript_text("  hello there \n").unwrap(), "hello there");
    assert_eq!(transcript_text(" \t ").unwrap_err(), "Transcription was empty.");
    assert_eq!(kept_transcript("  raw words "), "raw words");
}

#[test]
fn transcript_language_follows_the_settings() {
    let detected = transcript_language(&language(DictationLanguageMode::Detect, None), Some(" DE "));
    assert_eq!(detected.mode, "detected");
    assert_eq!(detected.code.as_deref(), Some("de"));
    let unknown = transcript_language(&language(DictationLanguageMode::Detect, None), None);
    assert_eq!(unknown.name.as_deref(), Some("unknown"));
    let english = transcript_language(&language(DictationLanguageMode::English, None), Some("de"));
    assert_eq!(english.mode, "selected");
    assert_eq!(english.code.as_deref(), Some("en"));
}

#[test]
fn cleanup_model_choice_respects_settings_and_machine() {
    let manifest = catalog();
    let mut settings = AppSettings::default();
    settings.cleanup_model_id = "cleanup-gemma-4-e2b".into();
    let chosen = cleanup_descriptor_for(&settings, &manifest, Platform::Windows, Architecture::X86_64).unwrap();
    assert_eq!(chosen.concrete_id, "llama-gemma-4-e2b");
    settings.cleanup_model_id = " ".into();
    let default = cleanup_descriptor_for(&settings, &manifest, Platform::Windows, Architecture::X86_64).unwrap();
    assert_eq!(default.public_id, "cleanup");
    settings.cleanup_model_id = "missing".into();
    assert!(cleanup_descriptor_for(&settings, &manifest, Platform::Windows, Architecture::X86_64).is_none());
    settings.cleanup_model_id = "cleanup".into();
    settings.cleanup_enabled = false;
    assert!(cleanup_descriptor_for(&settings, &manifest, Platform::Windows, Architecture::X86_64).is_none());
    let mut elsewhere = catalog();
    elsewhere.models[3].platforms = vec![Platform::Macos];
    settings.cleanup_enabled = true;
    assert!(cleanup_descriptor_for(&settings, &elsewhere, Platform::Windows, Architecture::X86_64).is_none());
}

#[test]
fn cleanup_prompts_need_a_prompt_format() {
    let manifest = catalog();
    let settings = AppSettings::default();
    let metadata = transcript_language(&language(DictationLanguageMode::English, None), None);
    let mut model = cleanup_model_for(&manifest, "cleanup").unwrap();
    let prompt = cleanup_prompt_for(&settings, "Default rules.", &model, "hello world", &metadata).unwrap();
    assert!(prompt.full_prompt.starts_with("<|im_start|>system\n"));
    assert!(prompt.full_prompt.contains("hello world"));
    assert!(prompt.full_prompt.contains("Default rules."));
    assert_eq!(prompt.max_output_tokens, cleanup_output_token_budget("hello world", 512));
    model.output_tokens = Some(300);
    let capped = cleanup_prompt_for(&settings, "Default rules.", &model, "hello world", &metadata).unwrap();
    assert_eq!(capped.max_output_tokens, 192);
    model.prompt_format = None;
    assert_eq!(
        cleanup_prompt_for(&settings, "Default rules.", &model, "hello", &metadata).unwrap_err(),
        "cleanup model is missing prompt format"
    );
}

#[test]
fn cleanup_outcomes_fall_back_unless_debugging() {
    assert_eq!(cleanup_outcome(Ok("<think>x</think>Clean.".into()), " raw ", false).unwrap(), "Clean.");
    assert_eq!(
        cleanup_outcome(Ok("<think>only</think>".into()), " raw ", false).unwrap_err(),
        "Cleanup model produced an empty response."
    );
    assert_eq!(cleanup_outcome(Err("model crashed".into()), " raw ", false).unwrap(), "raw");
    assert_eq!(cleanup_outcome(Err("model crashed".into()), " raw ", true).unwrap_err(), "model crashed");
}

#[test]
fn finished_dictations_paste_fitted_text() {
    assert_eq!(paste_text_for("  ", Some("Hi")), None);
    assert_eq!(paste_text_for("hello.", Some("Done.")).as_deref(), Some(" Hello."));
    assert_eq!(paste_text_for("hello", None).as_deref(), Some("hello"));
}

#[test]
fn requests_name_models_for_this_machine() {
    let manifest = catalog();
    let found = descriptor_for_public_id(&manifest, Platform::Macos, Architecture::AppleSilicon, "speech").unwrap();
    assert_eq!(found.concrete_id, "whisperkit-openai-whisper-small-en");
    assert!(descriptor_for_public_id(&manifest, Platform::Linux, Architecture::AppleSilicon, "speech").is_none());
    assert_eq!(
        requested_model(&manifest, Platform::Linux, Architecture::X86_64, "nope").unwrap_err(),
        "Unknown model: nope"
    );
    assert_eq!(requested_model(&manifest, Platform::Linux, Architecture::X86_64, "cleanup").unwrap().public_id, "cleanup");
}

#[test]
fn cleanup_context_defaults_and_fits_the_output() {
    let mut d = descriptor("cleanup", "llama-qwen3-5-2b-q8-0", ModelRole::Cleanup, ModelRuntime::LlamaCpp);
    assert_eq!(cleanup_context_tokens(&d), 2048);
    d.context_tokens = Some(0);
    assert_eq!(cleanup_context_tokens(&d), 1);
    d.context_tokens = Some(4096);
    assert_eq!(cleanup_context_tokens(&d), 4096);
    assert_eq!(fit_cleanup_output(100, 512, 2048), Ok(512));
    assert_eq!(fit_cleanup_output(100, 0, 2048), Ok(1));
    assert_eq!(
        fit_cleanup_output(1600, 448, 2048).unwrap_err(),
        "Cleanup prompt is too long for the 2048-token context."
    );
    assert!(fit_cleanup_output(usize::MAX, 512, 2048).is_err());
}

#[test]
fn prompt_tokens_are_decoded_in_capped_batches() {
    assert!(prompt_batch_plan(0, 512).is_empty());
    assert_eq!(
        prompt_batch_plan(1100, 512),
        vec![
            PromptBatch { start: 0, len: 512, ends_prompt: false },
            PromptBatch { start: 512, len: 512, ends_prompt: false },
            PromptBatch { start: 1024, len: 76, ends_prompt: true },
        ]
    );
    assert_eq!(prompt_batch_plan(3, 0).len(), 3);
}

#[test]
fn cleanup_model_files_must_exist_and_be_gguf() {
    assert_eq!(
        check_cleanup_model_file("/m/q.gguf", false, &[]).unwrap_err(),
        "Model download required: /m/q.gguf"
    );
    assert_eq!(
        check_cleanup_model_file("/m/q.gguf", true, b"NOPE").unwrap_err(),
        "/m/q.gguf is not a valid GGUF file"
    );
    assert!(check_cleanup_model_file("/m/q.gguf", true, b"GGUF").is_ok());
}

#[test]
fn cleanup_disabled_returns_raw() {
    let mut settings = AppSettings::default();
    settings.cleanup_enabled = false;
    assert_eq!(cleanup_start(false, &settings, " hello world "), CleanupStart::Raw("hello world".into()));
}

#[test]
fn windows_cleanup_runs_unless_cancelled_and_falls_back() {
    let settings = AppSettings::default();
    assert_eq!(cleanup_start(true, &settings, "x"), CleanupStart::Cancelled);
    assert_eq!(cleanup_start(false, &settings, "x"), CleanupStart::Run);
    assert_eq!(cleanup_fallback(Ok("Clean.".into()), " raw ", false, false).unwrap(), "Clean.");
    assert_eq!(cleanup_fallback(Err("bad model".into()), " raw ", false, false).unwrap(), "raw");
    assert_eq!(cleanup_fallback(Err("bad model".into()), " raw ", true, false).unwrap_err(), "bad model");
    assert_eq!(
        cleanup_fallback(Err("Recording cancelled.".into()), " raw ", false, true).unwrap_err(),
        "Recording cancelled."
    );
}

#[test]
fn windows_cleanup_model_file_is_in_the_cleanup_directory() {
    let manifest = catalog();
    let mut settings = AppSettings::default();
    settings.cleanup_model_id = "cleanup-gemma-4-e2b".into();
    let (d, path) = descriptor_and_path(&manifest, &settings, "/data/cleanup").unwrap().unwrap();
    assert_eq!(d.concrete_id, "llama-gemma-4-e2b");
    assert_eq!(path, std::path::Path::new("/data/cleanup").join("llama-gemma-4-e2b.bin").to_string_lossy());
    settings.cleanup_model_id = "speech".into();
    assert!(descriptor_and_path(&manifest, &settings, "/data/cleanup").unwrap().is_none());
    settings.cleanup_model_id = "missing".into();
    assert!(descriptor_and_path(&manifest, &settings, "/data/cleanup").unwrap().is_none());
    let mut nameless = catalog();
    nameless.models[4].file_name = None;
    settings.cleanup_model_id = "cleanup-gemma-4-e2b".into();
    assert_eq!(
        descriptor_and_path(&nameless, &settings, "/data/cleanup").unwrap_err(),
        "model `cleanup-gemma-4-e2b` is missing a file name"
    );
}

#[test]
fn whisper_needs_mono_16khz_speech_and_a_model_file() {
    assert_eq!(check_whisper_audio(0, 16000, 1).unwrap_err(), "No speech detected.");
    assert_eq!(
        check_whisper_audio(10, 48000, 2).unwrap_err(),
        "Whisper.cpp expects mono 16 kHz audio; got 48000 Hz with 2 channel(s)."
    );
    assert!(check_whisper_audio(10, 16000, 1).is_ok());
    assert_eq!(require_model_file("/m/a.bin", false).unwrap_err(), "Model download required: /m/a.bin");
    assert!(require_model_file("/m/a.bin", true).is_ok());
}

#[test]
fn windows_speech_model_follows_the_language_slot() {
    let manifest = catalog();
    let english = windows_speech_descriptor(&manifest, &language(DictationLanguageMode::English, None)).unwrap();
    assert_eq!(english.concrete_id, "whispercpp-small-en");
    let detect = windows_speech_descriptor(&manifest, &language(DictationLanguageMode::Detect, None)).unwrap();
    assert_eq!(detect.concrete_id, "whispercpp-small");
    let mut bare = catalog();
    bare.models.retain(|m| m.public_id != "speech-multilingual");
    assert_eq!(
        windows_speech_descriptor(&bare, &language(DictationLanguageMode::Detect, None)).unwrap_err(),
        "No Windows speech model is available for speech-multilingual."
    );
}
