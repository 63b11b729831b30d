//! The decisions of the Windows speech and cleanup runtimes: which model
//! (and file) they use, when no model runs at all, and what a failed cleanup
//! falls back to.
use vstd::prelude::*;
use crate::assets::{path_join, spec_path_join};
use crate::language::{opt_view, speech_model_slot, DictationLanguageSettings, SpeechModelSlot};
use crate::models::{descriptor_same, lemma_first_where_found, ModelCatalogManifest, ModelDescriptor};
use crate::protocol::{AppSettings, ModelRole};
use crate::text::{string_from_chars, trim_seq, trim_str};
use crate::windows::model_downloads::{missing_file_name_message, windows_descriptor_for, windows_pick};

verus! {

pub const RECORDING_CANCELLED_MESSAGE: &'static str = "Recording cancelled.";

/// The public ID of the speech model a slot is served by.
pub open spec fn slot_public_id(slot: SpeechModelSlot) -> Seq<char> {
    match slot {
        SpeechModelSlot::Speech => "speech"@,
        SpeechModelSlot::SpeechMultilingual => "speech-multilingual"@,
    }
}

pub open spec fn no_windows_speech_model_message(public_id: Seq<char>) -> Seq<char> {
    "No Windows speech model is available for "@ + public_id + "."@
}

/// The Windows speech model for the language settings: the catalog's model
/// named for their slot.
pub fn windows_speech_descriptor(catalog: &ModelCatalogManifest, settings: &DictationLanguageSettings) -> (r: Result<
    ModelDescriptor,
    String,
>)
    ensures
        ({
            let id = slot_public_id(crate::core_service::slot_for(*settings));
            match windows_pick(*catalog, id) {
                Some(i) => r matches Ok(d) && descriptor_same(d, catalog.models@[i]),
                None => r matches Err(e) && e@ == no_windows_speech_model_message(id),
            }
        }),
{
    let public_id = match speech_model_slot(settings) {
        SpeechModelSlot::Speech => "speech",
        SpeechModelSlot::SpeechMultilingual => "speech-multilingual",
    };
    proof {
        reveal_strlit("speech");
        reveal_strlit("speech-multilingual");
    }
    match windows_descriptor_for(catalog, public_id) {
        Some(d) => Ok(d),
        None => {
            let mut out = crate::text::chars_of("No Windows speech model is available for ");
            crate::text::extend_chars(&mut out, &crate::text::chars_of(public_id));
            crate::text::extend_chars(&mut out, &crate::text::chars_of("."));
            Err(string_from_chars(&out))
        },
    }
}

/// The Windows cleanup model the settings choose and its file in
/// `cleanup_models_dir`; none when the choice is not a Windows cleanup model.
pub fn descriptor_and_path(
    catalog: &ModelCatalogManifest,
    settings: &AppSettings,
    cleanup_models_dir: &str,
) -> (r: Result<Option<(ModelDescriptor, String)>, String>)
    ensures
        match windows_pick(*catalog, settings.cleanup_model_id@) {
            None => r == Ok::<Option<(ModelDescriptor, String)>, String>(None),
            Some(i) => if catalog.models@[i].role != ModelRole::Cleanup {
                r == Ok::<Option<(ModelDescriptor, String)>, String>(None)
            } else {
                match opt_view(catalog.models@[i].file_name) {
                    None => r matches Err(e) && e@ == missing_file_name_message(settings.cleanup_model_id@),
                    Some(f) => r matches Ok(Some((d, path))) && descriptor_same(d, catalog.models@[i]) && path@
                        == spec_path_join(cleanup_models_dir@, f),
                }
            },
        },
{
    proof {
        lemma_first_where_found(
            catalog.models@,
            |d: ModelDescriptor|
                crate::core_service::is_machine_model(
                    d,
                    settings.cleanup_model_id@,
                    crate::models::Platform::Windows,
                    crate::models::Architecture::X86_64,
                ),
            0,
        );
    }
    let descriptor = match windows_descriptor_for(catalog, settings.cleanup_model_id.as_str()) {
        Some(d) => d,
        None => return Ok(None),
    };
    if descriptor.role != ModelRole::Cleanup {
        return Ok(None);
    }
    match &descriptor.file_name {
        Some(f) => {
            let path = path_join(cleanup_models_dir, f.as_str());
            Ok(Some((descriptor, path)))
        },
        None => {
            let mut out = crate::text::chars_of("model `");
            crate::text::extend_chars(&mut out, &crate::text::chars_of(descriptor.public_id.as_str()));
            crate::text::extend_chars(&mut out, &crate::text::chars_of("` is missing a file name"));
            Err(string_from_chars(&out))
        },
    }
}

/// What a cleanup request comes to before any model runs.
#[derive(Debug, Clone, PartialEq, Eq)]
pub enum CleanupStart {
    /// The recording was cancelled.
    Cancelled,
    /// Cleanup is off: the transcript as dictated, trimmed.
    Raw(String),
    /// The transcript goes to the cleanup model.
    Run,
}

pub fn cleanup_start(cancelled: bool, settings: &AppSettings, raw: &str) -> (r: CleanupStart)
    ensures
        cancelled ==> r == CleanupStart::Cancelled,
        !cancelled && !settings.cleanup_enabled ==> (r matches CleanupStart::Raw(t) && t@ == trim_seq(raw@)),
        !cancelled && settings.cleanup_enabled ==> r == CleanupStart::Run,
{
    if cancelled {
        return CleanupStart::Cancelled;
    }
    if !settings.cleanup_enabled {
        let trimmed = trim_str(raw);
        return CleanupStart::Raw(string_from_chars(trimmed.as_slice()));
    }
    CleanupStart::Run
}

/// What a cleanup run that ended in `outcome` gives: its text, or on failure
/// the transcript as dictated, unless failures are shown or the recording was
/// cancelled meanwhile.
pub fn cleanup_fallback(
    outcome: Result<String, String>,
    raw: &str,
    debug_cleanup_failures: bool,
    cancelled: bool,
) -> (r: Result<String, String>)
    ensures
        match outcome {
            Ok(t) => r == Ok::<String, String>(t),
            Err(e) => if !debug_cleanup_failures && !cancelled {
                r matches Ok(t) && t@ == trim_seq(raw@)
            } else {
                r == Err::<String, String>(e)
            },
        },
{
    match outcome {
        Ok(t) => Ok(t),
        Err(e) => {
            if !debug_cleanup_failures && !cancelled {
                let trimmed = trim_str(raw);
                Ok(string_from_chars(trimmed.as_slice()))
            } else {
                Err(e)
            }
        },
    }
}

} // verus!
