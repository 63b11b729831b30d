use vstd::prelude::*;
use crate::language::{opt_view, DictationLanguageMetadata, DictationLanguageSettings};

verus! {

pub const METHOD_WARM: &'static str = "warm";
pub const METHOD_TRANSCRIBE: &'static str = "transcribe";

#[derive(Debug, Clone)]
pub struct Transcription {
    pub text: String,
    pub language: DictationLanguageMetadata,
}

/// A request to the speech helper process.
#[derive(Debug, Clone)]
pub struct WhisperHelperRequest {
    pub id: String,
    pub method: String,
    pub model_path: String,
    pub audio_path: Option<String>,
    pub language_settings: Option<DictationLanguageSettings>,
}

impl WhisperHelperRequest {
    /// Load the model at `model_path` ahead of use.
    pub fn warm(id: String, model_path: String) -> (r: WhisperHelperRequest)
        ensures
            r.id == id,
            r.method@ == METHOD_WARM@,
            r.model_path == model_path,
            r.audio_path is None,
            r.language_settings is None,
    {
        WhisperHelperRequest {
            id,
            method: String::from_str(METHOD_WARM),
            model_path,
            audio_path: None,
            language_settings: None,
        }
    }

    /// Transcribe the audio at `audio_path` with the model at `model_path`.
    pub fn transcribe(
        id: String,
        model_path: String,
        audio_path: String,
        language_settings: DictationLanguageSettings,
    ) -> (r: WhisperHelperRequest)
        ensures
            r.id == id,
            r.method@ == METHOD_TRANSCRIBE@,
            r.model_path == model_path,
            r.audio_path == Some(audio_path),
            r.language_settings == Some(language_settings),
    {
        WhisperHelperRequest {
            id,
            method: String::from_str(METHOD_TRANSCRIBE),
            model_path,
            audio_path: Some(audio_path),
            language_settings: Some(language_settings),
        }
    }
}

/// The speech helper's answer to a request.
#[derive(Debug, Clone)]
pub struct WhisperHelperResponse {
    pub id: String,
    pub ok: bool,
    pub result: Option<Transcription>,
    pub error: Option<String>,
}

impl WhisperHelperResponse {
    pub fn success(id: String, result: Option<Transcription>) -> (r: WhisperHelperResponse)
        ensures
            r.id == id,
            r.ok,
            r.result == result,
            r.error is None,
    {
        WhisperHelperResponse { id, ok: true, result, error: None }
    }

    pub fn error(id: String, error: String) -> (r: WhisperHelperResponse)
        ensures
            r.id == id,
            !r.ok,
            r.result is None,
            r.error == Some(error),
    {
        WhisperHelperResponse { id, ok: false, result: None, error: Some(error) }
    }
}

} // verus!
