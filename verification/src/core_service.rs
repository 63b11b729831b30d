use vstd::prelude::*;
use crate::language::{
    decode_language_code, decode_language_code_spec, detected_language_metadata, detected_metadata_spec,
    opt_view, selected_language_metadata, selected_metadata_spec, speech_model_slot, uses_english_route_spec,
    DictationLanguageMetadata, DictationLanguageSettings, SpeechModelSlot,
};
use crate::models::{
    cleanup_model_for, descriptor_same, first_where, found, is_cleanup_model, lemma_first_where_step, is_speech_model, speech_model_for,
    Architecture, ModelCatalogManifest, ModelDescriptor, ModelFileState, Platform,
};
use crate::protocol::{shortcut_same, AppSettings, ShortcutSettings, DEFAULT_CLEANUP_MODEL_ID};
use crate::settings::SettingsPlatform;
use crate::paste::{contextual_paste_spec, format_contextual_paste};
use crate::prompts::{budget_fits, cleanup_prompt_from_parts, prompt_from_parts, CleanupPrompt};
use crate::text::{chars_of, extend_chars, is_blank, str_eq, string_from_chars, trim_chars, trim_seq, trim_str};

verus! {

#[derive(Debug, Clone)]
pub struct ShortcutBindings {
    pub push_to_talk: ShortcutSettings,
    pub hands_free: ShortcutSettings,
}

#[derive(Debug, Clone, Copy, PartialEq, Eq, Structural)]
pub enum ShortcutTarget {
    PushToTalk,
    HandsFree,
}

/// The window a dictation pastes into, by the platform's identifier.
#[derive(Debug, Clone, PartialEq, Eq)]
pub struct PasteTarget {
    pub platform_id: String,
}

#[derive(Debug, Clone)]
pub struct CoreServiceConfig {
    pub settings: AppSettings,
    pub platform: Platform,
    pub architecture: Architecture,
    pub cleanup_default_instructions: String,
    pub debug_cleanup_failures: bool,
}

#[derive(Debug, Clone, PartialEq, Eq)]
pub struct TranscriptionOutput {
    pub text: String,
    pub detected_language_code: Option<String>,
}

pub fn settings_platform(platform: Platform) -> (r: SettingsPlatform)
    ensures
        r == (match platform {
            Platform::Macos => SettingsPlatform::Macos,
            Platform::Windows => SettingsPlatform::Windows,
            Platform::Linux => SettingsPlatform::Linux,
        }),
{
    match platform {
        Platform::Macos => SettingsPlatform::Macos,
        Platform::Windows => SettingsPlatform::Windows,
        Platform::Linux => SettingsPlatform::Linux,
    }
}

/// Where the dictation started is captured on Linux always, elsewhere when the
/// settings ask to paste into that window.
pub fn should_capture_hotkey_paste_target(settings: &AppSettings, platform: Platform) -> (r: bool)
    ensures
        r == (settings.paste_into_recording_start_window || platform == Platform::Linux),
{
    settings.paste_into_recording_start_window || platform == Platform::Linux
}

// ---------------------------------------------------------------------------
// Hotkey recording session
// ---------------------------------------------------------------------------

/// What a hotkey start does: report the session busy, or start recording.
#[derive(Debug, Clone, Copy, PartialEq, Eq, Structural)]
pub enum HotkeyStartDecision {
    AlreadyRecording,
    StillProcessing,
    Start,
}

/// What a hotkey stop does: nothing when idle, report processing when busy, or
/// finish the recording (pasting into the captured target).
#[derive(Debug, Clone, PartialEq, Eq)]
pub enum HotkeyStopRecording {
    Idle,
    Busy,
    Started { paste_target: Option<PasteTarget> },
}

/// A hotkey dictation's progress: recording, then processing, then idle again.
#[derive(Debug, Clone, PartialEq, Eq)]
pub struct HotkeySession {
    pub recording: bool,
    pub processing: bool,
    pub paste_target: Option<PasteTarget>,
}

impl HotkeySession {
    /// Never recording and processing at once.
    pub open spec fn wf(self) -> bool {
        !(self.recording && self.processing)
    }

    pub open spec fn is_idle(self) -> bool {
        !self.recording && !self.processing && self.paste_target is None
    }

    /// The session once recording has begun with `paste_target` captured.
    pub open spec fn after_start(self, paste_target: Option<PasteTarget>) -> HotkeySession {
        HotkeySession { recording: true, processing: false, paste_target }
    }

    /// The session and outcome of a stop request.
    pub open spec fn after_stop(self) -> (HotkeySession, HotkeyStopRecording) {
        if self.processing {
            (self, HotkeyStopRecording::Busy)
        } else if !self.recording {
            (self, HotkeyStopRecording::Idle)
        } else {
            (
                HotkeySession { recording: false, processing: true, paste_target: None },
                HotkeyStopRecording::Started { paste_target: self.paste_target },
            )
        }
    }

    /// The session once the stopped recording has been processed.
    pub open spec fn after_finish(self) -> HotkeySession {
        HotkeySession { processing: false, ..self }
    }

    pub fn new() -> (r: HotkeySession)
        ensures
            r.wf(),
            r.is_idle(),
    {
        HotkeySession { recording: false, processing: false, paste_target: None }
    }

    pub fn start_decision(&self) -> (r: HotkeyStartDecision)
        ensures
            r == (if self.recording {
                HotkeyStartDecision::AlreadyRecording
            } else if self.processing {
                HotkeyStartDecision::StillProcessing
            } else {
                HotkeyStartDecision::Start
            }),
    {
        if self.recording {
            HotkeyStartDecision::AlreadyRecording
        } else if self.processing {
            HotkeyStartDecision::StillProcessing
        } else {
            HotkeyStartDecision::Start
        }
    }

    /// Recording began; the captured target waits for the stop.
    pub fn recording_started(&mut self, paste_target: Option<PasteTarget>)
        requires
            old(self).wf(),
            !old(self).recording && !old(self).processing,
        ensures
            final(self).wf(),
            *final(self) == old(self).after_start(paste_target),
    {
        self.recording = true;
        self.processing = false;
        self.paste_target = paste_target;
    }

    /// Recording could not begin: back to idle.
    pub fn recording_failed_to_start(&mut self)
        ensures
            final(self).wf(),
            final(self).is_idle(),
    {
        self.paste_target = None;
        self.recording = false;
        self.processing = false;
    }

    pub fn begin_stop_hotkey_recording(&mut self) -> (r: HotkeyStopRecording)
        requires
            old(self).wf(),
        ensures
            final(self).wf(),
            (*final(self), r) == old(self).after_stop(),
    {
        if self.processing {
            return HotkeyStopRecording::Busy;
        }
        if !self.recording {
            return HotkeyStopRecording::Idle;
        }
        self.recording = false;
        self.processing = true;
        let paste_target = self.paste_target.take();
        HotkeyStopRecording::Started { paste_target }
    }

    /// The stopped recording was processed: no longer busy.
    pub fn finish_stopped_hotkey_recording(&mut self)
        requires
            old(self).wf(),
        ensures
            final(self).wf(),
            *final(self) == old(self).after_finish(),
    {
        self.processing = false;
    }

    /// Cancelling: whether a recording was running (its audio is to be
    /// discarded); the session is idle afterwards.
    pub fn cancel_hotkey_recording(&mut self) -> (was_recording: bool)
        ensures
            was_recording == old(self).recording,
            final(self).wf(),
            final(self).is_idle(),
    {
        let was_recording = self.recording;
        self.recording = false;
        self.processing = false;
        self.paste_target = None;
        was_recording
    }
}

/// A hotkey dictation round trip: from idle, starting and then stopping
/// hands the stop the paste target captured at the start; while the recording
/// is processed a second stop is refused as busy; once processed the session
/// is idle again.
pub proof fn law_hotkey_round_trip(s: HotkeySession, target: Option<PasteTarget>)
    requires
        s.is_idle(),
    ensures
        s.after_start(target).after_stop().1 == (HotkeyStopRecording::Started { paste_target: target }),
        s.after_start(target).after_stop().0.after_stop().1 == HotkeyStopRecording::Busy,
        s.after_start(target).after_stop().0.processing,
        s.after_start(target).after_stop().0.after_finish().is_idle(),
{
}

// ---------------------------------------------------------------------------
// Model decisions
// ---------------------------------------------------------------------------

/// The cleanup model a transcript uses: the chosen one, or the default when blank.
pub open spec fn cleanup_id_spec(settings: AppSettings) -> Seq<char> {
    if trim_seq(settings.cleanup_model_id@).len() == 0 {
        DEFAULT_CLEANUP_MODEL_ID@
    } else {
        settings.cleanup_model_id@
    }
}

pub fn cleanup_model_id_for(settings: &AppSettings) -> (r: String)
    ensures
        r@ == cleanup_id_spec(*settings),
{
    if is_blank(settings.cleanup_model_id.as_str()) {
        String::from_str(DEFAULT_CLEANUP_MODEL_ID)
    } else {
        settings.cleanup_model_id.clone()
    }
}

/// The cleanup instructions: the user's, or the default when blank.
pub open spec fn cleanup_rules_spec(settings: AppSettings, default_instructions: Seq<char>) -> Seq<char> {
    if trim_seq(settings.cleanup_prompt@).len() == 0 {
        default_instructions
    } else {
        settings.cleanup_prompt@
    }
}

pub fn cleanup_rules_for(settings: &AppSettings, default_instructions: &str) -> (r: String)
    ensures
        r@ == cleanup_rules_spec(*settings, default_instructions@),
{
    if is_blank(settings.cleanup_prompt.as_str()) {
        String::from_str(default_instructions)
    } else {
        settings.cleanup_prompt.clone()
    }
}

/// A cleanup model file can be used: it is there and without error.
pub fn cleanup_state_usable(state: &ModelFileState) -> (r: bool)
    ensures
        r == (state.local_bytes > 0 && state.error is None),
{
    state.local_bytes > 0 && state.error.is_none()
}

/// Whether a speech model can transcribe now, and why not.
pub fn require_downloaded(display_name: &str, state: &ModelFileState) -> (r: Result<(), String>)
    ensures
        state.downloading ==> (r matches Err(e) && e@ == display_name@ + " is still downloading."@),
        !state.downloading && (state.local_bytes <= 0 || state.error is Some) ==> (r matches Err(e) && e@ == display_name@
            + " download required."@),
        !state.downloading && state.local_bytes > 0 && state.error is None ==> r is Ok,
{
    if state.downloading {
        let mut out = chars_of(display_name);
        extend_chars(&mut out, &chars_of(" is still downloading."));
        return Err(string_from_chars(&out));
    }
    if state.local_bytes <= 0 || state.error.is_some() {
        let mut out = chars_of(display_name);
        extend_chars(&mut out, &chars_of(" download required."));
        return Err(string_from_chars(&out));
    }
    Ok(())
}

pub const EMPTY_CLEANUP_MESSAGE: &'static str = "Cleanup model produced an empty response.";

/// The cleaned text from a cleanup model's output: sanitized, refused when empty.
pub fn cleanup_output_text(output: &str) -> (r: Result<String, String>)
    ensures
        trim_seq(crate::cleanup::sanitize_spec(output@)).len() == 0 ==> (r matches Err(e) && e@ == EMPTY_CLEANUP_MESSAGE@),
        trim_seq(crate::cleanup::sanitize_spec(output@)).len() != 0 ==> (r matches Ok(t) && t@ == crate::cleanup::sanitize_spec(output@)),
{
    let sanitized = crate::cleanup::sanitize(output);
    if is_blank(sanitized.as_str()) {
        Err(String::from_str(EMPTY_CLEANUP_MESSAGE))
    } else {
        Ok(sanitized)
    }
}

// ---------------------------------------------------------------------------
// Dictation pipeline
// ---------------------------------------------------------------------------

pub const NO_SPEECH_MODEL_MESSAGE: &'static str = "No speech model is available for this platform.";

pub const EMPTY_TRANSCRIPTION_MESSAGE: &'static str = "Transcription was empty.";

pub const MISSING_PROMPT_FORMAT_MESSAGE: &'static str = "cleanup model is missing prompt format";

/// Output tokens a cleanup may use when its model names no budget.
pub const DEFAULT_CLEANUP_OUTPUT_TOKENS: i32 = 512;

/// The speech model slot the language settings route to.
pub open spec fn slot_for(settings: DictationLanguageSettings) -> SpeechModelSlot {
    if uses_english_route_spec(settings) {
        SpeechModelSlot::Speech
    } else {
        SpeechModelSlot::SpeechMultilingual
    }
}

/// The speech model a recording is transcribed with: the first one in the
/// catalog for the settings' slot on this machine, or why there is none.
pub fn speech_descriptor_for(
    catalog: &ModelCatalogManifest,
    settings: &DictationLanguageSettings,
    platform: Platform,
    architecture: Architecture,
) -> (r: Result<ModelDescriptor, String>)
    ensures
        match first_where(
            catalog.models@,
            |d: ModelDescriptor| is_speech_model(d, slot_for(*settings), platform, architecture),
            0,
        ) {
            Some(i) => r matches Ok(d) && descriptor_same(d, catalog.models@[i]),
            None => r matches Err(e) && e@ == NO_SPEECH_MODEL_MESSAGE@,
        },
{
    let slot = speech_model_slot(settings);
    match speech_model_for(catalog, slot, platform, architecture) {
        Some(d) => Ok(d),
        None => Err(String::from_str(NO_SPEECH_MODEL_MESSAGE)),
    }
}

/// The text a speech model returned, trimmed; an empty one is refused.
pub fn transcript_text(text: &str) -> (r: Result<String, String>)
    ensures
        trim_seq(text@).len() == 0 ==> (r matches Err(e) && e@ == EMPTY_TRANSCRIPTION_MESSAGE@),
        trim_seq(text@).len() != 0 ==> (r matches Ok(t) && t@ == trim_seq(text@)),
{
    let trimmed = trim_str(text);
    if trimmed.len() == 0 {
        Err(String::from_str(EMPTY_TRANSCRIPTION_MESSAGE))
    } else {
        Ok(string_from_chars(trimmed.as_slice()))
    }
}

/// The language of a transcript: what the model detected when the settings
/// leave the language open, else the selected one.
pub fn transcript_language(settings: &DictationLanguageSettings, detected_code: Option<&str>) -> (r: DictationLanguageMetadata)
    ensures
        decode_language_code_spec(*settings) is None
            ==> detected_metadata_spec(match detected_code { Some(c) => Some(c@), None => None }, r),
        decode_language_code_spec(*settings) is Some ==> selected_metadata_spec(*settings, r),
{
    let code = decode_language_code(settings);
    if code.is_none() {
        detected_language_metadata(detected_code)
    } else {
        selected_language_metadata(settings)
    }
}

/// The catalog entry a transcript is cleaned with: none when cleanup is off,
/// or when the chosen model (the default when none is chosen) is missing from
/// the catalog or not made for this machine.
pub open spec fn cleanup_pick(
    settings: AppSettings,
    catalog: ModelCatalogManifest,
    platform: Platform,
    architecture: Architecture,
) -> Option<int> {
    if !settings.cleanup_enabled {
        None
    } else {
        match first_where(catalog.models@, |d: ModelDescriptor| is_cleanup_model(d, cleanup_id_spec(settings)), 0) {
            Some(i) => if for_machine(catalog.models@[i], platform, architecture) {
                Some(i)
            } else {
                None
            },
            None => None,
        }
    }
}

pub fn cleanup_descriptor_for(
    settings: &AppSettings,
    catalog: &ModelCatalogManifest,
    platform: Platform,
    architecture: Architecture,
) -> (r: Option<ModelDescriptor>)
    ensures
        match cleanup_pick(*settings, *catalog, platform, architecture) {
            Some(i) => r matches Some(d) && descriptor_same(d, catalog.models@[i]),
            None => r is None,
        },
{
    if !settings.cleanup_enabled {
        return None;
    }
    let id = cleanup_model_id_for(settings);
    match cleanup_model_for(catalog, id.as_str()) {
        Some(d) => {
            if contains_platform(&d.platforms, platform) && contains_architecture(&d.architectures, architecture) {
                Some(d)
            } else {
                None
            }
        },
        None => None,
    }
}

/// The prompt a cleanup model is given for a transcript: the user's rules (or
/// the default instructions), the dictionary, the transcript and its language,
/// in the model's format; refused when the model names no format.
pub fn cleanup_prompt_for(
    settings: &AppSettings,
    default_instructions: &str,
    descriptor: &ModelDescriptor,
    raw: &str,
    language: &DictationLanguageMetadata,
) -> (r: Result<CleanupPrompt, String>)
    requires
        budget_fits(raw@),
    ensures
        match descriptor.prompt_format {
            None => r matches Err(e) && e@ == MISSING_PROMPT_FORMAT_MESSAGE@,
            Some(format) => r matches Ok(p) && prompt_from_parts(
                settings.dictionary_entries@,
                cleanup_rules_spec(*settings, default_instructions@),
                raw@,
                *language,
                format,
                match descriptor.output_tokens {
                    Some(t) => t,
                    None => DEFAULT_CLEANUP_OUTPUT_TOKENS,
                },
                p,
            ),
        },
{
    let rules = cleanup_rules_for(settings, default_instructions);
    let format = match descriptor.prompt_format {
        Some(f) => f,
        None => return Err(String::from_str(MISSING_PROMPT_FORMAT_MESSAGE)),
    };
    let default_output_tokens = match descriptor.output_tokens {
        Some(t) => t,
        None => DEFAULT_CLEANUP_OUTPUT_TOKENS,
    };
    Ok(cleanup_prompt_from_parts(
        settings.dictionary_entries.as_slice(),
        rules.as_str(),
        raw,
        language,
        format,
        default_output_tokens,
    ))
}

/// A transcript kept as dictated, trimmed.
pub fn kept_transcript(raw: &str) -> (r: String)
    ensures
        r@ == trim_seq(raw@),
{
    let trimmed = trim_str(raw);
    string_from_chars(trimmed.as_slice())
}

/// What a cleanup run gives: the sanitized output, refused when empty; when
/// the model fails, the transcript as dictated, unless failures are shown.
pub fn cleanup_outcome(output: Result<String, String>, raw: &str, debug_cleanup_failures: bool) -> (r: Result<
    String,
    String,
>)
    ensures
        match output {
            Ok(o) => if trim_seq(crate::cleanup::sanitize_spec(o@)).len() == 0 {
                r matches Err(e) && e@ == EMPTY_CLEANUP_MESSAGE@
            } else {
                r matches Ok(t) && t@ == crate::cleanup::sanitize_spec(o@)
            },
            Err(e) => if debug_cleanup_failures {
                r == Err::<String, String>(e)
            } else {
                r matches Ok(t) && t@ == trim_seq(raw@)
            },
        },
{
    match output {
        Ok(o) => cleanup_output_text(o.as_str()),
        Err(e) => {
            if debug_cleanup_failures {
                Err(e)
            } else {
                Ok(kept_transcript(raw))
            }
        },
    }
}

/// The text pasted for a finished dictation: none when the cleaned text is
/// blank, else the text fitted to what precedes the cursor.
pub fn paste_text_for(cleaned: &str, preceding_context: Option<&str>) -> (r: Option<String>)
    ensures
        trim_seq(cleaned@).len() == 0 ==> r is None,
        trim_seq(cleaned@).len() != 0 ==> (r matches Some(t) && t@ == contextual_paste_spec(
            cleaned@,
            match preceding_context {
                Some(p) => Some(p@),
                None => None,
            },
        )),
{
    if is_blank(cleaned) {
        None
    } else {
        Some(format_contextual_paste(cleaned, preceding_context))
    }
}

/// Whether a model of this public ID is among the required ones.
pub open spec fn is_required(required: Seq<ModelDescriptor>, public_id: Seq<char>) -> bool {
    exists|j: int| 0 <= j < required.len() && (#[trigger] required[j]).public_id@ == public_id
}

/// The status of each catalog model from its file state, flagged when the
/// settings require it.
pub fn model_statuses_for(
    descriptors: &Vec<ModelDescriptor>,
    states: Vec<ModelFileState>,
    required: &Vec<ModelDescriptor>,
) -> (r: Vec<crate::protocol::ModelStatus>)
    requires
        descriptors@.len() == states@.len(),
    ensures
        r@.len() == descriptors@.len(),
        forall|i: int|
            0 <= i < r@.len() ==> crate::models::model_status_spec(
                descriptors@[i],
                states@[i],
                is_required(required@, descriptors@[i].public_id@),
                #[trigger] r@[i],
            ),
{
    let mut out: Vec<crate::protocol::ModelStatus> = Vec::new();
    let mut rest = states;
    let ghost all = rest@;
    let mut i: usize = 0;
    while i < descriptors.len()
        invariant
            i <= descriptors@.len() == all.len(),
            all == states@,
            rest@ == all.skip(i as int),
            out@.len() == i,
            forall|k: int|
                0 <= k < i ==> crate::models::model_status_spec(
                    descriptors@[k],
                    states@[k],
                    is_required(required@, descriptors@[k].public_id@),
                    #[trigger] out@[k],
                ),
        decreases descriptors.len() - i,
    {
        let d = &descriptors[i];
        let mut needed = false;
        let mut j: usize = 0;
        while j < required.len()
            invariant
                j <= required@.len(),
                i < descriptors@.len(),
                d == descriptors@[i as int],
                needed == exists|k: int| 0 <= k < j && (#[trigger] required@[k]).public_id@ == d.public_id@,
            decreases required.len() - j,
        {
            if crate::text::str_eq(required[j].public_id.as_str(), d.public_id.as_str()) {
                needed = true;
            }
            j = j + 1;
        }
        let state = rest.remove(0);
        assert(all.skip(i as int).skip(1) =~= all.skip(i + 1));
        out.push(crate::models::model_status(d, state, needed));
        i = i + 1;
    }
    out
}

/// The catalog models for this platform and architecture, in order.
pub open spec fn for_machine(d: ModelDescriptor, platform: Platform, architecture: Architecture) -> bool {
    d.platforms@.contains(platform) && d.architectures@.contains(architecture)
}

/// `r` holds copies of `models` at the increasing indices `idx`, which are
/// exactly the models for this machine.
pub open spec fn machine_picks(
    models: Seq<ModelDescriptor>,
    idx: Seq<int>,
    r: Seq<ModelDescriptor>,
    platform: Platform,
    architecture: Architecture,
) -> bool {
    &&& idx.len() == r.len()
    &&& forall|k: int| 0 <= k < idx.len() ==> 0 <= #[trigger] idx[k] < models.len() && descriptor_same(r[k], models[idx[k]])
    &&& forall|k: int, l: int| 0 <= k < l < idx.len() ==> #[trigger] idx[k] < #[trigger] idx[l]
    &&& forall|j: int| 0 <= j < models.len() ==> (for_machine(#[trigger] models[j], platform, architecture) <==> idx.contains(j))
}

pub fn catalog_descriptors(catalog: &ModelCatalogManifest, platform: Platform, architecture: Architecture) -> (r: Vec<ModelDescriptor>)
    ensures
        exists|idx: Seq<int>| #[trigger] machine_picks(catalog.models@, idx, r@, platform, architecture),
{
    let mut out: Vec<ModelDescriptor> = Vec::new();
    let ghost mut idx: Seq<int> = Seq::empty();
    let mut i: usize = 0;
    while i < catalog.models.len()
        invariant
            i <= catalog.models@.len(),
            idx.len() == out@.len(),
            forall|k: int| 0 <= k < idx.len() ==> 0 <= #[trigger] idx[k] < i && descriptor_same(out@[k], catalog.models@[idx[k]]),
            forall|k: int, l: int| 0 <= k < l < idx.len() ==> #[trigger] idx[k] < #[trigger] idx[l],
            forall|j: int| 0 <= j < i ==> (for_machine(#[trigger] catalog.models@[j], platform, architecture) <==> idx.contains(j)),
            forall|j: int| idx.contains(j) ==> 0 <= j < i,
        decreases catalog.models.len() - i,
    {
        let m = &catalog.models[i];
        if contains_platform(&m.platforms, platform) && contains_architecture(&m.architectures, architecture) {
            out.push(m.copy());
            proof {
                let old_idx = idx;
                idx = idx.push(i as int);
                assert forall|j: int| 0 <= j < i + 1 implies (for_machine(#[trigger] catalog.models@[j], platform, architecture) <==> idx.contains(j)) by {
                    if j < i {
                        if old_idx.contains(j) {
                            let k = choose|k: int| 0 <= k < old_idx.len() && old_idx[k] == j;
                            assert(idx[k] == j);
                        }
                        if idx.contains(j) {
                            let k = choose|k: int| 0 <= k < idx.len() && idx[k] == j;
                            if k < old_idx.len() {
                                assert(old_idx[k] == j);
                            }
                        }
                    } else {
                        assert(idx[idx.len() - 1] == j);
                    }
                }
                assert forall|j: int| idx.contains(j) implies 0 <= j < i + 1 by {
                    let k = choose|k: int| 0 <= k < idx.len() && idx[k] == j;
                    if k < old_idx.len() {
                        assert(old_idx[k] == j);
                        assert(old_idx.contains(j));
                    }
                }
            }
        } else {
            proof {
                assert forall|j: int| idx.contains(j) implies j != i by {}
            }
        }
        i = i + 1;
    }
    assert(machine_picks(catalog.models@, idx, out@, platform, architecture));
    out
}

/// The model with this public ID among those for this platform and
/// architecture, by its first catalog entry.
pub open spec fn is_machine_model(d: ModelDescriptor, public_id: Seq<char>, platform: Platform, architecture: Architecture) -> bool {
    for_machine(d, platform, architecture) && d.public_id@ == public_id
}

pub fn descriptor_for_public_id(
    catalog: &ModelCatalogManifest,
    platform: Platform,
    architecture: Architecture,
    public_id: &str,
) -> (r: Option<ModelDescriptor>)
    ensures
        found(catalog.models@, |d: ModelDescriptor| is_machine_model(d, public_id@, platform, architecture), r),
{
    let ghost pred = |d: ModelDescriptor| is_machine_model(d, public_id@, platform, architecture);
    let mut i: usize = 0;
    while i < catalog.models.len()
        invariant
            i <= catalog.models@.len(),
            pred == (|d: ModelDescriptor| is_machine_model(d, public_id@, platform, architecture)),
            first_where(catalog.models@, pred, 0) == first_where(catalog.models@, pred, i as int),
        decreases catalog.models.len() - i,
    {
        let m = &catalog.models[i];
        if contains_platform(&m.platforms, platform) && contains_architecture(&m.architectures, architecture)
            && str_eq(m.public_id.as_str(), public_id) {
            return Some(m.copy());
        }
        proof {
            lemma_first_where_step(catalog.models@, pred, i as int);
        }
        i = i + 1;
    }
    None
}

pub open spec fn unknown_model_message(public_id: Seq<char>) -> Seq<char> {
    "Unknown model: "@ + public_id
}

/// The model a download or delete request names, or why there is none.
pub fn requested_model(
    catalog: &ModelCatalogManifest,
    platform: Platform,
    architecture: Architecture,
    public_id: &str,
) -> (r: Result<ModelDescriptor, String>)
    ensures
        match first_where(catalog.models@, |d: ModelDescriptor| is_machine_model(d, public_id@, platform, architecture), 0) {
            Some(i) => r matches Ok(d) && descriptor_same(d, catalog.models@[i]),
            None => r matches Err(e) && e@ == unknown_model_message(public_id@),
        },
{
    match descriptor_for_public_id(catalog, platform, architecture, public_id) {
        Some(d) => Ok(d),
        None => {
            let mut out = chars_of("Unknown model: ");
            extend_chars(&mut out, &chars_of(public_id));
            Err(string_from_chars(&out))
        },
    }
}

fn contains_platform(v: &Vec<Platform>, p: Platform) -> (r: bool)
    ensures
        r == v@.contains(p),
{
    let mut i: usize = 0;
    while i < v.len()
        invariant
            i <= v@.len(),
            forall|j: int| 0 <= j < i ==> v@[j] != p,
        decreases v.len() - i,
    {
        if v[i] == p {
            assert(v@[i as int] == p);
            return true;
        }
        i = i + 1;
    }
    false
}

fn contains_architecture(v: &Vec<Architecture>, a: Architecture) -> (r: bool)
    ensures
        r == v@.contains(a),
{
    let mut i: usize = 0;
    while i < v.len()
        invariant
            i <= v@.len(),
            forall|j: int| 0 <= j < i ==> v@[j] != a,
        decreases v.len() - i,
    {
        if v[i] == a {
            assert(v@[i as int] == a);
            return true;
        }
        i = i + 1;
    }
    false
}


/// The macOS app's adapter files and what each adapts.
pub const MACOS_PLATFORM_ADAPTER_FILES: [(&'static str, &'static str); 6] = [
    ("AudioRecorder.swift", "macOS audio adapter"),
    ("HotkeyMonitor.swift", "macOS hotkey adapter"),
    ("PermissionManager.swift", "macOS permission adapter"),
    ("FocusedTextContextReader.swift", "macOS focused text adapter"),
    ("TextPaster.swift", "macOS paste adapter"),
    ("InputDeviceManager.swift", "macOS input device adapter"),
];

} // verus!
