use vstd::prelude::*;
use crate::language::{opt_view, speech_model_slot, uses_english_route_spec, DictationLanguageSettings, SpeechModelSlot};
use crate::protocol::{ModelRole, ModelStatus};
use crate::text::{chars_of, extend_chars, str_eq, string_from_chars, trim_seq, is_blank};

verus! {

#[derive(Debug, Clone, Copy, PartialEq, Eq, Structural)]
pub enum Platform {
    Macos,
    Windows,
    Linux,
}

#[derive(Debug, Clone, Copy, PartialEq, Eq, Structural)]
pub enum Architecture {
    AppleSilicon,
    Intel,
    X86_64,
    Aarch64,
}

#[derive(Debug, Clone, Copy, PartialEq, Eq, Structural)]
pub enum ModelRuntime {
    Whisperkit,
    Whispercpp,
    LlamaCpp,
}

#[derive(Debug, Clone, Copy, PartialEq, Eq, Structural)]
pub enum CleanupPromptFormat {
    Qwen3Chatml,
    Gemma4Turns,
}

#[derive(Debug, Clone, Copy, PartialEq, Eq, Structural)]
pub enum ModelDownloadStatus {
    Downloaded,
    Downloading,
    Error,
    Missing,
}

#[derive(Debug, Clone, PartialEq, Eq)]
pub struct ModelFileState {
    pub local_bytes: i64,
    pub downloading: bool,
    pub progress_bytes: i64,
    pub progress_total_bytes: i64,
    pub error: Option<String>,
}

/// A catalog entry, with what the library reads of it; of the sampler
/// settings (floating point) only whether the entry has them.
#[derive(Debug, Clone, PartialEq, Eq)]
pub struct ModelDescriptor {
    pub public_id: String,
    pub concrete_id: String,
    pub role: ModelRole,
    pub runtime: ModelRuntime,
    pub speech_slot: Option<SpeechModelSlot>,
    pub platforms: Vec<Platform>,
    pub architectures: Vec<Architecture>,
    pub repo_id: Option<String>,
    pub file_name: Option<String>,
    pub model_id: Option<String>,
    pub display_name: String,
    pub subtitle: String,
    pub expected_bytes: i64,
    pub sha256: Option<String>,
    pub license: String,
    pub prompt_format: Option<CleanupPromptFormat>,
    pub has_sampler: bool,
    pub context_tokens: Option<i32>,
    pub output_tokens: Option<i32>,
}

#[derive(Debug, Clone, PartialEq, Eq)]
pub struct ModelCatalogManifest {
    pub default_cleanup_public_id: String,
    pub models: Vec<ModelDescriptor>,
}

// ---------------------------------------------------------------------------
// Status
// ---------------------------------------------------------------------------

pub open spec fn max_i64(a: i64, b: i64) -> i64 {
    if a >= b { a } else { b }
}

/// The status the app shows for a model: downloaded when a file is there, not
/// downloading and without error; progress out of the largest known size.
pub open spec fn model_status_spec(d: ModelDescriptor, state: ModelFileState, required: bool, r: ModelStatus) -> bool {
    let downloaded = !state.downloading && state.local_bytes > 0 && state.error is None;
    &&& r.id@ == d.public_id@
    &&& r.role == d.role
    &&& r.display_name@ == d.display_name@
    &&& r.subtitle@ == d.subtitle@
    &&& r.expected_bytes == d.expected_bytes
    &&& r.local_bytes == state.local_bytes
    &&& r.progress_bytes == (if downloaded { state.local_bytes } else { state.progress_bytes })
    &&& r.progress_total_bytes == max_i64(max_i64(max_i64(state.progress_total_bytes, state.local_bytes), d.expected_bytes), 1)
    &&& r.downloaded == downloaded
    &&& r.downloading == state.downloading
    &&& r.required == required
    &&& opt_view(r.error) == opt_view(state.error)
}

fn max_of(a: i64, b: i64) -> (r: i64)
    ensures
        r == max_i64(a, b),
{
    if a >= b { a } else { b }
}

pub fn model_status(descriptor: &ModelDescriptor, state: ModelFileState, required: bool) -> (r: ModelStatus)
    ensures
        model_status_spec(*descriptor, state, required, r),
{
    let downloaded = !state.downloading && state.local_bytes > 0 && state.error.is_none();
    let progress_total_bytes = max_of(max_of(max_of(state.progress_total_bytes, state.local_bytes), descriptor.expected_bytes), 1);
    ModelStatus {
        id: descriptor.public_id.clone(),
        role: descriptor.role,
        display_name: descriptor.display_name.clone(),
        subtitle: descriptor.subtitle.clone(),
        expected_bytes: descriptor.expected_bytes,
        local_bytes: state.local_bytes,
        progress_bytes: if downloaded { state.local_bytes } else { state.progress_bytes },
        progress_total_bytes,
        downloaded,
        downloading: state.downloading,
        required,
        error: state.error,
    }
}

// ---------------------------------------------------------------------------
// File names
// ---------------------------------------------------------------------------

/// The file names an earlier release used for a cleanup model.
pub open spec fn legacy_names_spec(public_id: Seq<char>) -> Seq<Seq<char>> {
    if public_id == "cleanup"@ {
        seq![
            "Qwen3-1.7B-Q5_K_M.gguf"@,
            "Qwen3-1.7B-Q5_K_M.gguf.download"@,
            "Qwen3-1.7B-Q8_0.gguf"@,
            "Qwen3-1.7B-Q8_0.gguf.download"@,
        ]
    } else {
        Seq::empty()
    }
}

pub fn legacy_cleanup_file_names(public_id: &str) -> (r: Vec<&'static str>)
    ensures
        r@.map_values(|s: &'static str| s@) == legacy_names_spec(public_id@),
{
    if str_eq(public_id, "cleanup") {
        let v = vec![
            "Qwen3-1.7B-Q5_K_M.gguf",
            "Qwen3-1.7B-Q5_K_M.gguf.download",
            "Qwen3-1.7B-Q8_0.gguf",
            "Qwen3-1.7B-Q8_0.gguf.download",
        ];
        assert(v@.map_values(|s: &'static str| s@) =~= legacy_names_spec(public_id@));
        v
    } else {
        let v: Vec<&'static str> = Vec::new();
        assert(v@.map_values(|s: &'static str| s@) =~= legacy_names_spec(public_id@));
        v
    }
}

/// The first four bytes are "GGUF".
pub open spec fn has_gguf_magic(bytes: Seq<u8>) -> bool {
    bytes.len() >= 4 && bytes[0] == 71u8 && bytes[1] == 71u8 && bytes[2] == 85u8 && bytes[3] == 70u8
}

pub const GGUF_ERROR_MESSAGE: &'static str = "not a valid GGUF file";

pub fn validate_gguf_magic(bytes: &[u8]) -> (r: Result<(), String>)
    ensures
        r is Ok <==> has_gguf_magic(bytes@),
        r matches Err(e) ==> e@ == GGUF_ERROR_MESSAGE@,
{
    if bytes.len() >= 4 && bytes[0] == 71u8 && bytes[1] == 71u8 && bytes[2] == 85u8 && bytes[3] == 70u8 {
        Ok(())
    } else {
        Err(String::from_str(GGUF_ERROR_MESSAGE))
    }
}


// ---------------------------------------------------------------------------
// Catalog
// ---------------------------------------------------------------------------

/// Two descriptors hold the same values.
pub open spec fn descriptor_same(a: ModelDescriptor, b: ModelDescriptor) -> bool {
    &&& a.public_id@ == b.public_id@
    &&& a.concrete_id@ == b.concrete_id@
    &&& a.role == b.role
    &&& a.runtime == b.runtime
    &&& a.speech_slot == b.speech_slot
    &&& a.platforms@ == b.platforms@
    &&& a.architectures@ == b.architectures@
    &&& opt_view(a.repo_id) == opt_view(b.repo_id)
    &&& opt_view(a.file_name) == opt_view(b.file_name)
    &&& opt_view(a.model_id) == opt_view(b.model_id)
    &&& a.display_name@ == b.display_name@
    &&& a.subtitle@ == b.subtitle@
    &&& a.expected_bytes == b.expected_bytes
    &&& opt_view(a.sha256) == opt_view(b.sha256)
    &&& a.license@ == b.license@
    &&& a.prompt_format == b.prompt_format
    &&& a.has_sampler == b.has_sampler
    &&& a.context_tokens == b.context_tokens
    &&& a.output_tokens == b.output_tokens
}

fn copy_opt_string(o: &Option<String>) -> (r: Option<String>)
    ensures
        opt_view(r) == opt_view(*o),
{
    match o {
        Some(s) => Some(s.clone()),
        None => None,
    }
}

fn copy_platforms(v: &Vec<Platform>) -> (r: Vec<Platform>)
    ensures
        r@ == v@,
{
    let mut out: Vec<Platform> = Vec::new();
    let mut i: usize = 0;
    while i < v.len()
        invariant
            i <= v@.len(),
            out@ == v@.take(i as int),
        decreases v.len() - i,
    {
        out.push(v[i]);
        i = i + 1;
        assert(out@ =~= v@.take(i as int));
    }
    assert(v@.take(v@.len() as int) =~= v@);
    out
}

fn copy_architectures(v: &Vec<Architecture>) -> (r: Vec<Architecture>)
    ensures
        r@ == v@,
{
    let mut out: Vec<Architecture> = Vec::new();
    let mut i: usize = 0;
    while i < v.len()
        invariant
            i <= v@.len(),
            out@ == v@.take(i as int),
        decreases v.len() - i,
    {
        out.push(v[i]);
        i = i + 1;
        assert(out@ =~= v@.take(i as int));
    }
    assert(v@.take(v@.len() as int) =~= v@);
    out
}

impl ModelDescriptor {
    pub fn copy(&self) -> (r: ModelDescriptor)
        ensures
            descriptor_same(r, *self),
    {
        ModelDescriptor {
            public_id: self.public_id.clone(),
            concrete_id: self.concrete_id.clone(),
            role: self.role,
            runtime: self.runtime,
            speech_slot: self.speech_slot,
            platforms: copy_platforms(&self.platforms),
            architectures: copy_architectures(&self.architectures),
            repo_id: copy_opt_string(&self.repo_id),
            file_name: copy_opt_string(&self.file_name),
            model_id: copy_opt_string(&self.model_id),
            display_name: self.display_name.clone(),
            subtitle: self.subtitle.clone(),
            expected_bytes: self.expected_bytes,
            sha256: copy_opt_string(&self.sha256),
            license: self.license.clone(),
            prompt_format: self.prompt_format,
            has_sampler: self.has_sampler,
            context_tokens: self.context_tokens,
            output_tokens: self.output_tokens,
        }
    }
}

/// The first index at or after `i` whose descriptor satisfies `pred`.
pub open spec fn first_where(models: Seq<ModelDescriptor>, pred: spec_fn(ModelDescriptor) -> bool, i: int) -> Option<int>
    decreases models.len() - i,
{
    if i < 0 || i >= models.len() {
        None
    } else if pred(models[i]) {
        Some(i)
    } else {
        first_where(models, pred, i + 1)
    }
}

pub open spec fn is_cleanup_model(d: ModelDescriptor, id: Seq<char>) -> bool {
    d.role == ModelRole::Cleanup && d.public_id@ == id
}

pub open spec fn is_speech_model(d: ModelDescriptor, slot: SpeechModelSlot, platform: Platform, architecture: Architecture) -> bool {
    d.role == ModelRole::Speech && d.speech_slot == Some(slot) && d.platforms@.contains(platform)
        && d.architectures@.contains(architecture)
}

/// The descriptor at the first index `pred` picks, or none.
pub open spec fn found(models: Seq<ModelDescriptor>, pred: spec_fn(ModelDescriptor) -> bool, r: Option<ModelDescriptor>) -> bool {
    match first_where(models, pred, 0) {
        Some(i) => r matches Some(d) && descriptor_same(d, models[i]),
        None => r is None,
    }
}

/// What `first_where` picks is in range and satisfies the predicate.
pub(crate) proof fn lemma_first_where_found(models: Seq<ModelDescriptor>, pred: spec_fn(ModelDescriptor) -> bool, i: int)
    ensures
        first_where(models, pred, i) matches Some(j) ==> i <= j < models.len() && pred(models[j]),
    decreases models.len() - i,
{
    if 0 <= i < models.len() && !pred(models[i]) {
        lemma_first_where_found(models, pred, i + 1);
    }
}

pub(crate) proof fn lemma_first_where_step(models: Seq<ModelDescriptor>, pred: spec_fn(ModelDescriptor) -> bool, i: int)
    requires
        0 <= i < models.len(),
        !pred(models[i]),
    ensures
        first_where(models, pred, i) == first_where(models, pred, i + 1),
{
}

fn contains_platform(v: &Vec<Platform>, p: Platform) -> (r: bool)
    ensures
        r == v@.contains(p),
{
    let mut i: usize = 0;
    while i < v.len()
        invariant
            i <= v@.len(),
            forall|j: int| 0 <= j < i ==> v@[j] != p,
        decreases v.len() - i,
    {
        if v[i] == p {
            assert(v@[i as int] == p);
            return true;
        }
        i = i + 1;
    }
    false
}

fn contains_architecture(v: &Vec<Architecture>, a: Architecture) -> (r: bool)
    ensures
        r == v@.contains(a),
{
    let mut i: usize = 0;
    while i < v.len()
        invariant
            i <= v@.len(),
            forall|j: int| 0 <= j < i ==> v@[j] != a,
        decreases v.len() - i,
    {
        if v[i] == a {
            assert(v@[i as int] == a);
            return true;
        }
        i = i + 1;
    }
    false
}

pub fn cleanup_model_for(catalog: &ModelCatalogManifest, public_id: &str) -> (r: Option<ModelDescriptor>)
    ensures
        found(catalog.models@, |d: ModelDescriptor| is_cleanup_model(d, public_id@), r),
{
    let ghost pred = |d: ModelDescriptor| is_cleanup_model(d, public_id@);
    let mut i: usize = 0;
    while i < catalog.models.len()
        invariant
            i <= catalog.models@.len(),
            pred == (|d: ModelDescriptor| is_cleanup_model(d, public_id@)),
            first_where(catalog.models@, pred, 0) == first_where(catalog.models@, pred, i as int),
        decreases catalog.models.len() - i,
    {
        let m = &catalog.models[i];
        if m.role == ModelRole::Cleanup && str_eq(m.public_id.as_str(), public_id) {
            return Some(m.copy());
        }
        proof {
            lemma_first_where_step(catalog.models@, pred, i as int);
        }
        i = i + 1;
    }
    None
}

pub fn model_by_public_id(catalog: &ModelCatalogManifest, id: &str) -> (r: Option<ModelDescriptor>)
    ensures
        found(catalog.models@, |d: ModelDescriptor| d.public_id@ == id@, r),
{
    let ghost pred = |d: ModelDescriptor| d.public_id@ == id@;
    let mut i: usize = 0;
    while i < catalog.models.len()
        invariant
            i <= catalog.models@.len(),
            pred == (|d: ModelDescriptor| d.public_id@ == id@),
            first_where(catalog.models@, pred, 0) == first_where(catalog.models@, pred, i as int),
        decreases catalog.models.len() - i,
    {
        let m = &catalog.models[i];
        if str_eq(m.public_id.as_str(), id) {
            return Some(m.copy());
        }
        proof {
            lemma_first_where_step(catalog.models@, pred, i as int);
        }
        i = i + 1;
    }
    None
}

pub fn speech_model_for(
    catalog: &ModelCatalogManifest,
    slot: SpeechModelSlot,
    platform: Platform,
    architecture: Architecture,
) -> (r: Option<ModelDescriptor>)
    ensures
        found(catalog.models@, |d: ModelDescriptor| is_speech_model(d, slot, platform, architecture), r),
{
    let ghost pred = |d: ModelDescriptor| is_speech_model(d, slot, platform, architecture);
    let mut i: usize = 0;
    while i < catalog.models.len()
        invariant
            i <= catalog.models@.len(),
            pred == (|d: ModelDescriptor| is_speech_model(d, slot, platform, architecture)),
            first_where(catalog.models@, pred, 0) == first_where(catalog.models@, pred, i as int),
        decreases catalog.models.len() - i,
    {
        let m = &catalog.models[i];
        if m.role == ModelRole::Speech && m.speech_slot == Some(slot) && contains_platform(&m.platforms, platform)
            && contains_architecture(&m.architectures, architecture) {
            return Some(m.copy());
        }
        proof {
            lemma_first_where_step(catalog.models@, pred, i as int);
        }
        i = i + 1;
    }
    None
}

/// The cleanup models of the catalog, in order.
pub open spec fn cleanup_models_spec(models: Seq<ModelDescriptor>, r: Seq<ModelDescriptor>) -> bool {
    exists|idx: Seq<int>| #[trigger] picks(models, idx, r)
}

/// `r` holds copies of `models` at the increasing indices `idx`, which are exactly the cleanup models.
pub open spec fn picks(models: Seq<ModelDescriptor>, idx: Seq<int>, r: Seq<ModelDescriptor>) -> bool {
    &&& idx.len() == r.len()
    &&& forall|k: int| 0 <= k < idx.len() ==> 0 <= #[trigger] idx[k] < models.len() && descriptor_same(r[k], models[idx[k]])
    &&& forall|k: int, l: int| 0 <= k < l < idx.len() ==> #[trigger] idx[k] < #[trigger] idx[l]
    &&& forall|j: int| 0 <= j < models.len() ==> (#[trigger] models[j].role == ModelRole::Cleanup <==> idx.contains(j))
}

pub fn cleanup_models(catalog: &ModelCatalogManifest) -> (r: Vec<ModelDescriptor>)
    ensures
        cleanup_models_spec(catalog.models@, r@),
{
    let mut out: Vec<ModelDescriptor> = Vec::new();
    let ghost mut idx: Seq<int> = Seq::empty();
    let mut i: usize = 0;
    while i < catalog.models.len()
        invariant
            i <= catalog.models@.len(),
            idx.len() == out@.len(),
            forall|k: int| 0 <= k < idx.len() ==> 0 <= #[trigger] idx[k] < i && descriptor_same(out@[k], catalog.models@[idx[k]]),
            forall|k: int, l: int| 0 <= k < l < idx.len() ==> #[trigger] idx[k] < #[trigger] idx[l],
            forall|j: int| 0 <= j < i ==> (#[trigger] catalog.models@[j].role == ModelRole::Cleanup <==> idx.contains(j)),
            forall|j: int| idx.contains(j) ==> 0 <= j < i,
        decreases catalog.models.len() - i,
    {
        if catalog.models[i].role == ModelRole::Cleanup {
            out.push(catalog.models[i].copy());
            proof {
                let old_idx = idx;
                idx = idx.push(i as int);
                assert forall|j: int| 0 <= j < i + 1 implies (#[trigger] catalog.models@[j].role == ModelRole::Cleanup <==> idx.contains(j)) by {
                    if j < i {
                        if old_idx.contains(j) {
                            let k = choose|k: int| 0 <= k < old_idx.len() && old_idx[k] == j;
                            assert(idx[k] == j);
                        }
                        if idx.contains(j) {
                            let k = choose|k: int| 0 <= k < idx.len() && idx[k] == j;
                            if k < old_idx.len() {
                                assert(old_idx[k] == j);
                            }
                        }
                    } else {
                        assert(idx[idx.len() - 1] == j);
                    }
                }
                assert forall|j: int| idx.contains(j) implies 0 <= j < i + 1 by {
                    let k = choose|k: int| 0 <= k < idx.len() && idx[k] == j;
                    if k < old_idx.len() {
                        assert(old_idx[k] == j);
                        assert(old_idx.contains(j));
                    }
                }
            }
        } else {
            proof {
                assert forall|j: int| idx.contains(j) implies j != i by {}
            }
        }
        i = i + 1;
    }
    assert(picks(catalog.models@, idx, out@));
    out
}

/// The catalog indices of the models the settings require: the speech model
/// for their slot on this machine, then the chosen cleanup model (or the
/// default one when the chosen one is not in the catalog).
pub open spec fn required_indices(
    catalog: ModelCatalogManifest,
    settings: DictationLanguageSettings,
    platform: Platform,
    architecture: Architecture,
) -> Seq<int> {
    let slot = if uses_english_route_spec(settings) { SpeechModelSlot::Speech } else { SpeechModelSlot::SpeechMultilingual };
    let speech = first_where(catalog.models@, |d: ModelDescriptor| is_speech_model(d, slot, platform, architecture), 0);
    let chosen = first_where(catalog.models@, |d: ModelDescriptor| is_cleanup_model(d, settings.cleanup_model_id@), 0);
    let fallback = first_where(catalog.models@, |d: ModelDescriptor| is_cleanup_model(d, catalog.default_cleanup_public_id@), 0);
    let cleanup = if chosen is Some { chosen } else { fallback };
    (match speech { Some(i) => seq![i], None => Seq::empty() }) + (match cleanup { Some(i) => seq![i], None => Seq::empty() })
}

/// The speech model for the settings, then the chosen cleanup model (or the
/// default one when the chosen one is not in the catalog).
pub open spec fn required_models_spec(
    catalog: ModelCatalogManifest,
    settings: DictationLanguageSettings,
    platform: Platform,
    architecture: Architecture,
    r: Seq<ModelDescriptor>,
) -> bool {
    let wanted = required_indices(catalog, settings, platform, architecture);
    &&& r.len() == wanted.len()
    &&& forall|k: int| 0 <= k < r.len() ==> descriptor_same(#[trigger] r[k], catalog.models@[wanted[k]])
}

pub fn required_models(
    catalog: &ModelCatalogManifest,
    settings: &DictationLanguageSettings,
    platform: Platform,
    architecture: Architecture,
) -> (r: Vec<ModelDescriptor>)
    ensures
        required_models_spec(*catalog, *settings, platform, architecture, r@),
{
    let speech = speech_model_for(catalog, speech_model_slot(settings), platform, architecture);
    let cleanup = match cleanup_model_for(catalog, settings.cleanup_model_id.as_str()) {
        Some(d) => Some(d),
        None => cleanup_model_for(catalog, catalog.default_cleanup_public_id.as_str()),
    };
    let mut out: Vec<ModelDescriptor> = Vec::new();
    match speech {
        Some(d) => out.push(d),
        None => {},
    }
    match cleanup {
        Some(d) => out.push(d),
        None => {},
    }
    out
}

pub fn cleanup_model_file_name(catalog: &ModelCatalogManifest, public_id: &str) -> (r: Option<String>)
    ensures
        opt_view(r) == match first_where(catalog.models@, |d: ModelDescriptor| is_cleanup_model(d, public_id@), 0) {
            Some(i) => opt_view(catalog.models@[i].file_name),
            None => None,
        },
{
    match cleanup_model_for(catalog, public_id) {
        Some(model) => model.file_name,
        None => None,
    }
}

pub fn cleanup_temp_file_name(catalog: &ModelCatalogManifest, public_id: &str) -> (r: Option<String>)
    ensures
        opt_view(r) == match first_where(catalog.models@, |d: ModelDescriptor| is_cleanup_model(d, public_id@), 0) {
            Some(i) => match opt_view(catalog.models@[i].file_name) {
                Some(f) => Some(f + ".download"@),
                None => None,
            },
            None => None,
        },
{
    match cleanup_model_file_name(catalog, public_id) {
        Some(name) => {
            let mut out = chars_of(name.as_str());
            extend_chars(&mut out, &chars_of(".download"));
            Some(string_from_chars(&out))
        },
        None => None,
    }
}


// ---------------------------------------------------------------------------
// Validation
// ---------------------------------------------------------------------------

pub open spec fn missing_or_empty(o: Option<String>) -> bool {
    match o {
        Some(v) => v@.len() == 0,
        None => true,
    }
}

/// What is wrong with one catalog entry, if anything.
pub open spec fn model_error(d: ModelDescriptor) -> Option<Seq<char>> {
    if trim_seq(d.public_id@).len() == 0 {
        Some("model `"@ + d.concrete_id@ + "` has empty public ID"@)
    } else if d.expected_bytes <= 0 {
        Some("model `"@ + d.public_id@ + "` expected bytes must be positive"@)
    } else if d.role == ModelRole::Cleanup && d.prompt_format is None {
        Some("cleanup model `"@ + d.public_id@ + "` is missing prompt format"@)
    } else if d.role == ModelRole::Cleanup && !d.has_sampler {
        Some("cleanup model `"@ + d.public_id@ + "` is missing sampler config"@)
    } else if (d.runtime == ModelRuntime::Whispercpp || d.runtime == ModelRuntime::LlamaCpp) && (missing_or_empty(d.repo_id)
        || missing_or_empty(d.file_name)) {
        Some("download model `"@ + d.public_id@ + "` is missing repo or filename"@)
    } else {
        None
    }
}

/// The error of the first faulty entry at or after `i`.
pub open spec fn first_model_error(models: Seq<ModelDescriptor>, i: int) -> Option<Seq<char>>
    decreases models.len() - i,
{
    if i < 0 || i >= models.len() {
        None
    } else if model_error(models[i]) is Some {
        model_error(models[i])
    } else {
        first_model_error(models, i + 1)
    }
}

/// Why a catalog is refused, if it is.
pub open spec fn validate_catalog_spec(m: ModelCatalogManifest) -> Result<(), Seq<char>> {
    if trim_seq(m.default_cleanup_public_id@).len() == 0 {
        Err("default cleanup public ID is empty"@)
    } else if first_where(m.models@, |d: ModelDescriptor| is_cleanup_model(d, m.default_cleanup_public_id@), 0) is None {
        Err("default cleanup model `"@ + m.default_cleanup_public_id@ + "` does not exist"@)
    } else {
        match first_model_error(m.models@, 0) {
            Some(e) => Err(e),
            None => Ok(()),
        }
    }
}

fn quoted_message(prefix: &str, value: &str, suffix: &str) -> (r: String)
    ensures
        r@ == prefix@ + value@ + suffix@,
{
    let mut out = chars_of(prefix);
    extend_chars(&mut out, &chars_of(value));
    extend_chars(&mut out, &chars_of(suffix));
    string_from_chars(&out)
}

fn is_missing_or_empty(o: &Option<String>) -> (r: bool)
    ensures
        r == missing_or_empty(*o),
{
    match o {
        Some(v) => chars_of(v.as_str()).len() == 0,
        None => true,
    }
}

fn check_model(d: &ModelDescriptor) -> (r: Option<String>)
    ensures
        opt_view(r) == model_error(*d),
{
    if is_blank(d.public_id.as_str()) {
        return Some(quoted_message("model `", d.concrete_id.as_str(), "` has empty public ID"));
    }
    if d.expected_bytes <= 0 {
        return Some(quoted_message("model `", d.public_id.as_str(), "` expected bytes must be positive"));
    }
    if d.role == ModelRole::Cleanup {
        if d.prompt_format.is_none() {
            return Some(quoted_message("cleanup model `", d.public_id.as_str(), "` is missing prompt format"));
        }
        if !d.has_sampler {
            return Some(quoted_message("cleanup model `", d.public_id.as_str(), "` is missing sampler config"));
        }
    }
    if d.runtime == ModelRuntime::Whispercpp || d.runtime == ModelRuntime::LlamaCpp {
        if is_missing_or_empty(&d.repo_id) || is_missing_or_empty(&d.file_name) {
            return Some(quoted_message("download model `", d.public_id.as_str(), "` is missing repo or filename"));
        }
    }
    None
}

pub fn validate_catalog(manifest: &ModelCatalogManifest) -> (r: Result<(), String>)
    ensures
        match (r, validate_catalog_spec(*manifest)) {
            (Ok(()), Ok(())) => true,
            (Err(e), Err(m)) => e@ == m,
            _ => false,
        },
{
    if is_blank(manifest.default_cleanup_public_id.as_str()) {
        return Err(String::from_str("default cleanup public ID is empty"));
    }
    if cleanup_model_for(manifest, manifest.default_cleanup_public_id.as_str()).is_none() {
        return Err(quoted_message("default cleanup model `", manifest.default_cleanup_public_id.as_str(), "` does not exist"));
    }
    let mut i: usize = 0;
    while i < manifest.models.len()
        invariant
            i <= manifest.models@.len(),
            trim_seq(manifest.default_cleanup_public_id@).len() != 0,
            first_where(manifest.models@, |d: ModelDescriptor| is_cleanup_model(d, manifest.default_cleanup_public_id@), 0) is Some,
            first_model_error(manifest.models@, 0) == first_model_error(manifest.models@, i as int),
        decreases manifest.models.len() - i,
    {
        match check_model(&manifest.models[i]) {
            Some(e) => return Err(e),
            None => {},
        }
        i = i + 1;
    }
    Ok(())
}

} // verus!
