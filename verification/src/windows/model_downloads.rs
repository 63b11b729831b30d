//! Where Windows keeps model files, where it fetches them from, and how a
//! model's download state is reported.
use vstd::prelude::*;
use crate::assets::{path_join, spec_path_join};
use crate::core_service::{
    catalog_descriptors, descriptor_for_public_id, is_machine_model, is_required, machine_picks, model_statuses_for,
};
use crate::language::{copy_opt_string, eq_ignore_ascii_case, opt_view, DictationLanguageSettings};
use crate::models::{
    descriptor_same, first_where, lemma_first_where_found, max_i64, model_status_spec, required_indices,
    required_models, required_models_spec, Architecture, ModelCatalogManifest, ModelDescriptor, ModelFileState,
    Platform,
};
use crate::protocol::{ModelRole, ModelStatus, NativeCorePaths};
use crate::text::{ascii_lower_seq, chars_of, concat_str, extend_chars, str_eq, string_from_chars};

verus! {

/// What is known of a download that was started in this process.
#[derive(Debug, Clone, PartialEq, Eq)]
pub struct DownloadProgress {
    pub downloading: bool,
    pub progress_bytes: i64,
    pub progress_total_bytes: i64,
    pub error: Option<String>,
}

/// Speech and cleanup models each have their own directory.
pub open spec fn model_dir_spec(descriptor: ModelDescriptor, paths: NativeCorePaths) -> Seq<char> {
    match descriptor.role {
        ModelRole::Speech => paths.speech_models_dir@,
        ModelRole::Cleanup => paths.cleanup_models_dir@,
    }
}

pub fn model_dir<'a>(descriptor: &ModelDescriptor, paths: &'a NativeCorePaths) -> (r: &'a str)
    ensures
        r@ == model_dir_spec(*descriptor, *paths),
{
    match descriptor.role {
        ModelRole::Speech => paths.speech_models_dir.as_str(),
        ModelRole::Cleanup => paths.cleanup_models_dir.as_str(),
    }
}

pub open spec fn missing_file_name_message(public_id: Seq<char>) -> Seq<char> {
    "model `"@ + public_id + "` is missing a file name"@
}

pub open spec fn missing_repo_message(public_id: Seq<char>) -> Seq<char> {
    "model `"@ + public_id + "` is missing a repo"@
}

fn missing_field_error(public_id: &str, what: &str) -> (r: String)
    ensures
        r@ == "model `"@ + public_id@ + what@,
{
    let head = concat_str("model `", public_id);
    concat_str(head.as_str(), what)
}

/// The model's file in its directory; an entry without a file name has none.
pub fn model_path(descriptor: &ModelDescriptor, paths: &NativeCorePaths) -> (r: Result<String, String>)
    ensures
        match descriptor.file_name {
            Some(f) => r matches Ok(p) && p@ == spec_path_join(model_dir_spec(*descriptor, *paths), f@),
            None => r matches Err(e) && e@ == missing_file_name_message(descriptor.public_id@),
        },
{
    match &descriptor.file_name {
        Some(f) => Ok(path_join(model_dir(descriptor, paths), f.as_str())),
        None => Err(missing_field_error(descriptor.public_id.as_str(), "` is missing a file name")),
    }
}

/// Where a download in progress is written: the file name with `.download`.
pub fn temp_model_path(descriptor: &ModelDescriptor, paths: &NativeCorePaths) -> (r: Result<String, String>)
    ensures
        match descriptor.file_name {
            Some(f) => r matches Ok(p) && p@ == spec_path_join(
                model_dir_spec(*descriptor, *paths),
                f@ + ".download"@,
            ),
            None => r matches Err(e) && e@ == missing_file_name_message(descriptor.public_id@),
        },
{
    match &descriptor.file_name {
        Some(f) => {
            let name = concat_str(f.as_str(), ".download");
            Ok(path_join(model_dir(descriptor, paths), name.as_str()))
        },
        None => Err(missing_field_error(descriptor.public_id.as_str(), "` is missing a file name")),
    }
}

/// The Hugging Face address of the model's file.
pub open spec fn download_url_spec(descriptor: ModelDescriptor) -> Result<Seq<char>, Seq<char>> {
    match descriptor.repo_id {
        None => Err(missing_repo_message(descriptor.public_id@)),
        Some(repo) => match descriptor.file_name {
            None => Err(missing_file_name_message(descriptor.public_id@)),
            Some(f) => Ok("https://huggingface.co/"@ + repo@ + "/resolve/main/"@ + f@ + "?download=true"@),
        },
    }
}

pub fn download_url(descriptor: &ModelDescriptor) -> (r: Result<String, String>)
    ensures
        match r {
            Ok(u) => download_url_spec(*descriptor) == Ok::<Seq<char>, Seq<char>>(u@),
            Err(e) => download_url_spec(*descriptor) == Err::<Seq<char>, Seq<char>>(e@),
        },
{
    let repo = match &descriptor.repo_id {
        Some(r) => r,
        None => {
            return Err(missing_field_error(descriptor.public_id.as_str(), "` is missing a repo"));
        },
    };
    let file = match &descriptor.file_name {
        Some(f) => f,
        None => {
            return Err(missing_field_error(descriptor.public_id.as_str(), "` is missing a file name"));
        },
    };
    let a = concat_str("https://huggingface.co/", repo.as_str());
    let b = concat_str(a.as_str(), "/resolve/main/");
    let c = concat_str(b.as_str(), file.as_str());
    Ok(concat_str(c.as_str(), "?download=true"))
}

/// The state reported for a model: a download of this process speaks for
/// itself; otherwise the file on disk, or a partial download, gives the
/// progress, out of the largest known size.
pub open spec fn file_state_spec(
    descriptor: ModelDescriptor,
    progress: Option<DownloadProgress>,
    local_bytes: i64,
    temp_bytes: i64,
    r: ModelFileState,
) -> bool {
    match progress {
        Some(p) => {
            &&& r.local_bytes == local_bytes
            &&& r.downloading == p.downloading
            &&& r.progress_bytes == p.progress_bytes
            &&& r.progress_total_bytes == p.progress_total_bytes
            &&& opt_view(r.error) == opt_view(p.error)
        },
        None => {
            let progress_bytes = if local_bytes > 0 { local_bytes } else { temp_bytes };
            &&& r.local_bytes == local_bytes
            &&& !r.downloading
            &&& r.progress_bytes == progress_bytes
            &&& r.progress_total_bytes == max_i64(max_i64(descriptor.expected_bytes, progress_bytes), 1)
            &&& r.error is None
        },
    }
}

fn larger(a: i64, b: i64) -> (r: i64)
    ensures
        r == max_i64(a, b),
{
    if a >= b { a } else { b }
}

pub fn model_file_state(
    descriptor: &ModelDescriptor,
    progress: Option<DownloadProgress>,
    local_bytes: i64,
    temp_bytes: i64,
) -> (r: ModelFileState)
    ensures
        file_state_spec(*descriptor, progress, local_bytes, temp_bytes, r),
{
    match progress {
        Some(p) => ModelFileState {
            local_bytes,
            downloading: p.downloading,
            progress_bytes: p.progress_bytes,
            progress_total_bytes: p.progress_total_bytes,
            error: p.error,
        },
        None => {
            let progress_bytes = if local_bytes > 0 { local_bytes } else { temp_bytes };
            ModelFileState {
                local_bytes,
                downloading: false,
                progress_bytes,
                progress_total_bytes: larger(larger(descriptor.expected_bytes, progress_bytes), 1),
                error: None,
            }
        },
    }
}

/// The progress recorded when a download starts, counting what a partial
/// download already holds.
pub fn started_progress(descriptor: &ModelDescriptor, temp_bytes: i64) -> (r: DownloadProgress)
    ensures
        r.downloading,
        r.progress_bytes == temp_bytes,
        r.progress_total_bytes == max_i64(descriptor.expected_bytes, 1),
        r.error is None,
{
    DownloadProgress {
        downloading: true,
        progress_bytes: temp_bytes,
        progress_total_bytes: larger(descriptor.expected_bytes, 1),
        error: None,
    }
}

/// The progress recorded when a download fails with `error`.
pub fn failed_progress(descriptor: &ModelDescriptor, temp_bytes: i64, error: String) -> (r: DownloadProgress)
    ensures
        !r.downloading,
        r.progress_bytes == temp_bytes,
        r.progress_total_bytes == max_i64(descriptor.expected_bytes, 1),
        r.error == Some(error),
{
    DownloadProgress {
        downloading: false,
        progress_bytes: temp_bytes,
        progress_total_bytes: larger(descriptor.expected_bytes, 1),
        error: Some(error),
    }
}

// ---------------------------------------------------------------------------
// Download bookkeeping
// ---------------------------------------------------------------------------

/// Two progress records that say the same.
pub open spec fn progress_same(a: DownloadProgress, b: DownloadProgress) -> bool {
    &&& a.downloading == b.downloading
    &&& a.progress_bytes == b.progress_bytes
    &&& a.progress_total_bytes == b.progress_total_bytes
    &&& opt_view(a.error) == opt_view(b.error)
}

impl DownloadProgress {
    pub fn copy(&self) -> (r: DownloadProgress)
        ensures
            progress_same(r, *self),
    {
        DownloadProgress {
            downloading: self.downloading,
            progress_bytes: self.progress_bytes,
            progress_total_bytes: self.progress_total_bytes,
            error: copy_opt_string(&self.error),
        }
    }
}

/// Entry `i` records the download of model `id`.
pub open spec fn key_at(entries: Seq<(String, DownloadProgress)>, id: Seq<char>, i: int) -> bool {
    0 <= i < entries.len() && entries[i].0@ == id
}

/// No model has two entries.
pub open spec fn keys_unique(entries: Seq<(String, DownloadProgress)>) -> bool {
    forall|i: int, j: int|
        0 <= i < entries.len() && 0 <= j < entries.len() && i != j ==> #[trigger] entries[i].0@ != #[trigger] entries[j].0@
}

/// The progress recorded for model `id`, if any.
pub open spec fn lookup(entries: Seq<(String, DownloadProgress)>, id: Seq<char>) -> Option<DownloadProgress> {
    if exists|i: int| key_at(entries, id, i) {
        Some(entries[choose|i: int| key_at(entries, id, i)].1)
    } else {
        None
    }
}

proof fn lemma_lookup_at(entries: Seq<(String, DownloadProgress)>, id: Seq<char>, i: int)
    requires
        keys_unique(entries),
        key_at(entries, id, i),
    ensures
        lookup(entries, id) == Some(entries[i].1),
{
    let c = choose|c: int| key_at(entries, id, c);
    assert(key_at(entries, id, c));
    if c != i {
        assert(entries[c].0@ != entries[i].0@);
    }
}

/// The model files Windows knows of: where they are kept, once configured, and
/// the downloads started in this process, by model ID.
pub struct WindowsModelStore {
    paths: Option<NativeCorePaths>,
    downloads: Vec<(String, DownloadProgress)>,
}

pub const PATHS_NOT_INITIALIZED_MESSAGE: &'static str = "native-core paths are not initialized";

pub open spec fn unknown_windows_model_message(public_id: Seq<char>) -> Seq<char> {
    "Unknown Windows model: "@ + public_id
}

/// What a download request comes to.
#[derive(Debug, Clone, PartialEq, Eq, Structural)]
pub enum DownloadStart {
    /// A download of the model is already under way.
    AlreadyDownloading,
    /// The download was recorded as started: fetch the model now.
    Started,
}

impl WindowsModelStore {
    /// No model has two download records.
    pub closed spec fn wf(self) -> bool {
        keys_unique(self.downloads@)
    }

    pub closed spec fn configured_paths(self) -> Option<NativeCorePaths> {
        self.paths
    }

    /// The download progress recorded for model `id`.
    pub closed spec fn progress_of(self, id: Seq<char>) -> Option<DownloadProgress> {
        lookup(self.downloads@, id)
    }

    pub fn new() -> (r: WindowsModelStore)
        ensures
            r.wf(),
            r.configured_paths() is None,
            forall|id: Seq<char>| (#[trigger] r.progress_of(id)) is None,
    {
        WindowsModelStore { paths: None, downloads: Vec::new() }
    }

    pub fn configure_paths(&mut self, paths: NativeCorePaths)
        requires
            old(self).wf(),
        ensures
            final(self).wf(),
            final(self).configured_paths() == Some(paths),
            forall|id: Seq<char>| #[trigger] final(self).progress_of(id) == old(self).progress_of(id),
    {
        self.paths = Some(paths);
    }

    pub fn paths(&self) -> (r: Option<&NativeCorePaths>)
        ensures
            match self.configured_paths() {
                Some(p) => r == Some(&p),
                None => r is None,
            },
    {
        match &self.paths {
            Some(p) => Some(p),
            None => None,
        }
    }

    fn index_of(&self, id: &str) -> (r: Option<usize>)
        ensures
            match r {
                Some(i) => key_at(self.downloads@, id@, i as int),
                None => forall|i: int| !key_at(self.downloads@, id@, i),
            },
    {
        let mut i: usize = 0;
        while i < self.downloads.len()
            invariant
                i <= self.downloads@.len(),
                forall|k: int| 0 <= k < i ==> !key_at(self.downloads@, id@, k),
            decreases self.downloads.len() - i,
        {
            if str_eq(self.downloads[i].0.as_str(), id) {
                return Some(i);
            }
            i = i + 1;
        }
        None
    }

    /// The progress recorded for a model.
    pub fn progress(&self, id: &str) -> (r: Option<DownloadProgress>)
        requires
            self.wf(),
        ensures
            match self.progress_of(id@) {
                Some(p) => r matches Some(q) && progress_same(q, p),
                None => r is None,
            },
    {
        match self.index_of(id) {
            Some(i) => {
                proof {
                    lemma_lookup_at(self.downloads@, id@, i as int);
                }
                Some(self.downloads[i].1.copy())
            },
            None => None,
        }
    }

    /// Records `progress` for model `id`, in place of what was there.
    pub fn record_progress(&mut self, id: &str, progress: DownloadProgress)
        requires
            old(self).wf(),
        ensures
            final(self).wf(),
            final(self).configured_paths() == old(self).configured_paths(),
            final(self).progress_of(id@) == Some(progress),
            forall|k: Seq<char>| k != id@ ==> #[trigger] final(self).progress_of(k) == old(self).progress_of(k),
    {
        let ghost before = self.downloads@;
        let key = String::from_str(id);
        match self.index_of(id) {
            Some(i) => {
                self.downloads.set(i, (key, progress));
                proof {
                    let after = self.downloads@;
                    assert(after == before.update(i as int, after[i as int]));
                    assert forall|a: int, b: int|
                        0 <= a < after.len() && 0 <= b < after.len() && a != b implies #[trigger] after[a].0@
                        != #[trigger] after[b].0@ by {
                        if a != i && b != i {
                            assert(before[a].0@ != before[b].0@);
                        } else if a == i {
                            assert(before[b].0@ != before[i as int].0@);
                        } else {
                            assert(before[a].0@ != before[i as int].0@);
                        }
                    }
                    lemma_lookup_at(after, id@, i as int);
                    assert forall|k: Seq<char>| k != id@ implies #[trigger] lookup(after, k) == lookup(before, k) by {
                        if exists|j: int| key_at(before, k, j) {
                            let j = choose|j: int| key_at(before, k, j);
                            assert(j != i);
                            assert(key_at(after, k, j));
                            lemma_lookup_at(before, k, j);
                            lemma_lookup_at(after, k, j);
                        } else {
                            assert forall|j: int| !key_at(after, k, j) by {
                                if key_at(after, k, j) {
                                    assert(j != i);
                                    assert(key_at(before, k, j));
                                }
                            }
                        }
                    }
                }
            },
            None => {
                self.downloads.push((key, progress));
                proof {
                    let after = self.downloads@;
                    let n = before.len() as int;
                    assert(after == before.push(after[n]));
                    assert forall|a: int, b: int|
                        0 <= a < after.len() && 0 <= b < after.len() && a != b implies #[trigger] after[a].0@
                        != #[trigger] after[b].0@ by {
                        if a != n && b != n {
                            assert(before[a].0@ != before[b].0@);
                        } else if a == n {
                            assert(!key_at(before, id@, b));
                        } else {
                            assert(!key_at(before, id@, a));
                        }
                    }
                    lemma_lookup_at(after, id@, n);
                    assert forall|k: Seq<char>| k != id@ implies #[trigger] lookup(after, k) == lookup(before, k) by {
                        if exists|j: int| key_at(before, k, j) {
                            let j = choose|j: int| key_at(before, k, j);
                            assert(key_at(after, k, j));
                            lemma_lookup_at(before, k, j);
                            lemma_lookup_at(after, k, j);
                        } else {
                            assert forall|j: int| !key_at(after, k, j) by {
                                if key_at(after, k, j) && j != n {
                                    assert(key_at(before, k, j));
                                }
                            }
                        }
                    }
                }
            },
        }
    }

    /// Drops what was recorded for model `id`.
    pub fn forget_progress(&mut self, id: &str)
        requires
            old(self).wf(),
        ensures
            final(self).wf(),
            final(self).configured_paths() == old(self).configured_paths(),
            final(self).progress_of(id@) is None,
            forall|k: Seq<char>| k != id@ ==> #[trigger] final(self).progress_of(k) == old(self).progress_of(k),
    {
        let ghost before = self.downloads@;
        match self.index_of(id) {
            Some(i) => {
                self.downloads.remove(i);
                proof {
                    let after = self.downloads@;
                    assert(after == before.remove(i as int));
                    assert forall|a: int, b: int|
                        0 <= a < after.len() && 0 <= b < after.len() && a != b implies #[trigger] after[a].0@
                        != #[trigger] after[b].0@ by {
                        let a2 = if a < i { a } else { a + 1 };
                        let b2 = if b < i { b } else { b + 1 };
                        assert(after[a] == before[a2]);
                        assert(after[b] == before[b2]);
                        assert(before[a2].0@ != before[b2].0@);
                    }
                    assert forall|j: int| !key_at(after, id@, j) by {
                        if key_at(after, id@, j) {
                            let j2 = if j < i { j } else { j + 1 };
                            assert(after[j] == before[j2]);
                            assert(before[j2].0@ != before[i as int].0@);
                        }
                    }
                    assert forall|k: Seq<char>| k != id@ implies #[trigger] lookup(after, k) == lookup(before, k) by {
                        if exists|j: int| key_at(before, k, j) {
                            let j = choose|j: int| key_at(before, k, j);
                            assert(j != i);
                            let j1 = if j < i { j } else { j - 1 };
                            assert(after[j1] == before[j]);
                            assert(key_at(after, k, j1));
                            lemma_lookup_at(before, k, j);
                            lemma_lookup_at(after, k, j1);
                        } else {
                            assert forall|j: int| !key_at(after, k, j) by {
                                if key_at(after, k, j) {
                                    let j2 = if j < i { j } else { j + 1 };
                                    assert(after[j] == before[j2]);
                                    assert(key_at(before, k, j2));
                                }
                            }
                        }
                    }
                }
            },
            None => {},
        }
    }
}

/// The Windows model with this public ID, by its first catalog entry.
pub open spec fn windows_pick(catalog: ModelCatalogManifest, public_id: Seq<char>) -> Option<int> {
    first_where(
        catalog.models@,
        |d: ModelDescriptor| is_machine_model(d, public_id, Platform::Windows, Architecture::X86_64),
        0,
    )
}

pub fn windows_descriptor_for(catalog: &ModelCatalogManifest, public_id: &str) -> (r: Option<ModelDescriptor>)
    ensures
        match windows_pick(*catalog, public_id@) {
            Some(i) => r matches Some(d) && descriptor_same(d, catalog.models@[i]),
            None => r is None,
        },
{
    descriptor_for_public_id(catalog, Platform::Windows, Architecture::X86_64, public_id)
}

/// The catalog models for Windows on x86-64, in order.
pub fn windows_descriptors(catalog: &ModelCatalogManifest) -> (r: Vec<ModelDescriptor>)
    ensures
        exists|idx: Seq<int>| #[trigger] machine_picks(catalog.models@, idx, r@, Platform::Windows, Architecture::X86_64),
{
    catalog_descriptors(catalog, Platform::Windows, Architecture::X86_64)
}

/// The model a request names, or why it cannot be acted on: not a Windows
/// model, or the paths are not configured yet.
pub open spec fn target_check(
    catalog: ModelCatalogManifest,
    public_id: Seq<char>,
    paths: Option<NativeCorePaths>,
) -> Result<(int, NativeCorePaths), Seq<char>> {
    match windows_pick(catalog, public_id) {
        None => Err(unknown_windows_model_message(public_id)),
        Some(i) => match paths {
            None => Err(PATHS_NOT_INITIALIZED_MESSAGE@),
            Some(p) => Ok((i, p)),
        },
    }
}

fn unknown_windows_model(public_id: &str) -> (r: String)
    ensures
        r@ == unknown_windows_model_message(public_id@),
{
    let mut out = chars_of("Unknown Windows model: ");
    extend_chars(&mut out, &chars_of(public_id));
    string_from_chars(&out)
}

impl WindowsModelStore {
    fn target(&self, catalog: &ModelCatalogManifest, public_id: &str) -> (r: Result<(ModelDescriptor, &NativeCorePaths), String>)
        ensures
            match target_check(*catalog, public_id@, self.configured_paths()) {
                Err(m) => r matches Err(e) && e@ == m,
                Ok((i, p)) => r matches Ok((d, q)) && descriptor_same(d, catalog.models@[i]) && *q == p,
            },
    {
        let descriptor = match windows_descriptor_for(catalog, public_id) {
            Some(d) => d,
            None => return Err(unknown_windows_model(public_id)),
        };
        match &self.paths {
            Some(p) => Ok((descriptor, p)),
            None => Err(String::from_str(PATHS_NOT_INITIALIZED_MESSAGE)),
        }
    }

    /// The model a download request names and where its file goes; refused for
    /// a model that is not for Windows, before the paths are configured, and for
    /// an entry without a file name.
    pub fn download_target(&self, catalog: &ModelCatalogManifest, public_id: &str) -> (r: Result<
        (ModelDescriptor, String),
        String,
    >)
        ensures
            match target_check(*catalog, public_id@, self.configured_paths()) {
                Err(m) => r matches Err(e) && e@ == m,
                Ok((i, paths)) => match catalog.models@[i].file_name {
                    None => r matches Err(e) && e@ == missing_file_name_message(public_id@),
                    Some(f) => r matches Ok((d, path)) && descriptor_same(d, catalog.models@[i]) && path@
                        == spec_path_join(model_dir_spec(catalog.models@[i], paths), f@),
                },
            },
    {
        proof {
            lemma_first_where_found(
                catalog.models@,
                |d: ModelDescriptor| is_machine_model(d, public_id@, Platform::Windows, Architecture::X86_64),
                0,
            );
        }
        let (descriptor, paths) = match self.target(catalog, public_id) {
            Ok(t) => t,
            Err(e) => return Err(e),
        };
        match model_path(&descriptor, paths) {
            Ok(path) => Ok((descriptor, path)),
            Err(e) => Err(e),
        }
    }

    /// The files deleting a model removes: the model file, then a partial
    /// download; refused as a download request is.
    pub fn delete_model(&self, catalog: &ModelCatalogManifest, public_id: &str) -> (r: Result<
        (String, String),
        String,
    >)
        ensures
            match target_check(*catalog, public_id@, self.configured_paths()) {
                Err(m) => r matches Err(e) && e@ == m,
                Ok((i, paths)) => match catalog.models@[i].file_name {
                    None => r matches Err(e) && e@ == missing_file_name_message(public_id@),
                    Some(f) => r matches Ok((model, temp)) && model@ == spec_path_join(
                        model_dir_spec(catalog.models@[i], paths),
                        f@,
                    ) && temp@ == spec_path_join(model_dir_spec(catalog.models@[i], paths), f@ + ".download"@),
                },
            },
    {
        proof {
            lemma_first_where_found(
                catalog.models@,
                |d: ModelDescriptor| is_machine_model(d, public_id@, Platform::Windows, Architecture::X86_64),
                0,
            );
        }
        let (descriptor, paths) = match self.target(catalog, public_id) {
            Ok(t) => t,
            Err(e) => return Err(e),
        };
        let model = match model_path(&descriptor, paths) {
            Ok(path) => path,
            Err(e) => return Err(e),
        };
        match temp_model_path(&descriptor, paths) {
            Ok(temp) => Ok((model, temp)),
            Err(e) => Err(e),
        }
    }

    /// Starts a download of `descriptor` unless one is under way, counting the
    /// bytes a partial download already holds.
    pub fn begin_download(&mut self, descriptor: &ModelDescriptor, temp_bytes: i64) -> (r: DownloadStart)
        requires
            old(self).wf(),
        ensures
            final(self).wf(),
            final(self).configured_paths() == old(self).configured_paths(),
            (old(self).progress_of(descriptor.public_id@) matches Some(p) && p.downloading) ==> {
                &&& r == DownloadStart::AlreadyDownloading
                &&& forall|k: Seq<char>| #[trigger] final(self).progress_of(k) == old(self).progress_of(k)
            },
            !(old(self).progress_of(descriptor.public_id@) matches Some(p) && p.downloading) ==> {
                &&& r == DownloadStart::Started
                &&& final(self).progress_of(descriptor.public_id@) matches Some(p) && p.downloading
                    && p.progress_bytes == temp_bytes && p.progress_total_bytes == max_i64(descriptor.expected_bytes, 1)
                    && p.error is None
                &&& forall|k: Seq<char>| k != descriptor.public_id@ ==> #[trigger] final(self).progress_of(k)
                    == old(self).progress_of(k)
            },
    {
        let busy = match self.progress(descriptor.public_id.as_str()) {
            Some(p) => p.downloading,
            None => false,
        };
        if busy {
            return DownloadStart::AlreadyDownloading;
        }
        self.record_progress(descriptor.public_id.as_str(), started_progress(descriptor, temp_bytes));
        DownloadStart::Started
    }

    /// Records how far a download has come.
    pub fn record_download_progress(&mut self, descriptor: &ModelDescriptor, downloaded: i64, total: i64)
        requires
            old(self).wf(),
        ensures
            final(self).wf(),
            final(self).configured_paths() == old(self).configured_paths(),
            final(self).progress_of(descriptor.public_id@) matches Some(p) && p.downloading && p.progress_bytes
                == downloaded && p.progress_total_bytes == max_i64(total, 1) && p.error is None,
            forall|k: Seq<char>| k != descriptor.public_id@ ==> #[trigger] final(self).progress_of(k) == old(self).progress_of(k),
    {
        let progress = DownloadProgress {
            downloading: true,
            progress_bytes: downloaded,
            progress_total_bytes: larger(total, 1),
            error: None,
        };
        self.record_progress(descriptor.public_id.as_str(), progress);
    }

    /// Closes a download: a finished one leaves no record and its follow-up
    /// runs; a failed one is recorded with its error.
    pub fn finish_download(&mut self, descriptor: &ModelDescriptor, outcome: Result<(), String>, temp_bytes: i64) -> (run_follow_up: bool)
        requires
            old(self).wf(),
        ensures
            final(self).wf(),
            final(self).configured_paths() == old(self).configured_paths(),
            forall|k: Seq<char>| k != descriptor.public_id@ ==> #[trigger] final(self).progress_of(k) == old(self).progress_of(k),
            match outcome {
                Ok(()) => run_follow_up && final(self).progress_of(descriptor.public_id@) is None,
                Err(e) => {
                    &&& !run_follow_up
                    &&& final(self).progress_of(descriptor.public_id@) matches Some(p) && !p.downloading
                        && p.progress_bytes == temp_bytes && p.progress_total_bytes == max_i64(descriptor.expected_bytes, 1)
                        && p.error == Some(e)
                },
            },
    {
        match outcome {
            Ok(()) => {
                self.forget_progress(descriptor.public_id.as_str());
                true
            },
            Err(e) => {
                self.record_progress(descriptor.public_id.as_str(), failed_progress(descriptor, temp_bytes, e));
                false
            },
        }
    }
}

/// Whether model `id` is one the settings require on this machine.
pub open spec fn is_required_id(
    catalog: ModelCatalogManifest,
    settings: DictationLanguageSettings,
    platform: Platform,
    architecture: Architecture,
    id: Seq<char>,
) -> bool {
    let w = required_indices(catalog, settings, platform, architecture);
    exists|k: int| 0 <= k < w.len() && catalog.models@[#[trigger] w[k]].public_id@ == id
}

proof fn lemma_required_ids(
    catalog: ModelCatalogManifest,
    settings: DictationLanguageSettings,
    platform: Platform,
    architecture: Architecture,
    req: Seq<ModelDescriptor>,
    id: Seq<char>,
)
    requires
        required_models_spec(catalog, settings, platform, architecture, req),
    ensures
        is_required(req, id) == is_required_id(catalog, settings, platform, architecture, id),
{
    let w = required_indices(catalog, settings, platform, architecture);
    if is_required(req, id) {
        let j = choose|j: int| 0 <= j < req.len() && (#[trigger] req[j]).public_id@ == id;
        assert(descriptor_same(req[j], catalog.models@[w[j]]));
        assert(catalog.models@[w[j]].public_id@ == id);
    }
    if is_required_id(catalog, settings, platform, architecture, id) {
        let k = choose|k: int| 0 <= k < w.len() && catalog.models@[#[trigger] w[k]].public_id@ == id;
        assert(descriptor_same(req[k], catalog.models@[w[k]]));
        assert(req[k].public_id@ == id);
    }
}

/// The status reported for `d`: from its file state (given what this process
/// recorded for it and the sizes on disk), flagged when the settings require it.
pub open spec fn status_reported(
    progress: Option<DownloadProgress>,
    catalog: ModelCatalogManifest,
    language: DictationLanguageSettings,
    d: ModelDescriptor,
    local_bytes: i64,
    temp_bytes: i64,
    r: ModelStatus,
) -> bool {
    exists|state: ModelFileState|
        file_state_spec(d, progress, local_bytes, temp_bytes, state) && model_status_spec(
            d,
            state,
            is_required_id(catalog, language, Platform::Windows, Architecture::X86_64, d.public_id@),
            r,
        )
}

impl WindowsModelStore {
    /// The status of each Windows model: a download of this process speaks for
    /// itself, else the sizes of its file and of a partial download, measured by
    /// the caller for `descriptors` in order; flagged when the settings require it.
    pub fn statuses(
        &self,
        catalog: &ModelCatalogManifest,
        language: &DictationLanguageSettings,
        descriptors: &Vec<ModelDescriptor>,
        local_bytes: &Vec<i64>,
        temp_bytes: &Vec<i64>,
    ) -> (r: Vec<ModelStatus>)
        requires
            self.wf(),
            local_bytes@.len() == descriptors@.len(),
            temp_bytes@.len() == descriptors@.len(),
        ensures
            r@.len() == descriptors@.len(),
            forall|k: int|
                0 <= k < r@.len() ==> status_reported(
                    self.progress_of(descriptors@[k].public_id@),
                    *catalog,
                    *language,
                    descriptors@[k],
                    local_bytes@[k],
                    temp_bytes@[k],
                    #[trigger] r@[k],
                ),
    {
        let required = required_models(catalog, language, Platform::Windows, Architecture::X86_64);
        let mut states: Vec<ModelFileState> = Vec::new();
        let mut i: usize = 0;
        while i < descriptors.len()
            invariant
                self.wf(),
                i <= descriptors@.len(),
                local_bytes@.len() == descriptors@.len(),
                temp_bytes@.len() == descriptors@.len(),
                states@.len() == i,
                forall|k: int|
                    0 <= k < i ==> #[trigger] file_state_spec(
                        descriptors@[k],
                        self.progress_of(descriptors@[k].public_id@),
                        local_bytes@[k],
                        temp_bytes@[k],
                        states@[k],
                    ),
            decreases descriptors.len() - i,
        {
            let d = &descriptors[i];
            let progress = self.progress(d.public_id.as_str());
            let state = model_file_state(d, progress, local_bytes[i], temp_bytes[i]);
            states.push(state);
            i = i + 1;
        }
        let ghost all_states = states@;
        let r = model_statuses_for(descriptors, states, &required);
        proof {
            assert forall|k: int| 0 <= k < r@.len() implies status_reported(
                self.progress_of(descriptors@[k].public_id@),
                *catalog,
                *language,
                descriptors@[k],
                local_bytes@[k],
                temp_bytes@[k],
                #[trigger] r@[k],
            ) by {
                lemma_required_ids(
                    *catalog,
                    *language,
                    Platform::Windows,
                    Architecture::X86_64,
                    required@,
                    descriptors@[k].public_id@,
                );
                assert(file_state_spec(
                    descriptors@[k],
                    self.progress_of(descriptors@[k].public_id@),
                    local_bytes@[k],
                    temp_bytes@[k],
                    all_states[k],
                ));
                assert(model_status_spec(
                    descriptors@[k],
                    all_states[k],
                    is_required_id(*catalog, *language, Platform::Windows, Architecture::X86_64, descriptors@[k].public_id@),
                    r@[k],
                ));
            }
        }
        r
    }
}

/// The size a download reports progress against: the server's length (at most
/// `i64::MAX`), else the catalog's size, and at least one.
pub fn download_total_bytes(content_length: Option<u64>, expected_bytes: i64) -> (r: i64)
    ensures
        r == max_i64(
            match content_length {
                Some(n) => if n > i64::MAX { i64::MAX } else { n as i64 },
                None => expected_bytes,
            },
            1,
        ),
{
    let total = match content_length {
        Some(n) => if n > 9_223_372_036_854_775_807u64 { i64::MAX } else { n as i64 },
        None => expected_bytes,
    };
    larger(total, 1)
}

/// The bytes downloaded once a chunk has been written, saturating at `i64::MAX`.
pub fn downloaded_after_chunk(downloaded: i64, chunk_len: usize) -> (r: i64)
    requires
        chunk_len <= i64::MAX,
    ensures
        r == (if downloaded + chunk_len > i64::MAX { i64::MAX } else { (downloaded + chunk_len) as i64 }),
{
    let len = chunk_len as i64;
    match downloaded.checked_add(len) {
        Some(n) => n,
        None => i64::MAX,
    }
}

pub open spec fn checksum_mismatch_message(public_id: Seq<char>, expected: Seq<char>, actual: Seq<char>) -> Seq<char> {
    public_id + " checksum mismatch: expected "@ + expected + ", got "@ + actual
}

/// Whether a downloaded file's SHA-256 (in hex) is the catalog's, letters in
/// either case; a model without a checksum passes.
pub fn checksum_verdict(descriptor: &ModelDescriptor, actual_hash: &str) -> (r: Result<(), String>)
    ensures
        match opt_view(descriptor.sha256) {
            Some(expected) => if ascii_lower_seq(actual_hash@) == ascii_lower_seq(expected) {
                r is Ok
            } else {
                r matches Err(e) && e@ == checksum_mismatch_message(descriptor.public_id@, expected, actual_hash@)
            },
            None => r is Ok,
        },
{
    match &descriptor.sha256 {
        Some(expected) => {
            let a = chars_of(actual_hash);
            let x = chars_of(expected.as_str());
            if eq_ignore_ascii_case(&a, &x) {
                Ok(())
            } else {
                let mut out = chars_of(descriptor.public_id.as_str());
                extend_chars(&mut out, &chars_of(" checksum mismatch: expected "));
                extend_chars(&mut out, &x);
                extend_chars(&mut out, &chars_of(", got "));
                extend_chars(&mut out, &a);
                Err(string_from_chars(&out))
            }
        },
        None => Ok(()),
    }
}

} // verus!
