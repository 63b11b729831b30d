use vstd::prelude::*;
use crate::protocol::SoundEvent;

verus! {

/// Where each feedback sound lives, relative to the shared resources.
#[derive(Debug, Clone, PartialEq, Eq)]
pub struct SoundManifest {
    pub recording_start: String,
    pub recording_success: String,
    pub recording_cancel: String,
    pub recording_error: String,
}

/// What `Path::join` gives, as text.
pub uninterp spec fn spec_path_join(base: Seq<char>, relative: Seq<char>) -> Seq<char>;

/// `std::path::Path::new(base).join(relative)`, as a string; the result is
/// named `spec_path_join` and nothing more is claimed of it.
#[verifier::external_body]
pub(crate) fn path_join(base: &str, relative: &str) -> (r: String)
    ensures
        r@ == spec_path_join(base@, relative@),
{
    std::path::Path::new(base).join(relative).to_string_lossy().into_owned()
}

impl SoundManifest {
    pub open spec fn relative_path_spec(self, event: SoundEvent) -> Seq<char> {
        match event {
            SoundEvent::RecordingStart => self.recording_start@,
            SoundEvent::RecordingSuccess => self.recording_success@,
            SoundEvent::RecordingCancel => self.recording_cancel@,
            SoundEvent::RecordingError => self.recording_error@,
        }
    }

    pub fn relative_path(&self, event: SoundEvent) -> (r: &str)
        ensures
            r@ == self.relative_path_spec(event),
    {
        match event {
            SoundEvent::RecordingStart => self.recording_start.as_str(),
            SoundEvent::RecordingSuccess => self.recording_success.as_str(),
            SoundEvent::RecordingCancel => self.recording_cancel.as_str(),
            SoundEvent::RecordingError => self.recording_error.as_str(),
        }
    }

    /// The sound's file under the shared resources directory.
    pub fn path_for(&self, shared_resources_dir: &str, event: SoundEvent) -> (r: String)
        ensures
            r@ == spec_path_join(shared_resources_dir@, self.relative_path_spec(event)),
    {
        path_join(shared_resources_dir, self.relative_path(event))
    }
}

/// Plays feedback sounds; each platform supplies its player.
pub trait SoundFeedback {
    fn play(&self, event: SoundEvent, enabled: bool);
}

} // verus!
