//! The Windows permission snapshot: only the microphone is required.
use vstd::prelude::*;
use crate::permissions::{kind_name, kind_name_spec, probe_state_spec};
use crate::protocol::{
    requirement_is, PermissionKind, PermissionRequirement, PermissionSnapshot, PermissionState,
};
use crate::text::concat_str;

pub use crate::permissions::{is_known_microphone_denial, microphone_state_from_probe_result};

verus! {

#[derive(Debug, Clone, Copy)]
pub struct PermissionManager;

/// The snapshot for a microphone in `state`: one required, requestable
/// requirement, ready exactly when it is granted.
pub open spec fn is_microphone_snapshot(r: PermissionSnapshot, state: PermissionState) -> bool {
    &&& r.requirements@.len() == 1
    &&& requirement_is(r.requirements@[0], PermissionKind::Microphone, "Microphone"@, state, true, true, true)
    &&& r.requirements@[0].description@ == "Record your voice locally for dictation."@
    &&& r.all_required_granted == (state == PermissionState::Granted)
    &&& r.microphone == Some(state)
    &&& r.accessibility is None
    &&& r.input_monitoring is None
    &&& r.all_granted == Some(state == PermissionState::Granted)
    &&& r.linux_hotkey_backend is None
}

pub fn microphone_snapshot(state: PermissionState) -> (r: PermissionSnapshot)
    ensures
        is_microphone_snapshot(r, state),
{
    let granted = state == PermissionState::Granted;
    let mut requirements: Vec<PermissionRequirement> = Vec::new();
    requirements.push(
        PermissionRequirement {
            kind: PermissionKind::Microphone,
            title: String::from_str("Microphone"),
            description: String::from_str("Record your voice locally for dictation."),
            state,
            required: true,
            requestable: true,
            opens_settings: true,
        },
    );
    PermissionSnapshot {
        requirements,
        all_required_granted: granted,
        microphone: Some(state),
        accessibility: None,
        input_monitoring: None,
        all_granted: Some(granted),
        linux_hotkey_backend: None,
    }
}

/// The refusal for a permission that Windows does not let Parrot request.
pub open spec fn not_requestable_message(kind: PermissionKind) -> Seq<char> {
    "Windows permission `"@ + kind_name_spec(kind) + "` is not requestable by native-core"@
}

impl PermissionManager {
    /// The snapshot for the outcome of probing the selected input device.
    pub fn statuses(&self, microphone_probe: Result<(), String>) -> (r: PermissionSnapshot)
        ensures
            is_microphone_snapshot(r, probe_state_spec(microphone_probe)),
    {
        microphone_snapshot(microphone_state_from_probe_result(microphone_probe))
    }

    /// Only the microphone can be requested. When `open_settings` is set the
    /// caller has tried to open the privacy settings page, and a failure to do
    /// so is returned; otherwise the fresh snapshot is.
    pub fn request_permission(
        &self,
        kind: PermissionKind,
        open_settings: bool,
        settings_opened: Result<(), String>,
        microphone_probe: Result<(), String>,
    ) -> (r: Result<PermissionSnapshot, String>)
        ensures
            kind != PermissionKind::Microphone ==> (r matches Err(e) && e@ == not_requestable_message(kind)),
            kind == PermissionKind::Microphone && open_settings && settings_opened is Err
                ==> r == Err::<PermissionSnapshot, String>(settings_opened->Err_0),
            kind == PermissionKind::Microphone && !(open_settings && settings_opened is Err)
                ==> (r matches Ok(s) && is_microphone_snapshot(s, probe_state_spec(microphone_probe))),
    {
        if kind != PermissionKind::Microphone {
            let head = concat_str("Windows permission `", kind_name(kind));
            return Err(concat_str(head.as_str(), "` is not requestable by native-core"));
        }
        if open_settings {
            match settings_opened {
                Err(e) => {
                    return Err(e);
                },
                Ok(()) => {},
            }
        }
        Ok(self.statuses(microphone_probe))
    }
}

} // verus!
