//! Reading the outcome of a microphone probe, shared by the platforms.
use vstd::prelude::*;
use crate::protocol::{PermissionKind, PermissionState};
use crate::text::{contains_seq, contains_str, spec_to_lowercase, to_lowercase_str};

verus! {

/// A probe error names a privacy denial when its lower-case form holds one of
/// the phrases that audio stacks use for a refused device.
pub open spec fn is_denial_spec(message: Seq<char>) -> bool {
    let n = spec_to_lowercase(message);
    ||| contains_seq(n, "access denied"@)
    ||| contains_seq(n, "permission denied"@)
    ||| contains_seq(n, "privacy"@)
    ||| contains_seq(n, "not authorized"@)
    ||| contains_seq(n, "unauthorized"@)
    ||| contains_seq(n, "denied by system"@)
    ||| contains_seq(n, "device access is denied"@)
}

pub fn is_known_microphone_denial(message: &str) -> (r: bool)
    ensures
        r == is_denial_spec(message@),
{
    let normalized = to_lowercase_str(message);
    let n = normalized.as_str();
    contains_str(n, "access denied") || contains_str(n, "permission denied") || contains_str(
        n,
        "privacy",
    ) || contains_str(n, "not authorized") || contains_str(n, "unauthorized") || contains_str(
        n,
        "denied by system",
    ) || contains_str(n, "device access is denied")
}

/// Granted when the probe opened the device, denied when it failed with a
/// privacy refusal, unknown for any other failure.
pub open spec fn probe_state_spec(result: Result<(), String>) -> PermissionState {
    match result {
        Ok(_) => PermissionState::Granted,
        Err(e) => if is_denial_spec(e@) {
            PermissionState::Denied
        } else {
            PermissionState::Unknown
        },
    }
}

pub fn microphone_state_from_probe_result(result: Result<(), String>) -> (r: PermissionState)
    ensures
        r == probe_state_spec(result),
{
    match result {
        Ok(()) => PermissionState::Granted,
        Err(error) => {
            if is_known_microphone_denial(error.as_str()) {
                PermissionState::Denied
            } else {
                PermissionState::Unknown
            }
        },
    }
}

/// The name a permission kind is written with in messages.
pub open spec fn kind_name_spec(kind: PermissionKind) -> Seq<char> {
    match kind {
        PermissionKind::Microphone => "Microphone"@,
        PermissionKind::Accessibility => "Accessibility"@,
        PermissionKind::InputMonitoring => "InputMonitoring"@,
        PermissionKind::GlobalShortcut => "GlobalShortcut"@,
        PermissionKind::Paste => "Paste"@,
        PermissionKind::FocusedTextContext => "FocusedTextContext"@,
    }
}

pub fn kind_name(kind: PermissionKind) -> (r: &'static str)
    ensures
        r@ == kind_name_spec(kind),
{
    match kind {
        PermissionKind::Microphone => "Microphone",
        PermissionKind::Accessibility => "Accessibility",
        PermissionKind::InputMonitoring => "InputMonitoring",
        PermissionKind::GlobalShortcut => "GlobalShortcut",
        PermissionKind::Paste => "Paste",
        PermissionKind::FocusedTextContext => "FocusedTextContext",
    }
}

} // verus!
