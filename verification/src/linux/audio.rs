//! Choosing and naming Linux input devices, and wording microphone failures.
use vstd::prelude::*;
use vstd::utf8::encode_utf8;
use crate::permissions::{is_denial_spec, is_known_microphone_denial};
use crate::protocol::AudioDevice;
use crate::text::{
    chars_of, concat_str, decimal_chars, decimal_seq, hex_chars, hex_seq, spec_to_lowercase,
    starts_with_chars, starts_with_seq, str_eq, string_from_chars, to_lowercase_str, trim_seq,
    trim_str,
};

verus! {

/// Whether one of the listed devices has the given identifier.
pub fn selected_uid_exists(devices: &[AudioDevice], selected_uid: &str) -> (r: bool)
    ensures
        r == exists|i: int| 0 <= i < devices@.len() && #[trigger] devices@[i].uid@ == selected_uid@,
{
    let mut i: usize = 0;
    while i < devices.len()
        invariant
            i <= devices@.len(),
            forall|k: int| 0 <= k < i ==> #[trigger] devices@[k].uid@ != selected_uid@,
        decreases devices.len() - i,
    {
        if str_eq(devices[i].uid.as_str(), selected_uid) {
            assert(devices@[i as int].uid@ == selected_uid@);
            return true;
        }
        i = i + 1;
    }
    false
}

/// The 64-bit FNV-1a hash of `bytes`.
pub open spec fn fnv1a64_spec(bytes: Seq<u8>) -> u64
    decreases bytes.len(),
{
    if bytes.len() == 0 {
        0xcbf29ce484222325u64
    } else {
        vstd::wrapping::u64_specs::wrapping_mul(
            fnv1a64_spec(bytes.drop_last()) ^ (bytes.last() as u64),
            0x100000001b3u64,
        )
    }
}

pub fn fnv1a64(bytes: &[u8]) -> (r: u64)
    ensures
        r == fnv1a64_spec(bytes@),
{
    let mut hash: u64 = 0xcbf29ce484222325u64;
    let mut i: usize = 0;
    while i < bytes.len()
        invariant
            i <= bytes@.len(),
            hash == fnv1a64_spec(bytes@.take(i as int)),
        decreases bytes.len() - i,
    {
        assert(bytes@.take(i + 1).drop_last() =~= bytes@.take(i as int));
        hash = hash ^ (bytes[i] as u64);
        hash = hash.wrapping_mul(0x100000001b3u64);
        i = i + 1;
    }
    assert(bytes@.take(bytes@.len() as int) =~= bytes@);
    hash
}

/// `s` with zeros in front up to `width` characters.
pub open spec fn zero_padded(s: Seq<char>, width: nat) -> Seq<char> {
    if s.len() < width {
        Seq::new((width - s.len()) as nat, |i: int| '0') + s
    } else {
        s
    }
}

/// A device's identifier: the FNV-1a hash of its trimmed, lower-case name in
/// sixteen hexadecimal digits, and how many devices of that exact name came
/// before it.
pub open spec fn stable_uid_spec(name: Seq<char>, occurrence: nat) -> Seq<char> {
    let normalized = spec_to_lowercase(trim_seq(name));
    "cpal:"@ + zero_padded(hex_seq(fnv1a64_spec(encode_utf8(normalized)) as nat), 16) + ":"@
        + decimal_seq(occurrence)
}

pub fn stable_device_uid(name: &str, occurrence: usize) -> (r: String)
    ensures
        r@ == stable_uid_spec(name@, occurrence as nat),
{
    let trimmed = string_from_chars(&trim_str(name));
    let normalized = to_lowercase_str(trimmed.as_str());
    let hash = fnv1a64(normalized.as_str().as_bytes());
    let hex = hex_chars(hash);
    let mut out: Vec<char> = Vec::new();
    out.push('c');
    out.push('p');
    out.push('a');
    out.push('l');
    out.push(':');
    let ghost head = out@;
    assert(head =~= "cpal:"@) by {
        reveal_strlit("cpal:");
    }
    while out.len() - 5 + hex.len() < 16
        invariant
            5 <= out@.len() <= 21,
            out@.subrange(0, 5) == head,
            forall|k: int| 5 <= k < out@.len() ==> out@[k] == '0',
            out@.len() - 5 + hex@.len() <= 16 || out@.len() == 5,
        decreases 16 - (out.len() - 5),
    {
        out.push('0');
    }
    let ghost zeros = out@.subrange(5, out@.len() as int);
    assert(zeros + hex@ =~= zero_padded(hex@, 16));
    let mut i: usize = 0;
    while i < hex.len()
        invariant
            i <= hex@.len(),
            out@ =~= head + zeros + hex@.take(i as int),
        decreases hex.len() - i,
    {
        out.push(hex[i]);
        i = i + 1;
    }
    assert(hex@.take(hex@.len() as int) =~= hex@);
    out.push(':');
    let digits = decimal_chars(occurrence as u64);
    let ghost before = out@;
    let mut j: usize = 0;
    while j < digits.len()
        invariant
            j <= digits@.len(),
            out@ =~= before + digits@.take(j as int),
        decreases digits.len() - j,
    {
        out.push(digits[j]);
        j = j + 1;
    }
    assert(digits@.take(digits@.len() as int) =~= digits@);
    proof {
        reveal_strlit(":");
        assert(out@ =~= "cpal:"@ + zero_padded(hex@, 16) + ":"@ + digits@);
    }
    string_from_chars(&out)
}

/// A device's identifier depends on its name only through the trimmed,
/// lower-case name: the same device gets the same identifier on every run.
pub proof fn law_uid_follows_normalized_name(a: Seq<char>, b: Seq<char>, occurrence: nat)
    requires
        spec_to_lowercase(trim_seq(a)) == spec_to_lowercase(trim_seq(b)),
    ensures
        stable_uid_spec(a, occurrence) == stable_uid_spec(b, occurrence),
{
}

/// Devices that share a name get different identifiers.
pub proof fn law_uid_distinguishes_duplicates(name: Seq<char>, a: nat, b: nat)
    requires
        a != b,
    ensures
        stable_uid_spec(name, a) != stable_uid_spec(name, b),
{
    let normalized = spec_to_lowercase(trim_seq(name));
    let prefix = "cpal:"@ + zero_padded(hex_seq(fnv1a64_spec(encode_utf8(normalized)) as nat), 16) + ":"@;
    assert(stable_uid_spec(name, a) == prefix + decimal_seq(a));
    assert(stable_uid_spec(name, b) == prefix + decimal_seq(b));
    if prefix + decimal_seq(a) == prefix + decimal_seq(b) {
        assert((prefix + decimal_seq(a)).skip(prefix.len() as int) =~= decimal_seq(a));
        assert((prefix + decimal_seq(b)).skip(prefix.len() as int) =~= decimal_seq(b));
        lemma_decimal_injective(a, b);
    }
}

pub proof fn lemma_decimal_len(n: nat)
    ensures
        decimal_seq(n).len() >= 1,
        n >= 10 ==> decimal_seq(n).len() >= 2,
    decreases n,
{
    if n >= 10 {
        lemma_decimal_len(n / 10);
    }
}

pub proof fn lemma_decimal_injective(a: nat, b: nat)
    requires
        decimal_seq(a) == decimal_seq(b),
    ensures
        a == b,
    decreases a,
{
    lemma_decimal_len(a);
    lemma_decimal_len(b);
    if a < 10 && b < 10 {
        assert(decimal_seq(a) == seq![crate::text::digit_char(a)]);
        assert(decimal_seq(b) == seq![crate::text::digit_char(b)]);
        assert(seq![crate::text::digit_char(a)][0] == crate::text::digit_char(a));
        assert(seq![crate::text::digit_char(b)][0] == crate::text::digit_char(b));
        assert(crate::text::digit_char(a) == crate::text::digit_char(b));
        assert((crate::text::digit_char(a) as int) == 48 + a);
        assert((crate::text::digit_char(b) as int) == 48 + b);
    } else if a >= 10 && b >= 10 {
        let da = decimal_seq(a);
        let db = decimal_seq(b);
        assert(da == decimal_seq(a / 10) + seq![crate::text::digit_char(a % 10)]);
        assert(db == decimal_seq(b / 10) + seq![crate::text::digit_char(b % 10)]);
        assert(da.last() == db.last());
        assert(da.drop_last() =~= decimal_seq(a / 10));
        assert(db.drop_last() =~= decimal_seq(b / 10));
        lemma_decimal_injective(a / 10, b / 10);
        assert(crate::text::digit_char(a % 10) == crate::text::digit_char(b % 10));
        assert((crate::text::digit_char(a % 10) as int) == 48 + a % 10);
        assert((crate::text::digit_char(b % 10) as int) == 48 + b % 10);
    }
}

/// How many of the first `n` names equal `x`.
pub open spec fn count_before(names: Seq<String>, n: int, x: Seq<char>) -> nat
    decreases n,
{
    if n <= 0 {
        0
    } else {
        count_before(names, n - 1, x) + if names[n - 1]@ == x {
            1nat
        } else {
            0nat
        }
    }
}

/// Whether the `i`-th name is the first one equal to the default name.
pub open spec fn claims_default(names: Seq<String>, i: int, default_name: Option<&str>) -> bool {
    default_name matches Some(d) && names[i]@ == d@ && forall|j: int|
        0 <= j < i ==> #[trigger] names[j]@ != d@
}

/// The devices for the names an audio host lists, in its order: each
/// identified by its name and its rank among devices of that name, and only
/// the first device named like the host's default marked as default.
pub open spec fn device_entries_spec(names: Seq<String>, default_name: Option<&str>, r: Seq<AudioDevice>) -> bool {
    &&& r.len() == names.len()
    &&& forall|i: int|
        0 <= i < names.len() ==> {
            &&& (#[trigger] r[i]).name@ == names[i]@
            &&& r[i].uid@ == stable_uid_spec(names[i]@, count_before(names, i, names[i]@))
            &&& r[i].is_default == claims_default(names, i, default_name)
        }
}

fn occurrences_before(names: &Vec<String>, i: usize) -> (r: usize)
    requires
        i < names@.len(),
    ensures
        r == count_before(names@, i as int, names@[i as int]@),
        r <= i,
{
    let mut count: usize = 0;
    let mut j: usize = 0;
    while j < i
        invariant
            j <= i < names@.len(),
            count == count_before(names@, j as int, names@[i as int]@),
            count <= j,
        decreases i - j,
    {
        if str_eq(names[j].as_str(), names[i].as_str()) {
            count = count + 1;
        }
        j = j + 1;
    }
    count
}

pub fn device_entries(names: &Vec<String>, default_name: Option<&str>) -> (r: Vec<AudioDevice>)
    ensures
        device_entries_spec(names@, default_name, r@),
{
    let mut entries: Vec<AudioDevice> = Vec::new();
    let mut default_claimed = false;
    let mut i: usize = 0;
    while i < names.len()
        invariant
            i <= names@.len(),
            entries@.len() == i,
            default_claimed == exists|j: int| 0 <= j < i && claims_default(names@, j, default_name),
            default_claimed == (default_name matches Some(d) && exists|j: int|
                0 <= j < i && #[trigger] names@[j]@ == d@),
            forall|k: int|
                0 <= k < i ==> {
                    &&& (#[trigger] entries@[k]).name@ == names@[k]@
                    &&& entries@[k].uid@ == stable_uid_spec(names@[k]@, count_before(names@, k, names@[k]@))
                    &&& entries@[k].is_default == claims_default(names@, k, default_name)
                },
        decreases names.len() - i,
    {
        let name = names[i].as_str();
        let occurrence = occurrences_before(names, i);
        let uid = stable_device_uid(name, occurrence);
        let matches_default = match default_name {
            Some(d) => str_eq(d, name),
            None => false,
        };
        let is_default = matches_default && !default_claimed;
        proof {
            if is_default {
                let d = default_name->Some_0;
                assert forall|j: int| 0 <= j < i implies #[trigger] names@[j]@ != d@ by {}
                assert(claims_default(names@, i as int, default_name));
            } else if matches_default {
                let d = default_name->Some_0;
                let j = choose|j: int| 0 <= j < i && #[trigger] names@[j]@ == d@;
                assert(!claims_default(names@, i as int, default_name));
            }
            if matches_default {
                let d = default_name->Some_0;
                assert(names@[i as int]@ == d@);
            }
        }
        if is_default {
            default_claimed = true;
        }
        entries.push(AudioDevice { uid, name: String::from_str(name), is_default });
        i = i + 1;
    }
    entries
}

/// The position of the first entry with the given identifier.
pub open spec fn first_uid_at(entries: Seq<(&str, bool)>, uid: Seq<char>, r: int) -> bool {
    0 <= r < entries.len() && entries[r].0@ == uid && forall|j: int| 0 <= j < r ==> #[trigger] entries[j].0@ != uid
}

/// The position of the first entry marked default.
pub open spec fn first_default_at(entries: Seq<(&str, bool)>, r: int) -> bool {
    0 <= r < entries.len() && entries[r].1 && forall|j: int| 0 <= j < r ==> !#[trigger] entries[j].1
}

/// The device to record from: the selected one when it is listed, else the
/// default one, else the first.
pub open spec fn selected_index_spec(entries: Seq<(&str, bool)>, selected_uid: Option<&str>, r: int) -> bool {
    let wanted = selected_uid matches Some(u) && u@.len() > 0 && exists|i: int|
        0 <= i < entries.len() && #[trigger] entries[i].0@ == u@;
    if wanted {
        first_uid_at(entries, selected_uid->Some_0@, r)
    } else if exists|i: int| 0 <= i < entries.len() && #[trigger] entries[i].1 {
        first_default_at(entries, r)
    } else {
        r == 0
    }
}

pub fn selected_device_index(entries: &[(&str, bool)], selected_uid: Option<&str>) -> (r: usize)
    ensures
        selected_index_spec(entries@, selected_uid, r as int),
{
    match selected_uid {
        Some(uid) => {
            if uid.unicode_len() > 0 {
                let mut i: usize = 0;
                while i < entries.len()
                    invariant
                        i <= entries@.len(),
                        uid@.len() > 0,
                        selected_uid == Some(uid),
                        forall|k: int| 0 <= k < i ==> #[trigger] entries@[k].0@ != uid@,
                    decreases entries.len() - i,
                {
                    if str_eq(entries[i].0, uid) {
                        return i;
                    }
                    i = i + 1;
                }
            }
        },
        None => {},
    }
    let mut i: usize = 0;
    while i < entries.len()
        invariant
            i <= entries@.len(),
            !(selected_uid matches Some(u) && u@.len() > 0 && exists|j: int|
                0 <= j < entries@.len() && #[trigger] entries@[j].0@ == u@),
            forall|k: int| 0 <= k < i ==> !#[trigger] entries@[k].1,
        decreases entries.len() - i,
    {
        if entries[i].1 {
            return i;
        }
        i = i + 1;
    }
    0
}

/// With PulseAudio in use, an identifier left over from the other backend
/// selects nothing.
pub open spec fn pulse_selection_spec<'a>(pulse_available: bool, selected_uid: Option<&'a str>) -> Option<&'a str> {
    if pulse_available && (selected_uid matches Some(u) && starts_with_seq(u@, "cpal:"@)) {
        None
    } else {
        selected_uid
    }
}

pub fn selected_uid_for_pulse_backend<'a>(pulse_available: bool, selected_uid: Option<&'a str>) -> (r: Option<&'a str>)
    ensures
        r == pulse_selection_spec(pulse_available, selected_uid),
{
    if pulse_available {
        match selected_uid {
            Some(uid) => {
                let chars = chars_of(uid);
                let prefix = chars_of("cpal:");
                if starts_with_chars(&chars, &prefix) {
                    return None;
                }
            },
            None => {},
        }
    }
    selected_uid
}

pub open spec fn blocked_microphone_message() -> Seq<char> {
    "Linux microphone access is blocked. Check your desktop privacy settings, PipeWire/PulseAudio input permissions, and selected input device, then try again."@
}

/// The error for a failed microphone operation: privacy refusals get the
/// guidance text; anything else names the action, the device and the cause.
pub open spec fn capture_error_spec(action: Seq<char>, device_name: Seq<char>, message: Seq<char>) -> Seq<char> {
    if is_denial_spec(message) {
        blocked_microphone_message()
    } else {
        "Could not "@ + action + " Linux microphone `"@ + device_name + "`: "@ + message
    }
}

pub fn microphone_capture_error(action: &str, device_name: &str, message: &str) -> (r: String)
    ensures
        r@ == capture_error_spec(action@, device_name@, message@),
{
    if is_known_microphone_denial(message) {
        return String::from_str(
            "Linux microphone access is blocked. Check your desktop privacy settings, PipeWire/PulseAudio input permissions, and selected input device, then try again.",
        );
    }
    let a = concat_str("Could not ", action);
    let b = concat_str(a.as_str(), " Linux microphone `");
    let c = concat_str(b.as_str(), device_name);
    let d = concat_str(c.as_str(), "`: ");
    concat_str(d.as_str(), message)
}

/// The error kept when a recording stream fails part way.
pub open spec fn stream_error_spec(device_name: Seq<char>, error: Seq<char>) -> Seq<char> {
    if is_denial_spec(error) {
        "Linux microphone access was blocked while recording. Check your desktop privacy settings, PipeWire/PulseAudio input permissions, and selected input device, then try again."@
    } else {
        "Linux microphone `"@ + device_name
            + "` stopped while recording. Check that the microphone is still connected and selected, then try again. Details: "@
            + error
    }
}

pub fn microphone_stream_error_message(device_name: &str, error: &str) -> (r: String)
    ensures
        r@ == stream_error_spec(device_name@, error@),
{
    if is_known_microphone_denial(error) {
        return String::from_str(
            "Linux microphone access was blocked while recording. Check your desktop privacy settings, PipeWire/PulseAudio input permissions, and selected input device, then try again.",
        );
    }
    let a = concat_str("Linux microphone `", device_name);
    let b = concat_str(
        a.as_str(),
        "` stopped while recording. Check that the microphone is still connected and selected, then try again. Details: ",
    );
    concat_str(b.as_str(), error)
}

} // verus!
