//! Reading PulseAudio's source list and choosing the source to record from.
use vstd::prelude::*;
use crate::linux::paste::{first_line, lemma_line_end, line_end};
use crate::protocol::AudioDevice;
use crate::text::{
    chars_of, concat_str, ends_with_chars, ends_with_seq, starts_with_chars, starts_with_seq,
    str_eq, string_from_chars, sub_chars, trim_chars, trim_seq,
};

verus! {

/// A capture source as `pactl` lists it.
#[derive(Debug, Clone, PartialEq, Eq)]
pub struct PulseSource {
    pub name: String,
    pub description: String,
    pub is_default: bool,
}

/// The index of the first `c` in `s`, or its length.
pub open spec fn stop_at(s: Seq<char>, c: char) -> int
    decreases s.len(),
{
    if s.len() == 0 || s[0] == c {
        0
    } else {
        1 + stop_at(s.drop_first(), c)
    }
}

pub proof fn lemma_stop_at(s: Seq<char>, c: char)
    ensures
        0 <= stop_at(s, c) <= s.len(),
        stop_at(s, c) < s.len() ==> s[stop_at(s, c)] == c,
        forall|j: int| 0 <= j < stop_at(s, c) ==> s[j] != c,
    decreases s.len(),
{
    if s.len() > 0 && s[0] != c {
        lemma_stop_at(s.drop_first(), c);
        assert forall|j: int| 0 <= j < stop_at(s, c) implies s[j] != c by {
            if j > 0 {
                assert(s[j] == s.drop_first()[j - 1]);
            }
        }
    }
}

/// The second tab-separated field of a line, when the line has a tab.
pub open spec fn second_field(line: Seq<char>) -> Option<Seq<char>> {
    let t = stop_at(line, '\t');
    if t < line.len() {
        let rest = line.skip(t + 1);
        Some(rest.take(stop_at(rest, '\t')))
    } else {
        None
    }
}

/// The source a line of `pactl list sources short` names: its trimmed second
/// field, unless that is empty or a monitor of an output.
pub open spec fn source_name_of_line(line: Seq<char>) -> Option<Seq<char>> {
    match second_field(line) {
        Some(f) => {
            let name = trim_seq(f);
            if name.len() == 0 || ends_with_seq(name, ".monitor"@) {
                None
            } else {
                Some(name)
            }
        },
        None => None,
    }
}

/// The names of the sources listed in `s`, line by line.
pub open spec fn source_names(s: Seq<char>) -> Seq<Seq<char>>
    decreases s.len(),
{
    if s.len() == 0 {
        Seq::empty()
    } else {
        let head = match source_name_of_line(first_line(s)) {
            Some(n) => seq![n],
            None => Seq::empty(),
        };
        if line_end(s) + 1 <= s.len() {
            proof {
                lemma_line_end(s);
            }
            head + source_names(s.skip(line_end(s) + 1))
        } else {
            head
        }
    }
}

/// The sources of a listing, each described by its own name and marked
/// default when it is the default source.
pub open spec fn sources_are(r: Seq<PulseSource>, names: Seq<Seq<char>>, default: Option<&str>) -> bool {
    &&& r.len() == names.len()
    &&& forall|i: int|
        0 <= i < names.len() ==> {
            &&& (#[trigger] r[i]).name@ == names[i]
            &&& r[i].description@ == names[i]
            &&& r[i].is_default == (default matches Some(d) && d@ == names[i])
        }
}

fn stop_index(v: &Vec<char>, from: usize, c: char) -> (r: usize)
    requires
        from <= v@.len(),
    ensures
        r - from == stop_at(v@.skip(from as int), c),
        from <= r <= v@.len(),
{
    let ghost s = v@.skip(from as int);
    let mut i = from;
    while i < v.len() && v[i] != c
        invariant
            from <= i <= v@.len(),
            forall|j: int| from <= j < i ==> v@[j] != c,
        decreases v.len() - i,
    {
        i = i + 1;
    }
    proof {
        lemma_stop_at(s, c);
        let e = stop_at(s, c);
        if e < i - from {
            assert(s[e] == v@[from + e]);
        }
        if e > i - from {
            assert(s[i - from] == v@[i as int]);
        }
    }
    i
}

fn source_name_from_line(line: &Vec<char>) -> (r: Option<Vec<char>>)
    ensures
        match r {
            Some(n) => source_name_of_line(line@) == Some(n@),
            None => source_name_of_line(line@) is None,
        },
{
    let t = stop_index(line, 0, '\t');
    assert(line@.skip(0) =~= line@);
    if t >= line.len() {
        return None;
    }
    let rest = sub_chars(line.as_slice(), t + 1, line.len());
    assert(rest@ =~= line@.skip(t + 1));
    let u = stop_index(&rest, 0, '\t');
    assert(rest@.skip(0) =~= rest@);
    let field = sub_chars(rest.as_slice(), 0, u);
    assert(field@ =~= rest@.take(u as int));
    let name = trim_chars(field.as_slice());
    let suffix = chars_of(".monitor");
    if name.len() == 0 || ends_with_chars(&name, &suffix) {
        None
    } else {
        Some(name)
    }
}

pub fn list_sources_from_short_output(text: &str, default: Option<&str>) -> (r: Vec<PulseSource>)
    ensures
        sources_are(r@, source_names(text@), default),
{
    let v = chars_of(text);
    let n = v.len();
    let mut sources: Vec<PulseSource> = Vec::new();
    let mut start: usize = 0;
    let ghost mut names: Seq<Seq<char>> = Seq::empty();
    assert(v@.skip(0) =~= v@);
    while start < n
        invariant
            n == v@.len(),
            v@ == text@,
            start <= n,
            source_names(v@) == names + source_names(v@.skip(start as int)),
            sources_are(sources@, names, default),
        decreases n - start,
    {
        let ghost s = v@.skip(start as int);
        let end = stop_index(&v, start, '\n');
        proof {
            lemma_line_end(s);
            lemma_stop_at(s, '\n');
            assert(line_end(s) == stop_at(s, '\n')) by {
                let e = line_end(s);
                let f = stop_at(s, '\n');
                if e < f {
                    assert(s[e] == '\n');
                }
                if f < e {
                    assert(s[f] == '\n');
                }
            }
        }
        let mut line_stop = end;
        if line_stop > start && v[line_stop - 1] == '\r' {
            line_stop = line_stop - 1;
        }
        let line = sub_chars(v.as_slice(), start, line_stop);
        proof {
            let raw = s.take(line_end(s));
            assert(raw =~= v@.subrange(start as int, end as int));
            assert(line@ =~= first_line(s));
        }
        let found = source_name_from_line(&line);
        let ghost head: Seq<Seq<char>> = match source_name_of_line(first_line(s)) {
            Some(x) => seq![x],
            None => Seq::empty(),
        };
        match found {
            Some(name) => {
                let is_default = match default {
                    Some(d) => {
                        let dv = chars_of(d);
                        crate::text::chars_eq(&dv, &name)
                    },
                    None => false,
                };
                let name_string = string_from_chars(&name);
                let description = string_from_chars(&name);
                sources.push(PulseSource { name: name_string, description, is_default });
                proof {
                    let old_names = names;
                    names = names.push(name@);
                    assert forall|i: int| 0 <= i < names.len() implies {
                        &&& (#[trigger] sources@[i]).name@ == names[i]
                        &&& sources@[i].description@ == names[i]
                        &&& sources@[i].is_default == (default matches Some(d) && d@ == names[i])
                    } by {
                        if i < old_names.len() {
                            assert(names[i] == old_names[i]);
                        }
                    }
                }
            },
            None => {},
        }
        if end >= n {
            proof {
                assert(source_names(s) == head);
                assert(v@.skip(n as int) =~= Seq::<char>::empty());
                assert(names =~= names);
            }
            assert(source_names(v@) == names);
            return sources;
        }
        proof {
            assert(s.skip(end - start + 1) =~= v@.skip(end + 1));
            assert(source_names(s) == head + source_names(v@.skip(end + 1)));
        }
        start = end + 1;
    }
    assert(v@.skip(n as int) =~= Seq::<char>::empty());
    assert(names + Seq::<Seq<char>>::empty() =~= names);
    sources
}

/// The devices offered while PulseAudio is in use: the system default first,
/// then one per source, identified by `pulse:` and the source's name.
pub open spec fn pulse_devices_are(r: Seq<AudioDevice>, sources: Seq<PulseSource>) -> bool {
    &&& r.len() == sources.len() + 1
    &&& r[0].uid@ == "pulse:default"@
    &&& r[0].name@ == "System Default"@
    &&& r[0].is_default
    &&& forall|i: int|
        0 <= i < sources.len() ==> {
            &&& (#[trigger] r[i + 1]).uid@ == "pulse:"@ + sources[i].name@
            &&& r[i + 1].name@ == sources[i].description@
            &&& r[i + 1].is_default == sources[i].is_default
        }
}

pub fn input_devices_from_sources(sources: &Vec<PulseSource>) -> (r: Vec<AudioDevice>)
    ensures
        pulse_devices_are(r@, sources@),
{
    let mut devices: Vec<AudioDevice> = Vec::new();
    devices.push(
        AudioDevice {
            uid: String::from_str("pulse:default"),
            name: String::from_str("System Default"),
            is_default: true,
        },
    );
    let mut i: usize = 0;
    while i < sources.len()
        invariant
            i <= sources@.len(),
            devices@.len() == i + 1,
            devices@[0].uid@ == "pulse:default"@,
            devices@[0].name@ == "System Default"@,
            devices@[0].is_default,
            forall|k: int|
                0 <= k < i ==> {
                    &&& (#[trigger] devices@[k + 1]).uid@ == "pulse:"@ + sources@[k].name@
                    &&& devices@[k + 1].name@ == sources@[k].description@
                    &&& devices@[k + 1].is_default == sources@[k].is_default
                },
        decreases sources.len() - i,
    {
        let source = &sources[i];
        let ghost before = devices@;
        devices.push(
            AudioDevice {
                uid: concat_str("pulse:", source.name.as_str()),
                name: String::from_str(source.description.as_str()),
                is_default: source.is_default,
            },
        );
        proof {
            assert forall|k: int| 0 <= k < i + 1 implies {
                &&& (#[trigger] devices@[k + 1]).uid@ == "pulse:"@ + sources@[k].name@
                &&& devices@[k + 1].name@ == sources@[k].description@
                &&& devices@[k + 1].is_default == sources@[k].is_default
            } by {
                if k < i {
                    assert(devices@[k + 1] == before[k + 1]);
                }
            }
        }
        i = i + 1;
    }
    devices
}

/// What follows `pulse:` in a selected identifier, if it has that prefix.
pub open spec fn pulse_suffix(selected_uid: Option<&str>) -> Option<Seq<char>> {
    match selected_uid {
        Some(u) => if starts_with_seq(u@, "pulse:"@) {
            Some(u@.skip(6))
        } else {
            None
        },
        None => None,
    }
}

fn strip_pulse_prefix(selected_uid: Option<&str>) -> (r: Option<Vec<char>>)
    ensures
        match r {
            Some(v) => pulse_suffix(selected_uid) == Some(v@),
            None => pulse_suffix(selected_uid) is None,
        },
{
    match selected_uid {
        Some(uid) => {
            let chars = chars_of(uid);
            let prefix = chars_of("pulse:");
            if starts_with_chars(&chars, &prefix) {
                proof {
                    reveal_strlit("pulse:");
                }
                let rest = sub_chars(chars.as_slice(), 6, chars.len());
                assert(rest@ =~= uid@.skip(6));
                Some(rest)
            } else {
                None
            }
        },
        None => None,
    }
}

/// The source to record from: the selected `pulse:` source unless it is the
/// system default, in which case PulseAudio chooses.
pub open spec fn recording_source_spec(selected_uid: Option<&str>) -> Option<Seq<char>> {
    match pulse_suffix(selected_uid) {
        Some(s) => if s == "default"@ {
            None
        } else {
            Some(s)
        },
        None => None,
    }
}

pub fn recording_source_name(selected_uid: Option<&str>) -> (r: Option<String>)
    ensures
        match r {
            Some(s) => recording_source_spec(selected_uid) == Some(s@),
            None => recording_source_spec(selected_uid) is None,
        },
{
    match strip_pulse_prefix(selected_uid) {
        Some(rest) => {
            let d = chars_of("default");
            if crate::text::chars_eq(&rest, &d) {
                None
            } else {
                Some(string_from_chars(&rest))
            }
        },
        None => None,
    }
}

/// The source a probe has to find: a selected `pulse:` source other than an
/// empty one or the system default.
pub open spec fn probed_source_spec(selected_uid: Option<&str>) -> Option<Seq<char>> {
    match recording_source_spec(selected_uid) {
        Some(s) => if s.len() == 0 {
            None
        } else {
            Some(s)
        },
        None => None,
    }
}

/// A probe fails when the selected source is not among the listed devices.
pub open spec fn probe_selection_spec(devices: Seq<AudioDevice>, selected_uid: Option<&str>) -> Result<(), Seq<char>> {
    match probed_source_spec(selected_uid) {
        Some(s) => if exists|i: int| 0 <= i < devices.len() && #[trigger] devices[i].uid@ == "pulse:"@ + s {
            Ok(())
        } else {
            Err("Selected PulseAudio/PipeWire source is not available: "@ + s)
        },
        None => Ok(()),
    }
}

pub fn check_selected_source(devices: &Vec<AudioDevice>, selected_uid: Option<&str>) -> (r: Result<(), String>)
    ensures
        match r {
            Ok(_) => probe_selection_spec(devices@, selected_uid) is Ok,
            Err(e) => probe_selection_spec(devices@, selected_uid) == Err::<(), Seq<char>>(e@),
        },
{
    match recording_source_name(selected_uid) {
        Some(name) => {
            if name.as_str().unicode_len() == 0 {
                return Ok(());
            }
            let wanted = concat_str("pulse:", name.as_str());
            let mut i: usize = 0;
            while i < devices.len()
                invariant
                    i <= devices@.len(),
                    wanted@ == "pulse:"@ + name@,
                    name@.len() > 0,
                    recording_source_spec(selected_uid) == Some(name@),
                    forall|k: int| 0 <= k < i ==> #[trigger] devices@[k].uid@ != wanted@,
                decreases devices.len() - i,
            {
                if str_eq(devices[i].uid.as_str(), wanted.as_str()) {
                    assert(devices@[i as int].uid@ == wanted@);
                    return Ok(());
                }
                i = i + 1;
            }
            Err(concat_str("Selected PulseAudio/PipeWire source is not available: ", name.as_str()))
        },
        None => Ok(()),
    }
}

} // verus!
