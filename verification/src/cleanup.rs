use vstd::prelude::*;
use regex::RegexBuilder;
use crate::text::{
    chars_eq, chars_of, contains_chars, contains_seq, has_char, is_whitespace, is_ws, replace_seq,
    replace_str, spec_to_lowercase, starts_with_chars, starts_with_seq, string_from_chars, sub_chars,
    to_lowercase_str, trim_chars, trim_seq, trim_start_chars, trim_start_seq,
};

verus! {

// ---------------------------------------------------------------------------
// Regular expressions (regex crate)
// ---------------------------------------------------------------------------

/// What `replace_all` gives with the pattern compiled case-insensitively with
/// `.` matching newlines (the text unchanged when the pattern does not compile).
pub uninterp spec fn spec_regex_replace_all(pattern: Seq<char>, text: Seq<char>, replacement: Seq<char>) -> Seq<char>;

/// `RegexBuilder::new(pattern).case_insensitive(true).dot_matches_new_line(true).build()`
/// then `Regex::replace_all(text, replacement)`; on a build error the text.
/// The result is named `spec_regex_replace_all`; nothing more is claimed.
#[verifier::external_body]
fn regex_replace(pattern: &str, text: &str, replacement: &str) -> (r: String)
    ensures
        r@ == spec_regex_replace_all(pattern@, text@, replacement@),
{
    RegexBuilder::new(pattern)
        .case_insensitive(true)
        .dot_matches_new_line(true)
        .build()
        .map(|regex| regex.replace_all(text, replacement).to_string())
        .unwrap_or_else(|_| text.to_string())
}

/// Whether the pattern, compiled case-insensitively and multi-line, matches
/// somewhere in the text (false when it does not compile).
pub uninterp spec fn spec_regex_is_match(pattern: Seq<char>, text: Seq<char>) -> bool;

/// `RegexBuilder::new(pattern).case_insensitive(true).multi_line(true).build()`
/// then `Regex::is_match(text)`; false on a build error. Named `spec_regex_is_match`.
#[verifier::external_body]
fn regex_contains(pattern: &str, text: &str) -> (r: bool)
    ensures
        r == spec_regex_is_match(pattern@, text@),
{
    RegexBuilder::new(pattern)
        .case_insensitive(true)
        .multi_line(true)
        .build()
        .map(|regex| regex.is_match(text))
        .unwrap_or(false)
}

/// Where the first match of the pattern (case-insensitive, multi-line) starts,
/// counted in characters.
pub uninterp spec fn spec_regex_find_start(pattern: Seq<char>, text: Seq<char>) -> Option<nat>;

/// `RegexBuilder::new(pattern).case_insensitive(true).multi_line(true).build()`
/// then `Regex::find(text)`: the start of the leftmost-first match, converted
/// from a byte offset to a character count; none without a match or on a
/// build error. Named `spec_regex_find_start`; a match lies within the text.
#[verifier::external_body]
fn regex_find_start(pattern: &str, text: &str) -> (r: Option<usize>)
    ensures
        r matches Some(i) ==> i <= text@.len(),
        match r {
            Some(i) => spec_regex_find_start(pattern@, text@) == Some(i as nat),
            None => spec_regex_find_start(pattern@, text@) is None,
        },
{
    let regex = RegexBuilder::new(pattern).case_insensitive(true).multi_line(true).build().ok()?;
    regex.find(text).map(|found| text[..found.start()].chars().count())
}

/// The end of the whole match and the text of group 1, for the pattern compiled
/// case-insensitively.
pub uninterp spec fn spec_regex_captures(pattern: Seq<char>, text: Seq<char>) -> Option<(nat, Seq<char>)>;

/// `RegexBuilder::new(pattern).case_insensitive(true).build()` then
/// `Regex::captures(text)`: the end of group 0 (a character count) and the
/// text of group 1; none when there is no match, no group 1, or on a build
/// error. Named `spec_regex_captures`; the match lies within the text.
#[verifier::external_body]
fn regex_captures(pattern: &str, text: &str) -> (r: Option<(usize, String)>)
    ensures
        r matches Some(c) ==> c.0 <= text@.len(),
        match r {
            Some(c) => spec_regex_captures(pattern@, text@) == Some((c.0 as nat, c.1@)),
            None => spec_regex_captures(pattern@, text@) is None,
        },
{
    let regex = RegexBuilder::new(pattern).case_insensitive(true).build().ok()?;
    let captures = regex.captures(text)?;
    let whole = captures.get(0)?;
    let header = captures.get(1)?;
    Some((text[..whole.end()].chars().count(), header.as_str().to_string()))
}


// ---------------------------------------------------------------------------
// Patterns and markers
// ---------------------------------------------------------------------------

pub const CHANNEL_THOUGHT_PATTERN: &'static str = r"<\|channel\>\s*thought\s*.*?<channel\|>";
pub const CHANNEL_PATTERN: &'static str = r"<\|channel\>.*?<channel\|>";
pub const THINK_BLOCK_PATTERN: &'static str = r"<\s*think\b[^>]*>.*?<\s*/\s*think\s*>";
pub const THINK_TAG_PATTERN: &'static str = r"<\s*/?\s*think\b[^>]*>";
pub const TOOL_TAG_PATTERN: &'static str = r"<\|/?(?:turn|tool|tool_call|tool_response)\|?>";
pub const REASONING_HEADER_PATTERN: &'static str = r"^\s*(thinking process|thought process|reasoning|analysis)\s*:\s*";
pub const FINAL_OUTPUT_PATTERN: &'static str = r"^\s*(?:Final answer|Final|Cleaned transcript|Cleaned text|Cleaned|Output|Answer|Response)\s*:";
pub const NUMBERED_STEP_PATTERN: &'static str = r"^\s*\d+\.\s+";
pub const BOLD_BULLET_PATTERN: &'static str = r"^\s*[*-]\s+\*\*?[A-Za-z][^:\n]{0,64}:\*\*?";

/// The literal markers removed from model output, in order.
pub open spec fn output_markers() -> Seq<Seq<char>> {
    seq![
        "<|im_start|>assistant"@,
        "<|im_start|>user"@,
        "<|im_start|>system"@,
        "<|im_end|>"@,
        "<|turn>assistant"@,
        "<|turn>model"@,
        "<|turn>user"@,
        "<|turn>system"@,
        "<turn|>"@,
        "<|think|>"@,
        "<|channel>thought"@,
        "<channel|>"@,
        "<|endoftext|>"@,
        "/no_think"@,
    ]
}

/// The markers `k..` removed in turn.
pub open spec fn remove_markers(s: Seq<char>, markers: Seq<Seq<char>>) -> Seq<char>
    decreases markers.len(),
{
    if markers.len() == 0 {
        s
    } else {
        replace_seq(remove_markers(s, markers.drop_last()), markers.last(), ""@)
    }
}

fn output_marker_list() -> (r: Vec<&'static str>)
    ensures
        r@.map_values(|m: &'static str| m@) == output_markers(),
        forall|i: int| 0 <= i < r@.len() ==> (#[trigger] r@[i])@.len() > 0,
{
    let v = vec![
        "<|im_start|>assistant",
        "<|im_start|>user",
        "<|im_start|>system",
        "<|im_end|>",
        "<|turn>assistant",
        "<|turn>model",
        "<|turn>user",
        "<|turn>system",
        "<turn|>",
        "<|think|>",
        "<|channel>thought",
        "<channel|>",
        "<|endoftext|>",
        "/no_think",
    ];
    proof {
        reveal_strlit("<|im_start|>assistant");
        reveal_strlit("<|im_start|>user");
        reveal_strlit("<|im_start|>system");
        reveal_strlit("<|im_end|>");
        reveal_strlit("<|turn>assistant");
        reveal_strlit("<|turn>model");
        reveal_strlit("<|turn>user");
        reveal_strlit("<|turn>system");
        reveal_strlit("<turn|>");
        reveal_strlit("<|think|>");
        reveal_strlit("<|channel>thought");
        reveal_strlit("<channel|>");
        reveal_strlit("<|endoftext|>");
        reveal_strlit("/no_think");
        assert(v@.map_values(|m: &'static str| m@) =~= output_markers());
    }
    v
}

fn strip_markers(v: &Vec<char>) -> (r: Vec<char>)
    ensures
        r@ == remove_markers(v@, output_markers()),
{
    let markers = output_marker_list();
    let mut out = sub_chars(v.as_slice(), 0, v.len());
    assert(out@ =~= v@);
    let mut i: usize = 0;
    while i < markers.len()
        invariant
            i <= markers@.len(),
            markers@.map_values(|m: &'static str| m@) == output_markers(),
            forall|j: int| 0 <= j < markers@.len() ==> (#[trigger] markers@[j])@.len() > 0,
            out@ == remove_markers(v@, output_markers().take(i as int)),
        decreases markers.len() - i,
    {
        assert(markers@[i as int]@.len() > 0);
        out = replace_str(out.as_slice(), markers[i], "");
        i = i + 1;
        proof {
            let t = output_markers().take(i as int);
            assert(t.drop_last() =~= output_markers().take(i - 1));
            assert(t.last() == markers@[i - 1]@);
        }
    }
    assert(output_markers().take(markers@.len() as int) =~= output_markers());
    out
}


// ---------------------------------------------------------------------------
// Output prefixes
// ---------------------------------------------------------------------------

pub open spec fn output_prefixes() -> Seq<Seq<char>> {
    seq![
        "Output:"@,
        "Cleaned text:"@,
        "Cleaned:"@,
        "Cleaned transcript:"@,
        "Final:"@,
        "Final answer:"@,
        "Answer:"@,
        "Response:"@,
        "model"@,
        "assistant"@,
    ]
}

/// The text starts with the prefix ignoring case; a role word must be followed
/// by the end, a colon or whitespace.
pub open spec fn prefix_applies(s: Seq<char>, prefix: Seq<char>) -> bool {
    &&& starts_with_seq(spec_to_lowercase(s), spec_to_lowercase(prefix))
    &&& s.len() >= prefix.len()
    &&& (prefix == "model"@ || prefix == "assistant"@) ==> (s.len() == prefix.len() || s[prefix.len() as int] == ':' || is_ws(
        s[prefix.len() as int],
    ))
}

/// One pass over the prefixes from `k`, each removed (with the whitespace
/// after it) when it applies; with whether any was removed.
pub open spec fn prefix_pass(s: Seq<char>, k: int, removed: bool) -> (Seq<char>, bool)
    decreases 10 - k,
{
    if k < 0 || k >= 10 {
        (s, removed)
    } else if prefix_applies(s, output_prefixes()[k]) {
        prefix_pass(trim_seq(s.skip(output_prefixes()[k].len() as int)), k + 1, true)
    } else {
        prefix_pass(s, k + 1, removed)
    }
}

pub proof fn lemma_prefix_pass_len(s: Seq<char>, k: int, removed: bool)
    ensures
        prefix_pass(s, k, removed).0.len() <= s.len(),
        prefix_pass(s, k, removed).1 && !removed ==> prefix_pass(s, k, removed).0.len() < s.len(),
        !prefix_pass(s, k, removed).1 ==> prefix_pass(s, k, removed).0 == s,
        removed ==> prefix_pass(s, k, removed).1,
    decreases 10 - k,
{
    reveal_strlit("Output:");
    reveal_strlit("Cleaned text:");
    reveal_strlit("Cleaned:");
    reveal_strlit("Cleaned transcript:");
    reveal_strlit("Final:");
    reveal_strlit("Final answer:");
    reveal_strlit("Answer:");
    reveal_strlit("Response:");
    reveal_strlit("model");
    reveal_strlit("assistant");
    if 0 <= k < 10 {
        if prefix_applies(s, output_prefixes()[k]) {
            let t = trim_seq(s.skip(output_prefixes()[k].len() as int));
            crate::text::lemma_trim_len(s.skip(output_prefixes()[k].len() as int));
            lemma_prefix_pass_len(t, k + 1, true);
        } else {
            lemma_prefix_pass_len(s, k + 1, removed);
        }
    }
}

/// Passes repeated until none removes a prefix.
pub open spec fn strip_prefix_loop(s: Seq<char>) -> Seq<char>
    decreases s.len(),
{
    let (t, removed) = prefix_pass(s, 0, false);
    if removed {
        proof {
            lemma_prefix_pass_len(s, 0, false);
        }
        strip_prefix_loop(t)
    } else {
        s
    }
}

/// The text trimmed, with leading output labels and role words removed.
pub open spec fn strip_prefixes_spec(s: Seq<char>) -> Seq<char> {
    strip_prefix_loop(trim_seq(s))
}

/// A pass from `k` over prefixes none of which applies leaves the text.
proof fn lemma_prefix_pass_none(s: Seq<char>, k: int, removed: bool)
    requires
        0 <= k <= 10,
        forall|j: int| k <= j < 10 ==> !prefix_applies(s, #[trigger] output_prefixes()[j]),
    ensures
        prefix_pass(s, k, removed) == (s, removed),
    decreases 10 - k,
{
    if k < 10 {
        lemma_prefix_pass_none(s, k + 1, removed);
    }
}

/// A pass skips the prefixes before `k` that do not apply.
proof fn lemma_prefix_pass_skip(s: Seq<char>, j: int, k: int, removed: bool)
    requires
        0 <= j <= k <= 10,
        forall|i: int| j <= i < k ==> !prefix_applies(s, #[trigger] output_prefixes()[i]),
    ensures
        prefix_pass(s, j, removed) == prefix_pass(s, k, removed),
    decreases k - j,
{
    if j < k {
        lemma_prefix_pass_skip(s, j + 1, k, removed);
    }
}

/// A text that starts with no listed label or role word, ignoring case, is
/// only trimmed.
pub proof fn law_unlabelled_text_kept(s: Seq<char>)
    requires
        forall|j: int| 0 <= j < 10 ==> !starts_with_seq(spec_to_lowercase(trim_seq(s)), spec_to_lowercase(#[trigger] output_prefixes()[j])),
    ensures
        strip_prefixes_spec(s) == trim_seq(s),
{
    let t = trim_seq(s);
    assert forall|j: int| 0 <= j < 10 implies !prefix_applies(t, #[trigger] output_prefixes()[j]) by {}
    lemma_prefix_pass_none(t, 0, false);
}

/// Output labels are removed whatever their letter case: when the trimmed text
/// starts with the label `output_prefixes()[k]` ignoring case (and no label
/// listed before it applies), the label and the whitespace after it are
/// removed, and a rest that starts with no label is the result.
pub proof fn law_output_labels_ignore_case(s: Seq<char>, k: int)
    requires
        0 <= k < 8,
        s.len() > 0,
        !is_ws(s[0]),
        !is_ws(s.last()),
        s.len() >= output_prefixes()[k].len(),
        starts_with_seq(spec_to_lowercase(s), spec_to_lowercase(output_prefixes()[k])),
        forall|j: int| 0 <= j < k ==> !starts_with_seq(spec_to_lowercase(s), spec_to_lowercase(#[trigger] output_prefixes()[j])),
        forall|j: int| 0 <= j < 10 ==> !starts_with_seq(
            spec_to_lowercase(trim_seq(s.skip(output_prefixes()[k].len() as int))),
            spec_to_lowercase(#[trigger] output_prefixes()[j]),
        ),
    ensures
        strip_prefixes_spec(s) == trim_seq(s.skip(output_prefixes()[k].len() as int)),
{
    reveal_strlit("model");
    reveal_strlit("assistant");
    reveal_strlit("Output:");
    reveal_strlit("Cleaned text:");
    reveal_strlit("Cleaned:");
    reveal_strlit("Cleaned transcript:");
    reveal_strlit("Final:");
    reveal_strlit("Final answer:");
    reveal_strlit("Answer:");
    reveal_strlit("Response:");
    crate::text::lemma_trim_start_skip(s, 0);
    assert(s.skip(0) =~= s);
    crate::text::lemma_trim_end_take(s, s.len() as int);
    assert(s.take(s.len() as int) =~= s);
    assert(trim_seq(s) == s);
    let p = output_prefixes()[k];
    let t = trim_seq(s.skip(p.len() as int));
    assert(p.len() != 5 && (p.len() == 9 ==> p[0] == 'R'));
    assert(p != "model"@ && p != "assistant"@);
    assert(prefix_applies(s, p));
    assert forall|j: int| 0 <= j < k implies !prefix_applies(s, #[trigger] output_prefixes()[j]) by {}
    assert forall|j: int| 0 <= j < 10 implies !prefix_applies(t, #[trigger] output_prefixes()[j]) by {}
    lemma_prefix_pass_skip(s, 0, k, false);
    lemma_prefix_pass_none(t, k + 1, true);
    assert(prefix_pass(s, 0, false) == (t, true));
    lemma_prefix_pass_none(t, 0, false);
    assert(strip_prefix_loop(t) == t);
    assert(strip_prefix_loop(s) == strip_prefix_loop(t));
}

fn output_prefix_list() -> (r: Vec<&'static str>)
    ensures
        r@.map_values(|m: &'static str| m@) == output_prefixes(),
{
    let v = vec![
        "Output:",
        "Cleaned text:",
        "Cleaned:",
        "Cleaned transcript:",
        "Final:",
        "Final answer:",
        "Answer:",
        "Response:",
        "model",
        "assistant",
    ];
    assert(v@.map_values(|m: &'static str| m@) =~= output_prefixes());
    v
}

fn lowered_chars(v: &Vec<char>) -> (r: Vec<char>)
    ensures
        r@ == spec_to_lowercase(v@),
{
    let s = string_from_chars(v);
    let l = to_lowercase_str(s.as_str());
    chars_of(l.as_str())
}

fn prefix_applies_exec(s: &Vec<char>, prefix: &str) -> (r: bool)
    ensures
        r == prefix_applies(s@, prefix@),
{
    proof {
        reveal_strlit("model");
        reveal_strlit("assistant");
    }
    let lowered = lowered_chars(s);
    let lowered_prefix = lowered_chars(&chars_of(prefix));
    if !starts_with_chars(&lowered, &lowered_prefix) {
        return false;
    }
    let p = chars_of(prefix);
    if s.len() < p.len() {
        return false;
    }
    if str_is(prefix, "model") || str_is(prefix, "assistant") {
        if s.len() == p.len() {
            return true;
        }
        let next = s[p.len()];
        return next == ':' || is_whitespace(next);
    }
    true
}

fn str_is(a: &str, b: &str) -> (r: bool)
    ensures
        r == (a@ == b@),
{
    crate::text::str_eq(a, b)
}

fn prefix_pass_exec(s: &Vec<char>) -> (r: (Vec<char>, bool))
    ensures
        (r.0@, r.1) == prefix_pass(s@, 0, false),
{
    let prefixes = output_prefix_list();
    let mut cur = sub_chars(s.as_slice(), 0, s.len());
    assert(cur@ =~= s@);
    let mut removed = false;
    let mut k: usize = 0;
    assert(prefixes@.len() == prefixes@.map_values(|m: &'static str| m@).len());
    while k < prefixes.len()
        invariant
            k <= 10,
            prefixes@.map_values(|m: &'static str| m@) == output_prefixes(),
            prefixes@.len() == 10,
            prefix_pass(s@, 0, false) == prefix_pass(cur@, k as int, removed),
        decreases prefixes.len() - k,
    {
        let prefix = prefixes[k];
        assert(prefix@ == output_prefixes()[k as int]);
        if prefix_applies_exec(&cur, prefix) {
            let p = chars_of(prefix);
            let rest = sub_chars(cur.as_slice(), p.len(), cur.len());
            assert(rest@ =~= cur@.skip(p@.len() as int));
            cur = trim_chars(rest.as_slice());
            removed = true;
        }
        k = k + 1;
    }
    (cur, removed)
}

fn strip_prefix_loop_exec(s: Vec<char>) -> (r: Vec<char>)
    ensures
        r@ == strip_prefix_loop(s@),
    decreases s@.len(),
{
    let (t, removed) = prefix_pass_exec(&s);
    if removed {
        proof {
            lemma_prefix_pass_len(s@, 0, false);
        }
        strip_prefix_loop_exec(t)
    } else {
        s
    }
}

pub fn strip_leading_output_prefixes(text: &Vec<char>) -> (r: Vec<char>)
    ensures
        r@ == strip_prefixes_spec(text@),
{
    strip_prefix_loop_exec(trim_chars(text.as_slice()))
}


// ---------------------------------------------------------------------------
// Generation artifacts
// ---------------------------------------------------------------------------

/// Closing brackets a model may leave before its answer.
pub open spec fn closing_brackets() -> Seq<char> {
    seq!['\u{3e}', '\u{5d}', '\u{29}', '\u{7d}']
}

/// Quote marks and backticks a model may leave before its answer.
pub open spec fn quote_marks() -> Seq<char> {
    seq!['\u{60}', '\u{22}', '\u{201c}', '\u{201d}', '\u{27}', '\u{2018}', '\u{2019}']
}

/// Leading whitespace dropped, then one leading character of `set` and the
/// whitespace after it.
pub open spec fn trim_leading_spec(t: Seq<char>, set: Seq<char>) -> Seq<char> {
    let tr = trim_start_seq(t);
    if tr.len() == 0 {
        Seq::empty()
    } else if set.contains(tr[0]) {
        trim_start_seq(tr.skip(1))
    } else {
        tr
    }
}

pub open spec fn artifact_step(s: Seq<char>) -> Seq<char> {
    trim_seq(trim_leading_spec(trim_leading_spec(s, closing_brackets()), quote_marks()))
}

/// At most `n` more steps, stopping when a step changes nothing.
pub open spec fn artifacts_loop(s: Seq<char>, n: nat) -> Seq<char>
    decreases n,
{
    if n == 0 {
        s
    } else {
        let t = artifact_step(s);
        if t == s {
            s
        } else {
            artifacts_loop(t, (n - 1) as nat)
        }
    }
}

pub open spec fn strip_artifacts_spec(s: Seq<char>) -> Seq<char> {
    artifacts_loop(trim_seq(s), 4)
}

fn trim_leading_chars(text: &Vec<char>, set: &Vec<char>) -> (r: Vec<char>)
    ensures
        r@ == trim_leading_spec(text@, set@),
{
    let trimmed = trim_start_chars(text.as_slice());
    if trimmed.len() == 0 {
        return Vec::new();
    }
    if has_char(set, trimmed[0]) {
        let rest = sub_chars(trimmed.as_slice(), 1, trimmed.len());
        assert(rest@ =~= trimmed@.skip(1));
        return trim_start_chars(rest.as_slice());
    }
    trimmed
}

pub fn strip_leading_generation_artifacts(text: &Vec<char>) -> (r: Vec<char>)
    ensures
        r@ == strip_artifacts_spec(text@),
{
    let brackets = vec!['\u{3e}', '\u{5d}', '\u{29}', '\u{7d}'];
    let quotes = vec!['\u{60}', '\u{22}', '\u{201c}', '\u{201d}', '\u{27}', '\u{2018}', '\u{2019}'];
    assert(brackets@ =~= closing_brackets());
    assert(quotes@ =~= quote_marks());
    let mut cleaned = trim_chars(text.as_slice());
    let mut n: usize = 0;
    while n < 4
        invariant
            n <= 4,
            brackets@ == closing_brackets(),
            quotes@ == quote_marks(),
            strip_artifacts_spec(text@) == artifacts_loop(cleaned@, (4 - n) as nat),
        decreases 4 - n,
    {
        let a = trim_leading_chars(&cleaned, &brackets);
        let b = trim_leading_chars(&a, &quotes);
        let next = trim_chars(b.as_slice());
        if chars_eq(&next, &cleaned) {
            return cleaned;
        }
        cleaned = next;
        n = n + 1;
    }
    cleaned
}

// ---------------------------------------------------------------------------
// Plain-text reasoning
// ---------------------------------------------------------------------------

pub open spec fn process_signals() -> Seq<Seq<char>> {
    seq![
        "analyze the request"@,
        "input:"@,
        "task:"@,
        "constraint"@,
        "raw transcript"@,
        "cleanup rules"@,
        "final transformed transcript"@,
        "return only"@,
        "do not drop content"@,
        "the user asked"@,
        "the instructions"@,
    ]
}

/// The body after a reasoning header reads like the model's working notes.
pub open spec fn likely_reasoning_spec(header: Seq<char>, body: Seq<char>) -> bool {
    let tb = trim_seq(body);
    let lowered = spec_to_lowercase(tb);
    let lowered_header = spec_to_lowercase(header);
    ||| tb.len() == 0
    ||| spec_regex_is_match(NUMBERED_STEP_PATTERN@, tb)
    ||| spec_regex_is_match(BOLD_BULLET_PATTERN@, tb)
    ||| exists|i: int| 0 <= i < process_signals().len() && contains_seq(lowered, #[trigger] process_signals()[i])
    ||| (lowered_header == "thinking process"@ || lowered_header == "thought process"@) && (tb.contains('\n')
        || contains_seq(tb, "**"@))
}

/// Text that starts with a reasoning header: what follows a final-answer label
/// in it, nothing when the rest reads like reasoning, else the text unchanged.
pub open spec fn strip_reasoning_spec(t: Seq<char>) -> Seq<char> {
    let c = trim_seq(t);
    match spec_regex_captures(REASONING_HEADER_PATTERN@, c) {
        None => c,
        Some((end, header)) => {
            let body = c.skip(end as int);
            match spec_regex_find_start(FINAL_OUTPUT_PATTERN@, body) {
                Some(p) => trim_seq(body.skip(p as int)),
                None => if likely_reasoning_spec(header, body) {
                    Seq::empty()
                } else {
                    c
                },
            }
        },
    }
}

fn signal_list() -> (r: Vec<&'static str>)
    ensures
        r@.map_values(|m: &'static str| m@) == process_signals(),
{
    let v = vec![
        "analyze the request",
        "input:",
        "task:",
        "constraint",
        "raw transcript",
        "cleanup rules",
        "final transformed transcript",
        "return only",
        "do not drop content",
        "the user asked",
        "the instructions",
    ];
    assert(v@.map_values(|m: &'static str| m@) =~= process_signals());
    v
}

fn is_likely_plain_text_reasoning(header: &str, body: &Vec<char>) -> (r: bool)
    ensures
        r == likely_reasoning_spec(header@, body@),
{
    let tb = trim_chars(body.as_slice());
    if tb.len() == 0 {
        return true;
    }
    let tb_string = string_from_chars(&tb);
    if regex_contains(NUMBERED_STEP_PATTERN, tb_string.as_str()) {
        return true;
    }
    if regex_contains(BOLD_BULLET_PATTERN, tb_string.as_str()) {
        return true;
    }
    let lowered = lowered_chars(&tb);
    let signals = signal_list();
    let mut i: usize = 0;
    assert(signals@.len() == signals@.map_values(|m: &'static str| m@).len());
    while i < signals.len()
        invariant
            i <= signals@.len(),
            signals@.len() == process_signals().len(),
            signals@.map_values(|m: &'static str| m@) == process_signals(),
            lowered@ == spec_to_lowercase(tb@),
            tb@ == trim_seq(body@),
            forall|j: int| 0 <= j < i ==> !contains_seq(lowered@, #[trigger] process_signals()[j]),
        decreases signals.len() - i,
    {
        assert(signals@[i as int]@ == process_signals()[i as int]);
        if contains_chars(&lowered, &chars_of(signals[i])) {
            assert(contains_seq(lowered@, process_signals()[i as int]));
            return true;
        }
        i = i + 1;
    }
    let lowered_header = lowered_chars(&chars_of(header));
    if chars_eq(&lowered_header, &chars_of("thinking process")) || chars_eq(&lowered_header, &chars_of("thought process")) {
        return has_char(&tb, '\n') || contains_chars(&tb, &chars_of("**"));
    }
    false
}

pub fn strip_leading_plain_text_reasoning(text: &Vec<char>) -> (r: Vec<char>)
    ensures
        r@ == strip_reasoning_spec(text@),
{
    let cleaned = trim_chars(text.as_slice());
    let cleaned_string = string_from_chars(&cleaned);
    let (end, header) = match regex_captures(REASONING_HEADER_PATTERN, cleaned_string.as_str()) {
        Some(c) => c,
        None => return cleaned,
    };
    let body = sub_chars(cleaned.as_slice(), end, cleaned.len());
    assert(body@ =~= cleaned@.skip(end as int));
    let body_string = string_from_chars(&body);
    match regex_find_start(FINAL_OUTPUT_PATTERN, body_string.as_str()) {
        Some(p) => {
            let rest = sub_chars(body.as_slice(), p, body.len());
            assert(rest@ =~= body@.skip(p as int));
            trim_chars(rest.as_slice())
        },
        None => {
            if is_likely_plain_text_reasoning(header.as_str(), &body) {
                Vec::new()
            } else {
                cleaned
            }
        },
    }
}


// ---------------------------------------------------------------------------
// Sanitizing
// ---------------------------------------------------------------------------

pub open spec fn without_pattern(pattern: Seq<char>, s: Seq<char>) -> Seq<char> {
    spec_regex_replace_all(pattern, s, ""@)
}

/// The model output after the tag and marker removal, trimmed.
pub open spec fn untagged_spec(output: Seq<char>) -> Seq<char> {
    let c1 = without_pattern(CHANNEL_THOUGHT_PATTERN@, output);
    let c2 = without_pattern(CHANNEL_PATTERN@, c1);
    let c3 = trim_seq(remove_markers(c2, output_markers()));
    let c4 = without_pattern(THINK_BLOCK_PATTERN@, c3);
    let c5 = without_pattern(THINK_TAG_PATTERN@, c4);
    let c6 = without_pattern(CHANNEL_THOUGHT_PATTERN@, c5);
    let c7 = without_pattern(CHANNEL_PATTERN@, c6);
    trim_seq(without_pattern(TOOL_TAG_PATTERN@, c7))
}

/// The text without one pair of surrounding double quotes.
pub open spec fn unquoted(s: Seq<char>) -> Seq<char> {
    if s.len() > 1 && s[0] == '\u{22}' && s.last() == '\u{22}' {
        s.subrange(1, s.len() - 1)
    } else {
        s
    }
}

/// The answer in a cleanup model's output: control tags, reasoning, labels,
/// leftover brackets and quotes removed.
pub open spec fn sanitize_spec(output: Seq<char>) -> Seq<char> {
    let c9 = untagged_spec(output);
    let c13 = strip_prefixes_spec(strip_reasoning_spec(strip_artifacts_spec(strip_prefixes_spec(c9))));
    if c13.len() == 0 {
        Seq::empty()
    } else {
        let c15 = unquoted(strip_artifacts_spec(c13));
        trim_seq(strip_artifacts_spec(strip_prefixes_spec(strip_reasoning_spec(c15))))
    }
}

fn without(pattern: &str, v: &Vec<char>) -> (r: Vec<char>)
    ensures
        r@ == without_pattern(pattern@, v@),
{
    let s = string_from_chars(v);
    let out = regex_replace(pattern, s.as_str(), "");
    chars_of(out.as_str())
}

pub fn sanitize(output: &str) -> (r: String)
    ensures
        r@ == sanitize_spec(output@),
{
    let v = chars_of(output);
    let c1 = without(CHANNEL_THOUGHT_PATTERN, &v);
    let c2 = without(CHANNEL_PATTERN, &c1);
    let c3 = trim_chars(strip_markers(&c2).as_slice());
    let c4 = without(THINK_BLOCK_PATTERN, &c3);
    let c5 = without(THINK_TAG_PATTERN, &c4);
    let c6 = without(CHANNEL_THOUGHT_PATTERN, &c5);
    let c7 = without(CHANNEL_PATTERN, &c6);
    let c8 = without(TOOL_TAG_PATTERN, &c7);
    let c9 = trim_chars(c8.as_slice());
    let c10 = strip_leading_output_prefixes(&c9);
    let c11 = strip_leading_generation_artifacts(&c10);
    let c12 = strip_leading_plain_text_reasoning(&c11);
    let c13 = strip_leading_output_prefixes(&c12);
    if c13.len() == 0 {
        return String::new();
    }
    let c14 = strip_leading_generation_artifacts(&c13);
    let n = c14.len();
    let c15 = if n > 1 && c14[0] == '\u{22}' && c14[n - 1] == '\u{22}' {
        sub_chars(c14.as_slice(), 1, n - 1)
    } else {
        c14
    };
    let c16 = strip_leading_plain_text_reasoning(&c15);
    let c17 = strip_leading_output_prefixes(&c16);
    let c18 = strip_leading_generation_artifacts(&c17);
    string_from_chars(&trim_chars(c18.as_slice()))
}

} // verus!
