use vstd::prelude::*;
use crate::text::{
    char_to_lowercase, char_to_uppercase, chars_eq, chars_of, extend_chars, is_alphabetic,
    is_numeric, is_whitespace, is_ws, owned, spec_char_to_lowercase, spec_char_to_uppercase,
    spec_is_alphabetic, spec_is_numeric, spec_to_lowercase, string_from_chars, sub_chars,
    to_lowercase_str, trim_chars, trim_end_seq, trim_seq, trim_start_seq,
};

verus! {

pub const TRAILING_SEPARATORS: &'static str = ".!,?;:\u{29}\u{5d}\u{7d}\u{22}\u{201d}\u{2019}\u{bb}\u{203a}";
pub const CLOSING_QUOTE_SEPARATORS: &'static str = "\u{22}\u{201d}\u{2019}\u{bb}\u{203a}";
pub const SEMANTIC_WRAPPERS: &'static str = "\u{29}\u{5d}\u{7d}\u{22}\u{201d}\u{2019}\u{bb}\u{203a}";

pub open spec fn is_letter_or_digit_spec(c: char) -> bool {
    spec_is_alphabetic(c) || spec_is_numeric(c)
}

fn is_letter_or_digit(c: char) -> (r: bool)
    ensures
        r == is_letter_or_digit_spec(c),
{
    is_alphabetic(c) || is_numeric(c)
}

/// The text after the last line break (`\n` or `\r`), or all of it.
pub open spec fn current_line_spec(s: Seq<char>) -> Seq<char>
    decreases s.len(),
{
    if s.len() == 0 {
        s
    } else if s.last() == '\n' || s.last() == '\r' {
        Seq::empty()
    } else {
        current_line_spec(s.drop_last()).push(s.last())
    }
}

/// The text without leading spaces and tabs.
pub open spec fn trim_horizontal_start(s: Seq<char>) -> Seq<char>
    decreases s.len(),
{
    if s.len() > 0 && (s[0] == ' ' || s[0] == '\t') {
        trim_horizontal_start(s.drop_first())
    } else {
        s
    }
}

/// The text starts with a letter or digit.
pub open spec fn starts_word_like(s: Seq<char>) -> bool {
    s.len() > 0 && is_letter_or_digit_spec(s[0])
}

/// Leading spaces and tabs dropped when what follows starts like a word.
pub open spec fn trimmed_if_word_like(s: Seq<char>) -> Seq<char> {
    if starts_word_like(trim_horizontal_start(s)) {
        trim_horizontal_start(s)
    } else {
        s
    }
}

/// The last character that is neither whitespace nor a closing wrapper.
pub open spec fn last_semantic(s: Seq<char>) -> Option<char>
    decreases s.len(),
{
    if s.len() == 0 {
        None
    } else if !is_ws(s.last()) && !SEMANTIC_WRAPPERS@.contains(s.last()) {
        Some(s.last())
    } else {
        last_semantic(s.drop_last())
    }
}

/// A closing quote at the end of the line follows a letter, digit or sentence end.
pub open spec fn closing_quote_looks_closed_spec(line: Seq<char>) -> bool {
    let before = if line.len() > 0 { line.drop_last() } else { line };
    match last_semantic(before) {
        Some(c) => is_letter_or_digit_spec(c) || c == '.' || c == '!' || c == '?',
        None => false,
    }
}

pub open spec fn should_separate_after_spec(c: char, line: Seq<char>) -> bool {
    if is_letter_or_digit_spec(c) {
        true
    } else if CLOSING_QUOTE_SEPARATORS@.contains(c) {
        closing_quote_looks_closed_spec(line)
    } else {
        TRAILING_SEPARATORS@.contains(c)
    }
}

/// A space goes between the line and the text: the line ends in a character
/// after which words are separated, and the text starts like a word.
pub open spec fn should_add_leading_space_spec(text: Seq<char>, line: Seq<char>) -> bool {
    line.len() > 0 && !is_ws(line.last()) && starts_word_like(text) && should_separate_after_spec(line.last(), line)
}

/// The letters at the start of `s`.
pub open spec fn alphabetic_prefix(s: Seq<char>) -> Seq<char>
    decreases s.len(),
{
    if s.len() > 0 && spec_is_alphabetic(s[0]) {
        seq![s[0]] + alphabetic_prefix(s.drop_first())
    } else {
        Seq::empty()
    }
}

/// The text starts with a lower-case word of at least two letters.
pub open spec fn starts_with_lowercase_word_spec(text: Seq<char>) -> bool {
    let t = trim_horizontal_start(text);
    let prefix = alphabetic_prefix(t);
    &&& t.len() > 0
    &&& prefix.len() >= 2
    &&& prefix == spec_to_lowercase(prefix)
    &&& spec_char_to_lowercase(t[0]) == seq![t[0]]
}

/// The text starts a sentence: it starts with a lower-case word, and the line
/// is blank or ends a sentence.
pub open spec fn should_capitalize_spec(text: Seq<char>, line: Seq<char>) -> bool {
    &&& starts_with_lowercase_word_spec(text)
    &&& (trim_seq(line).len() == 0 || last_semantic(trim_seq(line)) == Some('.') || last_semantic(trim_seq(line))
        == Some('!') || last_semantic(trim_seq(line)) == Some('?'))
}

/// The index of the first letter, if any.
pub open spec fn first_letter_index(s: Seq<char>) -> Option<int>
    decreases s.len(),
{
    if s.len() == 0 {
        None
    } else if spec_is_alphabetic(s[0]) {
        Some(0)
    } else {
        match first_letter_index(s.drop_first()) {
            Some(i) => Some(i + 1),
            None => None,
        }
    }
}

/// The text with its first letter upper-cased.
pub open spec fn capitalize_spec(s: Seq<char>) -> Seq<char> {
    match first_letter_index(s) {
        Some(i) => s.take(i) + spec_char_to_uppercase(s[i]) + s.skip(i + 1),
        None => s,
    }
}

/// Dictated text as pasted after the text before the caret: joined to a word
/// with a space, and capitalized at the start of a sentence.
pub open spec fn contextual_paste_spec(text: Seq<char>, preceding: Option<Seq<char>>) -> Seq<char> {
    match preceding {
        None => text,
        Some(p) => if p.len() == 0 || text.len() == 0 {
            text
        } else {
            let line = current_line_spec(p);
            let out0 = trimmed_if_word_like(text);
            let out1 = if should_add_leading_space_spec(out0, line) { seq![' '] + out0 } else { out0 };
            if should_capitalize_spec(out1, line) {
                capitalize_spec(out1)
            } else {
                out1
            }
        },
    }
}

fn current_line_context(v: &Vec<char>) -> (r: Vec<char>)
    ensures
        r@ == current_line_spec(v@),
{
    let mut k = v.len();
    assert(v@.take(k as int) =~= v@);
    assert(current_line_spec(v@) + v@.skip(k as int) =~= current_line_spec(v@));
    while k > 0 && v[k - 1] != '\n' && v[k - 1] != '\r'
        invariant
            k <= v@.len(),
            current_line_spec(v@) == current_line_spec(v@.take(k as int)) + v@.skip(k as int),
        decreases k,
    {
        assert(v@.take(k as int).drop_last() =~= v@.take(k - 1));
        assert(v@.skip(k - 1) =~= seq![v@[k - 1]] + v@.skip(k as int));
        assert(current_line_spec(v@.take(k as int)) == current_line_spec(v@.take(k - 1)).push(v@[k - 1]));
        k = k - 1;
        assert(current_line_spec(v@.take(k as int)).push(v@[k as int]) + v@.skip(k + 1) =~= current_line_spec(v@.take(k as int)) + v@.skip(k as int));
    }
    proof {
        if k > 0 {
            assert(v@.take(k as int).last() == v@[k - 1]);
        }
        assert(current_line_spec(v@.take(k as int)) =~= Seq::<char>::empty());
        assert(v@.skip(k as int) =~= v@.subrange(k as int, v@.len() as int));
    }
    sub_chars(v.as_slice(), k, v.len())
}

proof fn lemma_trim_horizontal_skip(s: Seq<char>, k: int)
    requires
        0 <= k <= s.len(),
        forall|j: int| 0 <= j < k ==> #[trigger] s[j] == ' ' || s[j] == '\t',
        k == s.len() || (s[k] != ' ' && s[k] != '\t'),
    ensures
        trim_horizontal_start(s) == s.skip(k),
    decreases k,
{
    if k == 0 {
        assert(s.skip(0) =~= s);
    } else {
        let t = s.drop_first();
        assert forall|j: int| 0 <= j < k - 1 implies #[trigger] t[j] == ' ' || t[j] == '\t' by {
            assert(t[j] == s[j + 1]);
        }
        lemma_trim_horizontal_skip(t, k - 1);
        assert(t.skip(k - 1) =~= s.skip(k));
    }
}

fn trim_horizontal(v: &Vec<char>) -> (r: Vec<char>)
    ensures
        r@ == trim_horizontal_start(v@),
{
    let mut k: usize = 0;
    while k < v.len() && (v[k] == ' ' || v[k] == '\t')
        invariant
            k <= v@.len(),
            forall|j: int| 0 <= j < k ==> #[trigger] v@[j] == ' ' || v@[j] == '\t',
        decreases v.len() - k,
    {
        k = k + 1;
    }
    proof {
        lemma_trim_horizontal_skip(v@, k as int);
        assert(v@.skip(k as int) =~= v@.subrange(k as int, v@.len() as int));
    }
    sub_chars(v.as_slice(), k, v.len())
}

fn starts_with_word_like_token(v: &Vec<char>) -> (r: bool)
    ensures
        r == starts_word_like(v@),
{
    v.len() > 0 && is_letter_or_digit(v[0])
}

fn last_semantic_character(v: &[char]) -> (r: Option<char>)
    ensures
        r == last_semantic(v@),
{
    let wrappers = chars_of(SEMANTIC_WRAPPERS);
    let mut k = v.len();
    assert(v@.take(k as int) =~= v@);
    while k > 0
        invariant
            k <= v@.len(),
            wrappers@ == SEMANTIC_WRAPPERS@,
            last_semantic(v@) == last_semantic(v@.take(k as int)),
        decreases k,
    {
        let c = v[k - 1];
        assert(v@.take(k as int).last() == c);
        assert(v@.take(k as int).drop_last() =~= v@.take(k - 1));
        if !is_whitespace(c) && !crate::text::has_char(&wrappers, c) {
            return Some(c);
        }
        k = k - 1;
    }
    None
}

fn closing_quote_looks_closed(line: &Vec<char>) -> (r: bool)
    ensures
        r == closing_quote_looks_closed_spec(line@),
{
    let before = if line.len() > 0 {
        sub_chars(line.as_slice(), 0, line.len() - 1)
    } else {
        sub_chars(line.as_slice(), 0, 0)
    };
    proof {
        if line@.len() > 0 {
            assert(before@ =~= line@.drop_last());
        } else {
            assert(before@ =~= line@);
        }
    }
    match last_semantic_character(before.as_slice()) {
        Some(c) => is_letter_or_digit(c) || c == '.' || c == '!' || c == '?',
        None => false,
    }
}

fn should_separate_after(c: char, line: &Vec<char>) -> (r: bool)
    ensures
        r == should_separate_after_spec(c, line@),
{
    if is_letter_or_digit(c) {
        return true;
    }
    if crate::text::has_char(&chars_of(CLOSING_QUOTE_SEPARATORS), c) {
        return closing_quote_looks_closed(line);
    }
    crate::text::has_char(&chars_of(TRAILING_SEPARATORS), c)
}

fn should_add_leading_space(text: &Vec<char>, line: &Vec<char>) -> (r: bool)
    ensures
        r == should_add_leading_space_spec(text@, line@),
{
    if line.len() == 0 {
        return false;
    }
    let last = line[line.len() - 1];
    !is_whitespace(last) && starts_with_word_like_token(text) && should_separate_after(last, line)
}

fn alphabetic_prefix_of(v: &Vec<char>) -> (r: Vec<char>)
    ensures
        r@ == alphabetic_prefix(v@),
{
    let mut k: usize = 0;
    assert(v@.skip(0) =~= v@);
    assert(v@.take(0) + alphabetic_prefix(v@) =~= alphabetic_prefix(v@));
    while k < v.len() && is_alphabetic(v[k])
        invariant
            k <= v@.len(),
            forall|j: int| 0 <= j < k ==> spec_is_alphabetic(#[trigger] v@[j]),
            alphabetic_prefix(v@) == v@.take(k as int) + alphabetic_prefix(v@.skip(k as int)),
        decreases v.len() - k,
    {
        let ghost rest = v@.skip(k as int);
        assert(rest[0] == v@[k as int]);
        assert(rest.drop_first() =~= v@.skip(k + 1));
        assert(v@.take(k + 1) =~= v@.take(k as int) + seq![v@[k as int]]);
        k = k + 1;
    }
    proof {
        let rest = v@.skip(k as int);
        if rest.len() > 0 {
            assert(rest[0] == v@[k as int]);
        }
        assert(alphabetic_prefix(rest) =~= Seq::<char>::empty());
        assert(v@.take(k as int) =~= v@.subrange(0, k as int));
    }
    sub_chars(v.as_slice(), 0, k)
}

fn starts_with_lowercase_word(text: &Vec<char>) -> (r: bool)
    ensures
        r == starts_with_lowercase_word_spec(text@),
{
    let trimmed = trim_horizontal(text);
    if trimmed.len() == 0 {
        return false;
    }
    let first = trimmed[0];
    let prefix = alphabetic_prefix_of(&trimmed);
    if prefix.len() < 2 {
        return false;
    }
    let prefix_string = string_from_chars(&prefix);
    let lowered = to_lowercase_str(prefix_string.as_str());
    if !chars_eq(&prefix, &chars_of(lowered.as_str())) {
        return false;
    }
    let first_lowered = char_to_lowercase(first);
    let single = vec![first];
    assert(single@ =~= seq![first]);
    chars_eq(&chars_of(first_lowered.as_str()), &single)
}

fn should_capitalize(text: &Vec<char>, line: &Vec<char>) -> (r: bool)
    ensures
        r == should_capitalize_spec(text@, line@),
{
    if !starts_with_lowercase_word(text) {
        return false;
    }
    let trimmed = trim_chars(line.as_slice());
    if trimmed.len() == 0 {
        return true;
    }
    match last_semantic_character(trimmed.as_slice()) {
        Some(c) => c == '.' || c == '!' || c == '?',
        None => false,
    }
}

fn capitalize_first_letter(v: &Vec<char>) -> (r: Vec<char>)
    ensures
        r@ == capitalize_spec(v@),
{
    let mut k: usize = 0;
    assert(v@.skip(0) =~= v@);
    while k < v.len() && !is_alphabetic(v[k])
        invariant
            k <= v@.len(),
            forall|j: int| 0 <= j < k ==> !spec_is_alphabetic(#[trigger] v@[j]),
            first_letter_index(v@) == match first_letter_index(v@.skip(k as int)) {
                Some(i) => Some(i + k),
                None => None::<int>,
            },
        decreases v.len() - k,
    {
        let ghost rest = v@.skip(k as int);
        assert(rest[0] == v@[k as int]);
        assert(rest.drop_first() =~= v@.skip(k + 1));
        k = k + 1;
    }
    if k == v.len() {
        assert(v@.skip(k as int).len() == 0);
        let out = sub_chars(v.as_slice(), 0, v.len());
        assert(out@ =~= v@);
        return out;
    }
    assert(v@.skip(k as int)[0] == v@[k as int]);
    let upper = char_to_uppercase(v[k]);
    let mut out = sub_chars(v.as_slice(), 0, k);
    extend_chars(&mut out, &chars_of(upper.as_str()));
    extend_chars(&mut out, &sub_chars(v.as_slice(), k + 1, v.len()));
    proof {
        assert(v@.take(k as int) =~= v@.subrange(0, k as int));
        assert(v@.skip(k + 1) =~= v@.subrange(k + 1, v@.len() as int));
    }
    out
}

pub fn format_contextual_paste(text: &str, preceding_context: Option<&str>) -> (r: String)
    ensures
        r@ == contextual_paste_spec(text@, match preceding_context { Some(p) => Some(p@), None => None }),
{
    let preceding = match preceding_context {
        Some(p) => p,
        None => return owned(text),
    };
    let context = chars_of(preceding);
    let input = chars_of(text);
    if context.len() == 0 || input.len() == 0 {
        return owned(text);
    }
    let line = current_line_context(&context);
    let trimmed = trim_horizontal(&input);
    let mut output = if starts_with_word_like_token(&trimmed) {
        trimmed
    } else {
        input
    };
    if should_add_leading_space(&output, &line) {
        let mut spaced = vec![' '];
        extend_chars(&mut spaced, &output);
        assert(spaced@ =~= seq![' '] + output@);
        output = spaced;
    }
    if should_capitalize(&output, &line) {
        output = capitalize_first_letter(&output);
    }
    string_from_chars(&output)
}

// ---------------------------------------------------------------------------
// Capitalizing after a sentence end
// ---------------------------------------------------------------------------

proof fn lemma_trim_start_keeps(s: Seq<char>, m: int) -> (ks: int)
    requires
        0 <= m < s.len(),
        !is_ws(s[m]),
    ensures
        0 <= ks <= m,
        trim_start_seq(s) == s.skip(ks),
    decreases s.len(),
{
    if s.len() > 0 && is_ws(s[0]) {
        let t = s.drop_first();
        assert(t[m - 1] == s[m]);
        let k = lemma_trim_start_keeps(t, m - 1);
        assert(t.skip(k) =~= s.skip(k + 1));
        k + 1
    } else {
        assert(s.skip(0) =~= s);
        0
    }
}

proof fn lemma_trim_end_keeps(s: Seq<char>, m: int) -> (ke: int)
    requires
        0 <= m < s.len(),
        !is_ws(s[m]),
    ensures
        m < ke <= s.len(),
        trim_end_seq(s) == s.take(ke),
    decreases s.len(),
{
    if s.len() > 0 && is_ws(s.last()) {
        let t = s.drop_last();
        assert(t[m] == s[m]);
        let k = lemma_trim_end_keeps(t, m);
        assert(t.take(k) =~= s.take(k));
        k
    } else {
        assert(s.take(s.len() as int) =~= s);
        s.len() as int
    }
}

proof fn lemma_last_semantic_at(s: Seq<char>, m: int)
    requires
        0 <= m < s.len(),
        !is_ws(s[m]),
        !SEMANTIC_WRAPPERS@.contains(s[m]),
        forall|j: int| m < j < s.len() ==> is_ws(#[trigger] s[j]) || SEMANTIC_WRAPPERS@.contains(s[j]),
    ensures
        last_semantic(s) == Some(s[m]),
    decreases s.len(),
{
    if m < s.len() - 1 {
        let t = s.drop_last();
        assert(is_ws(s[s.len() - 1]) || SEMANTIC_WRAPPERS@.contains(s[s.len() - 1]));
        assert forall|j: int| m < j < t.len() implies is_ws(#[trigger] t[j]) || SEMANTIC_WRAPPERS@.contains(t[j]) by {
            assert(t[j] == s[j]);
        }
        lemma_last_semantic_at(t, m);
    }
}

/// Dictated text is capitalized at the start of a sentence: when the current
/// line ends in `.`, `!` or `?` (followed by nothing but closing brackets,
/// quotes or whitespace) and the text starts with a lower-case word of two or
/// more letters, the pasted text is the text with that word's first letter
/// upper-cased, after a separating space when one is added (never when the
/// line already ends in whitespace).
pub proof fn law_sentence_end_capitalizes(text: Seq<char>, preceding: Seq<char>, m: int)
    requires
        text.len() >= 2,
        spec_is_alphabetic(text[0]),
        spec_is_alphabetic(text[1]),
        !is_ws(text[0]),
        alphabetic_prefix(text) == spec_to_lowercase(alphabetic_prefix(text)),
        spec_char_to_lowercase(text[0]) == seq![text[0]],
        0 <= m < current_line_spec(preceding).len(),
        current_line_spec(preceding)[m] == '.' || current_line_spec(preceding)[m] == '!' || current_line_spec(preceding)[m] == '?',
        forall|j: int| m < j < current_line_spec(preceding).len() ==> is_ws(#[trigger] current_line_spec(preceding)[j])
            || SEMANTIC_WRAPPERS@.contains(current_line_spec(preceding)[j]),
    ensures
        is_ws(current_line_spec(preceding).last()) ==> contextual_paste_spec(text, Some(preceding))
            == spec_char_to_uppercase(text[0]) + text.skip(1),
        !spec_is_alphabetic(' ') ==> (contextual_paste_spec(text, Some(preceding)) == spec_char_to_uppercase(text[0]) + text.skip(1)
            || contextual_paste_spec(text, Some(preceding)) == seq![' '] + (spec_char_to_uppercase(text[0]) + text.skip(1))),
{
    reveal_strlit("\u{29}\u{5d}\u{7d}\u{22}\u{201d}\u{2019}\u{bb}\u{203a}");
    let line = current_line_spec(preceding);
    let u = spec_char_to_uppercase(text[0]) + text.skip(1);
    if preceding.len() == 0 {
        assert(line.len() == 0);
    }
    // The text is kept as it is, starting with a word.
    assert(trim_horizontal_start(text) == text);
    assert(starts_word_like(text));
    let out0 = trimmed_if_word_like(text);
    assert(out0 == text);
    // It starts with a lower-case word of at least two letters, with or without a space before it.
    let rest = text.drop_first();
    assert(rest[0] == text[1]);
    assert(alphabetic_prefix(rest).len() >= 1);
    assert(alphabetic_prefix(text).len() >= 2);
    assert(starts_with_lowercase_word_spec(text));
    let spaced = seq![' '] + text;
    assert(spaced.drop_first() =~= text);
    assert(trim_horizontal_start(spaced) == trim_horizontal_start(text));
    assert(starts_with_lowercase_word_spec(spaced));
    // The line ends a sentence.
    let mark = line[m];
    assert(!SEMANTIC_WRAPPERS@.contains(mark));
    let ks = lemma_trim_start_keeps(line, m);
    let ts = line.skip(ks);
    assert(ts[m - ks] == mark);
    let ke = lemma_trim_end_keeps(ts, m - ks);
    let tt = ts.take(ke);
    assert(trim_seq(line) == tt);
    assert forall|j: int| m - ks < j < tt.len() implies is_ws(#[trigger] tt[j]) || SEMANTIC_WRAPPERS@.contains(tt[j]) by {
        assert(tt[j] == line[j + ks]);
    }
    lemma_last_semantic_at(tt, m - ks);
    assert(last_semantic(trim_seq(line)) == Some(mark));
    assert(should_capitalize_spec(text, line));
    assert(should_capitalize_spec(spaced, line));
    // Capitalizing changes the first letter.
    assert(first_letter_index(text) == Some(0int));
    assert(capitalize_spec(text) =~= u);
    if !spec_is_alphabetic(' ') {
        assert(spaced[0] == ' ');
        assert(first_letter_index(spaced) == Some(1int));
        assert(capitalize_spec(spaced) =~= seq![' '] + u);
    }
}

/// Dictated text is not capitalized in the middle of a sentence: after a line
/// that ends in a letter or digit, the text is joined with one space and keeps
/// its case.
pub proof fn law_mid_sentence_keeps_case(text: Seq<char>, preceding: Seq<char>)
    requires
        text.len() > 0,
        is_letter_or_digit_spec(text[0]),
        !is_ws(text[0]),
        current_line_spec(preceding).len() > 0,
        is_letter_or_digit_spec(current_line_spec(preceding).last()),
        !is_ws(current_line_spec(preceding).last()),
        !SEMANTIC_WRAPPERS@.contains(current_line_spec(preceding).last()),
        current_line_spec(preceding).last() != '.',
        current_line_spec(preceding).last() != '!',
        current_line_spec(preceding).last() != '?',
    ensures
        contextual_paste_spec(text, Some(preceding)) == seq![' '] + text,
{
    let line = current_line_spec(preceding);
    if preceding.len() == 0 {
        assert(line.len() == 0);
    }
    assert(trim_horizontal_start(text) == text);
    assert(trimmed_if_word_like(text) == text);
    assert(should_add_leading_space_spec(text, line));
    let m = line.len() - 1;
    let ks = lemma_trim_start_keeps(line, m);
    let ts = line.skip(ks);
    assert(ts[m - ks] == line[m]);
    let ke = lemma_trim_end_keeps(ts, m - ks);
    let tt = ts.take(ke);
    assert(trim_seq(line) == tt);
    assert(tt.len() == m - ks + 1);
    lemma_last_semantic_at(tt, m - ks);
    assert(!should_capitalize_spec(seq![' '] + text, line));
}

/// On a blank line (or one of only whitespace) dictated text starts a
/// sentence: a lower-case first word of two or more letters is capitalized.
pub proof fn law_blank_line_capitalizes(text: Seq<char>, preceding: Seq<char>)
    requires
        text.len() >= 2,
        spec_is_alphabetic(text[0]),
        spec_is_alphabetic(text[1]),
        !is_ws(text[0]),
        alphabetic_prefix(text) == spec_to_lowercase(alphabetic_prefix(text)),
        spec_char_to_lowercase(text[0]) == seq![text[0]],
        preceding.len() > 0,
        forall|j: int| 0 <= j < current_line_spec(preceding).len() ==> is_ws(#[trigger] current_line_spec(preceding)[j]),
    ensures
        contextual_paste_spec(text, Some(preceding)) == spec_char_to_uppercase(text[0]) + text.skip(1),
{
    let line = current_line_spec(preceding);
    let u = spec_char_to_uppercase(text[0]) + text.skip(1);
    assert(trim_horizontal_start(text) == text);
    assert(trimmed_if_word_like(text) == text);
    if line.len() > 0 {
        assert(is_ws(line[line.len() - 1]));
    }
    assert(!should_add_leading_space_spec(text, line));
    let rest = text.drop_first();
    assert(rest[0] == text[1]);
    assert(alphabetic_prefix(rest).len() >= 1);
    assert(starts_with_lowercase_word_spec(text));
    crate::text::lemma_trim_start_skip(line, line.len() as int);
    assert(trim_start_seq(line).len() == 0);
    assert(trim_seq(line).len() == 0);
    assert(should_capitalize_spec(text, line));
    assert(first_letter_index(text) == Some(0int));
    assert(capitalize_spec(text) =~= u);
}

} // verus!
