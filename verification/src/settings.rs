use vstd::prelude::*;
use vstd::string::*;
use crate::language::{canonical_code_spec, canonical_language_code, opt_view};
use crate::protocol::{
    is_default_app_settings, default_hands_free_shortcut, default_linux_hands_free_shortcut,
    default_linux_push_to_talk_shortcut, default_push_to_talk_shortcut,
    default_windows_hands_free_shortcut, default_windows_push_to_talk_shortcut,
    is_default_hands_free, is_default_linux_hands_free, is_default_linux_push_to_talk,
    is_default_push_to_talk, is_default_windows_hands_free, is_default_windows_push_to_talk,
    platform_codes_same, codes, opt_chord_same, shortcut_same, u16s_eq, ShortcutPlatformCodes, ShortcutSettings, AppSettings, DictationLanguageMode, DictionaryEntry, ShortcutChord, ShortcutKey,
    ShortcutMode, ShortcutModifier, DEFAULT_CLEANUP_MODEL_ID, GEMMA_CLEANUP_MODEL_ID,
};
use crate::sorting::{ord_injective, sort_dedup_by_ord, sorted_dedup_by};
use crate::text::{
    is_blank, str_eq, ascii_char, concat_chars, decimal_chars, decimal_seq, extend_chars, hex_chars, hex_seq,
    chars_eq, chars_of, is_whitespace, is_ws, lemma_trim_start_skip, push_char, spec_to_lowercase,
    string_from_chars, to_lowercase_str, trim_seq, trim_start_seq, trim_str,
};

verus! {

#[derive(Debug, Clone, Copy, PartialEq, Eq, Structural)]
pub enum SettingsPlatform {
    Macos,
    Windows,
    Linux,
}

// ---------------------------------------------------------------------------
// Cleanup model
// ---------------------------------------------------------------------------

/// The cleanup model a stored ID stands for: the Gemma model when the trimmed
/// ID names it, the default model otherwise.
pub open spec fn cleanup_model_id_spec(id: Seq<char>) -> Seq<char> {
    if trim_seq(id) == GEMMA_CLEANUP_MODEL_ID@ {
        GEMMA_CLEANUP_MODEL_ID@
    } else {
        DEFAULT_CLEANUP_MODEL_ID@
    }
}

/// A normalized cleanup model ID is left as it is by a second normalization.
pub proof fn law_cleanup_model_id_is_stable(id: Seq<char>)
    ensures
        cleanup_model_id_spec(cleanup_model_id_spec(id)) == cleanup_model_id_spec(id),
{
    reveal_strlit("cleanup-gemma-4-e2b");
    reveal_strlit("cleanup");
    let g = GEMMA_CLEANUP_MODEL_ID@;
    let d = DEFAULT_CLEANUP_MODEL_ID@;
    crate::text::lemma_trim_start_skip(g, 0);
    assert(g.skip(0) =~= g);
    crate::text::lemma_trim_end_take(g, g.len() as int);
    assert(g.take(g.len() as int) =~= g);
    crate::text::lemma_trim_start_skip(d, 0);
    assert(d.skip(0) =~= d);
    crate::text::lemma_trim_end_take(d, d.len() as int);
    assert(d.take(d.len() as int) =~= d);
    assert(d.len() != g.len());
}

pub fn normalize_cleanup_model_id(settings: &mut AppSettings) -> (changed: bool)
    ensures
        final(settings).cleanup_model_id@ == cleanup_model_id_spec(old(settings).cleanup_model_id@),
        changed == (final(settings).cleanup_model_id@ != old(settings).cleanup_model_id@),
        (*final(settings)) == (AppSettings {
            cleanup_model_id: final(settings).cleanup_model_id,
            ..*old(settings)
        }),
{
    let original = chars_of(settings.cleanup_model_id.as_str());
    let id = trim_str(settings.cleanup_model_id.as_str());
    let gemma = chars_of(GEMMA_CLEANUP_MODEL_ID);
    let new_id = if chars_eq(&id, &gemma) {
        String::from_str(GEMMA_CLEANUP_MODEL_ID)
    } else {
        String::from_str(DEFAULT_CLEANUP_MODEL_ID)
    };
    let updated = chars_of(new_id.as_str());
    settings.cleanup_model_id = new_id;
    !chars_eq(&original, &updated)
}

// ---------------------------------------------------------------------------
// Dictation language
// ---------------------------------------------------------------------------

/// The language mode and code that stored language settings stand for.
pub open spec fn dictation_language_spec(
    mode: DictationLanguageMode,
    code: Option<Seq<char>>,
) -> (DictationLanguageMode, Option<Seq<char>>) {
    match mode {
        DictationLanguageMode::English => (DictationLanguageMode::English, None),
        DictationLanguageMode::Detect => (DictationLanguageMode::Detect, None),
        DictationLanguageMode::Specific => {
            let c = canonical_code_spec(
                match code {
                    Some(c) => c,
                    None => Seq::empty(),
                },
            );
            match c {
                Some(x) => if x == "en"@ {
                    (DictationLanguageMode::English, None)
                } else {
                    (DictationLanguageMode::Specific, Some(x))
                },
                None => (DictationLanguageMode::English, None),
            }
        },
    }
}

pub fn canonical_dictation_language_code(code: &str) -> (r: Option<String>)
    ensures
        opt_view(r) == canonical_code_spec(code@),
{
    canonical_language_code(code)
}

/// Normalizing the dictation language twice gives what normalizing once gives.
pub proof fn law_dictation_language_is_stable(mode: DictationLanguageMode, code: Option<Seq<char>>)
    ensures
        dictation_language_spec(dictation_language_spec(mode, code).0, dictation_language_spec(mode, code).1)
            == dictation_language_spec(mode, code),
{
    if mode == DictationLanguageMode::Specific {
        crate::language::law_canonical_code_is_stable(
            match code {
                Some(c) => c,
                None => Seq::empty(),
            },
        );
    }
}

pub fn normalize_dictation_language(settings: &mut AppSettings) -> (changed: bool)
    ensures
        (final(settings).dictation_language_mode, opt_view(final(settings).dictation_language_code))
            == dictation_language_spec(
            old(settings).dictation_language_mode,
            opt_view(old(settings).dictation_language_code),
        ),
        changed == (final(settings).dictation_language_mode != old(settings).dictation_language_mode
            || opt_view(final(settings).dictation_language_code) != opt_view(
            old(settings).dictation_language_code,
        )),
        (*final(settings)) == (AppSettings {
            dictation_language_mode: final(settings).dictation_language_mode,
            dictation_language_code: final(settings).dictation_language_code,
            ..*old(settings)
        }),
{
    let original_mode = settings.dictation_language_mode;
    let original_code: Option<Vec<char>> = match &settings.dictation_language_code {
        Some(c) => Some(chars_of(c.as_str())),
        None => None,
    };
    match settings.dictation_language_mode {
        DictationLanguageMode::English | DictationLanguageMode::Detect => {
            settings.dictation_language_code = None;
        },
        DictationLanguageMode::Specific => {
            let code = match &settings.dictation_language_code {
                Some(c) => canonical_dictation_language_code(c.as_str()),
                None => {
                    proof {
                        reveal_strlit("");
                    }
                    canonical_dictation_language_code("")
                },
            };
            match code {
                Some(c) => {
                    let cv = chars_of(c.as_str());
                    let en = chars_of("en");
                    if chars_eq(&cv, &en) {
                        settings.dictation_language_mode = DictationLanguageMode::English;
                        settings.dictation_language_code = None;
                    } else {
                        settings.dictation_language_code = Some(c);
                    }
                },
                None => {
                    settings.dictation_language_mode = DictationLanguageMode::English;
                    settings.dictation_language_code = None;
                },
            }
        },
    }
    let code_changed = match (&original_code, &settings.dictation_language_code) {
        (Some(a), Some(b)) => {
            let bv = chars_of(b.as_str());
            !chars_eq(a, &bv)
        },
        (None, None) => false,
        _ => true,
    };
    original_mode != settings.dictation_language_mode || code_changed
}

// ---------------------------------------------------------------------------
// Dictionary
// ---------------------------------------------------------------------------

/// The length of the word `t` starts with (up to its first whitespace).
pub open spec fn word_len(t: Seq<char>) -> nat
    decreases t.len(),
{
    if t.len() == 0 || is_ws(t[0]) {
        0
    } else {
        1 + word_len(t.drop_first())
    }
}

pub proof fn lemma_trim_start_len(s: Seq<char>)
    ensures
        trim_start_seq(s).len() <= s.len(),
    decreases s.len(),
{
    if s.len() > 0 && is_ws(s[0]) {
        lemma_trim_start_len(s.drop_first());
    }
}

pub proof fn lemma_word_len(t: Seq<char>)
    ensures
        word_len(t) <= t.len(),
        t.len() > 0 && !is_ws(t[0]) ==> word_len(t) > 0,
        forall|j: int| 0 <= j < word_len(t) ==> !is_ws(#[trigger] t[j]),
        word_len(t) < t.len() ==> is_ws(t[word_len(t) as int]),
    decreases t.len(),
{
    if t.len() > 0 && !is_ws(t[0]) {
        let u = t.drop_first();
        lemma_word_len(u);
        assert forall|j: int| 0 <= j < word_len(t) implies !is_ws(#[trigger] t[j]) by {
            if j > 0 {
                assert(t[j] == u[j - 1]);
            }
        }
        if word_len(t) < t.len() {
            assert(t[word_len(t) as int] == u[word_len(u) as int]);
        }
    }
}

/// `split_whitespace` joined by single spaces: the words of `s`, in order,
/// separated by one space each, with no whitespace around them.
pub open spec fn collapse_ws(s: Seq<char>) -> Seq<char>
    decreases s.len(),
{
    let t = trim_start_seq(s);
    if t.len() == 0 {
        Seq::empty()
    } else {
        let w = word_len(t);
        proof {
            lemma_trim_start_len(s);
            crate::text::lemma_trim_start_first(s);
            lemma_word_len(t);
            assert(t.skip(w as int).len() == t.len() - w);
        }
        let rest = collapse_ws(t.skip(w as int));
        if rest.len() == 0 {
            t.take(w as int)
        } else {
            t.take(w as int) + seq![' '] + rest
        }
    }
}

/// The end of the word starting at `from`.
fn word_end(v: &[char], from: usize) -> (k: usize)
    requires
        from <= v.len(),
    ensures
        from <= k <= v.len(),
        k - from == word_len(v@.skip(from as int)),
{
    let mut k = from;
    proof {
        lemma_word_len(v@.skip(from as int));
    }
    while k < v.len() && !is_whitespace(v[k])
        invariant
            from <= k <= v.len(),
            forall|j: int| from <= j < k ==> !is_ws(#[trigger] v@[j]),
        decreases v.len() - k,
    {
        k = k + 1;
    }
    proof {
        let t = v@.skip(from as int);
        lemma_word_len(t);
        let w = word_len(t) as int;
        if w < k - from {
            assert(is_ws(t[w]));
            assert(t[w] == v@[from + w]);
        }
        if w > k - from {
            assert(!is_ws(t[k - from]));
            assert(t[k - from] == v@[k as int]);
        }
    }
    k
}

pub fn normalize_dictionary_term(value: &str) -> (r: String)
    ensures
        r@ == collapse_ws(value@),
{
    let v = chars_of(value);
    let mut out: Vec<char> = Vec::new();
    let mut i: usize = 0;
    assert(v@.skip(0) =~= v@);
    while i < v.len()
        invariant
            i <= v.len(),
            collapse_ws(v@) == if out@.len() == 0 {
                collapse_ws(v@.skip(i as int))
            } else if collapse_ws(v@.skip(i as int)).len() == 0 {
                out@
            } else {
                out@ + seq![' '] + collapse_ws(v@.skip(i as int))
            },
        decreases v.len() - i,
    {
        let ghost rest = v@.skip(i as int);
        let a = crate::text::skip_ws_from(&v, i);
        proof {
            assert forall|j: int| 0 <= j < a - i implies is_ws(#[trigger] rest[j]) by {
                assert(rest[j] == v@[i + j]);
            }
            if a < v.len() {
                assert(rest[a - i] == v@[a as int]);
            }
            lemma_trim_start_skip(rest, a - i);
            assert(rest.skip(a - i) =~= v@.skip(a as int));
        }
        if a == v.len() {
            assert(trim_start_seq(rest).len() == 0);
            assert(collapse_ws(rest).len() == 0);
            i = a;
            assert(v@.skip(i as int).len() == 0);
        } else {
            let b = word_end(&v, a);
            let ghost t = v@.skip(a as int);
            proof {
                lemma_word_len(t);
                assert(t.take((b - a) as int) =~= v@.subrange(a as int, b as int));
                assert(t.skip((b - a) as int) =~= v@.skip(b as int));
            }
            let ghost before = out@;
            if out.len() > 0 {
                out.push(' ');
            }
            let mut k = a;
            while k < b
                invariant
                    a <= k <= b <= v.len(),
                    out@ == (if before.len() > 0 { before + seq![' '] } else { before }) + v@.subrange(
                        a as int,
                        k as int,
                    ),
                decreases b - k,
            {
                out.push(v[k]);
                k = k + 1;
                assert(out@ =~= (if before.len() > 0 { before + seq![' '] } else { before })
                    + v@.subrange(a as int, k as int));
            }
            i = b;
            assert(collapse_ws(v@) == if out@.len() == 0 {
                collapse_ws(v@.skip(i as int))
            } else if collapse_ws(v@.skip(i as int)).len() == 0 {
                out@
            } else {
                out@ + seq![' '] + collapse_ws(v@.skip(i as int))
            }) by {
                let w = v@.subrange(a as int, b as int);
                assert(w.len() > 0);
                if before.len() > 0 {
                    if collapse_ws(v@.skip(b as int)).len() > 0 {
                        assert(before + seq![' '] + (w + seq![' '] + collapse_ws(v@.skip(b as int)))
                            =~= before + seq![' '] + w + seq![' '] + collapse_ws(v@.skip(b as int)));
                    } else {
                        assert(before + seq![' '] + w =~= before + seq![' '] + w);
                    }
                } else {
                    assert(before + w =~= w);
                }
            }
        }
    }
    if i == v.len() {
        assert(v@.skip(i as int).len() == 0);
    }
    assert(collapse_ws(v@.skip(v.len() as int)).len() == 0) by {
        assert(v@.skip(v.len() as int) =~= Seq::<char>::empty());
        assert(trim_start_seq(Seq::<char>::empty()) == Seq::<char>::empty());
    }
    string_from_chars(&out)
}


/// A fresh identifier: `Uuid::new_v4()` in its hyphenated lower-case form,
/// 36 characters of hexadecimal digits and hyphens (random; nothing else is claimed).
#[verifier::external_body]
fn new_entry_id() -> (r: String)
    ensures
        r@.len() == 36,
        forall|i: int| 0 <= i < 36 ==> !is_ws(#[trigger] r@[i]),
{
    uuid::Uuid::new_v4().to_string()
}

pub open spec fn entry_view(e: DictionaryEntry) -> (Seq<char>, Seq<char>) {
    (e.id@, e.term@)
}

pub open spec fn entries_view(s: Seq<DictionaryEntry>) -> Seq<(Seq<char>, Seq<char>)> {
    s.map_values(|e: DictionaryEntry| entry_view(e))
}

/// The indices of the entries that normalization keeps: those whose collapsed
/// term is non-empty and differs, once lower-cased, from every earlier kept term.
pub open spec fn kept_entries(entries: Seq<DictionaryEntry>) -> Seq<int>
    decreases entries.len(),
{
    if entries.len() == 0 {
        Seq::empty()
    } else {
        let prev = kept_entries(entries.drop_last());
        let i = entries.len() - 1;
        let t = collapse_ws(entries[i].term@);
        if t.len() == 0 || exists|k: int|
            0 <= k < prev.len() && spec_to_lowercase(collapse_ws(entries[#[trigger] prev[k]].term@))
                == spec_to_lowercase(t) {
            prev
        } else {
            prev.push(i)
        }
    }
}

/// A run of non-whitespace followed by whitespace (or nothing) is one word.
proof fn lemma_word_len_prefix(a: Seq<char>, b: Seq<char>)
    requires
        forall|j: int| 0 <= j < a.len() ==> !is_ws(#[trigger] a[j]),
        b.len() == 0 || is_ws(b[0]),
    ensures
        word_len(a + b) == a.len(),
    decreases a.len(),
{
    if a.len() == 0 {
        assert(a + b =~= b);
    } else {
        assert((a + b).drop_first() =~= a.drop_first() + b);
        assert forall|j: int| 0 <= j < a.drop_first().len() implies !is_ws(#[trigger] a.drop_first()[j]) by {
            assert(a.drop_first()[j] == a[j + 1]);
        }
        lemma_word_len_prefix(a.drop_first(), b);
    }
}

/// Collapsed text does not start with whitespace.
proof fn lemma_collapse_first(s: Seq<char>)
    ensures
        collapse_ws(s).len() > 0 ==> !is_ws(collapse_ws(s)[0]),
{
    let t = trim_start_seq(s);
    if t.len() > 0 {
        lemma_trim_start_len(s);
        crate::text::lemma_trim_start_first(s);
        lemma_word_len(t);
    }
}

/// Collapsing whitespace-collapsed text changes nothing.
pub proof fn lemma_collapse_idempotent(s: Seq<char>)
    ensures
        collapse_ws(collapse_ws(s)) == collapse_ws(s),
    decreases s.len(),
{
    let t = trim_start_seq(s);
    lemma_trim_start_len(s);
    crate::text::lemma_trim_start_first(s);
    if t.len() == 0 {
        assert(collapse_ws(s) =~= Seq::<char>::empty());
        assert(trim_start_seq(Seq::<char>::empty()) =~= Seq::<char>::empty());
    } else {
        lemma_word_len(t);
        let w = word_len(t) as int;
        let head = t.take(w);
        let tail = t.skip(w);
        let rest = collapse_ws(tail);
        lemma_collapse_idempotent(tail);
        lemma_collapse_first(tail);
        assert forall|j: int| 0 <= j < head.len() implies !is_ws(#[trigger] head[j]) by {
            assert(head[j] == t[j]);
        }
        if rest.len() == 0 {
            let c = head;
            assert(collapse_ws(s) == c);
            assert(trim_start_seq(c) == c);
            lemma_word_len_prefix(head, Seq::<char>::empty());
            assert(head + Seq::<char>::empty() =~= head);
            assert(c.skip(w) =~= Seq::<char>::empty());
            assert(trim_start_seq(c.skip(w)) =~= Seq::<char>::empty());
            assert(collapse_ws(c.skip(w)) =~= Seq::<char>::empty());
            assert(c.take(w) =~= c);
        } else {
            let tail2 = seq![' '] + rest;
            let c = head + tail2;
            assert(collapse_ws(s) =~= c);
            assert(c[0] == head[0]);
            assert(trim_start_seq(c) == c);
            lemma_word_len_prefix(head, tail2);
            assert(c.take(w) =~= head);
            assert(c.skip(w) =~= tail2);
            assert(tail2.drop_first() =~= rest);
            assert(trim_start_seq(tail2) == trim_start_seq(rest));
            assert(collapse_ws(tail2) == collapse_ws(rest));
        }
    }
}

/// `out` is what normalization makes of `entries`: the kept entries in order,
/// each with its collapsed term, keeping its ID unless that is blank.
pub open spec fn normalized_entries(entries: Seq<DictionaryEntry>, out: Seq<DictionaryEntry>) -> bool {
    let kept = kept_entries(entries);
    &&& out.len() == kept.len()
    &&& forall|k: int| 0 <= k < kept.len() ==> {
        let e = entries[#[trigger] kept[k]];
        &&& out[k].term@ == collapse_ws(e.term@)
        &&& trim_seq(e.id@).len() > 0 ==> out[k].id@ == e.id@
        &&& trim_seq(e.id@).len() == 0 ==> out[k].id@.len() == 36 && trim_seq(out[k].id@).len() > 0
    }
}

pub proof fn lemma_kept_bounds(entries: Seq<DictionaryEntry>)
    ensures
        forall|k: int| 0 <= k < kept_entries(entries).len() ==> 0 <= #[trigger] kept_entries(entries)[k] < entries.len(),
    decreases entries.len(),
{
    if entries.len() > 0 {
        let prev = kept_entries(entries.drop_last());
        lemma_kept_bounds(entries.drop_last());
        let kept = kept_entries(entries);
        assert forall|k: int| 0 <= k < kept.len() implies 0 <= #[trigger] kept[k] < entries.len() by {
            if kept.len() == prev.len() {
                assert(kept[k] == prev[k]);
            } else {
                if k < prev.len() {
                    assert(kept[k] == prev[k]);
                }
            }
        }
    }
}

proof fn lemma_kept_terms(entries: Seq<DictionaryEntry>)
    ensures
        forall|k: int| 0 <= k < kept_entries(entries).len() ==> collapse_ws(entries[#[trigger] kept_entries(entries)[k]].term@).len() > 0,
        forall|k: int, l: int| 0 <= k < l < kept_entries(entries).len() ==> spec_to_lowercase(
            collapse_ws(entries[#[trigger] kept_entries(entries)[k]].term@),
        ) != spec_to_lowercase(collapse_ws(entries[#[trigger] kept_entries(entries)[l]].term@)),
    decreases entries.len(),
{
    if entries.len() > 0 {
        let init = entries.drop_last();
        lemma_kept_terms(init);
        lemma_kept_bounds(init);
        let prev = kept_entries(init);
        let kept = kept_entries(entries);
        assert forall|k: int| 0 <= k < prev.len() implies entries[#[trigger] prev[k]] == init[prev[k]] by {}
        if kept.len() == prev.len() {
            assert(kept == prev);
        } else {
            assert(kept == prev.push(entries.len() - 1));
            assert forall|k: int| 0 <= k < kept.len() implies collapse_ws(entries[#[trigger] kept[k]].term@).len() > 0 by {
                if k < prev.len() {
                    assert(kept[k] == prev[k]);
                }
            }
            assert forall|k: int, l: int| 0 <= k < l < kept.len() implies spec_to_lowercase(
                collapse_ws(entries[#[trigger] kept[k]].term@),
            ) != spec_to_lowercase(collapse_ws(entries[#[trigger] kept[l]].term@)) by {
                assert(kept[k] == prev[k]);
                if l < prev.len() {
                    assert(kept[l] == prev[l]);
                } else {
                    assert(kept[l] == entries.len() - 1);
                }
            }
        }
    }
}

/// A normalized dictionary holds no empty term, no blank ID, and no two terms
/// that are equal once lower-cased.
pub proof fn law_normalized_dictionary_is_clean(entries: Seq<DictionaryEntry>, out: Seq<DictionaryEntry>)
    requires
        normalized_entries(entries, out),
    ensures
        forall|i: int| 0 <= i < out.len() ==> (#[trigger] out[i]).term@.len() > 0 && trim_seq(out[i].id@).len() > 0,
        forall|i: int, j: int| 0 <= i < j < out.len() ==> spec_to_lowercase((#[trigger] out[i]).term@)
            != spec_to_lowercase((#[trigger] out[j]).term@),
{
    lemma_kept_terms(entries);
    lemma_kept_bounds(entries);
    let kept = kept_entries(entries);
    assert forall|i: int| 0 <= i < out.len() implies (#[trigger] out[i]).term@.len() > 0 && trim_seq(out[i].id@).len() > 0 by {
        let e = entries[kept[i]];
        assert(out[i].term@ == collapse_ws(e.term@));
    }
    assert forall|i: int, j: int| 0 <= i < j < out.len() implies spec_to_lowercase((#[trigger] out[i]).term@)
        != spec_to_lowercase((#[trigger] out[j]).term@) by {
        assert(out[i].term@ == collapse_ws(entries[kept[i]].term@));
        assert(out[j].term@ == collapse_ws(entries[kept[j]].term@));
    }
}

/// Entries whose terms are collapsed, non-empty and distinct ignoring case are
/// all kept.
proof fn lemma_clean_entries_all_kept(out: Seq<DictionaryEntry>, m: int)
    requires
        0 <= m <= out.len(),
        forall|i: int| 0 <= i < out.len() ==> (#[trigger] out[i]).term@.len() > 0 && collapse_ws(out[i].term@)
            == out[i].term@,
        forall|i: int, j: int| 0 <= i < j < out.len() ==> spec_to_lowercase((#[trigger] out[i]).term@)
            != spec_to_lowercase((#[trigger] out[j]).term@),
    ensures
        kept_entries(out.take(m)) == Seq::new(m as nat, |i: int| i),
    decreases m,
{
    if m == 0 {
        assert(out.take(0).len() == 0);
        assert(kept_entries(out.take(0)) =~= Seq::new(0, |i: int| i));
    } else {
        let part = out.take(m);
        assert(part.drop_last() =~= out.take(m - 1));
        lemma_clean_entries_all_kept(out, m - 1);
        let prev = kept_entries(part.drop_last());
        assert(prev == Seq::new((m - 1) as nat, |i: int| i));
        let t = collapse_ws(part[m - 1].term@);
        assert(part[m - 1] == out[m - 1]);
        assert(t == out[m - 1].term@);
        assert(!exists|k: int|
            0 <= k < prev.len() && spec_to_lowercase(collapse_ws(part[#[trigger] prev[k]].term@)) == spec_to_lowercase(t)) by {
            assert forall|k: int| 0 <= k < prev.len() implies spec_to_lowercase(collapse_ws(part[#[trigger] prev[k]].term@))
                != spec_to_lowercase(t) by {
                assert(prev[k] == k);
                assert(part[k] == out[k]);
            }
        }
        assert(kept_entries(part) == prev.push(m - 1));
        assert(prev.push(m - 1) =~= Seq::new(m as nat, |i: int| i));
    }
}

/// Normalizing a normalized dictionary changes nothing.
pub proof fn law_dictionary_normalization_is_stable(
    entries: Seq<DictionaryEntry>,
    out: Seq<DictionaryEntry>,
    again: Seq<DictionaryEntry>,
)
    requires
        normalized_entries(entries, out),
        normalized_entries(out, again),
    ensures
        entries_view(again) == entries_view(out),
{
    law_normalized_dictionary_is_clean(entries, out);
    lemma_kept_bounds(entries);
    let kept = kept_entries(entries);
    assert forall|i: int| 0 <= i < out.len() implies (#[trigger] out[i]).term@.len() > 0 && collapse_ws(out[i].term@)
        == out[i].term@ by {
        let e = entries[kept[i]];
        assert(out[i].term@ == collapse_ws(e.term@));
        lemma_collapse_idempotent(e.term@);
    }
    lemma_clean_entries_all_kept(out, out.len() as int);
    assert(out.take(out.len() as int) =~= out);
    let kept2 = kept_entries(out);
    assert forall|k: int| 0 <= k < out.len() implies #[trigger] entry_view(again[k]) == entry_view(out[k]) by {
        assert(kept2[k] == k);
        assert(again[k].term@ == collapse_ws(out[k].term@));
    }
    assert(entries_view(again) =~= entries_view(out));
}

proof fn lemma_trim_nonblank_36(s: Seq<char>)
    requires
        s.len() == 36,
        forall|i: int| 0 <= i < 36 ==> !is_ws(#[trigger] s[i]),
    ensures
        trim_seq(s).len() > 0,
{
    crate::text::lemma_trim_start_skip(s, 0);
    assert(s.skip(0) =~= s);
    crate::text::lemma_trim_end_take(s, 36);
    assert(s.take(36) =~= s);
}

fn entries_same(a: &Vec<DictionaryEntry>, b: &Vec<DictionaryEntry>) -> (r: bool)
    ensures
        r == (entries_view(a@) == entries_view(b@)),
{
    if a.len() != b.len() {
        assert(entries_view(a@).len() != entries_view(b@).len());
        return false;
    }
    let mut i: usize = 0;
    while i < a.len()
        invariant
            a.len() == b.len(),
            i <= a.len(),
            forall|k: int| 0 <= k < i ==> entry_view(#[trigger] a@[k]) == entry_view(b@[k]),
        decreases a.len() - i,
    {
        let ai = chars_of(a[i].id.as_str());
        let bi = chars_of(b[i].id.as_str());
        let at = chars_of(a[i].term.as_str());
        let bt = chars_of(b[i].term.as_str());
        if !chars_eq(&ai, &bi) || !chars_eq(&at, &bt) {
            assert(entries_view(a@)[i as int] != entries_view(b@)[i as int]);
            return false;
        }
        i = i + 1;
    }
    assert(entries_view(a@) =~= entries_view(b@));
    true
}

fn seen_contains(seen: &Vec<String>, t: &String) -> (r: bool)
    ensures
        r == exists|k: int| 0 <= k < seen@.len() && (#[trigger] seen@[k])@ == t@,
{
    let tv = chars_of(t.as_str());
    let mut i: usize = 0;
    while i < seen.len()
        invariant
            i <= seen@.len(),
            tv@ == t@,
            forall|k: int| 0 <= k < i ==> (#[trigger] seen@[k])@ != t@,
        decreases seen.len() - i,
    {
        let sv = chars_of(seen[i].as_str());
        if chars_eq(&sv, &tv) {
            return true;
        }
        i = i + 1;
    }
    false
}

pub fn normalize_dictionary_entries(settings: &mut AppSettings) -> (changed: bool)
    ensures
        normalized_entries(old(settings).dictionary_entries@, final(settings).dictionary_entries@),
        changed == (entries_view(final(settings).dictionary_entries@) != entries_view(
            old(settings).dictionary_entries@,
        )),
        (*final(settings)) == (AppSettings {
            dictionary_entries: final(settings).dictionary_entries,
            ..*old(settings)
        }),
{
    let ghost entries = settings.dictionary_entries@;
    let mut seen: Vec<String> = Vec::new();
    let mut normalized: Vec<DictionaryEntry> = Vec::new();
    let mut i: usize = 0;
    while i < settings.dictionary_entries.len()
        invariant
            entries == settings.dictionary_entries@,
            i <= entries.len(),
            normalized_entries(entries.take(i as int), normalized@),
            seen@.len() == normalized@.len(),
            forall|k: int| 0 <= k < seen@.len() ==> (#[trigger] seen@[k])@ == spec_to_lowercase(
                normalized@[k].term@,
            ),
        decreases entries.len() - i,
    {
        let ghost prefix = entries.take(i as int);
        let ghost next = entries.take(i + 1);
        assert(next.drop_last() =~= prefix);
        proof {
            lemma_kept_bounds(prefix);
        }
        let entry = &settings.dictionary_entries[i];
        let term = normalize_dictionary_term(entry.term.as_str());
        if term.as_str().unicode_len() > 0 {
            let lower = to_lowercase_str(term.as_str());
            let duplicate = seen_contains(&seen, &lower);
            let ghost kept = kept_entries(prefix);
            assert(duplicate == exists|k: int|
                0 <= k < kept.len() && spec_to_lowercase(collapse_ws(prefix[#[trigger] kept[k]].term@))
                    == spec_to_lowercase(collapse_ws(next[i as int].term@))) by {
                if duplicate {
                    let k = choose|k: int| 0 <= k < seen@.len() && (#[trigger] seen@[k])@ == lower@;
                    assert(normalized@[k].term@ == collapse_ws(prefix[kept[k]].term@));
                }
                assert forall|k: int| 0 <= k < kept.len() && spec_to_lowercase(collapse_ws(prefix[#[trigger] kept[k]].term@))
                    == spec_to_lowercase(collapse_ws(next[i as int].term@)) implies duplicate by {
                    assert(seen@[k]@ == lower@);
                }
            }
            if !duplicate {
                let blank = trim_str(entry.id.as_str()).len() == 0;
                let id = if blank {
                    let fresh = new_entry_id();
                    proof {
                        lemma_trim_nonblank_36(fresh@);
                    }
                    fresh
                } else {
                    entry.id.clone()
                };
                normalized.push(DictionaryEntry { id, term });
                seen.push(lower);
                assert(kept_entries(next) == kept.push(i as int));
                assert forall|k: int| 0 <= k < kept_entries(next).len() implies {
                    let e = next[#[trigger] kept_entries(next)[k]];
                    &&& normalized@[k].term@ == collapse_ws(e.term@)
                    &&& trim_seq(e.id@).len() > 0 ==> normalized@[k].id@ == e.id@
                    &&& trim_seq(e.id@).len() == 0 ==> normalized@[k].id@.len() == 36 && trim_seq(normalized@[k].id@).len() > 0
                } by {
                    if k < kept.len() {
                        assert(prefix[kept[k]] == next[kept[k]]);
                    }
                }
            } else {
                assert(kept_entries(next) == kept);
                assert forall|k: int| 0 <= k < kept.len() implies prefix[#[trigger] kept[k]] == next[kept[k]] by {}
            }
        } else {
            assert(kept_entries(next) == kept_entries(prefix));
            assert forall|k: int| 0 <= k < kept_entries(prefix).len() implies prefix[#[trigger] kept_entries(prefix)[k]] == next[kept_entries(prefix)[k]] by {}
        }
        i = i + 1;
    }
    assert(entries.take(entries.len() as int) =~= entries);
    let changed = !entries_same(&settings.dictionary_entries, &normalized);
    if changed {
        settings.dictionary_entries = normalized;
    } else {
        proof {
            lemma_kept_bounds(entries);
            assert(entries_view(settings.dictionary_entries@).len() == entries_view(normalized@).len());
        }
        assert forall|k: int| 0 <= k < kept_entries(entries).len() implies {
            let e = entries[#[trigger] kept_entries(entries)[k]];
            &&& settings.dictionary_entries@[k].term@ == collapse_ws(e.term@)
            &&& trim_seq(e.id@).len() > 0 ==> settings.dictionary_entries@[k].id@ == e.id@
            &&& trim_seq(e.id@).len() == 0 ==> settings.dictionary_entries@[k].id@.len() == 36 && trim_seq(settings.dictionary_entries@[k].id@).len() > 0
        } by {
            assert(entries_view(settings.dictionary_entries@)[k] == entries_view(normalized@)[k]);
            assert(entries_view(settings.dictionary_entries@)[k] == entry_view(settings.dictionary_entries@[k]));
            assert(entries_view(normalized@)[k] == entry_view(normalized@[k]));
        }
    }
    changed
}


// ---------------------------------------------------------------------------
// Key codes derived from chords
// ---------------------------------------------------------------------------

/// The Windows virtual key of a modifier (the Fn modifier has none; 0 stands in).
pub open spec fn windows_modifier_vk(m: ShortcutModifier) -> u16 {
    match m {
        ShortcutModifier::Control => 17,
        ShortcutModifier::Alt | ShortcutModifier::Option => 18,
        ShortcutModifier::Shift => 16,
        ShortcutModifier::Meta | ShortcutModifier::Command => 91,
        ShortcutModifier::Fn => 0,
    }
}

/// The Linux key code of a modifier (the Fn modifier has none; 0 stands in).
pub open spec fn linux_modifier_code(m: ShortcutModifier) -> u32 {
    match m {
        ShortcutModifier::Control => 0xffe3,
        ShortcutModifier::Alt | ShortcutModifier::Option => 0xffe9,
        ShortcutModifier::Shift => 0xffe1,
        ShortcutModifier::Meta | ShortcutModifier::Command => 0xffeb,
        ShortcutModifier::Fn => 0,
    }
}

pub open spec fn windows_key_vk(k: ShortcutKey) -> Option<u16> {
    match k {
        ShortcutKey::Space => Some(32),
        ShortcutKey::Return => Some(13),
        ShortcutKey::Tab => Some(9),
        ShortcutKey::Escape => None,
        ShortcutKey::Character(v) => if v@.len() > 0 && crate::text::is_ascii_alnum(v@[0]) {
            Some(crate::text::ascii_upper_code(v@[0]) as u16)
        } else {
            None
        },
        ShortcutKey::Function(n) => if 1 <= n <= 24 {
            Some((0x70 + n - 1) as u16)
        } else {
            None
        },
        ShortcutKey::ArrowLeft => Some(37),
        ShortcutKey::ArrowRight => Some(39),
        ShortcutKey::ArrowUp => Some(38),
        ShortcutKey::ArrowDown => Some(40),
        ShortcutKey::Delete => Some(46),
    }
}

pub open spec fn linux_key_code(k: ShortcutKey) -> Option<u32> {
    match k {
        ShortcutKey::Space => Some(0x20),
        ShortcutKey::Return => Some(0xff0d),
        ShortcutKey::Tab => Some(0xff09),
        ShortcutKey::Escape => None,
        ShortcutKey::Character(v) => if v@.len() > 0 && crate::text::is_ascii_alnum(v@[0]) {
            Some(crate::text::ascii_lower_code(v@[0]))
        } else {
            None
        },
        ShortcutKey::Function(n) => if 1 <= n <= 24 {
            Some((0xffbe + n - 1) as u32)
        } else {
            None
        },
        ShortcutKey::ArrowLeft => Some(0xff51),
        ShortcutKey::ArrowUp => Some(0xff52),
        ShortcutKey::ArrowRight => Some(0xff53),
        ShortcutKey::ArrowDown => Some(0xff54),
        ShortcutKey::Delete => Some(0xffff),
    }
}

/// The Windows keys a chord names, before ordering: its modifiers then its key;
/// a held chord of Control alone stands for Right Ctrl; none when the chord
/// uses Fn or a key without a Windows code.
pub open spec fn windows_raw_keys(chord: Option<ShortcutChord>, mode: ShortcutMode) -> Option<Seq<u16>> {
    match chord {
        None => None,
        Some(c) => if c.modifiers@.contains(ShortcutModifier::Fn) {
            None
        } else {
            match c.key {
                Some(k) => match windows_key_vk(k) {
                    Some(vk) => Some(c.modifiers@.map_values(|m: ShortcutModifier| windows_modifier_vk(m)).push(vk)),
                    None => None,
                },
                None => if mode == ShortcutMode::Hold && c.modifiers@ == seq![ShortcutModifier::Control] {
                    Some(seq![163u16])
                } else {
                    None
                },
            }
        },
    }
}

/// The Linux keys a chord names, before ordering; none without a key or with Fn.
pub open spec fn linux_raw_keys(chord: Option<ShortcutChord>) -> Option<Seq<u32>> {
    match chord {
        None => None,
        Some(c) => if c.modifiers@.contains(ShortcutModifier::Fn) {
            None
        } else {
            match c.key {
                Some(k) => match linux_key_code(k) {
                    Some(code) => Some(c.modifiers@.map_values(|m: ShortcutModifier| linux_modifier_code(m)).push(code)),
                    None => None,
                },
                None => None,
            }
        },
    }
}

/// Windows keys order: Ctrl, Alt, Shift, Windows, then the rest, each group by code.
pub open spec fn windows_settings_rank(k: u32) -> u64 {
    if k == 17 || k == 162 || k == 163 {
        0
    } else if k == 18 || k == 164 || k == 165 {
        1
    } else if k == 16 || k == 160 || k == 161 {
        2
    } else if k == 91 || k == 92 {
        3
    } else {
        4
    }
}

pub open spec fn windows_settings_ord(k: u32) -> u64 {
    (windows_settings_rank(k) * 4294967296 + k) as u64
}

/// Linux keys order: Ctrl, Alt, Shift, Meta, then the rest, each group by code.
pub open spec fn linux_settings_rank(k: u32) -> u64 {
    if k == 0xffe3 || k == 0xffe4 {
        0
    } else if k == 0xffe9 || k == 0xffea {
        1
    } else if k == 0xffe1 || k == 0xffe2 {
        2
    } else if k == 0xffeb || k == 0xffec {
        3
    } else {
        4
    }
}

pub open spec fn linux_settings_ord(k: u32) -> u64 {
    (linux_settings_rank(k) * 4294967296 + k) as u64
}

pub open spec fn widen(s: Seq<u16>) -> Seq<u32> {
    s.map_values(|x: u16| x as u32)
}

/// `keys` are the distinct keys of `raw` in Windows settings order.
pub open spec fn windows_keys_from(keys: Seq<u16>, raw: Seq<u16>) -> bool {
    sorted_dedup_by(widen(keys), widen(raw), |k: u32| windows_settings_ord(k))
}

/// `keys` are the distinct keys of `raw` in Linux settings order.
pub open spec fn linux_keys_from(keys: Seq<u32>, raw: Seq<u32>) -> bool {
    sorted_dedup_by(keys, raw, |k: u32| linux_settings_ord(k))
}

fn windows_settings_rank_exec(k: u32) -> (r: u64)
    ensures
        r == windows_settings_rank(k),
{
    if k == 17 || k == 162 || k == 163 {
        0
    } else if k == 18 || k == 164 || k == 165 {
        1
    } else if k == 16 || k == 160 || k == 161 {
        2
    } else if k == 91 || k == 92 {
        3
    } else {
        4
    }
}

fn linux_settings_rank_exec(k: u32) -> (r: u64)
    ensures
        r == linux_settings_rank(k),
{
    if k == 0xffe3 || k == 0xffe4 {
        0
    } else if k == 0xffe9 || k == 0xffea {
        1
    } else if k == 0xffe1 || k == 0xffe2 {
        2
    } else if k == 0xffeb || k == 0xffec {
        3
    } else {
        4
    }
}

fn sort_windows_keys(raw: &Vec<u16>) -> (keys: Vec<u16>)
    ensures
        windows_keys_from(keys@, raw@),
{
    let mut wide: Vec<u32> = Vec::new();
    let mut ords: Vec<u64> = Vec::new();
    let mut i: usize = 0;
    while i < raw.len()
        invariant
            i <= raw@.len(),
            wide@ == widen(raw@).take(i as int),
            ords@.len() == i,
            forall|k: int| 0 <= k < i ==> ords@[k] == windows_settings_ord(#[trigger] wide@[k]),
        decreases raw.len() - i,
    {
        let k = raw[i] as u32;
        wide.push(k);
        ords.push(windows_settings_rank_exec(k) * 4294967296 + k as u64);
        i = i + 1;
        assert(wide@ =~= widen(raw@).take(i as int));
    }
    assert(wide@ =~= widen(raw@));
    let ghost ord = |k: u32| windows_settings_ord(k);
    assert(ord_injective(ord)) by {
        assert forall|a: u32, b: u32| #[trigger] ord(a) == #[trigger] ord(b) implies a == b by {}
    }
    let sorted = sort_dedup_by_ord(&wide, &ords, Ghost(ord));
    let mut keys: Vec<u16> = Vec::new();
    let mut j: usize = 0;
    while j < sorted.len()
        invariant
            j <= sorted@.len(),
            sorted_dedup_by(sorted@, widen(raw@), ord),
            forall|x: u32| sorted@.contains(x) ==> x < 65536,
            widen(keys@) == sorted@.take(j as int),
        decreases sorted.len() - j,
    {
        let v: u32 = sorted[j];
        assert(sorted@.contains(v));
        let w: u16 = v as u16;
        assert(w as u32 == v);
        let ghost before = keys@;
        keys.push(w);
        assert(widen(keys@) =~= widen(before).push(v));
        j = j + 1;
        assert(sorted@.take(j as int) =~= sorted@.take(j - 1).push(v));
    } 
    assert(sorted@.take(sorted@.len() as int) =~= sorted@);
    keys
}

fn sort_linux_keys(raw: &Vec<u32>) -> (keys: Vec<u32>)
    ensures
        linux_keys_from(keys@, raw@),
{
    let mut ords: Vec<u64> = Vec::new();
    let mut i: usize = 0;
    while i < raw.len()
        invariant
            i <= raw@.len(),
            ords@.len() == i,
            forall|k: int| 0 <= k < i ==> ords@[k] == linux_settings_ord(#[trigger] raw@[k]),
        decreases raw.len() - i,
    {
        let k = raw[i];
        ords.push(linux_settings_rank_exec(k) * 4294967296 + k as u64);
        i = i + 1;
    }
    let ghost ord = |k: u32| linux_settings_ord(k);
    assert(ord_injective(ord)) by {
        assert forall|a: u32, b: u32| #[trigger] ord(a) == #[trigger] ord(b) implies a == b by {}
    }
    sort_dedup_by_ord(raw, &ords, Ghost(ord))
}

fn windows_virtual_key_for_key(key: &ShortcutKey) -> (r: Option<u16>)
    ensures
        r == windows_key_vk(*key),
{
    match key {
        ShortcutKey::Space => Some(32),
        ShortcutKey::Return => Some(13),
        ShortcutKey::Tab => Some(9),
        ShortcutKey::Escape => None,
        ShortcutKey::Character(value) => {
            let v = chars_of(value.as_str());
            if v.len() > 0 {
                let c = v[0];
                let x = c as u32;
                if (48 <= x && x <= 57) || (65 <= x && x <= 90) || (97 <= x && x <= 122) {
                    let u = crate::text::to_ascii_uppercase_char(c);
                    Some(u as u32 as u16)
                } else {
                    None
                }
            } else {
                None
            }
        },
        ShortcutKey::Function(number) => {
            if 1 <= *number && *number <= 24 {
                Some(0x70 + *number as u16 - 1)
            } else {
                None
            }
        },
        ShortcutKey::ArrowLeft => Some(37),
        ShortcutKey::ArrowRight => Some(39),
        ShortcutKey::ArrowUp => Some(38),
        ShortcutKey::ArrowDown => Some(40),
        ShortcutKey::Delete => Some(46),
    }
}

fn linux_key_code_for_key(key: &ShortcutKey) -> (r: Option<u32>)
    ensures
        r == linux_key_code(*key),
{
    match key {
        ShortcutKey::Space => Some(0x20),
        ShortcutKey::Return => Some(0xff0d),
        ShortcutKey::Tab => Some(0xff09),
        ShortcutKey::Escape => None,
        ShortcutKey::Character(value) => {
            let v = chars_of(value.as_str());
            if v.len() > 0 {
                let c = v[0];
                let x = c as u32;
                if (48 <= x && x <= 57) || (65 <= x && x <= 90) || (97 <= x && x <= 122) {
                    let l = crate::text::to_ascii_lowercase_char(c);
                    Some(l as u32)
                } else {
                    None
                }
            } else {
                None
            }
        },
        ShortcutKey::Function(number) => {
            if 1 <= *number && *number <= 24 {
                Some(0xffbe + *number as u32 - 1)
            } else {
                None
            }
        },
        ShortcutKey::ArrowLeft => Some(0xff51),
        ShortcutKey::ArrowUp => Some(0xff52),
        ShortcutKey::ArrowRight => Some(0xff53),
        ShortcutKey::ArrowDown => Some(0xff54),
        ShortcutKey::Delete => Some(0xffff),
    }
}

fn windows_modifier_vk_exec(m: ShortcutModifier) -> (r: u16)
    ensures
        r == windows_modifier_vk(m),
{
    match m {
        ShortcutModifier::Control => 17,
        ShortcutModifier::Alt | ShortcutModifier::Option => 18,
        ShortcutModifier::Shift => 16,
        ShortcutModifier::Meta | ShortcutModifier::Command => 91,
        ShortcutModifier::Fn => 0,
    }
}

fn linux_modifier_code_exec(m: ShortcutModifier) -> (r: u32)
    ensures
        r == linux_modifier_code(m),
{
    match m {
        ShortcutModifier::Control => 0xffe3,
        ShortcutModifier::Alt | ShortcutModifier::Option => 0xffe9,
        ShortcutModifier::Shift => 0xffe1,
        ShortcutModifier::Meta | ShortcutModifier::Command => 0xffeb,
        ShortcutModifier::Fn => 0,
    }
}

fn windows_virtual_keys_from_chord(chord: Option<&ShortcutChord>, mode: ShortcutMode) -> (r: Option<Vec<u16>>)
    ensures
        match (windows_raw_keys(match chord { Some(c) => Some(*c), None => None }, mode), r) {
            (Some(raw), Some(keys)) => windows_keys_from(keys@, raw),
            (None, None) => true,
            _ => false,
        },
{
    let ch = match chord {
        Some(c) => c,
        None => return None,
    };
    let mut keys: Vec<u16> = Vec::new();
    let mut i: usize = 0;
    while i < ch.modifiers.len()
        invariant
            i <= ch.modifiers@.len(),
            chord == Some(ch),
            !ch.modifiers@.take(i as int).contains(ShortcutModifier::Fn),
            keys@ == ch.modifiers@.take(i as int).map_values(|m: ShortcutModifier| windows_modifier_vk(m)),
        decreases ch.modifiers.len() - i,
    {
        let m = ch.modifiers[i];
        if m == ShortcutModifier::Fn {
            assert(ch.modifiers@[i as int] == ShortcutModifier::Fn);
            assert(ch.modifiers@.contains(ShortcutModifier::Fn));
            return None;
        }
        keys.push(windows_modifier_vk_exec(m));
        i = i + 1;
        assert(keys@ =~= ch.modifiers@.take(i as int).map_values(|m: ShortcutModifier| windows_modifier_vk(m)));
        assert(!ch.modifiers@.take(i as int).contains(ShortcutModifier::Fn)) by {
            if ch.modifiers@.take(i as int).contains(ShortcutModifier::Fn) {
                let k = choose|k: int| 0 <= k < i && ch.modifiers@.take(i as int)[k] == ShortcutModifier::Fn;
                if k < i - 1 {
                    assert(ch.modifiers@.take(i - 1)[k] == ShortcutModifier::Fn);
                }
            }
        }
    }
    assert(ch.modifiers@.take(ch.modifiers@.len() as int) =~= ch.modifiers@);
    match &ch.key {
        Some(key) => {
            match windows_virtual_key_for_key(key) {
                Some(vk) => keys.push(vk),
                None => return None,
            }
        },
        None => {
            if mode == ShortcutMode::Hold && ch.modifiers.len() == 1 && ch.modifiers[0]
                == ShortcutModifier::Control {
                assert(ch.modifiers@ =~= seq![ShortcutModifier::Control]);
                keys = vec![163u16];
                assert(keys@ =~= seq![163u16]);
            } else {
                assert(ch.modifiers@.len() == 1 ==> ch.modifiers@ == seq![ch.modifiers@[0]]);
                return None;
            }
        },
    }
    Some(sort_windows_keys(&keys))
}

fn linux_key_codes_from_chord(chord: Option<&ShortcutChord>) -> (r: Option<Vec<u32>>)
    ensures
        match (linux_raw_keys(match chord { Some(c) => Some(*c), None => None }), r) {
            (Some(raw), Some(keys)) => linux_keys_from(keys@, raw),
            (None, None) => true,
            _ => false,
        },
{
    let ch = match chord {
        Some(c) => c,
        None => return None,
    };
    let mut keys: Vec<u32> = Vec::new();
    let mut i: usize = 0;
    while i < ch.modifiers.len()
        invariant
            i <= ch.modifiers@.len(),
            chord == Some(ch),
            !ch.modifiers@.take(i as int).contains(ShortcutModifier::Fn),
            keys@ == ch.modifiers@.take(i as int).map_values(|m: ShortcutModifier| linux_modifier_code(m)),
        decreases ch.modifiers.len() - i,
    {
        let m = ch.modifiers[i];
        if m == ShortcutModifier::Fn {
            assert(ch.modifiers@[i as int] == ShortcutModifier::Fn);
            assert(ch.modifiers@.contains(ShortcutModifier::Fn));
            return None;
        }
        keys.push(linux_modifier_code_exec(m));
        i = i + 1;
        assert(keys@ =~= ch.modifiers@.take(i as int).map_values(|m: ShortcutModifier| linux_modifier_code(m)));
        assert(!ch.modifiers@.take(i as int).contains(ShortcutModifier::Fn)) by {
            if ch.modifiers@.take(i as int).contains(ShortcutModifier::Fn) {
                let k = choose|k: int| 0 <= k < i && ch.modifiers@.take(i as int)[k] == ShortcutModifier::Fn;
                if k < i - 1 {
                    assert(ch.modifiers@.take(i - 1)[k] == ShortcutModifier::Fn);
                }
            }
        }
    }
    assert(ch.modifiers@.take(ch.modifiers@.len() as int) =~= ch.modifiers@);
    match &ch.key {
        Some(key) => {
            match linux_key_code_for_key(key) {
                Some(code) => keys.push(code),
                None => return None,
            }
        },
        None => {
            return None;
        },
    }
    Some(sort_linux_keys(&keys))
}


// ---------------------------------------------------------------------------
// Display names
// ---------------------------------------------------------------------------

/// Labels joined with " + ".
pub open spec fn join_plus(parts: Seq<Seq<char>>) -> Seq<char>
    decreases parts.len(),
{
    if parts.len() == 0 {
        Seq::empty()
    } else if parts.len() == 1 {
        parts[0]
    } else {
        join_plus(parts.drop_last()) + " + "@ + parts.last()
    }
}

/// The label a Windows virtual key has in a derived display name.
pub open spec fn windows_key_label(k: u16) -> Seq<char> {
    if k == 9 {
        "Tab"@
    } else if k == 13 {
        "Enter"@
    } else if k == 16 {
        "Shift"@
    } else if k == 17 {
        "Ctrl"@
    } else if k == 18 {
        "Alt"@
    } else if k == 32 {
        "Space"@
    } else if k == 160 {
        "Left Shift"@
    } else if k == 161 {
        "Right Shift"@
    } else if k == 162 {
        "Left Ctrl"@
    } else if k == 163 {
        "Right Ctrl"@
    } else if k == 164 {
        "Left Alt"@
    } else if k == 165 {
        "Right Alt"@
    } else if k == 37 {
        "Left Arrow"@
    } else if k == 38 {
        "Up Arrow"@
    } else if k == 39 {
        "Right Arrow"@
    } else if k == 40 {
        "Down Arrow"@
    } else if k == 46 {
        "Delete"@
    } else if k == 91 {
        "Windows"@
    } else if k == 92 {
        "Right Windows"@
    } else if 0x70 <= k <= 0x87 {
        "F"@ + decimal_seq((k - 0x70 + 1) as nat)
    } else if (48 <= k <= 57) || (65 <= k <= 90) {
        seq![k as char]
    } else {
        "VK "@ + decimal_seq(k as nat)
    }
}

/// The label a Linux key code has in a derived display name.
pub open spec fn linux_key_label_spec(k: u32) -> Seq<char> {
    if k == 0x20 {
        "Space"@
    } else if k == 0xff09 {
        "Tab"@
    } else if k == 0xff0d {
        "Enter"@
    } else if k == 0xff51 {
        "Left Arrow"@
    } else if k == 0xff52 {
        "Up Arrow"@
    } else if k == 0xff53 {
        "Right Arrow"@
    } else if k == 0xff54 {
        "Down Arrow"@
    } else if k == 0xffff {
        "Delete"@
    } else if k == 0xffe1 || k == 0xffe2 {
        "Shift"@
    } else if k == 0xffe3 || k == 0xffe4 {
        "Ctrl"@
    } else if k == 0xffe9 || k == 0xffea {
        "Alt"@
    } else if k == 0xffeb || k == 0xffec {
        "Meta"@
    } else if 0xffbe <= k <= 0xffd5 {
        "F"@ + decimal_seq((k - 0xffbe + 1) as nat)
    } else if (48 <= k <= 57) || (65 <= k <= 90) {
        seq![k as char]
    } else if 97 <= k <= 122 {
        seq![(k - 32) as char]
    } else {
        "Key 0x"@ + hex_seq(k as nat)
    }
}

/// Every Windows key label starts with a character that is not whitespace.
proof fn lemma_windows_label_starts(k: u16)
    ensures
        windows_key_label(k).len() > 0 && !is_ws(windows_key_label(k)[0]),
{
    reveal_strlit("Tab");
    reveal_strlit("Enter");
    reveal_strlit("Shift");
    reveal_strlit("Ctrl");
    reveal_strlit("Alt");
    reveal_strlit("Space");
    reveal_strlit("Left Shift");
    reveal_strlit("Right Shift");
    reveal_strlit("Left Ctrl");
    reveal_strlit("Right Ctrl");
    reveal_strlit("Left Alt");
    reveal_strlit("Right Alt");
    reveal_strlit("Left Arrow");
    reveal_strlit("Up Arrow");
    reveal_strlit("Right Arrow");
    reveal_strlit("Down Arrow");
    reveal_strlit("Delete");
    reveal_strlit("Windows");
    reveal_strlit("Right Windows");
    reveal_strlit("F");
    reveal_strlit("VK ");
    if (48 <= k <= 57) || (65 <= k <= 90) {
        let c = k as char;
        assert(c as u32 == k);
    }
}

/// Every Linux key label starts with a character that is not whitespace.
proof fn lemma_linux_label_starts(k: u32)
    ensures
        linux_key_label_spec(k).len() > 0 && !is_ws(linux_key_label_spec(k)[0]),
{
    reveal_strlit("Space");
    reveal_strlit("Tab");
    reveal_strlit("Enter");
    reveal_strlit("Left Arrow");
    reveal_strlit("Up Arrow");
    reveal_strlit("Right Arrow");
    reveal_strlit("Down Arrow");
    reveal_strlit("Delete");
    reveal_strlit("Shift");
    reveal_strlit("Ctrl");
    reveal_strlit("Alt");
    reveal_strlit("Meta");
    reveal_strlit("F");
    reveal_strlit("Key 0x");
    if (48 <= k <= 57) || (65 <= k <= 90) {
        let c = k as char;
        assert(c as u32 == k);
    } else if 97 <= k <= 122 {
        let c = (k - 32) as char;
        assert(c as u32 == k - 32);
    }
}

/// Labels joined by ` + ` start with the first label.
proof fn lemma_join_plus_first(parts: Seq<Seq<char>>)
    requires
        parts.len() > 0,
        parts[0].len() > 0,
    ensures
        join_plus(parts).len() > 0 && join_plus(parts)[0] == parts[0][0],
    decreases parts.len(),
{
    if parts.len() > 1 {
        lemma_join_plus_first(parts.drop_last());
    }
}

pub open spec fn windows_labels(keys: Seq<u16>) -> Seq<Seq<char>> {
    keys.map_values(|k: u16| windows_key_label(k))
}

pub open spec fn linux_labels(keys: Seq<u32>) -> Seq<Seq<char>> {
    keys.map_values(|k: u32| linux_key_label_spec(k))
}

pub(crate) fn windows_key_label_chars(k: u16) -> (r: Vec<char>)
    ensures
        r@ == windows_key_label(k),
{
    if k == 9 {
        chars_of("Tab")
    } else if k == 13 {
        chars_of("Enter")
    } else if k == 16 {
        chars_of("Shift")
    } else if k == 17 {
        chars_of("Ctrl")
    } else if k == 18 {
        chars_of("Alt")
    } else if k == 32 {
        chars_of("Space")
    } else if k == 160 {
        chars_of("Left Shift")
    } else if k == 161 {
        chars_of("Right Shift")
    } else if k == 162 {
        chars_of("Left Ctrl")
    } else if k == 163 {
        chars_of("Right Ctrl")
    } else if k == 164 {
        chars_of("Left Alt")
    } else if k == 165 {
        chars_of("Right Alt")
    } else if k == 37 {
        chars_of("Left Arrow")
    } else if k == 38 {
        chars_of("Up Arrow")
    } else if k == 39 {
        chars_of("Right Arrow")
    } else if k == 40 {
        chars_of("Down Arrow")
    } else if k == 46 {
        chars_of("Delete")
    } else if k == 91 {
        chars_of("Windows")
    } else if k == 92 {
        chars_of("Right Windows")
    } else if 0x70 <= k && k <= 0x87 {
        concat_chars(&chars_of("F"), &decimal_chars((k - 0x70 + 1) as u64))
    } else if (48 <= k && k <= 57) || (65 <= k && k <= 90) {
        let c = ascii_char(k as u32);
        let v = vec![c];
        assert(v@ =~= seq![k as char]);
        v
    } else {
        concat_chars(&chars_of("VK "), &decimal_chars(k as u64))
    }
}

pub(crate) fn linux_key_label_chars(k: u32) -> (r: Vec<char>)
    ensures
        r@ == linux_key_label_spec(k),
{
    if k == 0x20 {
        chars_of("Space")
    } else if k == 0xff09 {
        chars_of("Tab")
    } else if k == 0xff0d {
        chars_of("Enter")
    } else if k == 0xff51 {
        chars_of("Left Arrow")
    } else if k == 0xff52 {
        chars_of("Up Arrow")
    } else if k == 0xff53 {
        chars_of("Right Arrow")
    } else if k == 0xff54 {
        chars_of("Down Arrow")
    } else if k == 0xffff {
        chars_of("Delete")
    } else if k == 0xffe1 || k == 0xffe2 {
        chars_of("Shift")
    } else if k == 0xffe3 || k == 0xffe4 {
        chars_of("Ctrl")
    } else if k == 0xffe9 || k == 0xffea {
        chars_of("Alt")
    } else if k == 0xffeb || k == 0xffec {
        chars_of("Meta")
    } else if 0xffbe <= k && k <= 0xffd5 {
        concat_chars(&chars_of("F"), &decimal_chars((k - 0xffbe + 1) as u64))
    } else if (48 <= k && k <= 57) || (65 <= k && k <= 90) {
        let c = ascii_char(k);
        let v = vec![c];
        assert(v@ =~= seq![k as char]);
        v
    } else if 97 <= k && k <= 122 {
        let c = ascii_char(k - 32);
        let v = vec![c];
        assert(v@ =~= seq![(k - 32) as char]);
        v
    } else {
        concat_chars(&chars_of("Key 0x"), &hex_chars(k as u64))
    }
}

/// The display name derived from Windows virtual keys: their labels joined with " + ".
pub fn display_name_for_windows_keys(keys: &[u16]) -> (r: String)
    ensures
        r@ == join_plus(windows_labels(keys@)),
{
    let sep = chars_of(" + ");
    let mut out: Vec<char> = Vec::new();
    let mut i: usize = 0;
    while i < keys.len()
        invariant
            i <= keys@.len(),
            sep@ == " + "@,
            out@ == join_plus(windows_labels(keys@.take(i as int))),
        decreases keys.len() - i,
    {
        let label = windows_key_label_chars(keys[i]);
        if i > 0 {
            extend_chars(&mut out, &sep);
        }
        extend_chars(&mut out, &label);
        i = i + 1;
        proof {
            let parts = windows_labels(keys@.take(i as int));
            assert(parts.drop_last() =~= windows_labels(keys@.take(i - 1)));
            assert(parts.last() == windows_key_label(keys@[i - 1]));
            if i == 1 {
                assert(out@ =~= parts[0]);
            }
        }
    }
    assert(keys@.take(keys@.len() as int) =~= keys@);
    string_from_chars(&out)
}

/// The display name derived from Linux key codes: their labels joined with " + ".
pub fn display_name_for_linux_keys(keys: &[u32]) -> (r: String)
    ensures
        r@ == join_plus(linux_labels(keys@)),
{
    let sep = chars_of(" + ");
    let mut out: Vec<char> = Vec::new();
    let mut i: usize = 0;
    while i < keys.len()
        invariant
            i <= keys@.len(),
            sep@ == " + "@,
            out@ == join_plus(linux_labels(keys@.take(i as int))),
        decreases keys.len() - i,
    {
        let label = linux_key_label_chars(keys[i]);
        if i > 0 {
            extend_chars(&mut out, &sep);
        }
        extend_chars(&mut out, &label);
        i = i + 1;
        proof {
            let parts = linux_labels(keys@.take(i as int));
            assert(parts.drop_last() =~= linux_labels(keys@.take(i - 1)));
            assert(parts.last() == linux_key_label_spec(keys@[i - 1]));
            if i == 1 {
                assert(out@ =~= parts[0]);
            }
        }
    }
    assert(keys@.take(keys@.len() as int) =~= keys@);
    string_from_chars(&out)
}


// ---------------------------------------------------------------------------
// Shortcut normalization
// ---------------------------------------------------------------------------

/// A shortcut that still holds one of the macOS defaults (by its key codes or its name).
pub open spec fn is_macos_default_shortcut_spec(s: ShortcutSettings) -> bool {
    ||| codes(s.platform_codes.macos_key_codes) == seq![63u16]
    ||| codes(s.platform_codes.macos_key_codes) == seq![59u16, 49u16]
    ||| s.display_name@ == "Fn"@
    ||| s.display_name@ == "Control + Space"@
}

pub fn is_macos_default_shortcut(shortcut: &ShortcutSettings) -> (r: bool)
    ensures
        r == is_macos_default_shortcut_spec(*shortcut),
{
    let codes = shortcut.macos_key_codes();
    let fn_codes = vec![63u16];
    let ctrl_space_codes = vec![59u16, 49u16];
    assert(fn_codes@ =~= seq![63u16]);
    assert(ctrl_space_codes@ =~= seq![59u16, 49u16]);
    u16s_eq(codes, fn_codes.as_slice()) || u16s_eq(codes, ctrl_space_codes.as_slice())
        || str_eq(shortcut.display_name.as_str(), "Fn") || str_eq(
        shortcut.display_name.as_str(),
        "Control + Space",
    )
}

/// `r` is `s` with derived platform codes `keys` for one platform: the display
/// name is kept unless blank, and the other platforms' codes are cleared.
pub open spec fn with_derived_codes(
    s: ShortcutSettings,
    r: ShortcutSettings,
    derived_name: Seq<char>,
) -> bool {
    &&& r.display_name@ == (if trim_seq(s.display_name@).len() == 0 {
        derived_name
    } else {
        s.display_name@
    })
    &&& r.mode == s.mode
    &&& r.enabled == s.enabled
    &&& r.double_tap_toggle == s.double_tap_toggle
    &&& opt_chord_same(r.chord, s.chord)
    &&& r.platform_codes.macos_key_codes is None
}

/// What `windows_shortcut_or_default` gives for `s`: the fallback for a macOS
/// default or a chord with no Windows keys, else `s` with the chord's keys.
pub open spec fn windows_resolved(
    s: ShortcutSettings,
    r: ShortcutSettings,
    fallback: spec_fn(ShortcutSettings) -> bool,
) -> bool {
    if is_macos_default_shortcut_spec(s) {
        fallback(r)
    } else {
        match windows_raw_keys(s.chord, s.mode) {
            None => fallback(r),
            Some(raw) => match r.platform_codes.windows_virtual_keys {
                Some(keys) => {
                    &&& windows_keys_from(keys@, raw)
                    &&& with_derived_codes(s, r, join_plus(windows_labels(keys@)))
                    &&& r.platform_codes.linux_key_codes is None
                },
                None => false,
            },
        }
    }
}

/// What `linux_shortcut_or_default` gives for `s`.
pub open spec fn linux_resolved(
    s: ShortcutSettings,
    r: ShortcutSettings,
    fallback: spec_fn(ShortcutSettings) -> bool,
) -> bool {
    if is_macos_default_shortcut_spec(s) {
        fallback(r)
    } else {
        match linux_raw_keys(s.chord) {
            None => fallback(r),
            Some(raw) => match r.platform_codes.linux_key_codes {
                Some(keys) => {
                    &&& linux_keys_from(keys@, raw)
                    &&& with_derived_codes(s, r, join_plus(linux_labels(keys@)))
                    &&& r.platform_codes.windows_virtual_keys is None
                },
                None => false,
            },
        }
    }
}

pub fn windows_shortcut_or_default(shortcut: &ShortcutSettings, fallback: ShortcutSettings) -> (r:
    ShortcutSettings)
    ensures
        windows_resolved(*shortcut, r, |x: ShortcutSettings| shortcut_same(x, fallback)),
{
    if is_macos_default_shortcut(shortcut) {
        return fallback;
    }
    let chord: Option<&ShortcutChord> = match &shortcut.chord {
        Some(c) => Some(c),
        None => None,
    };
    assert(match chord { Some(c) => Some(*c), None => None } == shortcut.chord);
    let keys = match windows_virtual_keys_from_chord(chord, shortcut.mode) {
        Some(k) => k,
        None => return fallback,
    };
    let mut result = shortcut.copy();
    if is_blank(shortcut.display_name.as_str()) {
        result.display_name = display_name_for_windows_keys(keys.as_slice());
    }
    result.platform_codes = ShortcutPlatformCodes {
        macos_key_codes: None,
        windows_virtual_keys: Some(keys),
        linux_key_codes: None,
    };
    result
}

pub fn linux_shortcut_or_default(shortcut: &ShortcutSettings, fallback: ShortcutSettings) -> (r:
    ShortcutSettings)
    ensures
        linux_resolved(*shortcut, r, |x: ShortcutSettings| shortcut_same(x, fallback)),
{
    if is_macos_default_shortcut(shortcut) {
        return fallback;
    }
    let chord: Option<&ShortcutChord> = match &shortcut.chord {
        Some(c) => Some(c),
        None => None,
    };
    assert(match chord { Some(c) => Some(*c), None => None } == shortcut.chord);
    let keys = match linux_key_codes_from_chord(chord) {
        Some(k) => k,
        None => return fallback,
    };
    let mut result = shortcut.copy();
    if is_blank(shortcut.display_name.as_str()) {
        result.display_name = display_name_for_linux_keys(keys.as_slice());
    }
    result.platform_codes = ShortcutPlatformCodes {
        macos_key_codes: None,
        windows_virtual_keys: None,
        linux_key_codes: Some(keys),
    };
    result
}

/// A hands-free shortcut that still holds an earlier Windows default, untouched.
pub open spec fn is_windows_hands_free_default_to_migrate_spec(s: ShortcutSettings) -> bool {
    let keys = codes(s.platform_codes.windows_virtual_keys);
    &&& ((s.display_name@ == "Ctrl + Alt + Space"@ && keys == seq![17u16, 18u16, 32u16]) || (
    s.display_name@ == "Left Ctrl + Left Alt + Space"@ && keys == seq![162u16, 164u16, 32u16]))
    &&& s.mode == ShortcutMode::Toggle
    &&& s.enabled
    &&& !s.double_tap_toggle
    &&& codes(s.platform_codes.macos_key_codes).len() == 0
    &&& codes(s.platform_codes.linux_key_codes).len() == 0
}

pub fn is_windows_hands_free_default_to_migrate(shortcut: &ShortcutSettings) -> (r: bool)
    ensures
        r == is_windows_hands_free_default_to_migrate_spec(*shortcut),
{
    let keys = shortcut.windows_virtual_keys();
    let old_keys = vec![17u16, 18u16, 32u16];
    let intermediate_keys = vec![162u16, 164u16, 32u16];
    assert(old_keys@ =~= seq![17u16, 18u16, 32u16]);
    assert(intermediate_keys@ =~= seq![162u16, 164u16, 32u16]);
    let matches_known_default = (str_eq(shortcut.display_name.as_str(), "Ctrl + Alt + Space")
        && u16s_eq(keys, old_keys.as_slice())) || (str_eq(
        shortcut.display_name.as_str(),
        "Left Ctrl + Left Alt + Space",
    ) && u16s_eq(keys, intermediate_keys.as_slice()));
    matches_known_default && shortcut.mode == ShortcutMode::Toggle && shortcut.enabled
        && !shortcut.double_tap_toggle && shortcut.macos_key_codes().len() == 0
        && shortcut.linux_key_codes().len() == 0
}


/// The shortcut lacks codes for the platform or has a blank name.
pub open spec fn needs_platform_codes(platform: SettingsPlatform, s: ShortcutSettings) -> bool {
    ||| trim_seq(s.display_name@).len() == 0
    ||| match platform {
        SettingsPlatform::Macos => codes(s.platform_codes.macos_key_codes).len() == 0,
        SettingsPlatform::Windows => codes(s.platform_codes.windows_virtual_keys).len() == 0,
        SettingsPlatform::Linux => codes(s.platform_codes.linux_key_codes).len() == 0,
    }
}

/// The platform step for a push-to-talk shortcut: kept when it has the
/// platform's codes and a name; else the macOS default on macOS, or the chord's
/// codes on Windows and Linux, falling back to the platform default.
pub open spec fn push_to_talk_step(platform: SettingsPlatform, s: ShortcutSettings, r: ShortcutSettings) -> bool {
    if !needs_platform_codes(platform, s) {
        shortcut_same(r, s)
    } else {
        match platform {
            SettingsPlatform::Macos => is_default_push_to_talk(r),
            SettingsPlatform::Windows => windows_resolved(s, r, |x: ShortcutSettings| is_default_windows_push_to_talk(x)),
            SettingsPlatform::Linux => linux_resolved(s, r, |x: ShortcutSettings| is_default_linux_push_to_talk(x)),
        }
    }
}

/// The platform step for a hands-free shortcut, before the Windows migration.
pub open spec fn hands_free_codes_step(platform: SettingsPlatform, s: ShortcutSettings, r: ShortcutSettings) -> bool {
    if !needs_platform_codes(platform, s) {
        shortcut_same(r, s)
    } else {
        match platform {
            SettingsPlatform::Macos => is_default_hands_free(r),
            SettingsPlatform::Windows => windows_resolved(s, r, |x: ShortcutSettings| is_default_windows_hands_free(x)),
            SettingsPlatform::Linux => linux_resolved(s, r, |x: ShortcutSettings| is_default_linux_hands_free(x)),
        }
    }
}

/// The platform step for a hands-free shortcut; on Windows an earlier default
/// then becomes the current one.
pub open spec fn hands_free_step(platform: SettingsPlatform, s: ShortcutSettings, r: ShortcutSettings) -> bool {
    match platform {
        SettingsPlatform::Windows => exists|h: ShortcutSettings| #[trigger]
            hands_free_codes_step(platform, s, h) && if is_windows_hands_free_default_to_migrate_spec(h) {
                is_default_windows_hands_free(r)
            } else {
                shortcut_same(r, h)
            },
        _ => hands_free_codes_step(platform, s, r),
    }
}

/// `r` holds the values of `s` but for its mode, which is `mode`.
pub open spec fn with_mode(r: ShortcutSettings, s: ShortcutSettings, mode: ShortcutMode) -> bool {
    &&& r.display_name@ == s.display_name@
    &&& r.mode == mode
    &&& r.enabled == s.enabled
    &&& r.double_tap_toggle == s.double_tap_toggle
    &&& opt_chord_same(r.chord, s.chord)
    &&& platform_codes_same(r.platform_codes, s.platform_codes)
}

/// The normalized pair of shortcuts: each after its platform step, push-to-talk
/// held and hands-free toggled.
pub open spec fn shortcuts_normalized(
    platform: SettingsPlatform,
    push: ShortcutSettings,
    hands: ShortcutSettings,
    new_push: ShortcutSettings,
    new_hands: ShortcutSettings,
) -> bool {
    &&& exists|p: ShortcutSettings| #[trigger]
        push_to_talk_step(platform, push, p) && with_mode(new_push, p, ShortcutMode::Hold)
    &&& exists|h: ShortcutSettings| #[trigger]
        hands_free_step(platform, hands, h) && with_mode(new_hands, h, ShortcutMode::Toggle)
}

proof fn lemma_trim_end_keeps_first(x: Seq<char>)
    requires
        x.len() > 0,
        !is_ws(x[0]),
    ensures
        crate::text::trim_end_seq(x).len() > 0,
    decreases x.len(),
{
    if is_ws(x.last()) {
        lemma_trim_end_keeps_first(x.drop_last());
    }
}

/// Text that starts with a non-whitespace character is not blank.
proof fn lemma_not_blank(x: Seq<char>)
    requires
        x.len() > 0,
        !is_ws(x[0]),
    ensures
        trim_seq(x).len() > 0,
{
    crate::text::lemma_trim_start_skip(x, 0);
    assert(x.skip(0) =~= x);
    lemma_trim_end_keeps_first(x);
}

/// Ordered keys taken from a non-empty list are not empty.
proof fn lemma_keys_from_nonempty_u32(keys: Seq<u32>, raw: Seq<u32>, ord: spec_fn(u32) -> u64)
    requires
        sorted_dedup_by(keys, raw, ord),
        raw.len() > 0,
    ensures
        keys.len() > 0,
{
    assert(raw.contains(raw[0]));
    assert(keys.contains(raw[0]));
}

/// The name derived from a non-empty list of Windows keys is not blank.
proof fn lemma_windows_name_not_blank(keys: Seq<u16>)
    requires
        keys.len() > 0,
    ensures
        trim_seq(join_plus(windows_labels(keys))).len() > 0,
{
    lemma_windows_label_starts(keys[0]);
    lemma_join_plus_first(windows_labels(keys));
    lemma_not_blank(join_plus(windows_labels(keys)));
}

proof fn lemma_linux_name_not_blank(keys: Seq<u32>)
    requires
        keys.len() > 0,
    ensures
        trim_seq(join_plus(linux_labels(keys))).len() > 0,
{
    lemma_linux_label_starts(keys[0]);
    lemma_join_plus_first(linux_labels(keys));
    lemma_not_blank(join_plus(linux_labels(keys)));
}

/// What `windows_shortcut_or_default` gives has Windows keys and a name, when
/// the fallback does.
proof fn lemma_windows_resolved_settled(s: ShortcutSettings, r: ShortcutSettings, fallback: spec_fn(ShortcutSettings) -> bool)
    requires
        windows_resolved(s, r, fallback),
        forall|x: ShortcutSettings| #[trigger] fallback(x) ==> !needs_platform_codes(SettingsPlatform::Windows, x),
    ensures
        !needs_platform_codes(SettingsPlatform::Windows, r),
{
    if !is_macos_default_shortcut_spec(s) {
        match windows_raw_keys(s.chord, s.mode) {
            Some(raw) => {
                let keys = r.platform_codes.windows_virtual_keys.unwrap()@;
                assert(raw.len() > 0);
                lemma_keys_from_nonempty_u32(widen(keys), widen(raw), |k: u32| windows_settings_ord(k));
                if trim_seq(s.display_name@).len() == 0 {
                    lemma_windows_name_not_blank(keys);
                }
            },
            None => {},
        }
    }
}

proof fn lemma_linux_resolved_settled(s: ShortcutSettings, r: ShortcutSettings, fallback: spec_fn(ShortcutSettings) -> bool)
    requires
        linux_resolved(s, r, fallback),
        forall|x: ShortcutSettings| #[trigger] fallback(x) ==> !needs_platform_codes(SettingsPlatform::Linux, x),
    ensures
        !needs_platform_codes(SettingsPlatform::Linux, r),
{
    if !is_macos_default_shortcut_spec(s) {
        match linux_raw_keys(s.chord) {
            Some(raw) => {
                let keys = r.platform_codes.linux_key_codes.unwrap()@;
                assert(raw.len() > 0);
                lemma_keys_from_nonempty_u32(keys, raw, |k: u32| linux_settings_ord(k));
                if trim_seq(s.display_name@).len() == 0 {
                    lemma_linux_name_not_blank(keys);
                }
            },
            None => {},
        }
    }
}

/// The defaults have their platform's codes and a name.
proof fn lemma_defaults_settled()
    ensures
        forall|x: ShortcutSettings| #[trigger] is_default_push_to_talk(x) ==> !needs_platform_codes(SettingsPlatform::Macos, x),
        forall|x: ShortcutSettings| #[trigger] is_default_hands_free(x) ==> !needs_platform_codes(SettingsPlatform::Macos, x),
        forall|x: ShortcutSettings|
            #[trigger] is_default_windows_push_to_talk(x) ==> !needs_platform_codes(SettingsPlatform::Windows, x),
        forall|x: ShortcutSettings|
            #[trigger] is_default_windows_hands_free(x) ==> !needs_platform_codes(SettingsPlatform::Windows, x),
        forall|x: ShortcutSettings|
            #[trigger] is_default_linux_push_to_talk(x) ==> !needs_platform_codes(SettingsPlatform::Linux, x),
        forall|x: ShortcutSettings|
            #[trigger] is_default_linux_hands_free(x) ==> !needs_platform_codes(SettingsPlatform::Linux, x),
{
    reveal_strlit("Fn");
    reveal_strlit("Control + Space");
    reveal_strlit("Right Ctrl");
    reveal_strlit("Left Ctrl + Space");
    reveal_strlit("F9");
    reveal_strlit("Ctrl + Space");
    lemma_not_blank("Fn"@);
    lemma_not_blank("Control + Space"@);
    lemma_not_blank("Right Ctrl"@);
    lemma_not_blank("Left Ctrl + Space"@);
    lemma_not_blank("F9"@);
    lemma_not_blank("Ctrl + Space"@);
}

/// After its platform step a push-to-talk shortcut has the platform's codes and a name.
proof fn lemma_push_step_settled(platform: SettingsPlatform, s: ShortcutSettings, r: ShortcutSettings)
    requires
        push_to_talk_step(platform, s, r),
    ensures
        !needs_platform_codes(platform, r),
{
    lemma_defaults_settled();
    if needs_platform_codes(platform, s) {
        match platform {
            SettingsPlatform::Macos => {},
            SettingsPlatform::Windows => {
                lemma_windows_resolved_settled(s, r, |x: ShortcutSettings| is_default_windows_push_to_talk(x));
            },
            SettingsPlatform::Linux => {
                lemma_linux_resolved_settled(s, r, |x: ShortcutSettings| is_default_linux_push_to_talk(x));
            },
        }
    }
}

/// After its platform step a hands-free shortcut has the platform's codes and a name.
proof fn lemma_hands_step_settled(platform: SettingsPlatform, s: ShortcutSettings, r: ShortcutSettings)
    requires
        hands_free_step(platform, s, r),
    ensures
        !needs_platform_codes(platform, r),
{
    lemma_defaults_settled();
    let h = if platform == SettingsPlatform::Windows {
        choose|h: ShortcutSettings| #[trigger]
            hands_free_codes_step(platform, s, h) && if is_windows_hands_free_default_to_migrate_spec(h) {
                is_default_windows_hands_free(r)
            } else {
                shortcut_same(r, h)
            }
    } else {
        r
    };
    assert(hands_free_codes_step(platform, s, h));
    if needs_platform_codes(platform, s) {
        match platform {
            SettingsPlatform::Macos => {},
            SettingsPlatform::Windows => {
                lemma_windows_resolved_settled(s, h, |x: ShortcutSettings| is_default_windows_hands_free(x));
            },
            SettingsPlatform::Linux => {
                lemma_linux_resolved_settled(s, h, |x: ShortcutSettings| is_default_linux_hands_free(x));
            },
        }
    }
}

/// The Windows migration looks only at what `shortcut_same` compares.
proof fn lemma_migrate_same(a: ShortcutSettings, b: ShortcutSettings)
    requires
        shortcut_same(a, b),
    ensures
        is_windows_hands_free_default_to_migrate_spec(a) == is_windows_hands_free_default_to_migrate_spec(b),
{
}

/// Normalizing normalized shortcuts changes nothing, except for a Windows
/// hands-free shortcut that the first run left as an earlier default: a
/// second run migrates that one.
pub proof fn law_shortcut_normalization_is_stable(
    platform: SettingsPlatform,
    push: ShortcutSettings,
    hands: ShortcutSettings,
    push1: ShortcutSettings,
    hands1: ShortcutSettings,
    push2: ShortcutSettings,
    hands2: ShortcutSettings,
)
    requires
        shortcuts_normalized(platform, push, hands, push1, hands1),
        shortcuts_normalized(platform, push1, hands1, push2, hands2),
        !(platform == SettingsPlatform::Windows && is_windows_hands_free_default_to_migrate_spec(hands1)),
    ensures
        shortcut_same(push2, push1),
        shortcut_same(hands2, hands1),
{
    let p = choose|p: ShortcutSettings| #[trigger]
        push_to_talk_step(platform, push, p) && with_mode(push1, p, ShortcutMode::Hold);
    lemma_push_step_settled(platform, push, p);
    assert(!needs_platform_codes(platform, push1));
    let p2 = choose|p: ShortcutSettings| #[trigger]
        push_to_talk_step(platform, push1, p) && with_mode(push2, p, ShortcutMode::Hold);
    assert(shortcut_same(p2, push1));

    let h = choose|h: ShortcutSettings| #[trigger]
        hands_free_step(platform, hands, h) && with_mode(hands1, h, ShortcutMode::Toggle);
    lemma_hands_step_settled(platform, hands, h);
    assert(!needs_platform_codes(platform, hands1));
    let h2 = choose|h: ShortcutSettings| #[trigger]
        hands_free_step(platform, hands1, h) && with_mode(hands2, h, ShortcutMode::Toggle);
    if platform == SettingsPlatform::Windows {
        let g = choose|g: ShortcutSettings| #[trigger]
            hands_free_codes_step(platform, hands1, g) && if is_windows_hands_free_default_to_migrate_spec(g) {
                is_default_windows_hands_free(h2)
            } else {
                shortcut_same(h2, g)
            };
        assert(shortcut_same(g, hands1));
        lemma_migrate_same(g, hands1);
        assert(shortcut_same(h2, hands1));
    } else {
        assert(shortcut_same(h2, hands1));
    }
}

fn needs_platform_codes_exec(platform: SettingsPlatform, s: &ShortcutSettings) -> (r: bool)
    ensures
        r == needs_platform_codes(platform, *s),
{
    let missing = match platform {
        SettingsPlatform::Macos => s.macos_key_codes().len() == 0,
        SettingsPlatform::Windows => s.windows_virtual_keys().len() == 0,
        SettingsPlatform::Linux => s.linux_key_codes().len() == 0,
    };
    missing || is_blank(s.display_name.as_str())
}

fn push_to_talk_for_platform(platform: SettingsPlatform, s: &ShortcutSettings) -> (r: ShortcutSettings)
    ensures
        push_to_talk_step(platform, *s, r),
{
    if !needs_platform_codes_exec(platform, s) {
        return s.copy();
    }
    match platform {
        SettingsPlatform::Macos => default_push_to_talk_shortcut(),
        SettingsPlatform::Windows => windows_shortcut_or_default(s, default_windows_push_to_talk_shortcut()),
        SettingsPlatform::Linux => linux_shortcut_or_default(s, default_linux_push_to_talk_shortcut()),
    }
}

fn hands_free_codes_for_platform(platform: SettingsPlatform, s: &ShortcutSettings) -> (r: ShortcutSettings)
    ensures
        hands_free_codes_step(platform, *s, r),
{
    if !needs_platform_codes_exec(platform, s) {
        return s.copy();
    }
    match platform {
        SettingsPlatform::Macos => default_hands_free_shortcut(),
        SettingsPlatform::Windows => windows_shortcut_or_default(s, default_windows_hands_free_shortcut()),
        SettingsPlatform::Linux => linux_shortcut_or_default(s, default_linux_hands_free_shortcut()),
    }
}

fn hands_free_for_platform(platform: SettingsPlatform, s: &ShortcutSettings) -> (r: ShortcutSettings)
    ensures
        hands_free_step(platform, *s, r),
{
    let h = hands_free_codes_for_platform(platform, s);
    if platform == SettingsPlatform::Windows {
        let ghost hg = h;
        let r = if is_windows_hands_free_default_to_migrate(&h) {
            default_windows_hands_free_shortcut()
        } else {
            h
        };
        assert(hands_free_codes_step(platform, *s, hg));
        r
    } else {
        h
    }
}

/// Sets the mode of `s`, keeping everything else.
fn set_mode(s: &mut ShortcutSettings, mode: ShortcutMode)
    ensures
        with_mode(*final(s), *old(s), mode),
        (*final(s)) == (ShortcutSettings { mode: final(s).mode, ..*old(s) }),
{
    if s.mode != mode {
        s.mode = mode;
    }
}

pub fn normalize_shortcuts_for_platform(settings: &mut AppSettings, platform: SettingsPlatform) -> (changed: bool)
    ensures
        shortcuts_normalized(
            platform,
            old(settings).push_to_talk_shortcut,
            old(settings).hands_free_shortcut,
            final(settings).push_to_talk_shortcut,
            final(settings).hands_free_shortcut,
        ),
        changed == !(shortcut_same(old(settings).push_to_talk_shortcut, final(settings).push_to_talk_shortcut)
            && shortcut_same(old(settings).hands_free_shortcut, final(settings).hands_free_shortcut)),
        (*final(settings)) == (AppSettings {
            push_to_talk_shortcut: final(settings).push_to_talk_shortcut,
            hands_free_shortcut: final(settings).hands_free_shortcut,
            ..*old(settings)
        }),
{
    let original_push = settings.push_to_talk_shortcut.copy();
    let original_hands = settings.hands_free_shortcut.copy();
    let mut push = push_to_talk_for_platform(platform, &settings.push_to_talk_shortcut);
    let mut hands = hands_free_for_platform(platform, &settings.hands_free_shortcut);
    let ghost push1 = push;
    let ghost hands1 = hands;
    set_mode(&mut push, ShortcutMode::Hold);
    set_mode(&mut hands, ShortcutMode::Toggle);
    settings.push_to_talk_shortcut = push;
    settings.hands_free_shortcut = hands;
    !(original_push.same_as(&settings.push_to_talk_shortcut) && original_hands.same_as(
        &settings.hands_free_shortcut,
    ))
}

pub fn normalize_shortcuts(settings: &mut AppSettings) -> (changed: bool)
    ensures
        shortcuts_normalized(
            SettingsPlatform::Macos,
            old(settings).push_to_talk_shortcut,
            old(settings).hands_free_shortcut,
            final(settings).push_to_talk_shortcut,
            final(settings).hands_free_shortcut,
        ),
        changed == !(shortcut_same(old(settings).push_to_talk_shortcut, final(settings).push_to_talk_shortcut)
            && shortcut_same(old(settings).hands_free_shortcut, final(settings).hands_free_shortcut)),
        (*final(settings)) == (AppSettings {
            push_to_talk_shortcut: final(settings).push_to_talk_shortcut,
            hands_free_shortcut: final(settings).hands_free_shortcut,
            ..*old(settings)
        }),
{
    normalize_shortcuts_for_platform(settings, SettingsPlatform::Macos)
}


// ---------------------------------------------------------------------------
// Whole settings
// ---------------------------------------------------------------------------

/// `new` is `old` normalized for `platform`: shortcuts, dictionary, dictation
/// language and cleanup model each normalized, every other field kept.
pub open spec fn settings_normalized(platform: SettingsPlatform, old: AppSettings, new: AppSettings) -> bool {
    &&& shortcuts_normalized(
        platform,
        old.push_to_talk_shortcut,
        old.hands_free_shortcut,
        new.push_to_talk_shortcut,
        new.hands_free_shortcut,
    )
    &&& normalized_entries(old.dictionary_entries@, new.dictionary_entries@)
    &&& (new.dictation_language_mode, opt_view(new.dictation_language_code)) == dictation_language_spec(
        old.dictation_language_mode,
        opt_view(old.dictation_language_code),
    )
    &&& new.cleanup_model_id@ == cleanup_model_id_spec(old.cleanup_model_id@)
    &&& new == (AppSettings {
        push_to_talk_shortcut: new.push_to_talk_shortcut,
        hands_free_shortcut: new.hands_free_shortcut,
        dictionary_entries: new.dictionary_entries,
        dictation_language_mode: new.dictation_language_mode,
        dictation_language_code: new.dictation_language_code,
        cleanup_model_id: new.cleanup_model_id,
        ..old
    })
}

/// Whether normalization changed anything that the settings compare.
pub open spec fn settings_changed(old: AppSettings, new: AppSettings) -> bool {
    ||| !shortcut_same(old.push_to_talk_shortcut, new.push_to_talk_shortcut)
    ||| !shortcut_same(old.hands_free_shortcut, new.hands_free_shortcut)
    ||| entries_view(new.dictionary_entries@) != entries_view(old.dictionary_entries@)
    ||| new.dictation_language_mode != old.dictation_language_mode
    ||| opt_view(new.dictation_language_code) != opt_view(old.dictation_language_code)
    ||| new.cleanup_model_id@ != old.cleanup_model_id@
}

/// Normalizing normalized settings changes nothing, except for a Windows
/// hands-free shortcut that the first run left as an earlier default, which a
/// second run migrates.
pub proof fn law_settings_normalization_is_stable(
    platform: SettingsPlatform,
    original: AppSettings,
    once: AppSettings,
    twice: AppSettings,
)
    requires
        settings_normalized(platform, original, once),
        settings_normalized(platform, once, twice),
        !(platform == SettingsPlatform::Windows && is_windows_hands_free_default_to_migrate_spec(
            once.hands_free_shortcut,
        )),
    ensures
        !settings_changed(once, twice),
{
    law_shortcut_normalization_is_stable(
        platform,
        original.push_to_talk_shortcut,
        original.hands_free_shortcut,
        once.push_to_talk_shortcut,
        once.hands_free_shortcut,
        twice.push_to_talk_shortcut,
        twice.hands_free_shortcut,
    );
    law_dictionary_normalization_is_stable(
        original.dictionary_entries@,
        once.dictionary_entries@,
        twice.dictionary_entries@,
    );
    law_dictation_language_is_stable(original.dictation_language_mode, opt_view(original.dictation_language_code));
    law_cleanup_model_id_is_stable(original.cleanup_model_id@);
}

pub fn normalize_settings_for_platform(settings: &mut AppSettings, platform: SettingsPlatform) -> (changed: bool)
    ensures
        settings_normalized(platform, *old(settings), *final(settings)),
        changed == settings_changed(*old(settings), *final(settings)),
{
    let c1 = normalize_shortcuts_for_platform(settings, platform);
    let c2 = normalize_dictionary_entries(settings);
    let c3 = normalize_dictation_language(settings);
    let c4 = normalize_cleanup_model_id(settings);
    c1 || c2 || c3 || c4
}

pub fn normalize_settings(settings: &mut AppSettings) -> (changed: bool)
    ensures
        settings_normalized(SettingsPlatform::Macos, *old(settings), *final(settings)),
        changed == settings_changed(*old(settings), *final(settings)),
{
    normalize_settings_for_platform(settings, SettingsPlatform::Macos)
}

/// The default settings, normalized for `platform`.
pub fn default_settings_for_platform(platform: SettingsPlatform) -> (r: AppSettings)
    ensures
        exists|d: AppSettings| #[trigger] is_default_app_settings(d) && settings_normalized(platform, d, r),
        platform == SettingsPlatform::Macos ==> is_default_push_to_talk(r.push_to_talk_shortcut)
            && is_default_hands_free(r.hands_free_shortcut),
        platform == SettingsPlatform::Windows ==> is_default_windows_push_to_talk(r.push_to_talk_shortcut)
            && is_default_windows_hands_free(r.hands_free_shortcut),
        platform == SettingsPlatform::Linux ==> is_default_linux_push_to_talk(r.push_to_talk_shortcut)
            && is_default_linux_hands_free(r.hands_free_shortcut),
{
    let mut settings = AppSettings::default();
    let ghost d = settings;
    normalize_settings_for_platform(&mut settings, platform);
    assert(is_default_app_settings(d));
    proof {
        reveal_strlit("Fn");
        reveal_strlit("Control + Space");
        reveal_strlit("Left Ctrl + Space");
        reveal_strlit("Ctrl + Alt + Space");
        reveal_strlit("Left Ctrl + Left Alt + Space");
        let p = choose|p: ShortcutSettings| #[trigger]
            push_to_talk_step(platform, d.push_to_talk_shortcut, p) && with_mode(settings.push_to_talk_shortcut, p, ShortcutMode::Hold);
        let h = choose|h: ShortcutSettings| #[trigger]
            hands_free_step(platform, d.hands_free_shortcut, h) && with_mode(settings.hands_free_shortcut, h, ShortcutMode::Toggle);
        assert(is_macos_default_shortcut_spec(d.push_to_talk_shortcut));
        assert(is_macos_default_shortcut_spec(d.hands_free_shortcut));
        if platform == SettingsPlatform::Windows {
            let h1 = choose|h1: ShortcutSettings| #[trigger]
                hands_free_codes_step(platform, d.hands_free_shortcut, h1) && if is_windows_hands_free_default_to_migrate_spec(h1) {
                    is_default_windows_hands_free(h)
                } else {
                    shortcut_same(h, h1)
                };
            assert(is_default_windows_hands_free(h1));
            assert(!is_windows_hands_free_default_to_migrate_spec(h1));
        }
    }
    settings
}

} // verus!
