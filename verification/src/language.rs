use vstd::prelude::*;
use vstd::string::*;
use crate::protocol::{AppSettings, DictationLanguageMode};
use crate::text::{
    ascii_lower_code, ascii_lower_seq, chars_of, concat_str, is_ws, replace_seq, replace_str,
    string_from_chars, to_ascii_lowercase_char, trim_chars, trim_end_seq, trim_seq, trim_start_seq,
};

verus! {

#[derive(Debug, Clone, PartialEq, Eq)]
pub struct LanguageOption {
    pub code: String,
    pub speech_code: String,
    pub name: String,
    pub native_name: String,
    pub variant_of: Option<String>,
}

#[derive(Debug, Clone, PartialEq, Eq)]
pub struct DictationLanguageSettings {
    pub dictation_language_mode: DictationLanguageMode,
    pub dictation_language_code: Option<String>,
    pub cleanup_model_id: String,
}

#[derive(Debug, Clone, Copy, PartialEq, Eq, Structural)]
pub enum SpeechModelSlot {
    Speech,
    SpeechMultilingual,
}

#[derive(Debug, Clone, PartialEq, Eq)]
pub struct DictationLanguageMetadata {
    pub mode: String,
    pub code: Option<String>,
    pub locale: Option<String>,
    pub name: Option<String>,
}

/// The text an optional string holds.
pub open spec fn opt_view(o: Option<String>) -> Option<Seq<char>> {
    match o {
        Some(s) => Some(s@),
        None => None,
    }
}

pub fn copy_opt_string(o: &Option<String>) -> (r: Option<String>)
    ensures
        opt_view(r) == opt_view(*o),
{
    match o {
        Some(s) => Some(s.clone()),
        None => None,
    }
}

impl DictationLanguageSettings {
    /// The language part of the application settings.
    pub fn from_settings(settings: &AppSettings) -> (r: DictationLanguageSettings)
        ensures
            r.dictation_language_mode == settings.dictation_language_mode,
            opt_view(r.dictation_language_code) == opt_view(settings.dictation_language_code),
            r.cleanup_model_id@ == settings.cleanup_model_id@,
    {
        DictationLanguageSettings {
            dictation_language_mode: settings.dictation_language_mode,
            dictation_language_code: copy_opt_string(&settings.dictation_language_code),
            cleanup_model_id: settings.cleanup_model_id.clone(),
        }
    }
}

impl SpeechModelSlot {
    pub fn public_id(self) -> (r: &'static str)
        ensures
            r@ == (match self {
                SpeechModelSlot::Speech => "speech"@,
                SpeechModelSlot::SpeechMultilingual => "speech-multilingual"@,
            }),
    {
        match self {
            SpeechModelSlot::Speech => "speech",
            SpeechModelSlot::SpeechMultilingual => "speech-multilingual",
        }
    }
}

// ---------------------------------------------------------------------------
// XML metadata element
// ---------------------------------------------------------------------------

/// `&`, `"`, `<` and `>` replaced by their XML entities, in that order.
pub open spec fn escape_xml_spec(s: Seq<char>) -> Seq<char> {
    replace_seq(
        replace_seq(replace_seq(replace_seq(s, "&"@, "&amp;"@), "\""@, "&quot;"@), "<"@, "&lt;"@),
        ">"@,
        "&gt;"@,
    )
}

pub fn escape_xml(value: &str) -> (r: String)
    ensures
        r@ == escape_xml_spec(value@),
{
    proof {
        reveal_strlit("&");
        reveal_strlit("\"");
        reveal_strlit("<");
        reveal_strlit(">");
    }
    let v = chars_of(value);
    let a = replace_str(&v, "&", "&amp;");
    let b = replace_str(&a, "\"", "&quot;");
    let c = replace_str(&b, "<", "&lt;");
    let d = replace_str(&c, ">", "&gt;");
    string_from_chars(&d)
}

/// ` name="value"` for a present, non-empty value; nothing otherwise.
pub open spec fn xml_attribute(name: Seq<char>, value: Option<Seq<char>>) -> Seq<char> {
    match value {
        Some(v) => if v.len() > 0 {
            " "@ + name + "=\""@ + escape_xml_spec(v) + "\""@
        } else {
            Seq::empty()
        },
        None => Seq::empty(),
    }
}

/// `<dictation_language mode="…" code="…" locale="…" name="…" />`, leaving out
/// absent or empty attributes.
pub open spec fn xml_element_spec(m: DictationLanguageMetadata) -> Seq<char> {
    "<dictation_language mode=\""@ + escape_xml_spec(m.mode@) + "\""@ + xml_attribute(
        "code"@,
        opt_view(m.code),
    ) + xml_attribute("locale"@, opt_view(m.locale)) + xml_attribute("name"@, opt_view(m.name))
        + " />"@
}

fn push_attribute(out: &mut String, name: &str, value: &Option<String>)
    ensures
        final(out)@ == old(out)@ + xml_attribute(name@, opt_view(*value)),
{
    match value {
        Some(v) => {
            if v.as_str().unicode_len() > 0 {
                let e = escape_xml(v.as_str());
                out.append(" ");
                out.append(name);
                out.append("=\"");
                out.append(e.as_str());
                out.append("\"");
                assert(final(out)@ =~= old(out)@ + xml_attribute(name@, opt_view(*value)));
            } else {
                assert(old(out)@ + xml_attribute(name@, opt_view(*value)) =~= old(out)@);
            }
        },
        None => {
            assert(old(out)@ + xml_attribute(name@, opt_view(*value)) =~= old(out)@);
        },
    }
}

impl DictationLanguageMetadata {
    pub fn xml_element(&self) -> (r: String)
        ensures
            r@ == xml_element_spec(*self),
    {
        let mut out = String::from_str("<dictation_language mode=\"");
        let mode = escape_xml(self.mode.as_str());
        out.append(mode.as_str());
        out.append("\"");
        push_attribute(&mut out, "code", &self.code);
        push_attribute(&mut out, "locale", &self.locale);
        push_attribute(&mut out, "name", &self.name);
        out.append(" />");
        assert(out@ =~= xml_element_spec(*self));
        out
    }
}

// ---------------------------------------------------------------------------
// The language catalog
// ---------------------------------------------------------------------------

/// One catalog entry: code, speech code, name, native name, and the code it is a variant of.
pub type LanguageEntry = (Seq<char>, Seq<char>, Seq<char>, Seq<char>, Option<Seq<char>>);

/// The languages the catalog lists, in order.
pub open spec fn catalog_spec() -> Seq<LanguageEntry> {
    seq![
        ("en"@, "en"@, "English"@, "English"@, None),
        ("en-GB"@, "en"@, "English (UK)"@, "English (UK)"@, Some("en"@)),
        ("es"@, "es"@, "Spanish"@, "Español"@, None),
        ("pt"@, "pt"@, "Portuguese"@, "Português"@, None),
        ("pt-BR"@, "pt"@, "Portuguese (Brazil)"@, "Português (Brasil)"@, Some("pt"@)),
    ]
}

pub open spec fn option_is(o: LanguageOption, e: LanguageEntry) -> bool {
    &&& o.code@ == e.0
    &&& o.speech_code@ == e.1
    &&& o.name@ == e.2
    &&& o.native_name@ == e.3
    &&& opt_view(o.variant_of) == e.4
}

fn language_option(
    code: &str,
    speech_code: &str,
    name: &str,
    native_name: &str,
    variant_of: Option<&str>,
) -> (r: LanguageOption)
    ensures
        r.code@ == code@,
        r.speech_code@ == speech_code@,
        r.name@ == name@,
        r.native_name@ == native_name@,
        opt_view(r.variant_of) == (match variant_of {
            Some(v) => Some(v@),
            None => None,
        }),
{
    LanguageOption {
        code: String::from_str(code),
        speech_code: String::from_str(speech_code),
        name: String::from_str(name),
        native_name: String::from_str(native_name),
        variant_of: match variant_of {
            Some(v) => Some(String::from_str(v)),
            None => None,
        },
    }
}

pub fn language_catalog() -> (r: Vec<LanguageOption>)
    ensures
        r@.len() == catalog_spec().len(),
        forall|i: int| 0 <= i < r@.len() ==> option_is(#[trigger] r@[i], catalog_spec()[i]),
{
    let mut r: Vec<LanguageOption> = Vec::new();
    r.push(language_option("en", "en", "English", "English", None));
    r.push(language_option("en-GB", "en", "English (UK)", "English (UK)", Some("en")));
    r.push(language_option("es", "es", "Spanish", "Español", None));
    r.push(language_option("pt", "pt", "Portuguese", "Português", None));
    r.push(language_option("pt-BR", "pt", "Portuguese (Brazil)", "Português (Brasil)", Some("pt")));
    r
}

/// Trimmed and ASCII lower-cased; none when nothing is left.
pub open spec fn normalize_code_spec(code: Seq<char>) -> Option<Seq<char>> {
    let n = ascii_lower_seq(trim_seq(code));
    if n.len() == 0 {
        None
    } else {
        Some(n)
    }
}

/// The first catalog index at or after `i` whose code matches `lc` ignoring ASCII case.
pub open spec fn find_code_from(cat: Seq<LanguageEntry>, lc: Seq<char>, i: int) -> Option<int>
    decreases cat.len() - i,
{
    if i < 0 || i >= cat.len() {
        None
    } else if ascii_lower_seq(cat[i].0) == ascii_lower_seq(lc) {
        Some(i)
    } else {
        find_code_from(cat, lc, i + 1)
    }
}

pub open spec fn find_code(lc: Seq<char>) -> Option<int> {
    find_code_from(catalog_spec(), lc, 0)
}

pub open spec fn canonical_code_spec(code: Seq<char>) -> Option<Seq<char>> {
    match normalize_code_spec(code) {
        None => None,
        Some(n) => match find_code(n) {
            Some(i) => Some(catalog_spec()[i].0),
            None => Some(n),
        },
    }
}

proof fn lemma_ascii_lower_idempotent(s: Seq<char>)
    ensures
        ascii_lower_seq(ascii_lower_seq(s)) == ascii_lower_seq(s),
{
    let once = ascii_lower_seq(s);
    let twice = ascii_lower_seq(once);
    assert forall|i: int| 0 <= i < s.len() implies twice[i] == once[i] by {
        lemma_lower_char_code(s[i]);
        lemma_lower_char_code(ascii_lower_code(s[i]) as char);
    }
    assert(twice =~= once);
}

proof fn lemma_lower_char_code(c: char)
    ensures
        (ascii_lower_code(c) as char) as u32 == ascii_lower_code(c),
{
    let d = ascii_lower_code(c) as char;
    assert(d as u32 == ascii_lower_code(c));
}

/// Lower-casing ASCII letters leaves whitespace whitespace and other
/// characters not whitespace.
proof fn lemma_ascii_lower_keeps_ws(c: char)
    ensures
        is_ws(ascii_lower_code(c) as char) == is_ws(c),
{
    let d = ascii_lower_code(c) as char;
    assert(d as u32 == ascii_lower_code(c));
}

/// A sequence that neither starts nor ends with whitespace is its own trim.
proof fn lemma_trim_identity(s: Seq<char>)
    requires
        s.len() > 0,
        !is_ws(s[0]),
        !is_ws(s.last()),
    ensures
        trim_seq(s) == s,
{
    crate::text::lemma_trim_start_skip(s, 0);
    assert(s.skip(0) =~= s);
    crate::text::lemma_trim_end_take(s, s.len() as int);
    assert(s.take(s.len() as int) =~= s);
}

/// What `trim_seq` leaves neither starts nor ends with whitespace.
proof fn lemma_trim_ends(s: Seq<char>)
    ensures
        trim_seq(s).len() > 0 ==> !is_ws(trim_seq(s)[0]) && !is_ws(trim_seq(s).last()),
{
    let t = trim_start_seq(s);
    crate::text::lemma_trim_start_first(s);
    lemma_trim_end_facts(t);
}

proof fn lemma_trim_end_facts(t: Seq<char>)
    ensures
        trim_end_seq(t).len() > 0 ==> trim_end_seq(t)[0] == t[0] && !is_ws(trim_end_seq(t).last()),
    decreases t.len(),
{
    if t.len() > 0 && is_ws(t.last()) {
        lemma_trim_end_facts(t.drop_last());
    }
}

/// A normalized code is already trimmed and lower case.
proof fn lemma_normalized_is_fixed(code: Seq<char>)
    ensures
        normalize_code_spec(code) matches Some(n) ==> normalize_code_spec(n) == Some(n),
{
    let t = trim_seq(code);
    let n = ascii_lower_seq(t);
    if n.len() > 0 {
        lemma_trim_ends(code);
        lemma_ascii_lower_keeps_ws(t[0]);
        lemma_ascii_lower_keeps_ws(t.last());
        assert(n[0] == ascii_lower_code(t[0]) as char);
        assert(n.last() == ascii_lower_code(t.last()) as char);
        lemma_trim_identity(n);
        lemma_ascii_lower_idempotent(t);
    }
}

/// The catalog's codes are trimmed and not empty.
proof fn lemma_catalog_codes_trimmed()
    ensures
        forall|i: int| 0 <= i < catalog_spec().len() ==> (#[trigger] catalog_spec()[i]).0.len() > 0 && trim_seq(
            catalog_spec()[i].0,
        ) == catalog_spec()[i].0,
{
    reveal_strlit("en");
    reveal_strlit("en-GB");
    reveal_strlit("es");
    reveal_strlit("pt");
    reveal_strlit("pt-BR");
    let cat = catalog_spec();
    assert forall|i: int| 0 <= i < cat.len() implies (#[trigger] cat[i]).0.len() > 0 && trim_seq(cat[i].0) == cat[i].0 by {
        let c = cat[i].0;
        assert(c.len() > 0);
        assert(!is_ws(c[0]));
        assert(!is_ws(c.last()));
        lemma_trim_identity(c);
    }
}

/// Searching with a code or its lower-cased form finds the same entry.
proof fn lemma_find_code_from_lower(cat: Seq<LanguageEntry>, lc: Seq<char>, i: int)
    ensures
        find_code_from(cat, ascii_lower_seq(lc), i) == find_code_from(cat, lc, i),
    decreases cat.len() - i,
{
    lemma_ascii_lower_idempotent(lc);
    if 0 <= i < cat.len() {
        lemma_find_code_from_lower(cat, lc, i + 1);
    }
}

/// The entry `find_code_from` gives matches the code.
proof fn lemma_find_code_from_found(cat: Seq<LanguageEntry>, lc: Seq<char>, i: int)
    ensures
        find_code_from(cat, lc, i) matches Some(j) ==> 0 <= j < cat.len() && ascii_lower_seq(cat[j].0)
            == ascii_lower_seq(lc),
    decreases cat.len() - i,
{
    if 0 <= i < cat.len() && ascii_lower_seq(cat[i].0) != ascii_lower_seq(lc) {
        lemma_find_code_from_found(cat, lc, i + 1);
    }
}

/// Searching with codes that match ignoring ASCII case finds the same entry.
proof fn lemma_find_code_from_same(cat: Seq<LanguageEntry>, a: Seq<char>, b: Seq<char>, i: int)
    requires
        ascii_lower_seq(a) == ascii_lower_seq(b),
    ensures
        find_code_from(cat, a, i) == find_code_from(cat, b, i),
    decreases cat.len() - i,
{
    if 0 <= i < cat.len() {
        lemma_find_code_from_same(cat, a, b, i + 1);
    }
}

/// A canonical code is its own canonical form.
pub proof fn law_canonical_code_is_stable(code: Seq<char>)
    ensures
        canonical_code_spec(code) matches Some(c) ==> canonical_code_spec(c) == Some(c),
{
    lemma_normalized_is_fixed(code);
    match normalize_code_spec(code) {
        None => {},
        Some(n) => {
            match find_code(n) {
                Some(i) => {
                    lemma_find_code_from_found(catalog_spec(), n, 0);
                    lemma_catalog_codes_trimmed();
                    let c = catalog_spec()[i].0;
                    assert(trim_seq(c) == c);
                    lemma_ascii_lower_idempotent(c);
                    assert(normalize_code_spec(c) == Some(ascii_lower_seq(c)));
                    lemma_ascii_lower_idempotent(n);
                    lemma_find_code_from_same(catalog_spec(), ascii_lower_seq(c), n, 0);
                },
                None => {},
            }
        },
    }
}

pub open spec fn speech_code_spec(code: Seq<char>) -> Option<Seq<char>> {
    match canonical_code_spec(code) {
        None => None,
        Some(c) => match find_code(c) {
            Some(i) => match normalize_code_spec(catalog_spec()[i].1) {
                Some(s) => Some(s),
                None => normalize_code_spec(c),
            },
            None => normalize_code_spec(c),
        },
    }
}

pub fn ascii_lowercase_chars(v: &[char]) -> (r: Vec<char>)
    ensures
        r@ == ascii_lower_seq(v@),
{
    let mut r: Vec<char> = Vec::new();
    let mut i: usize = 0;
    while i < v.len()
        invariant
            i <= v.len(),
            r@ == ascii_lower_seq(v@.take(i as int)),
        decreases v.len() - i,
    {
        r.push(to_ascii_lowercase_char(v[i]));
        i = i + 1;
        assert(r@ =~= ascii_lower_seq(v@.take(i as int)));
    }
    assert(v@.take(v@.len() as int) =~= v@);
    r
}

/// `str::eq_ignore_ascii_case`.
pub fn eq_ignore_ascii_case(a: &[char], b: &[char]) -> (r: bool)
    ensures
        r == (ascii_lower_seq(a@) == ascii_lower_seq(b@)),
{
    let x = ascii_lowercase_chars(a);
    let y = ascii_lowercase_chars(b);
    crate::text::chars_eq(&x, &y)
}

fn normalize_language_code(code: &str) -> (r: Option<String>)
    ensures
        opt_view(r) == normalize_code_spec(code@),
{
    let v = chars_of(code);
    let t = trim_chars(&v);
    let l = ascii_lowercase_chars(&t);
    if l.len() == 0 {
        None
    } else {
        Some(string_from_chars(&l))
    }
}

/// The index of the catalog entry whose code matches `code` ignoring ASCII case.
fn find_in_catalog(catalog: &Vec<LanguageOption>, code: &str) -> (r: Option<usize>)
    requires
        catalog@.len() == catalog_spec().len(),
        forall|i: int| 0 <= i < catalog@.len() ==> option_is(#[trigger] catalog@[i], catalog_spec()[i]),
    ensures
        match r {
            Some(i) => find_code(code@) == Some(i as int) && i < catalog@.len(),
            None => find_code(code@) is None,
        },
{
    let c = chars_of(code);
    let mut i: usize = 0;
    while i < catalog.len()
        invariant
            i <= catalog@.len(),
            c@ == code@,
            catalog@.len() == catalog_spec().len(),
            forall|k: int| 0 <= k < catalog@.len() ==> option_is(#[trigger] catalog@[k], catalog_spec()[k]),
            find_code(code@) == find_code_from(catalog_spec(), code@, i as int),
        decreases catalog.len() - i,
    {
        let e = chars_of(catalog[i].code.as_str());
        assert(option_is(catalog@[i as int], catalog_spec()[i as int]));
        if eq_ignore_ascii_case(&e, &c) {
            return Some(i);
        }
        i = i + 1;
    }
    None
}

pub fn canonical_language_code(code: &str) -> (r: Option<String>)
    ensures
        opt_view(r) == canonical_code_spec(code@),
{
    let normalized = match normalize_language_code(code) {
        Some(n) => n,
        None => return None,
    };
    let catalog = language_catalog();
    match find_in_catalog(&catalog, normalized.as_str()) {
        Some(i) => {
            assert(option_is(catalog@[i as int], catalog_spec()[i as int]));
            Some(catalog[i].code.clone())
        },
        None => Some(normalized),
    }
}

pub fn speech_code_for_language_code(code: &str) -> (r: Option<String>)
    ensures
        opt_view(r) == speech_code_spec(code@),
{
    let canonical = match canonical_language_code(code) {
        Some(c) => c,
        None => return None,
    };
    let catalog = language_catalog();
    match find_in_catalog(&catalog, canonical.as_str()) {
        Some(i) => {
            assert(option_is(catalog@[i as int], catalog_spec()[i as int]));
            match normalize_language_code(catalog[i].speech_code.as_str()) {
                Some(s) => Some(s),
                None => normalize_language_code(canonical.as_str()),
            }
        },
        None => normalize_language_code(canonical.as_str()),
    }
}

pub fn language_by_code(code: &str) -> (r: Option<LanguageOption>)
    ensures
        match normalize_code_spec(code@) {
            None => r is None,
            Some(n) => match find_code(n) {
                Some(i) => r matches Some(o) && option_is(o, catalog_spec()[i]),
                None => r is None,
            },
        },
{
    let normalized = match normalize_language_code(code) {
        Some(n) => n,
        None => return None,
    };
    let catalog = language_catalog();
    match find_in_catalog(&catalog, normalized.as_str()) {
        Some(i) => {
            assert(option_is(catalog@[i as int], catalog_spec()[i as int]));
            let o = &catalog[i];
            Some(
                LanguageOption {
                    code: o.code.clone(),
                    speech_code: o.speech_code.clone(),
                    name: o.name.clone(),
                    native_name: o.native_name.clone(),
                    variant_of: copy_opt_string(&o.variant_of),
                },
            )
        },
        None => None,
    }
}

// ---------------------------------------------------------------------------
// Routing
// ---------------------------------------------------------------------------

pub open spec fn uses_english_route_spec(s: DictationLanguageSettings) -> bool {
    match s.dictation_language_mode {
        DictationLanguageMode::English => true,
        DictationLanguageMode::Detect => false,
        DictationLanguageMode::Specific => match opt_view(s.dictation_language_code) {
            Some(c) => speech_code_spec(c) == Some("en"@),
            None => false,
        },
    }
}

pub fn uses_english_route(settings: &DictationLanguageSettings) -> (r: bool)
    ensures
        r == uses_english_route_spec(*settings),
{
    match settings.dictation_language_mode {
        DictationLanguageMode::English => true,
        DictationLanguageMode::Detect => false,
        DictationLanguageMode::Specific => match &settings.dictation_language_code {
            Some(c) => match speech_code_for_language_code(c.as_str()) {
                Some(s) => {
                    let sv = chars_of(s.as_str());
                    let en = chars_of("en");
                    crate::text::chars_eq(&sv, &en)
                },
                None => false,
            },
            None => false,
        },
    }
}

pub fn speech_model_slot(settings: &DictationLanguageSettings) -> (r: SpeechModelSlot)
    ensures
        r == (if uses_english_route_spec(*settings) {
            SpeechModelSlot::Speech
        } else {
            SpeechModelSlot::SpeechMultilingual
        }),
{
    if uses_english_route(settings) {
        SpeechModelSlot::Speech
    } else {
        SpeechModelSlot::SpeechMultilingual
    }
}

pub open spec fn decode_language_code_spec(s: DictationLanguageSettings) -> Option<Seq<char>> {
    match s.dictation_language_mode {
        DictationLanguageMode::English => Some("en"@),
        DictationLanguageMode::Specific => match opt_view(s.dictation_language_code) {
            Some(c) => speech_code_spec(c),
            None => None,
        },
        DictationLanguageMode::Detect => None,
    }
}

pub fn decode_language_code(settings: &DictationLanguageSettings) -> (r: Option<String>)
    ensures
        opt_view(r) == decode_language_code_spec(*settings),
{
    match settings.dictation_language_mode {
        DictationLanguageMode::English => Some(String::from_str("en")),
        DictationLanguageMode::Specific => match &settings.dictation_language_code {
            Some(c) => speech_code_for_language_code(c.as_str()),
            None => None,
        },
        DictationLanguageMode::Detect => None,
    }
}

pub open spec fn metadata_is(
    m: DictationLanguageMetadata,
    mode: Seq<char>,
    code: Option<Seq<char>>,
    locale: Option<Seq<char>>,
    name: Option<Seq<char>>,
) -> bool {
    &&& m.mode@ == mode
    &&& opt_view(m.code) == code
    &&& opt_view(m.locale) == locale
    &&& opt_view(m.name) == name
}

/// The metadata for a selected language: its speech code, the selected locale
/// when it differs from the speech code (ignoring ASCII case), and its catalog name.
pub open spec fn selected_metadata_spec(s: DictationLanguageSettings, m: DictationLanguageMetadata) -> bool {
    match s.dictation_language_mode {
        DictationLanguageMode::English => metadata_is(m, "selected"@, Some("en"@), None, Some("English"@)),
        DictationLanguageMode::Detect => metadata_is(m, "detected"@, None, None, Some("unknown"@)),
        DictationLanguageMode::Specific => {
            let selected = match opt_view(s.dictation_language_code) {
                Some(c) => canonical_code_spec(c),
                None => None,
            };
            let speech = match selected {
                Some(c) => speech_code_spec(c),
                None => None,
            };
            let name = match selected {
                Some(c) => match normalize_code_spec(c) {
                    Some(n) => match find_code(n) {
                        Some(i) => Some(catalog_spec()[i].2),
                        None => None,
                    },
                    None => None,
                },
                None => None,
            };
            let locale = match (selected, speech) {
                (Some(a), Some(b)) => if ascii_lower_seq(a) != ascii_lower_seq(b) {
                    Some(a)
                } else {
                    None
                },
                _ => None,
            };
            metadata_is(m, "selected"@, speech, locale, name)
        },
    }
}

fn metadata(mode: &str, code: Option<String>, locale: Option<String>, name: Option<String>) -> (r:
    DictationLanguageMetadata)
    ensures
        metadata_is(r, mode@, opt_view(code), opt_view(locale), opt_view(name)),
{
    DictationLanguageMetadata { mode: String::from_str(mode), code, locale, name }
}

pub fn selected_language_metadata(settings: &DictationLanguageSettings) -> (r: DictationLanguageMetadata)
    ensures
        selected_metadata_spec(*settings, r),
{
    match settings.dictation_language_mode {
        DictationLanguageMode::English => metadata(
            "selected",
            Some(String::from_str("en")),
            None,
            Some(String::from_str("English")),
        ),
        DictationLanguageMode::Detect => metadata("detected", None, None, Some(String::from_str("unknown"))),
        DictationLanguageMode::Specific => {
            let selected_code = match &settings.dictation_language_code {
                Some(c) => canonical_language_code(c.as_str()),
                None => None,
            };
            let speech_code = match &selected_code {
                Some(c) => speech_code_for_language_code(c.as_str()),
                None => None,
            };
            let name = match &selected_code {
                Some(c) => match language_by_code(c.as_str()) {
                    Some(language) => Some(language.name),
                    None => None,
                },
                None => None,
            };
            let locale = match (&selected_code, &speech_code) {
                (Some(a), Some(b)) => {
                    let av = chars_of(a.as_str());
                    let bv = chars_of(b.as_str());
                    if !eq_ignore_ascii_case(&av, &bv) {
                        Some(a.clone())
                    } else {
                        None
                    }
                },
                _ => None,
            };
            metadata("selected", speech_code, locale, name)
        },
    }
}

/// The metadata of a language the speech model detected: its normalized code,
/// or "unknown" when it gave none that normalizes.
pub open spec fn detected_metadata_spec(code: Option<Seq<char>>, m: DictationLanguageMetadata) -> bool {
    match code {
        Some(c) => match normalize_code_spec(c) {
            Some(n) => metadata_is(m, "detected"@, Some(n), None, None),
            None => metadata_is(m, "detected"@, None, None, Some("unknown"@)),
        },
        None => metadata_is(m, "detected"@, None, None, Some("unknown"@)),
    }
}

pub fn detected_language_metadata(code: Option<&str>) -> (r: DictationLanguageMetadata)
    ensures
        detected_metadata_spec(match code { Some(c) => Some(c@), None => None }, r),
{
    let normalized = match code {
        Some(c) => normalize_language_code(c),
        None => None,
    };
    match normalized {
        Some(n) => metadata("detected", Some(n), None, None),
        None => metadata("detected", None, None, Some(String::from_str("unknown"))),
    }
}

// ---------------------------------------------------------------------------
// Catalog languages and their routes
// ---------------------------------------------------------------------------

proof fn lemma_lower_at(s: Seq<char>, k: int)
    requires
        0 <= k < s.len(),
    ensures
        ascii_lower_seq(s)[k] as u32 == ascii_lower_code(s[k]),
{
    lemma_lower_char_code(s[k]);
}

/// No two catalog codes are the same ignoring ASCII case.
proof fn lemma_catalog_codes_distinct(a: int, b: int)
    requires
        0 <= a < catalog_spec().len(),
        0 <= b < catalog_spec().len(),
        a != b,
    ensures
        ascii_lower_seq(catalog_spec()[a].0) != ascii_lower_seq(catalog_spec()[b].0),
{
    reveal_strlit("en");
    reveal_strlit("en-GB");
    reveal_strlit("es");
    reveal_strlit("pt");
    reveal_strlit("pt-BR");
    let x = catalog_spec()[a].0;
    let y = catalog_spec()[b].0;
    if x.len() == y.len() {
        let k: int = if (a == 0 && b == 2) || (a == 2 && b == 0) { 1 } else { 0 };
        lemma_lower_at(x, k);
        lemma_lower_at(y, k);
        assert(ascii_lower_seq(x)[k] != ascii_lower_seq(y)[k]);
    } else {
        assert(ascii_lower_seq(x).len() == x.len());
        assert(ascii_lower_seq(y).len() == y.len());
    }
}

proof fn lemma_find_code_from_at(lc: Seq<char>, k: int, i: int)
    requires
        0 <= k <= i < catalog_spec().len(),
        ascii_lower_seq(catalog_spec()[i].0) == ascii_lower_seq(lc),
        forall|j: int| k <= j < i ==> ascii_lower_seq(#[trigger] catalog_spec()[j].0) != ascii_lower_seq(lc),
    ensures
        find_code_from(catalog_spec(), lc, k) == Some(i),
    decreases i - k,
{
    if k < i {
        lemma_find_code_from_at(lc, k + 1, i);
    }
}

/// A catalog code, or any code equal to it ignoring ASCII case, is found at its own entry.
proof fn lemma_find_catalog_code(lc: Seq<char>, i: int)
    requires
        0 <= i < catalog_spec().len(),
        ascii_lower_seq(lc) == ascii_lower_seq(catalog_spec()[i].0),
    ensures
        find_code(lc) == Some(i),
{
    assert forall|j: int| 0 <= j < i implies ascii_lower_seq(#[trigger] catalog_spec()[j].0) != ascii_lower_seq(lc) by {
        lemma_catalog_codes_distinct(j, i);
    }
    lemma_find_code_from_at(lc, 0, i);
}

/// Each catalog language transcribes with the speech code the catalog lists for it.
pub proof fn law_catalog_speech_codes(i: int)
    requires
        0 <= i < catalog_spec().len(),
    ensures
        canonical_code_spec(catalog_spec()[i].0) == Some(catalog_spec()[i].0),
        speech_code_spec(catalog_spec()[i].0) == Some(catalog_spec()[i].1),
{
    reveal_strlit("en");
    reveal_strlit("es");
    reveal_strlit("pt");
    lemma_catalog_codes_trimmed();
    let c = catalog_spec()[i].0;
    let n = ascii_lower_seq(c);
    assert(normalize_code_spec(c) == Some(n));
    lemma_ascii_lower_idempotent(c);
    lemma_find_catalog_code(n, i);
    lemma_find_catalog_code(c, i);
    let s = catalog_spec()[i].1;
    assert(s.len() == 2);
    assert(!is_ws(s[0]) && !is_ws(s[1]));
    lemma_trim_identity(s);
    lemma_lower_at(s, 0);
    lemma_lower_at(s, 1);
    let ls = ascii_lower_seq(s);
    assert(ls[0] as u32 == s[0] as u32);
    assert(ls[1] as u32 == s[1] as u32);
    assert(ls =~= s);
}

/// In the specific-language mode, a catalog language is transcribed by the
/// English speech model exactly when its speech code is `en` (so English (UK)
/// takes the English route and Spanish does not).
pub proof fn law_specific_language_route(s: DictationLanguageSettings, i: int)
    requires
        0 <= i < catalog_spec().len(),
        s.dictation_language_mode == DictationLanguageMode::Specific,
        opt_view(s.dictation_language_code) == Some(catalog_spec()[i].0),
    ensures
        uses_english_route_spec(s) == (catalog_spec()[i].1 == "en"@),
{
    law_catalog_speech_codes(i);
}

/// English mode always takes the English route, and detection never does.
pub proof fn law_mode_routes(s: DictationLanguageSettings)
    ensures
        s.dictation_language_mode == DictationLanguageMode::English ==> uses_english_route_spec(s),
        s.dictation_language_mode == DictationLanguageMode::Detect ==> !uses_english_route_spec(s),
{
}

} // verus!
