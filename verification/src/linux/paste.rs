use vstd::prelude::*;
use crate::language::opt_view;
use crate::linux::LinuxSession;
use crate::text::{chars_of, extend_chars, is_blank, is_whitespace, is_ws, str_eq, string_from_chars, sub_chars, trim_seq};

verus! {

pub const RECORDING_OVERLAY_TITLE: &'static str = "Parrot Recording";

/// Where a dictation pastes: the session kind and, on Hyprland, the window.
#[derive(Debug, Clone, PartialEq, Eq)]
pub struct PasteTarget {
    pub session: String,
    pub hyprland_window: Option<String>,
}

pub open spec fn present(o: Option<Seq<char>>) -> bool {
    o matches Some(w) && trim_seq(w).len() != 0
}

/// The target as one string: the session, then a tab and the window when there is one.
pub open spec fn platform_id_spec(session: Seq<char>, window: Option<Seq<char>>) -> Seq<char> {
    match window {
        Some(w) => if trim_seq(w).len() != 0 {
            session + seq!['\t'] + w
        } else {
            session
        },
        None => session,
    }
}

/// The index of the first tab, if any.
pub open spec fn first_tab(s: Seq<char>) -> Option<int> {
    if exists|i: int| 0 <= i < s.len() && s[i] == '\t' {
        Some(choose|i: int| 0 <= i < s.len() && s[i] == '\t' && forall|j: int| 0 <= j < i ==> s[j] != '\t')
    } else {
        None
    }
}

fn find_tab(v: &Vec<char>) -> (r: Option<usize>)
    ensures
        match r {
            Some(i) => i < v@.len() && v@[i as int] == '\t' && forall|j: int| 0 <= j < i ==> v@[j] != '\t',
            None => forall|j: int| 0 <= j < v@.len() ==> v@[j] != '\t',
        },
{
    let mut i: usize = 0;
    while i < v.len()
        invariant
            i <= v@.len(),
            forall|j: int| 0 <= j < i ==> v@[j] != '\t',
        decreases v.len() - i,
    {
        if v[i] == '\t' {
            return Some(i);
        }
        i = i + 1;
    }
    None
}

impl PasteTarget {
    pub fn platform_id(&self) -> (r: String)
        ensures
            r@ == platform_id_spec(self.session@, opt_view(self.hyprland_window)),
    {
        match &self.hyprland_window {
            Some(window) => {
                if !is_blank(window.as_str()) {
                    let mut out = chars_of(self.session.as_str());
                    out.push('\t');
                    extend_chars(&mut out, &chars_of(window.as_str()));
                    string_from_chars(&out)
                } else {
                    self.session.clone()
                }
            },
            None => self.session.clone(),
        }
    }

    /// Splits a platform ID at its first tab: the session before it, the
    /// window after it when not blank.
    pub fn from_platform_id(platform_id: String) -> (r: PasteTarget)
        ensures
            match first_tab(platform_id@) {
                Some(i) => {
                    &&& r.session@ == platform_id@.take(i)
                    &&& opt_view(r.hyprland_window) == (if trim_seq(platform_id@.skip(i + 1)).len() != 0 {
                        Some(platform_id@.skip(i + 1))
                    } else {
                        None
                    })
                },
                None => r.session@ == platform_id@ && r.hyprland_window is None,
            },
    {
        let v = chars_of(platform_id.as_str());
        let n = v.len();
        match find_tab(&v) {
            Some(i) => {
                proof {
                    assert(exists|k: int| 0 <= k < v@.len() && v@[k] == '\t');
                    let c = choose|k: int| 0 <= k < v@.len() && v@[k] == '\t' && forall|j: int| 0 <= j < k ==> v@[j] != '\t';
                    assert(c == i as int) by {
                        if c < i {
                            assert(v@[c] != '\t');
                        }
                        if c > i {
                            assert(v@[i as int] != '\t');
                        }
                    }
                }
                let session = sub_chars(v.as_slice(), 0, i);
                let window = sub_chars(v.as_slice(), i + 1, n);
                assert(session@ =~= v@.take(i as int));
                assert(window@ =~= v@.skip(i + 1));
                let window_string = string_from_chars(&window);
                let hyprland_window = if !is_blank(window_string.as_str()) {
                    Some(window_string)
                } else {
                    None
                };
                PasteTarget { session: string_from_chars(&session), hyprland_window }
            },
            None => PasteTarget { session: platform_id, hyprland_window: None },
        }
    }
}

/// A target survives its platform ID when the session has no tab and any window is not blank.
pub proof fn law_platform_id_round_trip(session: Seq<char>, window: Option<Seq<char>>)
    requires
        !session.contains('\t'),
        window matches Some(w) ==> trim_seq(w).len() != 0,
    ensures
        first_tab(platform_id_spec(session, window)) == (match window {
            Some(w) => Some(session.len() as int),
            None => None::<int>,
        }),
        window matches Some(w) ==> platform_id_spec(session, window).take(session.len() as int) == session
            && platform_id_spec(session, window).skip(session.len() as int + 1) == w,
{
    let id = platform_id_spec(session, window);
    match window {
        Some(w) => {
            assert(id[session.len() as int] == '\t');
            assert forall|j: int| 0 <= j < session.len() implies id[j] != '\t' by {
                assert(id[j] == session[j]);
                if session[j] == '\t' {
                    assert(session.contains('\t'));
                }
            }
            assert(id.take(session.len() as int) =~= session);
            assert(id.skip(session.len() as int + 1) =~= w);
            let c = choose|i: int| 0 <= i < id.len() && id[i] == '\t' && forall|j: int| 0 <= j < i ==> id[j] != '\t';
            assert(c == session.len()) by {
                if c > session.len() {
                    assert(id[session.len() as int] != '\t');
                }
            }
        },
        None => {
            assert forall|j: int| 0 <= j < id.len() implies id[j] != '\t' by {
                if id[j] == '\t' {
                    assert(session.contains('\t'));
                }
            }
        },
    }
}

/// What the clipboard held before a paste.
#[derive(Debug, Clone, PartialEq, Eq)]
pub enum ClipboardBackup {
    Text(String),
    NonTextOrEmpty,
}

impl ClipboardBackup {
    pub fn text_to_restore(&self) -> (r: Option<&str>)
        ensures
            match self {
                ClipboardBackup::Text(t) => r matches Some(s) && s@ == t@,
                ClipboardBackup::NonTextOrEmpty => r is None,
            },
    {
        match self {
            ClipboardBackup::Text(text) => Some(text.as_str()),
            ClipboardBackup::NonTextOrEmpty => None,
        }
    }
}

/// The target captured for a session: X11 as is; Wayland with the active
/// Hyprland window found by the caller; none without a session.
pub fn paste_target_for_session(session: LinuxSession, hyprland_window: Option<String>) -> (r: Option<PasteTarget>)
    ensures
        match session {
            LinuxSession::X11 => r matches Some(t) && t.session@ == "x11"@ && t.hyprland_window is None,
            LinuxSession::Wayland => r matches Some(t) && t.session@ == "wayland"@ && t.hyprland_window == hyprland_window,
            LinuxSession::Unsupported => r is None,
        },
{
    match session {
        LinuxSession::X11 => Some(PasteTarget { session: String::from_str("x11"), hyprland_window: None }),
        LinuxSession::Wayland => Some(PasteTarget { session: String::from_str("wayland"), hyprland_window }),
        LinuxSession::Unsupported => None,
    }
}

/// The `hyprctl` shortcut argument that pastes into the target's window, or the active one.
pub fn hyprland_paste_shortcut(target: Option<&PasteTarget>) -> (r: String)
    ensures
        r@ == "CTRL, V, "@ + match target {
            Some(t) => if present(opt_view(t.hyprland_window)) {
                opt_view(t.hyprland_window).unwrap()
            } else {
                "activewindow"@
            },
            None => "activewindow"@,
        },
{
    let mut out = chars_of("CTRL, V, ");
    let selector = match target {
        Some(t) => match &t.hyprland_window {
            Some(w) => if !is_blank(w.as_str()) {
                chars_of(w.as_str())
            } else {
                chars_of("activewindow")
            },
            None => chars_of("activewindow"),
        },
        None => chars_of("activewindow"),
    };
    extend_chars(&mut out, &selector);
    string_from_chars(&out)
}

/// The paste selector of a Hyprland client: none for the recording overlay or a
/// missing, blank or null address.
pub open spec fn selector_spec(address: Option<Seq<char>>, title: Option<Seq<char>>) -> Option<Seq<char>> {
    if title == Some(RECORDING_OVERLAY_TITLE@) {
        None
    } else {
        match address {
            Some(a) => if trim_seq(a).len() != 0 && a != "0x0"@ {
                Some("address:"@ + a)
            } else {
                None
            },
            None => None,
        }
    }
}

pub open spec fn opt_str(o: Option<&str>) -> Option<Seq<char>> {
    match o {
        Some(s) => Some(s@),
        None => None,
    }
}

pub fn hyprland_window_selector(address: Option<&str>, title: Option<&str>) -> (r: Option<String>)
    ensures
        opt_view(r) == selector_spec(opt_str(address), opt_str(title)),
{
    match title {
        Some(t) => {
            if str_eq(t, RECORDING_OVERLAY_TITLE) {
                return None;
            }
        },
        None => {},
    }
    match address {
        Some(a) => {
            if is_blank(a) || str_eq(a, "0x0") {
                None
            } else {
                let mut out = chars_of("address:");
                extend_chars(&mut out, &chars_of(a));
                Some(string_from_chars(&out))
            }
        },
        None => None,
    }
}


/// A Hyprland client as `hyprctl clients` reports it.
#[derive(Debug, Clone, PartialEq, Eq)]
pub struct HyprlandClient {
    pub address: Option<String>,
    pub title: Option<String>,
    pub focus_history_id: Option<i64>,
}

/// Clients are ordered by focus history; one without an ID comes last.
pub open spec fn focus_key(c: HyprlandClient) -> int {
    match c.focus_history_id {
        Some(k) => k as int,
        None => i64::MAX as int,
    }
}

pub open spec fn client_selector(c: HyprlandClient) -> Option<Seq<char>> {
    selector_spec(opt_view(c.address), opt_view(c.title))
}

/// Client `j` comes first, in focus order, among those with a selector; of
/// clients with the same focus ID the earlier one is first.
pub open spec fn first_in_focus_order(clients: Seq<HyprlandClient>, j: int) -> bool {
    &&& 0 <= j < clients.len()
    &&& client_selector(clients[j]) is Some
    &&& forall|i: int|
        0 <= i < clients.len() && (#[trigger] client_selector(clients[i])) is Some ==> focus_key(clients[j]) < focus_key(
            clients[i],
        ) || (focus_key(clients[j]) == focus_key(clients[i]) && j <= i)
}

fn opt_as_str(o: &Option<String>) -> (r: Option<&str>)
    ensures
        opt_str(r) == opt_view(*o),
{
    match o {
        Some(s) => Some(s.as_str()),
        None => None,
    }
}

/// The window focused most recently before the active one: the selector of
/// the first client in focus order that has one.
pub fn previous_window_selector(clients: &Vec<HyprlandClient>) -> (r: Option<String>)
    ensures
        match r {
            Some(s) => exists|j: int| first_in_focus_order(clients@, j) && client_selector(clients@[j]) == Some(s@),
            None => forall|i: int| 0 <= i < clients@.len() ==> (#[trigger] client_selector(clients@[i])) is None,
        },
{
    let mut best: Option<(usize, i64, String)> = None;
    let mut i: usize = 0;
    while i < clients.len()
        invariant
            i <= clients@.len(),
            match best {
                None => forall|k: int| 0 <= k < i ==> (#[trigger] client_selector(clients@[k])) is None,
                Some((j, key, sel)) => {
                    &&& j < i
                    &&& key == focus_key(clients@[j as int])
                    &&& client_selector(clients@[j as int]) == Some(sel@)
                    &&& forall|k: int|
                        0 <= k < i && (#[trigger] client_selector(clients@[k])) is Some ==> key < focus_key(clients@[k])
                            || (key == focus_key(clients@[k]) && j <= k)
                },
            },
        decreases clients.len() - i,
    {
        let c = &clients[i];
        let selector = hyprland_window_selector(opt_as_str(&c.address), opt_as_str(&c.title));
        match selector {
            Some(sel) => {
                let key: i64 = match c.focus_history_id {
                    Some(k) => k,
                    None => i64::MAX,
                };
                let replace = match &best {
                    None => true,
                    Some((_, best_key, _)) => key < *best_key,
                };
                if replace {
                    best = Some((i, key, sel));
                }
            },
            None => {},
        }
        i = i + 1;
    }
    match best {
        Some((j, _, sel)) => {
            assert(first_in_focus_order(clients@, j as int));
            Some(sel)
        },
        None => None,
    }
}

/// Strings in the order of their characters' code points, as Rust orders
/// strings (byte order of UTF-8 is code point order).
pub open spec fn lex_lt(a: Seq<char>, b: Seq<char>) -> bool
    decreases a.len(),
{
    if a.len() == 0 {
        b.len() > 0
    } else if b.len() == 0 {
        false
    } else if a[0] != b[0] {
        (a[0] as u32) < (b[0] as u32)
    } else {
        lex_lt(a.drop_first(), b.drop_first())
    }
}

proof fn lemma_lex_lt_transitive(a: Seq<char>, b: Seq<char>, c: Seq<char>)
    requires
        lex_lt(a, b),
        lex_lt(b, c),
    ensures
        lex_lt(a, c),
    decreases a.len(),
{
    if a.len() > 0 && b.len() > 0 && c.len() > 0 && a[0] == b[0] && b[0] == c[0] {
        lemma_lex_lt_transitive(a.drop_first(), b.drop_first(), c.drop_first());
    }
}

proof fn lemma_lex_lt_irreflexive(a: Seq<char>)
    ensures
        !lex_lt(a, a),
    decreases a.len(),
{
    if a.len() > 0 {
        lemma_lex_lt_irreflexive(a.drop_first());
    }
}

/// Whether `a` comes before `b`.
fn chars_lt(a: &Vec<char>, b: &Vec<char>) -> (r: bool)
    ensures
        r == lex_lt(a@, b@),
{
    let mut i: usize = 0;
    assert(a@.skip(0) =~= a@);
    assert(b@.skip(0) =~= b@);
    while i < a.len() && i < b.len() && a[i] == b[i]
        invariant
            i <= a@.len(),
            i <= b@.len(),
            lex_lt(a@, b@) == lex_lt(a@.skip(i as int), b@.skip(i as int)),
        decreases a.len() - i,
    {
        proof {
            let x = a@.skip(i as int);
            let y = b@.skip(i as int);
            assert(x.drop_first() =~= a@.skip(i + 1));
            assert(y.drop_first() =~= b@.skip(i + 1));
        }
        i = i + 1;
    }
    let ghost x = a@.skip(i as int);
    let ghost y = b@.skip(i as int);
    if i == a.len() {
        assert(x.len() == 0);
        i < b.len()
    } else if i == b.len() {
        assert(y.len() == 0);
        false
    } else {
        assert(x[0] == a@[i as int] && y[0] == b@[i as int]);
        (a[i] as u32) < (b[i] as u32)
    }
}

/// The name is that of a Wayland display socket.
pub open spec fn is_wayland_display_name(name: Seq<char>) -> bool {
    crate::text::starts_with_seq(name, "wayland-"@)
}

/// The Wayland display to use among the socket names in the runtime
/// directory: the last of the `wayland-` ones in string order.
pub fn wayland_display_choice(names: &Vec<String>) -> (r: Option<String>)
    ensures
        match r {
            Some(d) => exists|j: int|
                0 <= j < names@.len() && names@[j]@ == d@ && is_wayland_display_name(d@) && forall|k: int|
                    0 <= k < names@.len() && is_wayland_display_name(#[trigger] names@[k]@) ==> !lex_lt(d@, names@[k]@),
            None => forall|k: int| 0 <= k < names@.len() ==> !is_wayland_display_name(#[trigger] names@[k]@),
        },
{
    let prefix = chars_of("wayland-");
    proof {
        reveal_strlit("wayland-");
    }
    let mut best: Option<(usize, Vec<char>)> = None;
    let mut i: usize = 0;
    while i < names.len()
        invariant
            i <= names@.len(),
            prefix@ == "wayland-"@,
            match best {
                None => forall|k: int| 0 <= k < i ==> !is_wayland_display_name(#[trigger] names@[k]@),
                Some((j, b)) => {
                    &&& j < i
                    &&& names@[j as int]@ == b@
                    &&& is_wayland_display_name(b@)
                    &&& forall|k: int| 0 <= k < i && is_wayland_display_name(#[trigger] names@[k]@) ==> !lex_lt(b@, names@[k]@)
                },
            },
        decreases names.len() - i,
    {
        let name = chars_of(names[i].as_str());
        if crate::text::starts_with_chars(&name, &prefix) {
            let replace = match &best {
                None => true,
                Some((_, b)) => chars_lt(b, &name),
            };
            if replace {
                proof {
                    match best {
                        None => {},
                        Some((j, b)) => {
                            assert forall|k: int| 0 <= k < i && is_wayland_display_name(#[trigger] names@[k]@) implies !lex_lt(
                                name@,
                                names@[k]@,
                            ) by {
                                if lex_lt(name@, names@[k]@) {
                                    lemma_lex_lt_transitive(b@, name@, names@[k]@);
                                }
                            }
                        },
                    }
                    lemma_lex_lt_irreflexive(name@);
                }
                best = Some((i, name));
            }
        }
        i = i + 1;
    }
    match best {
        Some((_, b)) => Some(string_from_chars(&b)),
        None => None,
    }
}

pub const UNSUPPORTED_PASTE_MESSAGE: &'static str = "Automatic paste needs a desktop session with clipboard and paste support.";

/// How a text is pasted.
#[derive(Debug, Clone, Copy, PartialEq, Eq, Structural)]
pub enum PasteRoute {
    /// A blank text: nothing to paste.
    Nothing,
    X11,
    Wayland,
}

/// How a text is pasted in a session; refused without one.
pub fn paste_route(text: &str, session: LinuxSession) -> (r: Result<PasteRoute, String>)
    ensures
        trim_seq(text@).len() == 0 ==> r == Ok::<PasteRoute, String>(PasteRoute::Nothing),
        trim_seq(text@).len() != 0 ==> match session {
            LinuxSession::X11 => r == Ok::<PasteRoute, String>(PasteRoute::X11),
            LinuxSession::Wayland => r == Ok::<PasteRoute, String>(PasteRoute::Wayland),
            LinuxSession::Unsupported => r matches Err(e) && e@ == UNSUPPORTED_PASTE_MESSAGE@,
        },
{
    if is_blank(text) {
        return Ok(PasteRoute::Nothing);
    }
    match session {
        LinuxSession::X11 => Ok(PasteRoute::X11),
        LinuxSession::Wayland => Ok(PasteRoute::Wayland),
        LinuxSession::Unsupported => Err(String::from_str(UNSUPPORTED_PASTE_MESSAGE)),
    }
}

/// The session is Hyprland: its instance signature is set, the desktop names
/// it (in any case), or a Hyprland socket was found.
pub fn is_hyprland_session(signature_set: bool, current_desktop: Option<&str>, socket_found: bool) -> (r: bool)
    ensures
        r == (signature_set || (current_desktop matches Some(d) && crate::text::contains_seq(
            crate::text::ascii_lower_seq(d@),
            "hyprland"@,
        )) || socket_found),
{
    if signature_set {
        return true;
    }
    let named = match current_desktop {
        Some(d) => {
            let lowered = crate::language::ascii_lowercase_chars(&chars_of(d));
            crate::text::contains_chars(&lowered, &chars_of("hyprland"))
        },
        None => false,
    };
    named || socket_found
}

pub const NO_WAYLAND_PASTE_HELPER_MESSAGE: &'static str = "Text was copied to the clipboard, but Parrot could not press Ctrl+V automatically. Paste manually with Ctrl+V. No supported Wayland paste helper was found.";

/// The failures of the paste helpers tried, each as `helper: error`, joined by `; `.
pub open spec fn joined_failures(errors: Seq<(Seq<char>, Seq<char>)>) -> Seq<char>
    decreases errors.len(),
{
    if errors.len() == 0 {
        Seq::empty()
    } else if errors.len() == 1 {
        errors[0].0 + ": "@ + errors[0].1
    } else {
        joined_failures(errors.drop_last()) + "; "@ + errors.last().0 + ": "@ + errors.last().1
    }
}

/// Why a Wayland paste failed once every helper found was tried.
pub fn wayland_paste_failure(errors: &Vec<(String, String)>) -> (r: String)
    ensures
        r@ == (if errors@.len() == 0 {
            NO_WAYLAND_PASTE_HELPER_MESSAGE@
        } else {
            "Text was copied to the clipboard, but Parrot could not press Ctrl+V automatically. Paste manually with Ctrl+V. Details: "@
                + joined_failures(errors@.map_values(|e: (String, String)| (e.0@, e.1@)))
        }),
{
    if errors.len() == 0 {
        return String::from_str(NO_WAYLAND_PASTE_HELPER_MESSAGE);
    }
    let ghost views = errors@.map_values(|e: (String, String)| (e.0@, e.1@));
    let mut joined: Vec<char> = Vec::new();
    let mut i: usize = 0;
    while i < errors.len()
        invariant
            i <= errors@.len(),
            views == errors@.map_values(|e: (String, String)| (e.0@, e.1@)),
            joined@ == joined_failures(views.take(i as int)),
        decreases errors.len() - i,
    {
        proof {
            assert(views.take(i + 1).drop_last() =~= views.take(i as int));
        }
        if i > 0 {
            extend_chars(&mut joined, &chars_of("; "));
        }
        extend_chars(&mut joined, &chars_of(errors[i].0.as_str()));
        extend_chars(&mut joined, &chars_of(": "));
        extend_chars(&mut joined, &chars_of(errors[i].1.as_str()));
        i = i + 1;
    }
    assert(views.take(errors@.len() as int) =~= views);
    let mut out = chars_of(
        "Text was copied to the clipboard, but Parrot could not press Ctrl+V automatically. Paste manually with Ctrl+V. Details: ",
    );
    extend_chars(&mut out, &joined);
    string_from_chars(&out)
}

// ---------------------------------------------------------------------------
// /proc/self/status
// ---------------------------------------------------------------------------

/// The index of the first line feed, or the length.
pub open spec fn line_end(s: Seq<char>) -> int
    decreases s.len(),
{
    if s.len() == 0 {
        0
    } else if s[0] == '\n' {
        0
    } else {
        1 + line_end(s.drop_first())
    }
}

pub proof fn lemma_line_end(s: Seq<char>)
    ensures
        0 <= line_end(s) <= s.len(),
        line_end(s) < s.len() ==> s[line_end(s)] == '\n',
        forall|j: int| 0 <= j < line_end(s) ==> s[j] != '\n',
    decreases s.len(),
{
    if s.len() > 0 && s[0] != '\n' {
        lemma_line_end(s.drop_first());
        assert forall|j: int| 0 <= j < line_end(s) implies s[j] != '\n' by {
            if j > 0 {
                assert(s[j] == s.drop_first()[j - 1]);
            }
        }
    }
}

/// The first line, without a carriage return before its line feed.
pub open spec fn first_line(s: Seq<char>) -> Seq<char> {
    let raw = s.take(line_end(s));
    if raw.len() > 0 && raw.last() == '\r' {
        raw.drop_last()
    } else {
        raw
    }
}

/// The whitespace-separated words of a line, in order.
pub open spec fn words(s: Seq<char>) -> Seq<Seq<char>>
    decreases s.len(),
{
    if s.len() == 0 {
        Seq::empty()
    } else if is_ws(s[0]) {
        words(s.drop_first())
    } else {
        let w = word_len(s);
        proof {
            lemma_word_len(s);
            assert(w >= 1);
        }
        if w >= s.len() {
            seq![s]
        } else {
            seq![s.take(w)] + words(s.skip(w))
        }
    }
}

/// The length of the leading run of non-whitespace.
pub open spec fn word_len(s: Seq<char>) -> int
    decreases s.len(),
{
    if s.len() == 0 || is_ws(s[0]) {
        0
    } else {
        1 + word_len(s.drop_first())
    }
}

pub proof fn lemma_word_len(s: Seq<char>)
    ensures
        0 <= word_len(s) <= s.len(),
        word_len(s) < s.len() ==> is_ws(s[word_len(s)]),
        forall|j: int| 0 <= j < word_len(s) ==> !is_ws(s[j]),
    decreases s.len(),
{
    if s.len() > 0 && !is_ws(s[0]) {
        lemma_word_len(s.drop_first());
        assert forall|j: int| 0 <= j < word_len(s) implies !is_ws(s[j]) by {
            if j > 0 {
                assert(s[j] == s.drop_first()[j - 1]);
            }
        }
    }
}

/// The user ID on the first `Uid:` line of the status text at or after `s`.
pub open spec fn uid_from_status(s: Seq<char>) -> Option<Seq<char>>
    decreases s.len(),
{
    if s.len() == 0 {
        None
    } else {
        let line = first_line(s);
        let rest_start = line_end(s) + 1;
        if crate::text::starts_with_seq(line, "Uid:"@) {
            if words(line).len() > 1 {
                Some(words(line)[1])
            } else {
                None
            }
        } else if rest_start <= s.len() {
            proof {
                lemma_line_end(s);
            }
            uid_from_status(s.skip(rest_start))
        } else {
            None
        }
    }
}

fn second_word(line: &Vec<char>) -> (r: Option<Vec<char>>)
    ensures
        match r {
            Some(w) => words(line@).len() > 1 && w@ == words(line@)[1],
            None => words(line@).len() <= 1,
        },
{
    let mut rest = sub_chars(line.as_slice(), 0, line.len());
    assert(rest@ =~= line@);
    let mut found: usize = 0;
    let ghost skipped: nat = 0;
    while rest.len() > 0
        invariant
            found <= 1,
            words(line@) == (if found == 0 { Seq::<Seq<char>>::empty() } else { seq![words(line@)[0]] }) + words(rest@),
        decreases rest.len(),
    {
        if is_whitespace(rest[0]) {
            let next = sub_chars(rest.as_slice(), 1, rest.len());
            assert(next@ =~= rest@.drop_first());
            rest = next;
        } else {
            let mut w: usize = 0;
            while w < rest.len() && !is_whitespace(rest[w])
                invariant
                    w <= rest@.len(),
                    rest@.len() > 0,
                    !is_ws(rest@[0]),
                    forall|j: int| 0 <= j < w ==> !is_ws(#[trigger] rest@[j]),
                decreases rest.len() - w,
            {
                w = w + 1;
            }
            proof {
                lemma_word_len(rest@);
                if word_len(rest@) < w {
                    assert(!is_ws(rest@[word_len(rest@)]));
                }
                if word_len(rest@) > w {
                    assert(!is_ws(rest@[w as int]));
                }
                assert(word_len(rest@) == w);
            }
            let word = sub_chars(rest.as_slice(), 0, w);
            assert(word@ =~= rest@.take(w as int));
            if found == 1 {
                proof {
                    if w >= rest@.len() {
                        assert(rest@.take(w as int) =~= rest@);
                    }
                }
                return Some(word);
            }
            found = 1;
            let next = sub_chars(rest.as_slice(), w, rest.len());
            assert(next@ =~= rest@.skip(w as int));
            proof {
                if w >= rest@.len() {
                    assert(rest@.take(w as int) =~= rest@);
                    assert(next@.len() == 0);
                }
            }
            rest = next;
        }
    }
    None
}

pub fn effective_uid_from_proc_status(status: &str) -> (r: Option<String>)
    ensures
        opt_view(r) == uid_from_status(status@),
{
    let v = chars_of(status);
    let mut start: usize = 0;
    let n = v.len();
    assert(v@.skip(0) =~= v@);
    while start < n
        invariant
            n == v@.len(),
            v@ == status@,
            start <= n,
            uid_from_status(v@) == uid_from_status(v@.skip(start as int)),
        decreases n - start,
    {
        let ghost s = v@.skip(start as int);
        let mut end = start;
        while end < n && v[end] != '\n'
            invariant
                start <= end <= n,
                n == v@.len(),
                forall|j: int| start <= j < end ==> v@[j] != '\n',
            decreases n - end,
        {
            end = end + 1;
        }
        proof {
            lemma_line_end(s);
            let e = line_end(s);
            if e < end - start {
                assert(s[e] == v@[start + e]);
            }
            if e > end - start {
                assert(s[end - start] == v@[end as int]);
            }
            assert(e == end - start);
        }
        let mut line_stop = end;
        if line_stop > start && v[line_stop - 1] == '\r' {
            line_stop = line_stop - 1;
        }
        let line = sub_chars(v.as_slice(), start, line_stop);
        proof {
            let raw = s.take(line_end(s));
            assert(raw =~= v@.subrange(start as int, end as int));
            assert(line@ =~= first_line(s));
        }
        let prefix = chars_of("Uid:");
        assert(s.len() > 0);
        if crate::text::starts_with_chars(&line, &prefix) {
            assert(uid_from_status(s) == (if words(first_line(s)).len() > 1 {
                Some(words(first_line(s))[1])
            } else {
                None
            }));
            return match second_word(&line) {
                Some(w) => Some(string_from_chars(&w)),
                None => None,
            };
        }
        if end >= n {
            assert(line_end(s) + 1 > s.len());
            assert(uid_from_status(s) is None);
            return None;
        }
        assert(s.skip(end - start + 1) =~= v@.skip(end + 1));
        start = end + 1;
    }
    None
}

} // verus!
