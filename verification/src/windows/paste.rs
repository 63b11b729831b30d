use vstd::prelude::*;
use crate::language::opt_view;

verus! {

/// The foreground window a dictation pastes into.
#[derive(Debug, Clone, Copy, PartialEq, Eq, Structural)]
pub struct PasteTarget {
    pub hwnd: isize,
    pub process_id: u32,
    pub thread_id: u32,
}

/// What the clipboard held before a paste.
#[derive(Debug, Clone, PartialEq, Eq)]
pub enum ClipboardBackup {
    Text(String),
    NonTextOrEmpty,
}

impl ClipboardBackup {
    /// The text to put back after the paste; none when there was no text.
    pub fn text_to_restore(&self) -> (r: Option<&str>)
        ensures
            match self {
                ClipboardBackup::Text(t) => r matches Some(s) && s@ == t@,
                ClipboardBackup::NonTextOrEmpty => r is None,
            },
    {
        match self {
            ClipboardBackup::Text(text) => Some(text.as_str()),
            ClipboardBackup::NonTextOrEmpty => None,
        }
    }
}

pub fn format_for_paste(text: &str, preceding_context: Option<&str>) -> (r: String)
    ensures
        r@ == crate::paste::contextual_paste_spec(text@, match preceding_context { Some(p) => Some(p@), None => None }),
{
    crate::paste::format_contextual_paste(text, preceding_context)
}

pub const UNAVAILABLE_MESSAGE: &'static str = "Windows paste is unavailable on this platform.";

/// What a paste request does: nothing for blank text, else the platform paste.
#[derive(Debug, Clone, Copy, PartialEq, Eq, Structural)]
pub enum PastePlan {
    Skip,
    Paste,
}

pub fn paste_plan(text: &str) -> (r: PastePlan)
    ensures
        r == (if crate::text::trim_seq(text@).len() == 0 { PastePlan::Skip } else { PastePlan::Paste }),
{
    if crate::text::is_blank(text) {
        PastePlan::Skip
    } else {
        PastePlan::Paste
    }
}

} // verus!
