use vstd::prelude::*;
use crate::text::{chars_of, string_from_chars, sub_chars};

verus! {

/// The most characters before the caret that are read.
pub const DEFAULT_MAX_CONTEXT_CHARS: usize = 120;

/// The last `max_characters` characters of the text (all of it when shorter).
pub open spec fn bounded_suffix_spec(s: Seq<char>, max_characters: nat) -> Seq<char> {
    if s.len() <= max_characters {
        s
    } else {
        s.skip(s.len() - max_characters)
    }
}

pub fn bounded_suffix(text: &str, max_characters: usize) -> (r: String)
    ensures
        r@ == bounded_suffix_spec(text@, max_characters as nat),
{
    let v = chars_of(text);
    if v.len() <= max_characters {
        return string_from_chars(&v);
    }
    let tail = sub_chars(v.as_slice(), v.len() - max_characters, v.len());
    assert(tail@ =~= v@.skip(v@.len() - max_characters));
    string_from_chars(&tail)
}

/// How many characters before the caret to read: at most the default limit;
/// none to read when that is zero.
pub fn context_character_limit(max_characters: usize) -> (r: Option<usize>)
    ensures
        r == (if max_characters == 0 {
            None::<usize>
        } else if max_characters <= DEFAULT_MAX_CONTEXT_CHARS {
            Some(max_characters)
        } else {
            Some(DEFAULT_MAX_CONTEXT_CHARS)
        }),
{
    let limited = if max_characters <= DEFAULT_MAX_CONTEXT_CHARS { max_characters } else { DEFAULT_MAX_CONTEXT_CHARS };
    if limited == 0 {
        None
    } else {
        Some(limited)
    }
}

} // verus!
