use vstd::prelude::*;
use crate::text::is_blank;

verus! {

/// Why a request line was refused, with the request's ID when it had one.
#[derive(Debug, Clone, PartialEq, Eq)]
pub struct JsonLineError {
    pub id: Option<String>,
    pub message: String,
}

pub const EMPTY_REQUEST_MESSAGE: &'static str = "empty request line";

/// A blank line is refused before any parsing.
pub fn check_request_line(line: &str) -> (r: Result<(), JsonLineError>)
    ensures
        crate::text::trim_seq(line@).len() == 0 ==> (r matches Err(e) && e.id is None && e.message@ == EMPTY_REQUEST_MESSAGE@),
        crate::text::trim_seq(line@).len() != 0 ==> r is Ok,
{
    if is_blank(line) {
        Err(JsonLineError { id: None, message: String::from_str(EMPTY_REQUEST_MESSAGE) })
    } else {
        Ok(())
    }
}

} // verus!
