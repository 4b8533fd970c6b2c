//! The handling of a failed step: its value is dropped, and its message is reported unless it
//! is one that the caller expects and ignores.
use vstd::prelude::*;
use crate::text::{str_eq, string_views};

verus! {

/// Whether `message` is one of the ignored messages.
pub fn is_ignored(message: &str, ignore: &[String]) -> (r: bool)
    ensures
        r == string_views(ignore@).contains(message@),
{
    crate::keybinds::contains_text(ignore, message)
}

/// The value of a successful step, or `None`; beside it the message to report for a failure
/// whose message is not ignored.
pub fn handle_error<T>(result: Result<T, String>, ignore: &[String]) -> (r: (Option<T>, Option<String>))
    ensures
        match result {
            Ok(v) => r.0 == Some(v) && r.1 is None,
            Err(e) => r.0 is None && (r.1 is Some <==> !string_views(ignore@).contains(e@)) && (
            r.1 matches Some(m) ==> m@ == e@),
        },
{
    match result {
        Ok(v) => (Some(v), None),
        Err(e) => {
            if is_ignored(e.as_str(), ignore) {
                (None, None)
            } else {
                (None, Some(e))
            }
        },
    }
}

} // verus!
