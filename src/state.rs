//! The persisted state: the right pane's directory, kept as a `right=<path>`
//! line in a state file.

use vstd::prelude::*;
use vstd::string::{StrSliceExecFns, StringExecFns};

verus! {

#[derive(Default)]
pub struct AppState {
    pub right_path: Option<String>,
}

/// The value of a `right=<path>` line: the text after the first '=' when
/// the text before it is "right".
pub open spec fn right_value(line: Seq<char>) -> Option<Seq<char>> {
    if line.len() >= 6 && line.subrange(0, 6) == "right="@ {
        Some(line.subrange(6, line.len() as int))
    } else {
        None
    }
}

/// The path that a state-file line records for the right pane.
pub fn parse_state_line(line: &String) -> (r: Option<String>)
    ensures
        match right_value(line@) {
            Some(v) => r is Some && r->Some_0@ == v,
            None => r is None,
        },
{
    proof { reveal_strlit("right="); }
    let s = line.as_str();
    let n = s.unicode_len();
    if n < 6 {
        return None;
    }
    let key = s.substring_char(0, 6);
    if !crate::util::text_eq(key, "right=") {
        return None;
    }
    Some(String::from_str(s.substring_char(6, n)))
}

/// The state-file line recording `right_path`.
pub fn state_line(right_path: &String) -> (r: String)
    ensures
        r@ == "right="@ + right_path@,
{
    let mut s = String::from_str("right=");
    s.append(right_path.as_str());
    s
}

} // verus!
