//! Answers of the confirmation dialogs.

use vstd::prelude::*;

verus! {

pub enum DialogResult {
    Accept,
    Reject,
    Pending,
}

/// A key press as the dialogs see it.
#[derive(Clone, Copy, PartialEq, Eq, Debug, Structural)]
pub enum DialogKey {
    Char(char),
    Enter,
    Esc,
    Other,
}

/// Accept on 'y', 'Y' or Enter; reject on 'n', 'N' or Esc; otherwise the
/// dialog stays open.
pub fn handle_yes_no_keys(key: DialogKey) -> (r: DialogResult)
    ensures
        match key {
            DialogKey::Char(c) => if c == 'y' || c == 'Y' { r is Accept } else if c == 'n' || c == 'N' { r is Reject } else { r is Pending },
            DialogKey::Enter => r is Accept,
            DialogKey::Esc => r is Reject,
            DialogKey::Other => r is Pending,
        },
{
    match key {
        DialogKey::Char(c) => {
            if c == 'y' || c == 'Y' {
                DialogResult::Accept
            } else if c == 'n' || c == 'N' {
                DialogResult::Reject
            } else {
                DialogResult::Pending
            }
        }
        DialogKey::Enter => DialogResult::Accept,
        DialogKey::Esc => DialogResult::Reject,
        DialogKey::Other => DialogResult::Pending,
    }
}

} // verus!
