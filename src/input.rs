//! What the keys of the keyboard do.
use vstd::prelude::*;
use vstd::string::StrSliceExecFns;

verus! {

/// A request from the user.
#[derive(Clone, Copy, Debug, PartialEq, Eq, Structural)]
pub enum Action {
    Close,
    SpeedUp,
    SlowDown,
    ZoomOut,
    ZoomIn,
}

/// The action of the key that typed `text`: `q` closes, `+` and `-` change
/// the speed of time, `z` zooms in and `x` zooms out; anything else does nothing.
pub open spec fn action_spec(text: Seq<char>) -> Option<Action> {
    if text.len() != 1 {
        None
    } else if text[0] == 'q' {
        Some(Action::Close)
    } else if text[0] == '+' {
        Some(Action::SpeedUp)
    } else if text[0] == '-' {
        Some(Action::SlowDown)
    } else if text[0] == 'z' {
        Some(Action::ZoomIn)
    } else if text[0] == 'x' {
        Some(Action::ZoomOut)
    } else {
        None
    }
}

/// The action that typed text asks for, if any.
pub fn action_for_text(text: &str) -> (r: Option<Action>)
    ensures
        r == action_spec(text@),
{
    if text.unicode_len() != 1 {
        return None;
    }
    match text.get_char(0) {
        'q' => Some(Action::Close),
        '+' => Some(Action::SpeedUp),
        '-' => Some(Action::SlowDown),
        'z' => Some(Action::ZoomIn),
        'x' => Some(Action::ZoomOut),
        _ => None,
    }
}

} // verus!
