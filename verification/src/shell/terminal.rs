//! What the shell asks of its terminal, its history file and its raw-mode
//! lease, as an ordered list of actions for the caller to perform.

use vstd::prelude::*;

verus! {

/// One thing for the caller to do. A list of actions is performed in order.
#[derive(Debug, Clone, PartialEq, Eq)]
pub enum Action {
    /// Hide the caret.
    HideCaret,
    /// Show the caret.
    ShowCaret,
    /// Clear from the caret to the end of the line.
    ClearToEndOfLine,
    /// Move the caret to the given column of the current line.
    MoveToColumn(u128),
    /// Write bytes to standard output.
    Print(Vec<u8>),
    /// Show a diagnostic to the user.
    Report(Vec<u8>),
    /// Release raw mode.
    LeaveRaw,
    /// Acquire raw mode.
    EnterRaw,
    /// Append one record to the history file, followed by a newline.
    Record(Vec<u8>),
}

/// The mathematical value of an [`Action`].
pub enum Effect {
    HideCaret,
    ShowCaret,
    ClearToEndOfLine,
    MoveToColumn(int),
    Print(Seq<u8>),
    Report(Seq<u8>),
    LeaveRaw,
    EnterRaw,
    Record(Seq<u8>),
}

impl View for Action {
    type V = Effect;

    open spec fn view(&self) -> Effect {
        match self {
            Action::HideCaret => Effect::HideCaret,
            Action::ShowCaret => Effect::ShowCaret,
            Action::ClearToEndOfLine => Effect::ClearToEndOfLine,
            Action::MoveToColumn(c) => Effect::MoveToColumn(*c as int),
            Action::Print(b) => Effect::Print(b@),
            Action::Report(b) => Effect::Report(b@),
            Action::LeaveRaw => Effect::LeaveRaw,
            Action::EnterRaw => Effect::EnterRaw,
            Action::Record(b) => Effect::Record(b@),
        }
    }
}

/// The values of a list of actions, in order.
pub open spec fn effects(actions: Seq<Action>) -> Seq<Effect> {
    Seq::new(actions.len(), |i: int| actions[i]@)
}

/// Appends `action` to `list`.
pub fn emit(list: &mut Vec<Action>, action: Action)
    ensures
        effects(final(list)@) == effects(old(list)@).push(action@),
{
    list.push(action);
    assert(effects(list@) =~= effects(old(list)@).push(action@));
}

} // verus!
