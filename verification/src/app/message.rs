use crate::modal::ModalMessage;
use vstd::prelude::*;

verus! {

/// What the plain browser can be told.
#[derive(Debug, Clone, Copy, PartialEq, Eq)]
pub enum AppMessage {
    MoveUp,
    MoveDown,
    MoveStart,
    MoveEnd,
    Quit,
    UpdateQueryAppend(char),
    UpdateQueryBackspace,
    ClearQuery,
    Select,
}

/// A message for the plain browser itself or for its modal.
#[derive(Debug, Clone, Copy, PartialEq, Eq)]
pub enum Message {
    App(AppMessage),
    Modal(ModalMessage),
}

} // verus!
