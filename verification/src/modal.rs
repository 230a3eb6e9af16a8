use crate::components::delete_confirmation::DeleteMsg;
use crate::components::form::FormMsg;
use crate::components::input::InputMsg;
use vstd::prelude::*;

verus! {

/// The messages of the modal that edits a contact. Each stands for one
/// message of a [`Form`](crate::components::form::Form).
#[derive(Debug, Clone, Copy, PartialEq, Eq)]
pub enum EditContactMessage {
    AppendChar(char),
    Backspace,
    MoveCursorLeft,
    MoveCursorRight,
    MoveCursorStart,
    MoveCursorEnd,
    FocusNext,
    FocusPrev,
    Submit,
    Cancel,
}

/// A message for the modal on show: for the one that asks before deleting,
/// or for the one that edits a contact.
#[derive(Debug, Clone, Copy, PartialEq, Eq)]
pub enum ModalMessage {
    ConfirmDelete(DeleteMsg),
    EditContact(EditContactMessage),
}

/// Which modal is on show.
#[derive(Debug, Clone, Copy, PartialEq, Eq)]
pub enum Modal {
    ConfirmDelete,
    EditContact,
}

/// The message of a form that a message of the edit modal stands for.
pub open spec fn form_msg_of(msg: EditContactMessage) -> FormMsg {
    match msg {
        EditContactMessage::AppendChar(c) => FormMsg::Input(InputMsg::TypeChar(c)),
        EditContactMessage::Backspace => FormMsg::Input(InputMsg::Backspace),
        EditContactMessage::MoveCursorLeft => FormMsg::Input(InputMsg::CursorLeft),
        EditContactMessage::MoveCursorRight => FormMsg::Input(InputMsg::CursorRight),
        EditContactMessage::MoveCursorStart => FormMsg::Input(InputMsg::CursorStart),
        EditContactMessage::MoveCursorEnd => FormMsg::Input(InputMsg::CursorEnd),
        EditContactMessage::FocusNext => FormMsg::Next,
        EditContactMessage::FocusPrev => FormMsg::Previous,
        EditContactMessage::Submit => FormMsg::Submit,
        EditContactMessage::Cancel => FormMsg::Cancel,
    }
}

impl EditContactMessage {
    /// The message to hand to the form.
    pub fn form_msg(self) -> (r: FormMsg)
        ensures
            r == form_msg_of(self),
    {
        match self {
            EditContactMessage::AppendChar(c) => FormMsg::Input(InputMsg::TypeChar(c)),
            EditContactMessage::Backspace => FormMsg::Input(InputMsg::Backspace),
            EditContactMessage::MoveCursorLeft => FormMsg::Input(InputMsg::CursorLeft),
            EditContactMessage::MoveCursorRight => FormMsg::Input(InputMsg::CursorRight),
            EditContactMessage::MoveCursorStart => FormMsg::Input(InputMsg::CursorStart),
            EditContactMessage::MoveCursorEnd => FormMsg::Input(InputMsg::CursorEnd),
            EditContactMessage::FocusNext => FormMsg::Next,
            EditContactMessage::FocusPrev => FormMsg::Previous,
            EditContactMessage::Submit => FormMsg::Submit,
            EditContactMessage::Cancel => FormMsg::Cancel,
        }
    }
}

impl Modal {
    /// Takes a message. A modal holds nothing but its kind, so it stays as it
    /// is, and it hands nothing back: above all not the message it was given,
    /// which would go round for ever.
    pub fn update(&mut self, msg: ModalMessage) -> (r: Option<ModalMessage>)
        ensures
            *final(self) == *old(self),
            r is None,
    {
        None
    }
}

} // verus!
