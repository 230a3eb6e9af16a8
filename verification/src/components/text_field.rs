use crate::components::input::InputMsg;
use vstd::prelude::*;

verus! {

/// The messages of a text field, under the names a form uses for them. Each
/// stands for one message of an [`Input`](crate::components::input::Input).
#[derive(Debug, Clone, Copy, PartialEq, Eq)]
pub enum TextFieldMsg {
    Left,
    Right,
    Home,
    End,
    AddChar(char),
    Backspace,
    Delete,
    Clear,
}

/// The message of an input that a message of a text field stands for.
pub open spec fn input_msg_of(msg: TextFieldMsg) -> InputMsg {
    match msg {
        TextFieldMsg::Left => InputMsg::CursorLeft,
        TextFieldMsg::Right => InputMsg::CursorRight,
        TextFieldMsg::Home => InputMsg::CursorStart,
        TextFieldMsg::End => InputMsg::CursorEnd,
        TextFieldMsg::AddChar(c) => InputMsg::TypeChar(c),
        TextFieldMsg::Backspace => InputMsg::Backspace,
        TextFieldMsg::Delete => InputMsg::Delete,
        TextFieldMsg::Clear => InputMsg::Clear,
    }
}

impl TextFieldMsg {
    /// The message to hand to the input.
    pub fn input_msg(self) -> (r: InputMsg)
        ensures
            r == input_msg_of(self),
    {
        match self {
            TextFieldMsg::Left => InputMsg::CursorLeft,
            TextFieldMsg::Right => InputMsg::CursorRight,
            TextFieldMsg::Home => InputMsg::CursorStart,
            TextFieldMsg::End => InputMsg::CursorEnd,
            TextFieldMsg::AddChar(c) => InputMsg::TypeChar(c),
            TextFieldMsg::Backspace => InputMsg::Backspace,
            TextFieldMsg::Delete => InputMsg::Delete,
            TextFieldMsg::Clear => InputMsg::Clear,
        }
    }
}

} // verus!
