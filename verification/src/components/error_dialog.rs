use crate::components::component::Component;
use crate::key::{Key, KeyCode};
use vstd::prelude::*;

verus! {

/// What an error dialog can be told to do.
#[derive(Debug, Clone, Copy, PartialEq, Eq)]
pub enum ErrorMsg {
    Dismiss,
}

/// What an error dialog reports to its parent.
#[derive(Debug, Clone, Copy, PartialEq, Eq)]
pub enum ErrorOutput {
    Dismissed,
}

/// An overlay that shows one message until it is dismissed.
#[derive(Debug)]
pub struct ErrorDialog {
    message: String,
}

impl View for ErrorDialog {
    type V = Seq<char>;

    closed spec fn view(&self) -> Seq<char> {
        self.message@
    }
}

/// The message that a key stands for in an error dialog: only Esc dismisses.
pub open spec fn error_key(key: Key) -> Option<ErrorMsg> {
    if key.code == KeyCode::Esc {
        Some(ErrorMsg::Dismiss)
    } else {
        None
    }
}

impl ErrorDialog {
    /// A dialog with no message.
    pub fn new() -> (r: Self)
        ensures
            r@ == Seq::<char>::empty(),
    {
        ErrorDialog { message: String::new() }
    }

    /// Shows `message` in place of whatever was shown before.
    pub fn set_error(&mut self, message: &str)
        ensures
            final(self)@ == message@,
    {
        self.message = message.to_owned();
    }

    /// The message on show.
    pub fn message(&self) -> (r: &str)
        ensures
            r@ == self@,
    {
        self.message.as_str()
    }

    /// The message that `key` stands for, if any.
    pub fn handle_key(&self, key: Key) -> (r: Option<ErrorMsg>)
        ensures
            r == error_key(key),
    {
        match key.code {
            KeyCode::Esc => Some(ErrorMsg::Dismiss),
            _ => None,
        }
    }

    /// Applies one message: the dialog itself keeps its text, and reports
    /// that it was dismissed.
    pub fn update(&mut self, msg: ErrorMsg) -> (r: Option<ErrorOutput>)
        ensures
            final(self)@ == old(self)@,
            r == Some(ErrorOutput::Dismissed),
    {
        match msg {
            ErrorMsg::Dismiss => Some(ErrorOutput::Dismissed),
        }
    }
}

impl Component for ErrorDialog {
    type Msg = ErrorMsg;

    type Output = ErrorOutput;

    open spec fn well_formed(&self) -> bool {
        true
    }

    open spec fn message_of(&self, key: Key) -> Option<ErrorMsg> {
        error_key(key)
    }

    open spec fn steps_to(&self, msg: ErrorMsg, after: &Self, out: Option<ErrorOutput>) -> bool {
        &&& after@ == self@
        &&& out == Some(ErrorOutput::Dismissed)
    }

    fn handle_key(&self, key: Key) -> Option<ErrorMsg> {
        self.handle_key(key)
    }

    fn update(&mut self, msg: ErrorMsg) -> Option<ErrorOutput> {
        self.update(msg)
    }
}

} // verus!
