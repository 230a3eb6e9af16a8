use crate::components::component::Component;
use crate::key::{Key, KeyCode};
use crate::text::{chars_of, string_of};
use vstd::prelude::*;
use vstd::string::*;

verus! {

/// How an input is laid out: in a box of its own, or on one line after its
/// label.
#[derive(Debug, Clone, Copy, PartialEq, Eq)]
pub enum InputMode {
    Regular,
    Inline,
}

/// What an input can be told to do.
#[derive(Debug, Clone, Copy, PartialEq, Eq)]
pub enum InputMsg {
    Clear,
    CursorLeft,
    CursorRight,
    CursorStart,
    CursorEnd,
    Backspace,
    Delete,
    TypeChar(char),
}

/// What an input reports to its parent: its new text, whenever the text
/// changed.
#[derive(Debug, PartialEq, Eq)]
pub enum InputOutput {
    Changed(String),
}

/// A one-line text input: a buffer and a cursor, counted in characters.
#[derive(Debug)]
pub struct Input {
    label: String,
    label_width: u16,
    pub value: String,
    cursor: usize,
    focused: bool,
    mode: InputMode,
    max_len: usize,
}

/// The state of an input as plain mathematical values.
pub struct InputView {
    pub label: Seq<char>,
    pub label_width: u16,
    pub value: Seq<char>,
    pub cursor: nat,
    pub focused: bool,
    pub mode: InputMode,
    pub max_len: nat,
}

impl View for Input {
    type V = InputView;

    closed spec fn view(&self) -> InputView {
        InputView {
            label: self.label@,
            label_width: self.label_width,
            value: self.value@,
            cursor: self.cursor as nat,
            focused: self.focused,
            mode: self.mode,
            max_len: self.max_len as nat,
        }
    }
}

/// The message that a key stands for in an input, if any.
pub open spec fn input_key(key: Key) -> Option<InputMsg> {
    match key.code {
        KeyCode::Char(c) => if c == 'l' && key.ctrl {
            Some(InputMsg::Clear)
        } else {
            Some(InputMsg::TypeChar(c))
        },
        KeyCode::Left => Some(InputMsg::CursorLeft),
        KeyCode::Right => Some(InputMsg::CursorRight),
        KeyCode::Home => Some(InputMsg::CursorStart),
        KeyCode::End => Some(InputMsg::CursorEnd),
        KeyCode::Backspace => Some(InputMsg::Backspace),
        KeyCode::Delete => Some(InputMsg::Delete),
        _ => None,
    }
}

/// Whether a message changes the text of an input in state `s`. Clearing
/// always counts as a change.
pub open spec fn input_changes(s: InputView, msg: InputMsg) -> bool {
    match msg {
        InputMsg::Clear => true,
        InputMsg::Backspace => s.cursor > 0,
        InputMsg::Delete => s.cursor < s.value.len(),
        InputMsg::TypeChar(_) => s.value.len() < s.max_len,
        _ => false,
    }
}

/// The state of an input after a message.
pub open spec fn input_step(s: InputView, msg: InputMsg) -> InputView {
    match msg {
        InputMsg::Clear => InputView { value: Seq::empty(), cursor: 0, ..s },
        InputMsg::CursorLeft => if s.cursor > 0 {
            InputView { cursor: (s.cursor - 1) as nat, ..s }
        } else {
            s
        },
        InputMsg::CursorRight => if s.cursor < s.value.len() {
            InputView { cursor: s.cursor + 1, ..s }
        } else {
            s
        },
        InputMsg::CursorStart => InputView { cursor: 0, ..s },
        InputMsg::CursorEnd => InputView { cursor: s.value.len(), ..s },
        InputMsg::Backspace => if s.cursor > 0 {
            InputView {
                value: s.value.remove(s.cursor - 1),
                cursor: (s.cursor - 1) as nat,
                ..s
            }
        } else {
            s
        },
        InputMsg::Delete => if s.cursor < s.value.len() {
            InputView { value: s.value.remove(s.cursor as int), ..s }
        } else {
            s
        },
        InputMsg::TypeChar(c) => if s.value.len() < s.max_len {
            InputView { value: s.value.insert(s.cursor as int, c), cursor: s.cursor + 1, ..s }
        } else {
            s
        },
    }
}

/// The cursor of a well-formed input stands inside its text or just after it.
pub open spec fn input_wf(s: InputView) -> bool {
    s.cursor <= s.value.len()
}

/// The message that `key` stands for in any input, if it stands for one.
pub fn message_for(key: Key) -> (r: Option<InputMsg>)
    ensures
        r == input_key(key),
{
    match key.code {
        KeyCode::Char(c) => {
            if c == 'l' && key.ctrl {
                Some(InputMsg::Clear)
            } else {
                Some(InputMsg::TypeChar(c))
            }
        },
        KeyCode::Left => Some(InputMsg::CursorLeft),
        KeyCode::Right => Some(InputMsg::CursorRight),
        KeyCode::Home => Some(InputMsg::CursorStart),
        KeyCode::End => Some(InputMsg::CursorEnd),
        KeyCode::Backspace => Some(InputMsg::Backspace),
        KeyCode::Delete => Some(InputMsg::Delete),
        _ => None,
    }
}

impl Input {
    /// An input is well-formed when its cursor is.
    pub open spec fn wf(&self) -> bool {
        input_wf(self@)
    }

    /// A new input holding `value`, not focused, with the cursor at the end.
    pub fn new(
        label: &str,
        value: &str,
        label_width: u16,
        mode: InputMode,
        max_len: usize,
    ) -> (r: Self)
        ensures
            r.wf(),
            r@ == (InputView {
                label: label@,
                label_width,
                value: value@,
                cursor: value@.len(),
                focused: false,
                mode,
                max_len: max_len as nat,
            }),
    {
        Input {
            label: label.to_owned(),
            label_width,
            value: value.to_owned(),
            focused: false,
            cursor: value.unicode_len(),
            mode,
            max_len,
        }
    }

    /// Gives or takes the focus; either way the cursor moves to the end.
    pub fn set_focused(&mut self, focused: bool)
        ensures
            final(self).wf(),
            final(self)@ == (InputView {
                focused,
                cursor: old(self)@.value.len(),
                ..old(self)@
            }),
    {
        self.focused = focused;
        self.cursor = self.value.as_str().unicode_len();
    }

    /// Replaces the label.
    pub fn set_label(&mut self, label: &str)
        ensures
            final(self)@ == (InputView { label: label@, ..old(self)@ }),
    {
        self.label = label.to_owned();
    }

    /// Replaces the text and puts the cursor at its end.
    pub fn set_value(&mut self, value: &str)
        ensures
            final(self).wf(),
            final(self)@ == (InputView { value: value@, cursor: value@.len(), ..old(self)@ }),
    {
        self.value = value.to_owned();
        self.cursor = value.unicode_len();
    }

    /// The text.
    pub fn value(&self) -> (r: &str)
        ensures
            r@ == self@.value,
    {
        self.value.as_str()
    }

    /// The label.
    pub fn label(&self) -> (r: &str)
        ensures
            r@ == self@.label,
    {
        self.label.as_str()
    }

    /// The width reserved for the label.
    pub fn label_width(&self) -> (r: u16)
        ensures
            r == self@.label_width,
    {
        self.label_width
    }

    /// Where the cursor stands, counted in characters from the start.
    pub fn cursor(&self) -> (r: usize)
        ensures
            r == self@.cursor,
    {
        self.cursor
    }

    /// Whether the input has the focus.
    pub fn is_focused(&self) -> (r: bool)
        ensures
            r == self@.focused,
    {
        self.focused
    }

    /// How many characters the input takes at most.
    pub fn max_len(&self) -> (r: usize)
        ensures
            r == self@.max_len,
    {
        self.max_len
    }

    /// How the input is laid out.
    pub fn mode(&self) -> (r: InputMode)
        ensures
            r == self@.mode,
    {
        self.mode
    }

    /// The message that `key` stands for, if any.
    pub fn handle_key(&self, key: Key) -> (r: Option<InputMsg>)
        ensures
            r == input_key(key),
    {
        message_for(key)
    }

    /// Applies one message. The new text is reported exactly when the message
    /// changed it.
    pub fn update(&mut self, msg: InputMsg) -> (r: Option<InputOutput>)
        requires
            old(self).wf(),
        ensures
            final(self).wf(),
            final(self)@ == input_step(old(self)@, msg),
            match r {
                Some(InputOutput::Changed(v)) => {
                    &&& input_changes(old(self)@, msg)
                    &&& v@ == final(self)@.value
                },
                None => !input_changes(old(self)@, msg),
            },
    {
        match msg {
            InputMsg::Clear => {
                self.cursor = 0;
                self.value = String::new();
                Some(InputOutput::Changed(self.value.clone()))
            },
            InputMsg::CursorLeft => {
                if self.cursor > 0 {
                    self.cursor -= 1;
                }
                None
            },
            InputMsg::CursorRight => {
                if self.cursor < self.value.as_str().unicode_len() {
                    self.cursor += 1;
                }
                None
            },
            InputMsg::CursorStart => {
                self.cursor = 0;
                None
            },
            InputMsg::CursorEnd => {
                self.cursor = self.value.as_str().unicode_len();
                None
            },
            InputMsg::Backspace => {
                if self.cursor > 0 {
                    let mut chars = chars_of(self.value.as_str());
                    self.cursor -= 1;
                    chars.remove(self.cursor);
                    self.value = string_of(&chars);
                    Some(InputOutput::Changed(self.value.clone()))
                } else {
                    None
                }
            },
            InputMsg::Delete => {
                let mut chars = chars_of(self.value.as_str());
                if self.cursor < chars.len() {
                    chars.remove(self.cursor);
                    self.value = string_of(&chars);
                    Some(InputOutput::Changed(self.value.clone()))
                } else {
                    None
                }
            },
            InputMsg::TypeChar(c) => {
                let mut chars = chars_of(self.value.as_str());
                if chars.len() < self.max_len {
                    chars.insert(self.cursor, c);
                    self.value = string_of(&chars);
                    self.cursor += 1;
                    Some(InputOutput::Changed(self.value.clone()))
                } else {
                    None
                }
            },
        }
    }
}

impl Component for Input {
    type Msg = InputMsg;

    type Output = InputOutput;

    open spec fn well_formed(&self) -> bool {
        self.wf()
    }

    open spec fn message_of(&self, key: Key) -> Option<InputMsg> {
        input_key(key)
    }

    open spec fn steps_to(&self, msg: InputMsg, after: &Self, out: Option<InputOutput>) -> bool {
        &&& after@ == input_step(self@, msg)
        &&& match out {
            Some(InputOutput::Changed(v)) => input_changes(self@, msg) && v@ == after@.value,
            None => !input_changes(self@, msg),
        }
    }

    fn handle_key(&self, key: Key) -> Option<InputMsg> {
        self.handle_key(key)
    }

    fn update(&mut self, msg: InputMsg) -> Option<InputOutput> {
        self.update(msg)
    }
}

} // verus!
