use crate::key::Key;
use crate::model::opt_view;
use vstd::prelude::*;

verus! {

/// What every component of the interface offers: it turns a key into a
/// message of its own, and it takes a message, changes its state, and may
/// report something to its parent. Each component says for itself, in
/// `message_of` and `steps_to`, which message and which change that is.
pub trait Component: Sized {
    /// What the component can be told.
    type Msg;

    /// What the component reports to its parent.
    type Output;

    /// What has to hold of the component for it to take messages, and holds
    /// again afterwards.
    spec fn well_formed(&self) -> bool;

    /// The message that `key` stands for in this component, if any.
    spec fn message_of(&self, key: Key) -> Option<Self::Msg>;

    /// Whether `msg` takes the component from this state to the state
    /// `after`, with `out` reported to the parent.
    spec fn steps_to(&self, msg: Self::Msg, after: &Self, out: Option<Self::Output>) -> bool;

    /// The message that `key` stands for, if any.
    fn handle_key(&self, key: Key) -> (r: Option<Self::Msg>)
        ensures
            r == self.message_of(key),
    ;

    /// Applies one message, and reports what the parent is to know of it.
    fn update(&mut self, msg: Self::Msg) -> (r: Option<Self::Output>)
        requires
            old(self).well_formed(),
        ensures
            final(self).well_formed(),
            old(self).steps_to(msg, final(self), r),
    ;
}

/// A text as an optional field: nothing for the empty text, else the text.
pub open spec fn opt_text(val: Seq<char>) -> Option<Seq<char>> {
    if val.len() == 0 {
        None
    } else {
        Some(val)
    }
}

/// Turns a text into an optional field: `None` for the empty text, so that
/// a field is either absent or not empty.
pub fn opt(val: String) -> (r: Option<String>)
    ensures
        opt_view(r) == opt_text(val@),
        r is Some ==> r->0 == val,
{
    if val.as_str().is_empty() {
        None
    } else {
        Some(val)
    }
}

} // verus!
