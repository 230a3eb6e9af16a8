use crate::components::component::Component;
use crate::key::{Key, KeyCode};
use crate::model::{empty_contact, Contact, ContactView};
use vstd::prelude::*;

verus! {

/// The two answers to "delete this contact?".
#[derive(Debug, Clone, Copy, PartialEq, Eq)]
pub enum DeleteMsg {
    Confirm,
    Cancel,
}

/// What a delete confirmation reports to its parent: the decision, with the
/// contact where the decision is to delete it.
#[derive(Debug, PartialEq, Eq)]
pub enum DeleteOutput {
    Confirmed(Contact),
    Cancelled,
}

/// A decision as plain mathematical values.
pub enum DeleteOutputView {
    Confirmed(ContactView),
    Cancelled,
}

impl View for DeleteOutput {
    type V = DeleteOutputView;

    open spec fn view(&self) -> DeleteOutputView {
        match self {
            DeleteOutput::Confirmed(c) => DeleteOutputView::Confirmed(c@),
            DeleteOutput::Cancelled => DeleteOutputView::Cancelled,
        }
    }
}

/// An overlay that holds the contact waiting to be deleted. It only asks;
/// deleting is left to its parent.
#[derive(Debug)]
pub struct DeleteConfirmation {
    contact: Contact,
}

impl View for DeleteConfirmation {
    type V = ContactView;

    closed spec fn view(&self) -> ContactView {
        self.contact@
    }
}

/// The message that a key stands for in a delete confirmation: `y` confirms,
/// `n` and Esc cancel.
pub open spec fn delete_key(key: Key) -> Option<DeleteMsg> {
    match key.code {
        KeyCode::Char(c) => if c == 'y' {
            Some(DeleteMsg::Confirm)
        } else if c == 'n' {
            Some(DeleteMsg::Cancel)
        } else {
            None
        },
        KeyCode::Esc => Some(DeleteMsg::Cancel),
        _ => None,
    }
}

/// What a message makes a confirmation holding `contact` report.
pub open spec fn delete_decision(contact: ContactView, msg: DeleteMsg) -> DeleteOutputView {
    match msg {
        DeleteMsg::Confirm => DeleteOutputView::Confirmed(contact),
        DeleteMsg::Cancel => DeleteOutputView::Cancelled,
    }
}

impl DeleteConfirmation {
    /// A confirmation holding an empty contact.
    pub fn new() -> (r: Self)
        ensures
            r@ == empty_contact(),
    {
        DeleteConfirmation { contact: Contact::default() }
    }

    /// Stages the contact that the question is about.
    pub fn set_contact(&mut self, contact: Contact)
        ensures
            final(self)@ == contact@,
    {
        self.contact = contact;
    }

    /// The staged contact.
    pub fn contact(&self) -> (r: &Contact)
        ensures
            r@ == self@,
    {
        &self.contact
    }

    /// The message that `key` stands for, if any.
    pub fn handle_key(&self, key: Key) -> (r: Option<DeleteMsg>)
        ensures
            r == delete_key(key),
    {
        match key.code {
            KeyCode::Char(c) => {
                if c == 'y' {
                    Some(DeleteMsg::Confirm)
                } else if c == 'n' {
                    Some(DeleteMsg::Cancel)
                } else {
                    None
                }
            },
            KeyCode::Esc => Some(DeleteMsg::Cancel),
            _ => None,
        }
    }

    /// Applies one message: the staged contact stays, and the decision is
    /// reported, with a copy of the contact where it is to be deleted.
    pub fn update(&mut self, msg: DeleteMsg) -> (r: Option<DeleteOutput>)
        ensures
            final(self)@ == old(self)@,
            r is Some,
            r->0@ == delete_decision(old(self)@, msg),
    {
        match msg {
            DeleteMsg::Confirm => Some(DeleteOutput::Confirmed(self.contact.clone())),
            DeleteMsg::Cancel => Some(DeleteOutput::Cancelled),
        }
    }
}

impl Component for DeleteConfirmation {
    type Msg = DeleteMsg;

    type Output = DeleteOutput;

    open spec fn well_formed(&self) -> bool {
        true
    }

    open spec fn message_of(&self, key: Key) -> Option<DeleteMsg> {
        delete_key(key)
    }

    open spec fn steps_to(&self, msg: DeleteMsg, after: &Self, out: Option<DeleteOutput>) -> bool {
        &&& after@ == self@
        &&& out is Some
        &&& out->0@ == delete_decision(self@, msg)
    }

    fn handle_key(&self, key: Key) -> Option<DeleteMsg> {
        self.handle_key(key)
    }

    fn update(&mut self, msg: DeleteMsg) -> Option<DeleteOutput> {
        self.update(msg)
    }
}

} // verus!
