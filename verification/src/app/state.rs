use crate::modal::Modal;
use crate::model::{clone_contacts, views, Contact, ContactView};
use vstd::prelude::*;

verus! {

/// Whether the plain browser goes on or is done.
#[derive(Debug, Clone, Copy, PartialEq, Eq)]
pub enum RunningState {
    Running,
    Done,
}

impl Default for RunningState {
    fn default() -> (r: Self)
        ensures
            r == RunningState::Running,
    {
        RunningState::Running
    }
}

/// What the plain browser is doing.
#[derive(Debug, Clone, Copy, PartialEq, Eq)]
pub enum Mode {
    Browse,
    Add,
    Edit,
    Delete,
}

impl Default for Mode {
    fn default() -> (r: Self)
        ensures
            r == Mode::Browse,
    {
        Mode::Browse
    }
}

/// The whole state of the plain browser, kept in one place: all contacts,
/// the query, the contacts it shows, the place of the selected one, and
/// whether the browser is done.
#[derive(Debug)]
pub struct Model {
    pub all_contacts: Vec<Contact>,
    pub filtered_contacts: Vec<Contact>,
    pub search_query: String,
    pub selected_index: usize,
    pub mode: Mode,
    pub running_state: RunningState,
    pub modal: Option<Modal>,
}

/// The state of the plain browser as plain mathematical values.
pub struct ModelView {
    pub all: Seq<ContactView>,
    pub filtered: Seq<ContactView>,
    pub query: Seq<char>,
    pub selected: nat,
    pub mode: Mode,
    pub running: RunningState,
    pub modal: Option<Modal>,
}

impl View for Model {
    type V = ModelView;

    open spec fn view(&self) -> ModelView {
        ModelView {
            all: views(self.all_contacts@),
            filtered: views(self.filtered_contacts@),
            query: self.search_query@,
            selected: self.selected_index as nat,
            mode: self.mode,
            running: self.running_state,
            modal: self.modal,
        }
    }
}

/// The state in which the plain browser starts over `contacts`: running, in
/// browse mode, with an empty query, showing them all, the first selected.
pub open spec fn starting(contacts: Seq<ContactView>) -> ModelView {
    ModelView {
        all: contacts,
        filtered: contacts,
        query: Seq::empty(),
        selected: 0,
        mode: Mode::Browse,
        running: RunningState::Running,
        modal: None,
    }
}

impl Default for Model {
    fn default() -> (r: Self)
        ensures
            r@ == starting(Seq::empty()),
    {
        let r = Model {
            all_contacts: Vec::new(),
            filtered_contacts: Vec::new(),
            search_query: String::new(),
            selected_index: 0,
            mode: Mode::Browse,
            running_state: RunningState::Running,
            modal: None,
        };
        proof {
            assert(views(r.all_contacts@) =~= Seq::<ContactView>::empty());
        }
        r
    }
}

impl Model {
    /// The starting state over `contacts`.
    pub fn new(contacts: Vec<Contact>) -> (r: Self)
        ensures
            r.all_contacts == contacts,
            r.filtered_contacts@ == contacts@,
            r@ == starting(views(contacts@)),
    {
        Model {
            filtered_contacts: clone_contacts(contacts.as_slice()),
            all_contacts: contacts,
            selected_index: 0,
            search_query: String::new(),
            running_state: RunningState::Running,
            mode: Mode::Browse,
            modal: None,
        }
    }
}

} // verus!
