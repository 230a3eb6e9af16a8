use crate::components::component::Component;
use crate::key::{Key, KeyCode};
use crate::model::{clone_contacts, opt_contact_view, opt_view, views, Contact, ContactView};
use vstd::prelude::*;

verus! {

/// What a contact list can be told to do.
#[derive(Debug, Clone, Copy, PartialEq, Eq)]
pub enum ContactListMsg {
    Activate,
    Next,
    Prev,
    First,
    Last,
    PgUp,
    PgDown,
}

/// What a contact list reports to its parent.
#[derive(Debug, PartialEq, Eq)]
pub enum ContactListOutput {
    ContactActivated(Contact),
}

/// The contacts on display and the place of the selected one.
#[derive(Debug)]
pub struct ContactList {
    pub filtered_contacts: Vec<Contact>,
    pub selected_index: usize,
}

/// The state of a contact list as plain mathematical values.
pub struct ContactListView {
    pub filtered: Seq<ContactView>,
    pub selected: nat,
}

impl View for ContactList {
    type V = ContactListView;

    open spec fn view(&self) -> ContactListView {
        ContactListView {
            filtered: views(self.filtered_contacts@),
            selected: self.selected_index as nat,
        }
    }
}

/// One line of the list as it is to be drawn: the four fields as texts, and
/// whether this is the selected line.
#[derive(Debug, PartialEq, Eq)]
pub struct ContactRow {
    pub name: String,
    pub company: String,
    pub email: String,
    pub phone: String,
    pub selected: bool,
}

/// A line of the list as plain mathematical values.
pub struct ContactRowView {
    pub name: Seq<char>,
    pub company: Seq<char>,
    pub email: Seq<char>,
    pub phone: Seq<char>,
    pub selected: bool,
}

impl View for ContactRow {
    type V = ContactRowView;

    open spec fn view(&self) -> ContactRowView {
        ContactRowView {
            name: self.name@,
            company: self.company@,
            email: self.email@,
            phone: self.phone@,
            selected: self.selected,
        }
    }
}

/// The text drawn for an optional field: a dash where the field is absent.
pub open spec fn or_dash(o: Option<Seq<char>>) -> Seq<char> {
    match o {
        Some(s) => s,
        None => "-"@,
    }
}

/// The line drawn for a contact.
pub open spec fn row_of(c: ContactView, selected: bool) -> ContactRowView {
    ContactRowView {
        name: c.name,
        company: or_dash(c.company),
        email: or_dash(c.email),
        phone: or_dash(c.phone),
        selected,
    }
}

/// The lines drawn for a list: one per contact shown, the selected one
/// marked.
pub open spec fn list_rows(s: ContactListView) -> Seq<ContactRowView> {
    Seq::new(s.filtered.len(), |i: int| row_of(s.filtered[i], i == s.selected))
}

/// The views of the lines of a list.
pub open spec fn row_views(rows: Seq<ContactRow>) -> Seq<ContactRowView> {
    rows.map_values(|r: ContactRow| r@)
}

/// The text to draw for an optional field.
pub fn text_or_dash(o: &Option<String>) -> (r: String)
    ensures
        r@ == or_dash(opt_view(*o)),
{
    match o {
        Some(s) => s.clone(),
        None => "-".to_owned(),
    }
}

/// How far a page key moves the selection.
pub const PAGE: usize = 10;

/// The message that a key stands for in a contact list, if any.
pub open spec fn list_key(key: Key) -> Option<ContactListMsg> {
    match key.code {
        KeyCode::Down => Some(ContactListMsg::Next),
        KeyCode::Up => Some(ContactListMsg::Prev),
        KeyCode::Home => Some(ContactListMsg::First),
        KeyCode::End => Some(ContactListMsg::Last),
        KeyCode::PageUp => Some(ContactListMsg::PgUp),
        KeyCode::PageDown => Some(ContactListMsg::PgDown),
        KeyCode::Enter => Some(ContactListMsg::Activate),
        _ => None,
    }
}

/// The selection after moving `by` places down a list of `len` contacts: it
/// stops at the last contact, and stays where it is on an empty list.
pub open spec fn move_down(selected: nat, by: nat, len: nat) -> nat {
    if len == 0 {
        selected
    } else if selected + by < len {
        selected + by
    } else {
        (len - 1) as nat
    }
}

/// The selection after moving `by` places up: it stops at the first contact.
pub open spec fn move_up(selected: nat, by: nat) -> nat {
    if selected >= by {
        (selected - by) as nat
    } else {
        0
    }
}

/// The selection after a message. The contacts themselves never change.
pub open spec fn list_step(s: ContactListView, msg: ContactListMsg) -> ContactListView {
    let len = s.filtered.len();
    let selected = match msg {
        ContactListMsg::Next => move_down(s.selected, 1, len),
        ContactListMsg::Prev => move_up(s.selected, 1),
        ContactListMsg::First => 0,
        ContactListMsg::Last => if len == 0 {
            0
        } else {
            (len - 1) as nat
        },
        ContactListMsg::PgUp => move_up(s.selected, PAGE as nat),
        ContactListMsg::PgDown => move_down(s.selected, PAGE as nat, len),
        ContactListMsg::Activate => s.selected,
    };
    ContactListView { selected, ..s }
}

/// The selected contact, if the selection points at one.
pub open spec fn list_selection(s: ContactListView) -> Option<ContactView> {
    if s.selected < s.filtered.len() {
        Some(s.filtered[s.selected as int])
    } else {
        None
    }
}

/// The contact that a message activates: the selected one, on `Activate`.
pub open spec fn list_activated(s: ContactListView, msg: ContactListMsg) -> Option<ContactView> {
    if msg == ContactListMsg::Activate {
        list_selection(s)
    } else {
        None
    }
}

/// The view of what a contact list reports.
pub open spec fn list_output_view(o: Option<ContactListOutput>) -> Option<ContactView> {
    match o {
        Some(ContactListOutput::ContactActivated(c)) => Some(c@),
        None => None,
    }
}

/// The state after a run of messages, applied from left to right.
pub open spec fn list_run(s: ContactListView, msgs: Seq<ContactListMsg>) -> ContactListView
    decreases msgs.len(),
{
    if msgs.len() == 0 {
        s
    } else {
        list_step(list_run(s, msgs.drop_last()), msgs.last())
    }
}

/// The selection of a list in good order points at one of its contacts, or
/// stands at 0 where the list is empty.
pub open spec fn list_wf(s: ContactListView) -> bool {
    s.selected < s.filtered.len() || (s.filtered.len() == 0 && s.selected == 0)
}

/// No message takes a list out of good order.
pub proof fn lemma_step_keeps_selection_in_range(s: ContactListView, msg: ContactListMsg)
    requires
        list_wf(s),
    ensures
        list_step(s, msg).filtered == s.filtered,
        list_wf(list_step(s, msg)),
{
}

/// However many messages a list of `n` contacts receives, and in whatever
/// order, its contacts stay and its selection stays between 0 and `n - 1`
/// (at 0 where the list is empty).
pub proof fn lemma_selection_stays_in_range(s: ContactListView, msgs: Seq<ContactListMsg>)
    requires
        list_wf(s),
    ensures
        list_run(s, msgs).filtered == s.filtered,
        list_wf(list_run(s, msgs)),
        s.filtered.len() > 0 ==> 0 <= list_run(s, msgs).selected <= s.filtered.len() - 1,
    decreases msgs.len(),
{
    if msgs.len() > 0 {
        lemma_selection_stays_in_range(s, msgs.drop_last());
        lemma_step_keeps_selection_in_range(list_run(s, msgs.drop_last()), msgs.last());
    }
}

impl ContactList {
    /// A list showing `contacts`, with the first one selected.
    pub fn new(contacts: &[Contact]) -> (r: Self)
        ensures
            r.filtered_contacts@ == contacts@,
            r.selected_index == 0,
    {
        ContactList { filtered_contacts: clone_contacts(contacts), selected_index: 0 }
    }

    /// A copy of the selected contact, if the selection points at one.
    pub fn get_selected_contact(&self) -> (r: Option<Contact>)
        ensures
            opt_contact_view(r) == list_selection(self@),
            r is Some ==> r->0 == self.filtered_contacts@[self.selected_index as int],
    {
        if self.selected_index < self.filtered_contacts.len() {
            Some(self.filtered_contacts[self.selected_index].clone())
        } else {
            None
        }
    }

    /// The lines to draw, one per contact shown.
    pub fn rows(&self) -> (rows: Vec<ContactRow>)
        ensures
            row_views(rows@) == list_rows(self@),
    {
        let mut rows: Vec<ContactRow> = Vec::new();
        let mut i: usize = 0;
        while i < self.filtered_contacts.len()
            invariant
                i <= self.filtered_contacts.len(),
                rows.len() == i,
                forall|k: int| 0 <= k < i ==> (#[trigger] rows@[k])@ == list_rows(self@)[k],
            decreases self.filtered_contacts.len() - i,
        {
            let c = &self.filtered_contacts[i];
            rows.push(
                ContactRow {
                    name: c.name.clone(),
                    company: text_or_dash(&c.company),
                    email: text_or_dash(&c.email),
                    phone: text_or_dash(&c.phone),
                    selected: i == self.selected_index,
                },
            );
            i += 1;
        }
        proof {
            assert(row_views(rows@) =~= list_rows(self@));
        }
        rows
    }

    /// The message that `key` stands for, if any.
    pub fn handle_key(&self, key: Key) -> (r: Option<ContactListMsg>)
        ensures
            r == list_key(key),
    {
        match key.code {
            KeyCode::Down => Some(ContactListMsg::Next),
            KeyCode::Up => Some(ContactListMsg::Prev),
            KeyCode::Home => Some(ContactListMsg::First),
            KeyCode::End => Some(ContactListMsg::Last),
            KeyCode::PageUp => Some(ContactListMsg::PgUp),
            KeyCode::PageDown => Some(ContactListMsg::PgDown),
            KeyCode::Enter => Some(ContactListMsg::Activate),
            _ => None,
        }
    }

    /// Applies one message: a movement changes the selection and reports
    /// nothing; `Activate` changes nothing and reports the selected contact.
    pub fn update(&mut self, msg: ContactListMsg) -> (r: Option<ContactListOutput>)
        ensures
            final(self).filtered_contacts == old(self).filtered_contacts,
            final(self)@ == list_step(old(self)@, msg),
            list_output_view(r) == list_activated(old(self)@, msg),
    {
        let len = self.filtered_contacts.len();
        match msg {
            ContactListMsg::Next => {
                if len > 0 {
                    self.selected_index = if self.selected_index < len - 1 {
                        self.selected_index + 1
                    } else {
                        len - 1
                    };
                }
                None
            },
            ContactListMsg::Prev => {
                if self.selected_index > 0 {
                    self.selected_index -= 1;
                }
                None
            },
            ContactListMsg::First => {
                self.selected_index = 0;
                None
            },
            ContactListMsg::Last => {
                self.selected_index = if len == 0 {
                    0
                } else {
                    len - 1
                };
                None
            },
            ContactListMsg::PgUp => {
                if self.selected_index < PAGE {
                    self.selected_index = 0;
                } else {
                    self.selected_index -= PAGE;
                }
                None
            },
            ContactListMsg::PgDown => {
                if len > 0 {
                    self.selected_index = if len > PAGE && self.selected_index < len - PAGE {
                        self.selected_index + PAGE
                    } else {
                        len - 1
                    };
                }
                None
            },
            ContactListMsg::Activate => {
                match self.get_selected_contact() {
                    Some(contact) => Some(ContactListOutput::ContactActivated(contact)),
                    None => None,
                }
            },
        }
    }
}

impl Component for ContactList {
    type Msg = ContactListMsg;

    type Output = ContactListOutput;

    open spec fn well_formed(&self) -> bool {
        true
    }

    open spec fn message_of(&self, key: Key) -> Option<ContactListMsg> {
        list_key(key)
    }

    open spec fn steps_to(&self, msg: ContactListMsg, after: &Self, out: Option<ContactListOutput>) -> bool {
        &&& after.filtered_contacts == self.filtered_contacts
        &&& after@ == list_step(self@, msg)
        &&& list_output_view(out) == list_activated(self@, msg)
    }

    fn handle_key(&self, key: Key) -> Option<ContactListMsg> {
        self.handle_key(key)
    }

    fn update(&mut self, msg: ContactListMsg) -> Option<ContactListOutput> {
        self.update(msg)
    }
}

} // verus!
