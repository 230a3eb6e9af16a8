use crate::components::component::Component;
use crate::components::contact_list::{
    list_activated, list_key, list_step, ContactList, ContactListMsg, ContactListOutput,
    ContactListView,
};
use crate::components::input::{
    input_changes, input_key, input_step, Input, InputMode, InputMsg, InputOutput, InputView,
};
use crate::filter::{filter, filtered, shows_matches};
use crate::key::{Key, KeyCode};
use crate::model::{clone_contacts, views, Contact, ContactView};
use vstd::prelude::*;

verus! {

/// What the browse screen can be told: a message for its list, or one for
/// its search input.
#[derive(Debug, Clone, Copy, PartialEq, Eq)]
pub enum BrowseMsg {
    List(ContactListMsg),
    Input(InputMsg),
}

/// What the browse screen reports to its parent.
#[derive(Debug, PartialEq, Eq)]
pub enum BrowseOutput {
    ContactActivated(Contact),
}

/// The browse screen: every contact there is, the search input, and the list
/// of the contacts that the search shows.
#[derive(Debug)]
pub struct Browse {
    pub search: Input,
    pub contact_list: ContactList,
    pub all_contacts: Vec<Contact>,
}

/// The state of the browse screen as plain mathematical values.
pub struct BrowseView {
    pub search: InputView,
    pub list: ContactListView,
    pub all: Seq<ContactView>,
}

impl View for Browse {
    type V = BrowseView;

    open spec fn view(&self) -> BrowseView {
        BrowseView {
            search: self.search@,
            list: self.contact_list@,
            all: views(self.all_contacts@),
        }
    }
}

/// The search input as it is at the start: empty, and holding at most forty
/// characters.
pub open spec fn empty_search() -> InputView {
    InputView {
        label: "Search"@,
        label_width: 10,
        value: Seq::empty(),
        cursor: 0,
        focused: false,
        mode: InputMode::Regular,
        max_len: 40,
    }
}

/// Whether a key belongs to the list rather than to the search input.
pub open spec fn is_list_key(code: KeyCode) -> bool {
    code == KeyCode::Home || code == KeyCode::End || code == KeyCode::PageUp || code
        == KeyCode::PageDown || code == KeyCode::Up || code == KeyCode::Down || code
        == KeyCode::Enter
}

/// The message that a key stands for on the browse screen, if any: the keys
/// that move or confirm go to the list, every other key to the search input.
pub open spec fn browse_key(key: Key) -> Option<BrowseMsg> {
    if is_list_key(key.code) {
        match list_key(key) {
            Some(m) => Some(BrowseMsg::List(m)),
            None => None,
        }
    } else {
        match input_key(key) {
            Some(m) => Some(BrowseMsg::Input(m)),
            None => None,
        }
    }
}

/// The list that shows `all` under `query`, with its first entry selected.
pub open spec fn fresh_list(all: Seq<ContactView>, query: Seq<char>) -> ContactListView {
    ContactListView { filtered: filtered(all, query), selected: 0 }
}

/// The state of the browse screen after a message. A message for the list
/// moves the selection. A message for the search input edits the query, and
/// where that changes the text, the list is made anew from all contacts.
pub open spec fn browse_step(s: BrowseView, msg: BrowseMsg) -> BrowseView {
    match msg {
        BrowseMsg::List(m) => BrowseView { list: list_step(s.list, m), ..s },
        BrowseMsg::Input(m) => {
            let search = input_step(s.search, m);
            if input_changes(s.search, m) {
                BrowseView { search, list: fresh_list(s.all, search.value), ..s }
            } else {
                BrowseView { search, ..s }
            }
        },
    }
}

/// The contact that a message activates, if any.
pub open spec fn browse_activated(s: BrowseView, msg: BrowseMsg) -> Option<ContactView> {
    match msg {
        BrowseMsg::List(m) => list_activated(s.list, m),
        BrowseMsg::Input(_) => None,
    }
}

/// The view of what the browse screen reports.
pub open spec fn browse_output_view(o: Option<BrowseOutput>) -> Option<ContactView> {
    match o {
        Some(BrowseOutput::ContactActivated(c)) => Some(c@),
        None => None,
    }
}

/// The list shows what the query shows of all contacts.
pub open spec fn browse_in_sync(s: BrowseView) -> bool {
    s.list.filtered == filtered(s.all, s.search.value)
}

/// Once the list shows what the query shows, no message makes it show
/// anything else.
pub proof fn lemma_browse_stays_in_sync(s: BrowseView, msg: BrowseMsg)
    requires
        browse_in_sync(s),
    ensures
        browse_in_sync(browse_step(s, msg)),
{
    match msg {
        BrowseMsg::List(m) => {},
        BrowseMsg::Input(m) => {
            if !input_changes(s.search, m) {
                assert(input_step(s.search, m).value == s.search.value);
            }
        },
    }
}

impl Browse {
    /// The browse screen is well-formed when its search input is.
    pub open spec fn wf(&self) -> bool {
        self.search.wf()
    }

    /// A browse screen over `contacts`, with an empty query, showing them all.
    pub fn new(contacts: &[Contact]) -> (r: Self)
        ensures
            r.wf(),
            r.all_contacts@ == contacts@,
            r.contact_list.filtered_contacts@ == contacts@,
            r.contact_list.selected_index == 0,
            r@.search == empty_search(),
    {
        proof {
            reveal_strlit("");
            assert(""@ =~= Seq::<char>::empty());
        }
        Browse {
            search: Input::new("Search", "", 10, InputMode::Regular, 40),
            contact_list: ContactList::new(contacts),
            all_contacts: clone_contacts(contacts),
        }
    }

    /// Shows what `query` shows of all contacts, and selects the first entry.
    pub fn filter_contacts(&mut self, query: &str)
        ensures
            final(self).search == old(self).search,
            final(self).all_contacts == old(self).all_contacts,
            final(self)@.list == fresh_list(old(self)@.all, query@),
            shows_matches(
                old(self).all_contacts@,
                query@,
                final(self).contact_list.filtered_contacts@,
            ),
    {
        self.contact_list.filtered_contacts = filter(self.all_contacts.as_slice(), query);
        self.contact_list.selected_index = 0;
    }

    /// Replaces all contacts and shows what the current query shows of the
    /// new ones.
    pub fn set_contacts(&mut self, contacts: &[Contact])
        ensures
            final(self).search == old(self).search,
            final(self).all_contacts@ == contacts@,
            final(self)@.list == fresh_list(views(contacts@), old(self)@.search.value),
            shows_matches(
                contacts@,
                old(self)@.search.value,
                final(self).contact_list.filtered_contacts@,
            ),
    {
        let query = self.search.value().to_owned();
        self.all_contacts = clone_contacts(contacts);
        self.filter_contacts(query.as_str());
    }

    /// The message that `key` stands for, if any.
    pub fn handle_key(&self, key: Key) -> (r: Option<BrowseMsg>)
        ensures
            r == browse_key(key),
    {
        match key.code {
            KeyCode::Home
            | KeyCode::End
            | KeyCode::PageUp
            | KeyCode::PageDown
            | KeyCode::Up
            | KeyCode::Down
            | KeyCode::Enter => match self.contact_list.handle_key(key) {
                Some(m) => Some(BrowseMsg::List(m)),
                None => None,
            },
            _ => match self.search.handle_key(key) {
                Some(m) => Some(BrowseMsg::Input(m)),
                None => None,
            },
        }
    }

    /// Applies one message, and reports the contact that it activated, if it
    /// activated one.
    pub fn update(&mut self, msg: BrowseMsg) -> (r: Option<BrowseOutput>)
        requires
            old(self).wf(),
        ensures
            final(self).wf(),
            final(self).all_contacts == old(self).all_contacts,
            final(self)@ == browse_step(old(self)@, msg),
            browse_output_view(r) == browse_activated(old(self)@, msg),
            msg matches BrowseMsg::Input(m) && input_changes(old(self)@.search, m) ==> shows_matches(
                final(self).all_contacts@,
                final(self)@.search.value,
                final(self).contact_list.filtered_contacts@,
            ),
    {
        match msg {
            BrowseMsg::List(list_msg) => {
                match self.contact_list.update(list_msg) {
                    Some(ContactListOutput::ContactActivated(contact)) => Some(
                        BrowseOutput::ContactActivated(contact),
                    ),
                    None => None,
                }
            },
            BrowseMsg::Input(input_msg) => {
                match self.search.update(input_msg) {
                    Some(InputOutput::Changed(value)) => {
                        self.filter_contacts(value.as_str());
                    },
                    None => {},
                }
                None
            },
        }
    }
}

impl Component for Browse {
    type Msg = BrowseMsg;

    type Output = BrowseOutput;

    open spec fn well_formed(&self) -> bool {
        self.wf()
    }

    open spec fn message_of(&self, key: Key) -> Option<BrowseMsg> {
        browse_key(key)
    }

    open spec fn steps_to(&self, msg: BrowseMsg, after: &Self, out: Option<BrowseOutput>) -> bool {
        &&& after.all_contacts == self.all_contacts
        &&& after@ == browse_step(self@, msg)
        &&& browse_output_view(out) == browse_activated(self@, msg)
    }

    fn handle_key(&self, key: Key) -> Option<BrowseMsg> {
        self.handle_key(key)
    }

    fn update(&mut self, msg: BrowseMsg) -> Option<BrowseOutput> {
        self.update(msg)
    }
}

} // verus!
