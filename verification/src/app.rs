pub mod message;
pub mod state;
pub mod update;

use crate::filter::{filter, filtered, shows_matches};
use crate::model::{clone_contacts, views, Contact};
use vstd::prelude::*;

verus! {

/// The browse state in its plainest form, for a caller that keeps the
/// contacts itself: the query as typed, the contacts it shows, and the place
/// of the selected one.
#[derive(Debug)]
pub struct BrowseState {
    pub search_input: String,
    pub filtered_contacts: Vec<Contact>,
    pub selected_index: usize,
}

impl Default for BrowseState {
    fn default() -> (r: Self)
        ensures
            r.search_input@ == Seq::<char>::empty(),
            r.filtered_contacts@ == Seq::<Contact>::empty(),
            r.selected_index == 0,
    {
        BrowseState { search_input: String::new(), filtered_contacts: Vec::new(), selected_index: 0 }
    }
}

impl BrowseState {
    /// A state with an empty query, showing all of `contacts`, the first one
    /// selected.
    pub fn new(contacts: &[Contact]) -> (r: Self)
        ensures
            r.search_input@ == Seq::<char>::empty(),
            r.filtered_contacts@ == contacts@,
            r.selected_index == 0,
    {
        BrowseState {
            search_input: String::new(),
            filtered_contacts: clone_contacts(contacts),
            selected_index: 0,
        }
    }

    /// Shows what the query shows of `all_contacts`, and selects the first
    /// entry. The query itself stays as it is.
    pub fn update_filter(&mut self, all_contacts: &[Contact])
        ensures
            final(self).search_input == old(self).search_input,
            final(self).selected_index == 0,
            views(final(self).filtered_contacts@) == filtered(
                views(all_contacts@),
                old(self).search_input@,
            ),
            shows_matches(all_contacts@, old(self).search_input@, final(self).filtered_contacts@),
    {
        self.filtered_contacts = filter(all_contacts, self.search_input.as_str());
        self.selected_index = 0;
    }
}

} // verus!
