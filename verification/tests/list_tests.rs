use rolodex::components::browse::{Browse, BrowseMsg, BrowseOutput};
use rolodex::components::contact_list::{ContactList, ContactListMsg, ContactListOutput, PAGE};
use rolodex::components::input::InputMsg;
use rolodex::key::{Key, KeyCode};
use rolodex::model::Contact;

fn contact(id: i64, name: &str) -> Contact {
    Contact { id, name: name.to_string(), company: None, phone: None, email: None }
}

fn many(n: i64) -> Vec<Contact> {
    (1..=n).map(|i| contact(i, &format!("Name {:02}", i))).collect()
}

fn plain(code: KeyCode) -> Key {
    Key { code, ctrl: false }
}

#[test]
fn new_list_selects_the_first() {
    let list = ContactList::new(&many(3));
    assert_eq!(list.selected_index, 0);
    assert_eq!(list.filtered_contacts, many(3));
    assert_eq!(list.get_selected_contact(), Some(contact(1, "Name 01")));
    assert_eq!(PAGE, 10);
}

#[test]
fn next_and_prev_stop_at_the_ends() {
    let mut list = ContactList::new(&many(3));
    assert_eq!(list.update(ContactListMsg::Prev), None);
    assert_eq!(list.selected_index, 0);
    list.update(ContactListMsg::Next);
    assert_eq!(list.selected_index, 1);
    list.update(ContactListMsg::Next);
    assert_eq!(list.selected_index, 2);
    list.update(ContactListMsg::Next);
    assert_eq!(list.selected_index, 2);
    list.update(ContactListMsg::Prev);
    assert_eq!(list.selected_index, 1);
}

#[test]
fn first_and_last() {
    let mut list = ContactList::new(&many(5));
    list.update(ContactListMsg::Last);
    assert_eq!(list.selected_index, 4);
    list.update(ContactListMsg::First);
    assert_eq!(list.selected_index, 0);
}

#[test]
fn pages_move_by_ten_and_stop_at_the_ends() {
    let mut list = ContactList::new(&many(25));
    list.update(ContactListMsg::PgDown);
    assert_eq!(list.selected_index, 10);
    list.update(ContactListMsg::PgDown);
    assert_eq!(list.selected_index, 20);
    list.update(ContactListMsg::PgDown);
    assert_eq!(list.selected_index, 24);
    list.update(ContactListMsg::PgUp);
    assert_eq!(list.selected_index, 14);
    list.update(ContactListMsg::PgUp);
    assert_eq!(list.selected_index, 4);
    list.update(ContactListMsg::PgUp);
    assert_eq!(list.selected_index, 0);
}

#[test]
fn page_down_on_a_short_list_goes_to_the_last() {
    let mut list = ContactList::new(&many(15));
    list.selected_index = 5;
    list.update(ContactListMsg::PgDown);
    assert_eq!(list.selected_index, 14);
    let mut short = ContactList::new(&many(4));
    short.update(ContactListMsg::PgDown);
    assert_eq!(short.selected_index, 3);
    let mut ten = ContactList::new(&many(10));
    ten.update(ContactListMsg::PgDown);
    assert_eq!(ten.selected_index, 9);
    let mut eleven = ContactList::new(&many(11));
    eleven.update(ContactListMsg::PgDown);
    assert_eq!(eleven.selected_index, 10);
}

#[test]
fn an_empty_list_takes_every_message() {
    let mut list = ContactList::new(&[]);
    for msg in [
        ContactListMsg::Next,
        ContactListMsg::Prev,
        ContactListMsg::First,
        ContactListMsg::Last,
        ContactListMsg::PgUp,
        ContactListMsg::PgDown,
        ContactListMsg::Activate,
    ] {
        assert_eq!(list.update(msg), None);
        assert_eq!(list.selected_index, 0);
    }
    assert_eq!(list.get_selected_contact(), None);
}

#[test]
fn selection_stays_on_the_list_whatever_comes() {
    let msgs = [
        ContactListMsg::PgDown,
        ContactListMsg::Next,
        ContactListMsg::Last,
        ContactListMsg::Next,
        ContactListMsg::PgUp,
        ContactListMsg::Prev,
        ContactListMsg::PgDown,
        ContactListMsg::PgDown,
        ContactListMsg::Prev,
        ContactListMsg::First,
        ContactListMsg::Prev,
        ContactListMsg::PgUp,
    ];
    for n in [1, 2, 9, 10, 11, 12, 30] {
        let mut list = ContactList::new(&many(n));
        for round in 0..3 {
            for (k, msg) in msgs.iter().enumerate() {
                if (k + round) % 3 != 0 {
                    list.update(*msg);
                }
                assert!(list.selected_index < n as usize);
            }
        }
    }
}

#[test]
fn activate_reports_the_selected_contact() {
    let mut list = ContactList::new(&many(3));
    list.update(ContactListMsg::Next);
    assert_eq!(
        list.update(ContactListMsg::Activate),
        Some(ContactListOutput::ContactActivated(contact(2, "Name 02")))
    );
    assert_eq!(list.selected_index, 1);
    list.selected_index = 7;
    assert_eq!(list.update(ContactListMsg::Activate), None);
    assert_eq!(list.get_selected_contact(), None);
}

#[test]
fn keys_of_a_list() {
    let list = ContactList::new(&many(3));
    assert_eq!(list.handle_key(plain(KeyCode::Down)), Some(ContactListMsg::Next));
    assert_eq!(list.handle_key(plain(KeyCode::Up)), Some(ContactListMsg::Prev));
    assert_eq!(list.handle_key(plain(KeyCode::Home)), Some(ContactListMsg::First));
    assert_eq!(list.handle_key(plain(KeyCode::End)), Some(ContactListMsg::Last));
    assert_eq!(list.handle_key(plain(KeyCode::PageUp)), Some(ContactListMsg::PgUp));
    assert_eq!(list.handle_key(plain(KeyCode::PageDown)), Some(ContactListMsg::PgDown));
    assert_eq!(list.handle_key(plain(KeyCode::Enter)), Some(ContactListMsg::Activate));
    assert_eq!(list.handle_key(plain(KeyCode::Char('a'))), None);
    assert_eq!(list.handle_key(plain(KeyCode::Esc)), None);
}

#[test]
fn browse_routes_keys() {
    let browse = Browse::new(&many(3));
    assert_eq!(
        browse.handle_key(plain(KeyCode::Down)),
        Some(BrowseMsg::List(ContactListMsg::Next))
    );
    assert_eq!(
        browse.handle_key(plain(KeyCode::Enter)),
        Some(BrowseMsg::List(ContactListMsg::Activate))
    );
    // Home and End belong to the list, not to the search input
    assert_eq!(
        browse.handle_key(plain(KeyCode::Home)),
        Some(BrowseMsg::List(ContactListMsg::First))
    );
    assert_eq!(
        browse.handle_key(plain(KeyCode::End)),
        Some(BrowseMsg::List(ContactListMsg::Last))
    );
    assert_eq!(
        browse.handle_key(plain(KeyCode::PageDown)),
        Some(BrowseMsg::List(ContactListMsg::PgDown))
    );
    assert_eq!(
        browse.handle_key(plain(KeyCode::Char('x'))),
        Some(BrowseMsg::Input(InputMsg::TypeChar('x')))
    );
    assert_eq!(
        browse.handle_key(plain(KeyCode::Backspace)),
        Some(BrowseMsg::Input(InputMsg::Backspace))
    );
    assert_eq!(browse.handle_key(Key::ctrl('l')), Some(BrowseMsg::Input(InputMsg::Clear)));
    assert_eq!(browse.handle_key(plain(KeyCode::Tab)), None);
    assert_eq!(browse.handle_key(plain(KeyCode::Esc)), None);
}

#[test]
fn browse_starts_with_all_and_an_empty_query() {
    let browse = Browse::new(&many(3));
    assert_eq!(browse.all_contacts, many(3));
    assert_eq!(browse.contact_list.filtered_contacts, many(3));
    assert_eq!(browse.contact_list.selected_index, 0);
    assert_eq!(browse.search.value(), "");
    assert_eq!(browse.search.label(), "Search");
}

#[test]
fn browse_filters_on_every_change_and_resets_the_selection() {
    let all = vec![contact(2, "Alice"), contact(1, "Bob"), contact(3, "Bobby")];
    let mut browse = Browse::new(&all);
    browse.update(BrowseMsg::List(ContactListMsg::Last));
    assert_eq!(browse.contact_list.selected_index, 2);
    assert_eq!(browse.update(BrowseMsg::Input(InputMsg::TypeChar('b'))), None);
    assert_eq!(browse.contact_list.selected_index, 0);
    let ids: Vec<i64> = browse.contact_list.filtered_contacts.iter().map(|c| c.id).collect();
    assert_eq!(ids.len(), 2);
    assert!(ids.contains(&1) && ids.contains(&3));
    browse.update(BrowseMsg::Input(InputMsg::TypeChar('y')));
    assert_eq!(browse.contact_list.filtered_contacts, vec![contact(3, "Bobby")]);
    browse.update(BrowseMsg::Input(InputMsg::Backspace));
    browse.update(BrowseMsg::Input(InputMsg::Backspace));
    assert_eq!(browse.contact_list.filtered_contacts, all);
    assert_eq!(browse.all_contacts, all);
}

#[test]
fn moving_the_cursor_does_not_refilter() {
    let all = many(5);
    let mut browse = Browse::new(&all);
    browse.update(BrowseMsg::Input(InputMsg::TypeChar('n')));
    browse.update(BrowseMsg::List(ContactListMsg::Next));
    assert_eq!(browse.contact_list.selected_index, 1);
    browse.update(BrowseMsg::Input(InputMsg::CursorLeft));
    assert_eq!(browse.contact_list.selected_index, 1);
    // nothing to delete at the end of the text: nothing changes
    browse.update(BrowseMsg::Input(InputMsg::CursorEnd));
    browse.update(BrowseMsg::Input(InputMsg::Delete));
    assert_eq!(browse.contact_list.selected_index, 1);
}

#[test]
fn browse_reports_the_activated_contact() {
    let all = vec![contact(2, "Alice"), contact(1, "Bob")];
    let mut browse = Browse::new(&all);
    browse.update(BrowseMsg::Input(InputMsg::TypeChar('b')));
    browse.update(BrowseMsg::Input(InputMsg::TypeChar('o')));
    assert_eq!(browse.contact_list.filtered_contacts, vec![contact(1, "Bob")]);
    assert_eq!(browse.contact_list.selected_index, 0);
    assert_eq!(
        browse.update(BrowseMsg::List(ContactListMsg::Activate)),
        Some(BrowseOutput::ContactActivated(contact(1, "Bob")))
    );
}

#[test]
fn new_contacts_are_shown_under_the_query_at_hand() {
    let mut browse = Browse::new(&[contact(2, "Alice"), contact(1, "Bob")]);
    browse.update(BrowseMsg::Input(InputMsg::TypeChar('a')));
    browse.update(BrowseMsg::Input(InputMsg::TypeChar('l')));
    assert_eq!(browse.contact_list.filtered_contacts, vec![contact(2, "Alice")]);
    browse.set_contacts(&[contact(4, "Alan"), contact(1, "Bob")]);
    assert_eq!(browse.all_contacts, vec![contact(4, "Alan"), contact(1, "Bob")]);
    assert_eq!(browse.contact_list.filtered_contacts, vec![contact(4, "Alan")]);
    assert_eq!(browse.contact_list.selected_index, 0);
    assert_eq!(browse.search.value(), "al");
    browse.filter_contacts("bob");
    assert_eq!(browse.contact_list.filtered_contacts, vec![contact(1, "Bob")]);
}
