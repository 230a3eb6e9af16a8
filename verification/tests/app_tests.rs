use rolodex::components::app::{App, AppMsg, AppOutput, StoreReply, StoreRequest};
use rolodex::components::browse::BrowseMsg;
use rolodex::components::contact_list::ContactListMsg;
use rolodex::components::delete_confirmation::DeleteMsg;
use rolodex::components::error_dialog::ErrorMsg;
use rolodex::components::form::FormMsg;
use rolodex::components::input::InputMsg;
use rolodex::components::status_bar::StatusBarMsg;
use rolodex::key::{Key, KeyCode};
use rolodex::mode::AppMode;
use rolodex::model::Contact;

/// A store kept in memory, which records what was asked of it.
struct Store {
    contacts: Vec<Contact>,
    next_id: i64,
    created: Vec<Contact>,
    updated: Vec<i64>,
    deleted: Vec<i64>,
    loads: usize,
    fail_with: Option<String>,
}

impl Store {
    fn with(contacts: Vec<Contact>) -> Store {
        let next_id = contacts.iter().map(|c| c.id).max().unwrap_or(0) + 1;
        Store {
            contacts,
            next_id,
            created: vec![],
            updated: vec![],
            deleted: vec![],
            loads: 0,
            fail_with: None,
        }
    }

    fn load_all(&self) -> Vec<Contact> {
        let mut all = self.contacts.clone();
        all.sort_by(|a, b| a.name.cmp(&b.name));
        all
    }

    fn perform(&mut self, request: StoreRequest) -> StoreReply {
        if let Some(reason) = &self.fail_with {
            return StoreReply::Failed(reason.clone());
        }
        match request {
            StoreRequest::Create(mut contact) => {
                contact.id = self.next_id;
                self.next_id += 1;
                self.created.push(contact.clone());
                self.contacts.push(contact);
                StoreReply::Done
            }
            StoreRequest::Update(id, contact) => {
                self.updated.push(id);
                for c in self.contacts.iter_mut() {
                    if c.id == id {
                        *c = Contact { id, ..contact.clone() };
                    }
                }
                StoreReply::Done
            }
            StoreRequest::Delete(id) => {
                self.deleted.push(id);
                self.contacts.retain(|c| c.id != id);
                StoreReply::Done
            }
            StoreRequest::LoadAll => {
                self.loads += 1;
                StoreReply::Loaded(self.load_all())
            }
        }
    }
}

fn run(app: &mut App, store: &mut Store, msg: AppMsg) {
    let mut pending = app.dispatch(msg);
    let mut rounds = 0;
    while let Some(request) = pending {
        rounds += 1;
        assert!(rounds < 10, "the store is asked again and again");
        let reply = store.perform(request);
        pending = app.dispatch(AppMsg::Store(reply));
    }
}

fn press(app: &mut App, store: &mut Store, key: Key) {
    if let Some(msg) = app.handle_key(key) {
        run(app, store, msg);
    }
}

fn plain(code: KeyCode) -> Key {
    Key { code, ctrl: false }
}

fn type_text(app: &mut App, store: &mut Store, text: &str) {
    for c in text.chars() {
        press(app, store, plain(KeyCode::Char(c)));
    }
}

fn contact(id: i64, name: &str) -> Contact {
    Contact { id, name: name.to_string(), company: None, phone: None, email: None }
}

fn bob_and_alice() -> (App, Store) {
    let store = Store::with(vec![contact(1, "Bob"), contact(2, "Alice")]);
    let app = App::new(&store.load_all());
    (app, store)
}

fn create_test_app() -> App {
    App::new(&[])
}

fn test_user() -> Contact {
    Contact {
        id: 1,
        name: "Test User".to_string(),
        email: Some("test@example.com".to_string()),
        phone: Some("0412345678".to_string()),
        company: Some("Test Corp".to_string()),
    }
}

#[test]
fn test_app_initialization() {
    let app = create_test_app();

    assert_eq!(app.mode, AppMode::Browse);
    assert!(!app.should_quit);
    assert!(app.selected_contact.is_none());
}

#[test]
fn test_app_quit_message() {
    let mut app = create_test_app();

    let result = app.update(AppMsg::Quit);
    assert!(result.is_none());
    assert!(app.should_quit);
    assert!(app.selected_contact.is_none());
}

#[test]
fn test_app_add_contact_mode() {
    let mut app = create_test_app();

    let result = app.update(AppMsg::AddContact);
    assert!(result.is_none());
    assert_eq!(app.mode, AppMode::ContactForm);
}

#[test]
fn test_app_edit_contact_mode() {
    let mut app = create_test_app();

    let contact = test_user();

    app.selected_contact = Some(contact.clone());

    let result = app.update(AppMsg::EditContact(contact));
    assert!(result.is_none());
    assert_eq!(app.mode, AppMode::ContactForm);
}

#[test]
fn test_app_confirm_delete_mode() {
    let mut app = create_test_app();

    let contact = test_user();

    let result = app.update(AppMsg::ConfirmDelete(contact));
    assert!(result.is_none());
    assert_eq!(app.mode, AppMode::Delete);
}

#[test]
fn test_app_show_error_mode() {
    let mut app = create_test_app();

    let error_message = "Test error message".to_string();
    let result = app.update(AppMsg::ShowError(error_message));
    assert!(result.is_none());
    assert_eq!(app.mode, AppMode::Error("Test error message".to_string()));
}

#[test]
fn app_starts_on_the_first_contact() {
    let (app, _store) = bob_and_alice();
    assert_eq!(app.browse.all_contacts, vec![contact(2, "Alice"), contact(1, "Bob")]);
    assert_eq!(app.browse.contact_list.filtered_contacts, app.browse.all_contacts);
    assert_eq!(app.selected_contact, Some(contact(2, "Alice")));
    assert_eq!(app.status_bar.get_counts_text(), "Contacts: 2/2");
    assert_eq!(app.error_dialog.message(), "");
    assert_eq!(app.contact_form.contact(), &Contact::default());
}

#[test]
fn search_then_activate_yields_the_contact() {
    let (mut app, mut store) = bob_and_alice();
    type_text(&mut app, &mut store, "bo");
    assert_eq!(app.browse.contact_list.filtered_contacts, vec![contact(1, "Bob")]);
    assert_eq!(app.browse.contact_list.selected_index, 0);
    assert_eq!(app.status_bar.get_counts_text(), "Contacts: 1/2");
    assert!(!app.should_quit);
    press(&mut app, &mut store, plain(KeyCode::Enter));
    assert!(app.should_quit);
    assert_eq!(app.selected_contact, Some(contact(1, "Bob")));
    assert_eq!(store.loads, 0);
}

#[test]
fn plain_quit_yields_nothing() {
    let (mut app, mut store) = bob_and_alice();
    press(&mut app, &mut store, Key::ctrl('q'));
    assert!(app.should_quit);
    assert_eq!(app.selected_contact, None);
}

#[test]
fn activate_on_an_empty_list_does_nothing() {
    let (mut app, mut store) = bob_and_alice();
    type_text(&mut app, &mut store, "zzz");
    assert!(app.browse.contact_list.filtered_contacts.is_empty());
    assert_eq!(app.selected_contact, None);
    press(&mut app, &mut store, plain(KeyCode::Enter));
    assert!(!app.should_quit);
    assert_eq!(app.selected_contact, None);
    // with nothing selected, edit and delete stand for nothing
    assert!(app.handle_key(Key::ctrl('e')).is_none());
    assert!(app.handle_key(Key::ctrl('d')).is_none());
    assert_eq!(app.mode, AppMode::Browse);
}

#[test]
fn the_selection_follows_the_list() {
    let (mut app, mut store) = bob_and_alice();
    press(&mut app, &mut store, plain(KeyCode::Down));
    assert_eq!(app.selected_contact, Some(contact(1, "Bob")));
    press(&mut app, &mut store, plain(KeyCode::Up));
    assert_eq!(app.selected_contact, Some(contact(2, "Alice")));
    press(&mut app, &mut store, plain(KeyCode::End));
    assert_eq!(app.selected_contact, Some(contact(1, "Bob")));
}

#[test]
fn delete_scenario() {
    let (mut app, mut store) = bob_and_alice();
    type_text(&mut app, &mut store, "al");
    assert_eq!(app.selected_contact, Some(contact(2, "Alice")));
    press(&mut app, &mut store, Key::ctrl('d'));
    assert_eq!(app.mode, AppMode::Delete);
    assert_eq!(app.delete_confirmation.contact(), &contact(2, "Alice"));
    assert!(store.deleted.is_empty());
    press(&mut app, &mut store, plain(KeyCode::Char('y')));
    assert_eq!(store.deleted, vec![2]);
    assert_eq!(store.loads, 1);
    assert_eq!(app.mode, AppMode::Browse);
    assert_eq!(app.browse.all_contacts, vec![contact(1, "Bob")]);
    // the query is still "al", and Bob does not match it
    assert_eq!(app.browse.search.value(), "al");
    assert!(app.browse.contact_list.filtered_contacts.is_empty());
    assert_eq!(app.selected_contact, None);
    assert_eq!(app.status_bar.get_counts_text(), "Contacts: 0/1");
}

#[test]
fn delete_can_be_called_off() {
    for code in [KeyCode::Char('n'), KeyCode::Esc] {
        let (mut app, mut store) = bob_and_alice();
        press(&mut app, &mut store, Key::ctrl('d'));
        assert_eq!(app.mode, AppMode::Delete);
        press(&mut app, &mut store, plain(KeyCode::Char('x')));
        assert_eq!(app.mode, AppMode::Delete);
        press(&mut app, &mut store, plain(code));
        assert_eq!(app.mode, AppMode::Browse);
        assert!(store.deleted.is_empty());
        assert_eq!(store.loads, 0);
        assert_eq!(app.browse.all_contacts.len(), 2);
    }
}

#[test]
fn error_scenario() {
    let (mut app, mut store) = bob_and_alice();
    store.fail_with = Some("disk full".to_string());
    press(&mut app, &mut store, Key::ctrl('a'));
    assert_eq!(app.mode, AppMode::ContactForm);
    type_text(&mut app, &mut store, "Zed");
    press(&mut app, &mut store, plain(KeyCode::Enter));
    assert_eq!(app.mode, AppMode::Error("disk full".to_string()));
    assert_eq!(app.error_dialog.message(), "disk full");
    assert_eq!(app.browse.all_contacts, vec![contact(2, "Alice"), contact(1, "Bob")]);
    assert_eq!(app.browse.contact_list.filtered_contacts, app.browse.all_contacts);
    assert_eq!(app.status_bar.get_help_text(), "Esc: Dismiss");
    // only Esc dismisses
    press(&mut app, &mut store, plain(KeyCode::Enter));
    assert_eq!(app.mode, AppMode::Error("disk full".to_string()));
    press(&mut app, &mut store, plain(KeyCode::Esc));
    assert_eq!(app.mode, AppMode::Browse);
    assert_eq!(app.error_dialog.message(), "");
    assert!(store.created.is_empty());
}

#[test]
fn a_failed_delete_leaves_the_contacts() {
    let (mut app, mut store) = bob_and_alice();
    store.fail_with = Some("locked".to_string());
    press(&mut app, &mut store, Key::ctrl('d'));
    press(&mut app, &mut store, plain(KeyCode::Char('y')));
    assert_eq!(app.mode, AppMode::Error("locked".to_string()));
    assert_eq!(app.browse.all_contacts.len(), 2);
    assert_eq!(store.loads, 0);
}

#[test]
fn add_creates_and_reloads() {
    let (mut app, mut store) = bob_and_alice();
    type_text(&mut app, &mut store, "a");
    press(&mut app, &mut store, Key::ctrl('a'));
    assert_eq!(app.contact_form.editing_id(), None);
    type_text(&mut app, &mut store, "Aaron");
    press(&mut app, &mut store, plain(KeyCode::Tab));
    type_text(&mut app, &mut store, "Acme");
    press(&mut app, &mut store, plain(KeyCode::Enter));
    assert_eq!(app.mode, AppMode::Browse);
    assert_eq!(store.created.len(), 1);
    assert_eq!(store.created[0].name, "Aaron");
    assert_eq!(store.created[0].company, Some("Acme".to_string()));
    assert!(store.updated.is_empty());
    assert_eq!(store.loads, 1);
    let names: Vec<&str> = app.browse.all_contacts.iter().map(|c| c.name.as_str()).collect();
    assert_eq!(names, vec!["Aaron", "Alice", "Bob"]);
    // the query "a" is applied to the new contacts
    let shown: Vec<&str> =
        app.browse.contact_list.filtered_contacts.iter().map(|c| c.name.as_str()).collect();
    assert_eq!(shown.len(), 2);
    assert!(shown.contains(&"Aaron") && shown.contains(&"Alice"));
    assert_eq!(app.browse.contact_list.selected_index, 0);
    assert_eq!(app.status_bar.get_counts_text(), "Contacts: 2/3");
}

#[test]
fn edit_updates_under_the_id() {
    let (mut app, mut store) = bob_and_alice();
    press(&mut app, &mut store, plain(KeyCode::Down));
    press(&mut app, &mut store, Key::ctrl('e'));
    assert_eq!(app.mode, AppMode::ContactForm);
    assert_eq!(app.contact_form.editing_id(), Some(1));
    assert_eq!(app.contact_form.contact(), &contact(1, "Bob"));
    type_text(&mut app, &mut store, "by");
    press(&mut app, &mut store, plain(KeyCode::Enter));
    assert_eq!(store.updated, vec![1]);
    assert!(store.created.is_empty());
    assert_eq!(app.mode, AppMode::Browse);
    assert_eq!(app.browse.all_contacts, vec![contact(2, "Alice"), contact(1, "Bobby")]);
}

#[test]
fn cancelled_form_changes_nothing() {
    let (mut app, mut store) = bob_and_alice();
    press(&mut app, &mut store, Key::ctrl('e'));
    type_text(&mut app, &mut store, "xx");
    press(&mut app, &mut store, plain(KeyCode::Esc));
    assert_eq!(app.mode, AppMode::Browse);
    assert_eq!(store.loads, 0);
    assert!(store.updated.is_empty());
    assert_eq!(app.browse.all_contacts, vec![contact(2, "Alice"), contact(1, "Bob")]);
    // the next form starts afresh
    press(&mut app, &mut store, Key::ctrl('a'));
    assert_eq!(app.contact_form.contact(), &Contact::default());
}

#[test]
fn global_keys_come_first_in_every_mode() {
    let (mut app, mut store) = bob_and_alice();
    press(&mut app, &mut store, Key::ctrl('a'));
    assert_eq!(app.mode, AppMode::ContactForm);
    // in the form, Control with d still opens the delete dialog
    press(&mut app, &mut store, Key::ctrl('d'));
    assert_eq!(app.mode, AppMode::Delete);
    press(&mut app, &mut store, Key::ctrl('q'));
    assert!(app.should_quit);
    // without Control the same letters are text
    let (mut app, mut store) = bob_and_alice();
    press(&mut app, &mut store, plain(KeyCode::Char('q')));
    assert!(!app.should_quit);
    assert_eq!(app.browse.search.value(), "q");
}

#[test]
fn keys_go_to_the_component_of_the_mode() {
    let (mut app, _store) = bob_and_alice();
    assert!(matches!(
        app.handle_key(plain(KeyCode::Down)),
        Some(AppMsg::Browse(BrowseMsg::List(ContactListMsg::Next)))
    ));
    assert!(matches!(
        app.handle_key(plain(KeyCode::Char('y'))),
        Some(AppMsg::Browse(BrowseMsg::Input(InputMsg::TypeChar('y'))))
    ));
    app.update(AppMsg::AddContact);
    assert!(matches!(app.handle_key(plain(KeyCode::Tab)), Some(AppMsg::Form(FormMsg::Next))));
    assert!(app.handle_key(plain(KeyCode::Down)).is_none());
    app.update(AppMsg::ConfirmDelete(contact(1, "Bob")));
    assert!(matches!(
        app.handle_key(plain(KeyCode::Char('y'))),
        Some(AppMsg::DeleteDialog(DeleteMsg::Confirm))
    ));
    assert!(app.handle_key(plain(KeyCode::Tab)).is_none());
    app.update(AppMsg::ShowError("x".to_string()));
    assert!(matches!(
        app.handle_key(plain(KeyCode::Esc)),
        Some(AppMsg::ErrorDialog(ErrorMsg::Dismiss))
    ));
    assert!(app.handle_key(plain(KeyCode::Char('y'))).is_none());
}

#[test]
fn update_hands_out_requests_and_messages() {
    let (mut app, _store) = bob_and_alice();
    app.update(AppMsg::AddContact);
    app.update(AppMsg::Form(FormMsg::Input(InputMsg::TypeChar('Z'))));
    match app.update(AppMsg::Form(FormMsg::Submit)) {
        Some(AppOutput::Store(StoreRequest::Create(c))) => assert_eq!(c, contact(0, "Z")),
        other => panic!("unexpected {:?}", other),
    }
    assert_eq!(app.mode, AppMode::ContactForm);
    match app.update(AppMsg::Store(StoreReply::Done)) {
        Some(AppOutput::Store(StoreRequest::LoadAll)) => {}
        other => panic!("unexpected {:?}", other),
    }
    match app.update(AppMsg::Store(StoreReply::Failed("no".to_string()))) {
        Some(AppOutput::Dispatch(AppMsg::ShowError(e))) => assert_eq!(e, "no"),
        other => panic!("unexpected {:?}", other),
    }
    assert_eq!(app.mode, AppMode::ContactForm);
    assert!(app.update(AppMsg::Store(StoreReply::Loaded(vec![contact(5, "Zed")]))).is_none());
    assert_eq!(app.mode, AppMode::Browse);
    assert_eq!(app.selected_contact, Some(contact(5, "Zed")));
    app.update(AppMsg::EditContact(contact(5, "Zed")));
    match app.update(AppMsg::Form(FormMsg::Submit)) {
        Some(AppOutput::Store(StoreRequest::Update(5, c))) => assert_eq!(c, contact(5, "Zed")),
        other => panic!("unexpected {:?}", other),
    }
    app.update(AppMsg::ConfirmDelete(contact(5, "Zed")));
    match app.update(AppMsg::DeleteDialog(DeleteMsg::Confirm)) {
        Some(AppOutput::Store(StoreRequest::Delete(5))) => {}
        other => panic!("unexpected {:?}", other),
    }
    assert!(app.update(AppMsg::StatusBar(StatusBarMsg::UpdateMode(AppMode::Delete))).is_none());
    assert_eq!(app.mode, AppMode::Delete);
}

#[test]
fn a_new_error_replaces_the_old() {
    let mut app = create_test_app();
    app.update(AppMsg::ShowError("first".to_string()));
    app.update(AppMsg::ShowError("second".to_string()));
    assert_eq!(app.mode, AppMode::Error("second".to_string()));
    assert_eq!(app.error_dialog.message(), "second");
    assert!(app.dispatch(AppMsg::Store(StoreReply::Failed("third".to_string()))).is_none());
    assert_eq!(app.error_dialog.message(), "third");
}
