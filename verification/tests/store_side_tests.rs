use rolodex::model::{valid_contacts, Contact};
use rolodex::search::SearchField;
use rolodex::seed::seed_contact;

fn record(name: &str, email: &str, phone: &str, company: &str) -> Contact {
    Contact {
        id: 0,
        name: name.to_string(),
        email: Some(email.to_string()),
        phone: Some(phone.to_string()),
        company: Some(company.to_string()),
    }
}

#[test]
fn test_import_contacts_json() {
    let read = vec![
        record("Import Test 1", "import1@test.com", "0455555555", "Import Corp 1"),
        record("Import Test 2", "import2@test.com", "0466666666", "Import Corp 2"),
    ];

    let contacts = valid_contacts(read);
    assert_eq!(contacts.len(), 2);
    assert_eq!(contacts[0].name, "Import Test 1");
    assert_eq!(contacts[1].name, "Import Test 2");
}

#[test]
fn test_import_invalid_contacts() {
    let read = vec![
        record("", "invalid@test.com", "0455555555", "Invalid Corp"),
        record("Valid Contact", "valid@test.com", "0466666666", "Valid Corp"),
    ];

    let contacts = valid_contacts(read);
    assert_eq!(contacts.len(), 1);
    assert_eq!(contacts[0].name, "Valid Contact");
}

#[test]
fn test_search_by_invalid_field() {
    let result = SearchField::parse("invalid_field");
    assert!(result.is_none());
}

#[test]
fn test_seed_contacts() {
    let names = ["calm-river", "bold-stone", "shy-cloud", "odd-lamp", "warm-field"];
    let contacts: Vec<Contact> = names
        .iter()
        .enumerate()
        .map(|(i, name)| seed_contact(name, "firm-name-0001", 1000 * i as u32))
        .collect();
    assert_eq!(contacts.len(), 5);

    for contact in contacts {
        assert!(!contact.name.is_empty());
        assert!(contact.email.is_some());
        assert!(contact.phone.is_some());
        assert!(contact.company.is_some());
    }
}
