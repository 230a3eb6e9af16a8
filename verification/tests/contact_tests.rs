use rolodex::model::{Contact, ValidationError};

fn sample(name: &str, company: &str, phone: &str, email: &str) -> Contact {
    Contact {
        id: 1,
        name: name.to_string(),
        company: Some(company.to_string()),
        phone: Some(phone.to_string()),
        email: Some(email.to_string()),
    }
}

#[test]
fn test_contact_default() {
    let contact = Contact::default();
    assert_eq!(contact.id, 0);
    assert_eq!(contact.name, "");
    assert_eq!(contact.company, None);
    assert_eq!(contact.phone, None);
    assert_eq!(contact.email, None);
}

#[test]
fn test_contact_creation() {
    let contact = Contact {
        id: 1,
        name: "John Doe".to_string(),
        company: Some("Acme Corp".to_string()),
        phone: Some("0412345678".to_string()),
        email: Some("john@acme.com".to_string()),
    };

    assert_eq!(contact.id, 1);
    assert_eq!(contact.name, "John Doe");
    assert_eq!(contact.company, Some("Acme Corp".to_string()));
    assert_eq!(contact.phone, Some("0412345678".to_string()));
    assert_eq!(contact.email, Some("john@acme.com".to_string()));
}

#[test]
fn test_contact_clone() {
    let contact1 = Contact {
        id: 1,
        name: "Jane Smith".to_string(),
        company: Some("Tech Inc".to_string()),
        phone: Some("0487654321".to_string()),
        email: Some("jane@tech.com".to_string()),
    };

    let contact2 = contact1.clone();
    assert_eq!(contact1, contact2);
}

#[test]
fn test_contact_validation_valid() {
    let contact = sample("John Doe", "Acme Corp", "0412345678", "john@acme.com");
    assert!(contact.validate().is_ok());
}

#[test]
fn test_contact_validation_empty_name() {
    let contact = sample("", "Acme Corp", "0412345678", "john@acme.com");
    assert!(matches!(contact.validate(), Err(ValidationError::EmptyName)));
}

#[test]
fn test_contact_validation_invalid_email() {
    let contact = sample("John Doe", "Acme Corp", "0412345678", "invalid-email");
    assert!(matches!(contact.validate(), Err(ValidationError::InvalidEmail(_))));
}

#[test]
fn test_contact_validation_invalid_phone() {
    let contact = sample("John Doe", "Acme Corp", "123", "john@acme.com");
    assert!(matches!(contact.validate(), Err(ValidationError::InvalidPhone(_))));
}

#[test]
fn test_contact_validation_optional_fields() {
    let contact = Contact {
        id: 1,
        name: "John Doe".to_string(),
        company: None,
        phone: None,
        email: None,
    };

    assert!(contact.validate().is_ok());
}

#[test]
fn test_email_validation() {
    assert!(Contact::is_valid_email("test@example.com"));
    assert!(Contact::is_valid_email("user.name@domain.co.uk"));
    assert!(!Contact::is_valid_email("invalid"));
    assert!(!Contact::is_valid_email("@domain.com"));
    assert!(!Contact::is_valid_email("user@"));
    assert!(!Contact::is_valid_email(""));
}

#[test]
fn test_phone_validation() {
    assert!(Contact::is_valid_phone("0412345678"));
    assert!(Contact::is_valid_phone("+61 412 345 678"));
    assert!(Contact::is_valid_phone("(04) 1234-5678"));
    assert!(!Contact::is_valid_phone("123"));
    assert!(!Contact::is_valid_phone(""));
    assert!(!Contact::is_valid_phone("abc"));
}

#[test]
fn validation_names_the_first_fault_and_carries_the_text() {
    let mut contact = sample("   ", "Acme", "123", "bad");
    assert!(matches!(contact.validate(), Err(ValidationError::EmptyName)));
    contact.name = "Ann".to_string();
    match contact.validate() {
        Err(ValidationError::InvalidEmail(e)) => assert_eq!(e, "bad"),
        other => panic!("unexpected {:?}", other),
    }
    contact.email = Some("  ".to_string());
    match contact.validate() {
        Err(ValidationError::InvalidPhone(p)) => assert_eq!(p, "123"),
        other => panic!("unexpected {:?}", other),
    }
    contact.phone = Some("".to_string());
    assert!(contact.validate().is_ok());
}

#[test]
fn validation_messages() {
    assert_eq!(ValidationError::EmptyName.message(), "Name cannot be empty");
    assert_eq!(
        ValidationError::InvalidEmail("x@y".to_string()).message(),
        "Invalid email format: x@y"
    );
    assert_eq!(
        ValidationError::InvalidPhone("12".to_string()).message(),
        "Invalid phone format: 12"
    );
}

#[test]
fn email_edges() {
    // six bytes, '@' second, '.' two places after it and not last
    assert!(Contact::is_valid_email("a@bc.d"));
    // five bytes is too short
    assert!(!Contact::is_valid_email("a@b.c"));
    // the dot directly after the '@'
    assert!(!Contact::is_valid_email("abc@.de"));
    // the last dot is the last character
    assert!(!Contact::is_valid_email("ab@cde."));
    // the last dot stands before the '@'
    assert!(!Contact::is_valid_email("a.bcd@efg"));
    // surrounding whitespace is ignored
    assert!(Contact::is_valid_email("  test@example.com \n"));
    // the length counts bytes: one two-byte letter makes six
    assert!(Contact::is_valid_email("é@b.c"));
}

#[test]
fn phone_edges() {
    assert!(Contact::is_valid_phone("12345678"));
    assert!(!Contact::is_valid_phone("1234567"));
    assert!(Contact::is_valid_phone("123456789012345"));
    assert!(!Contact::is_valid_phone("1234567890123456"));
}
