use rolodex::duplicates::{
    add_distinct, are_potential_duplicates, calculate_name_similarity, contains_word,
    count_shared, find_potential_duplicates, space_marks, split_by, split_words, Similarity,
};
use rolodex::model::Contact;

fn contact(name: &str, email: &str, phone: &str, company: &str) -> Contact {
    Contact {
        id: 0,
        name: name.to_string(),
        email: Some(email.to_string()),
        phone: Some(phone.to_string()),
        company: Some(company.to_string()),
    }
}

fn named(name: &str) -> Contact {
    Contact { id: 0, name: name.to_string(), email: None, phone: None, company: None }
}

#[test]
fn test_find_potential_duplicates() {
    // as the store hands them over: in the order of their names
    let contacts = vec![
        contact("Bob Johnson", "bob@example.com", "0433333333", "Other Corp"),
        contact("Jane Doe", "jane@example.com", "0422222222", "Tech Inc"),
        contact("John Smith", "john@example.com", "0411111111", "Acme Corp"),
        contact("John Smith", "john.smith@example.com", "0411111111", "Acme Corp"),
    ];

    let duplicates = find_potential_duplicates(&contacts);
    assert_eq!(duplicates.len(), 1);
    assert_eq!(duplicates[0].len(), 2);
    assert_eq!(duplicates[0][0].name, "John Smith");
    assert_eq!(duplicates[0][1].name, "John Smith");
}

#[test]
fn test_duplicate_detection_by_email() {
    let contacts = vec![
        contact("J. Smith", "john@example.com", "0422222222", "Different Corp"),
        contact("John Smith", "john@example.com", "0411111111", "Acme Corp"),
    ];

    let duplicates = find_potential_duplicates(&contacts);
    assert_eq!(duplicates.len(), 1);
    assert_eq!(duplicates[0].len(), 2);
}

#[test]
fn test_duplicate_detection_by_phone() {
    let contacts = vec![
        contact("Different Name", "different@example.com", "(04) 1111-1111", "Different Corp"),
        contact("John Smith", "john1@example.com", "0411111111", "Acme Corp"),
    ];

    let duplicates = find_potential_duplicates(&contacts);
    assert_eq!(duplicates.len(), 1);
    assert_eq!(duplicates[0].len(), 2);
}

#[test]
fn test_no_duplicates() {
    let contacts = vec![
        contact("Jane Doe", "jane@example.com", "0422222222", "Tech Inc"),
        contact("John Smith", "john@example.com", "0411111111", "Acme Corp"),
    ];

    let duplicates = find_potential_duplicates(&contacts);
    assert_eq!(duplicates.len(), 0);
}

#[test]
fn groups_form_round_the_anchor() {
    let a = contact("John Smith", "john@example.com", "0411111111", "Acme");
    let mut b = contact("John Smith", "other@example.com", "0411111111", "Acme");
    b.id = 2;
    let mut c = contact("Zed Other", "JOHN@example.com", "0499999999", "Acme");
    c.id = 3;
    let groups = find_potential_duplicates(&[a.clone(), b.clone(), c.clone()]);
    assert_eq!(groups, vec![vec![a, b, c]]);
}

#[test]
fn a_member_does_not_gather_for_itself() {
    // b matches the anchor a by phone, c matches b by email but not a:
    // c stays out of a's group, and b, being claimed, is no anchor.
    let a = contact("Ann Lee", "ann@x.com", "0411111111", "A");
    let b = contact("Bea Moss", "bea@x.com", "0411 111 111", "B");
    let c = contact("Cy Young", "BEA@X.COM", "0422222222", "C");
    let groups = find_potential_duplicates(&[a.clone(), b.clone(), c.clone()]);
    assert_eq!(groups, vec![vec![a, b]]);
}

#[test]
fn two_groups_in_the_order_of_their_anchors() {
    let a = contact("Ann Lee", "ann@x.com", "0411111111", "A");
    let b = contact("Bob Ray", "bob@x.com", "0422222222", "B");
    let c = contact("Ann Lee", "ann2@x.com", "0433333333", "C");
    let d = contact("Dee Dee", "bob@x.com", "0444444444", "D");
    let e = contact("Eve Eve", "eve@x.com", "0455555555", "E");
    let groups =
        find_potential_duplicates(&[a.clone(), b.clone(), c.clone(), d.clone(), e.clone()]);
    assert_eq!(groups, vec![vec![a, c], vec![b, d]]);
}

#[test]
fn no_contacts_no_groups() {
    let groups = find_potential_duplicates(&[]);
    assert!(groups.is_empty());
    let groups = find_potential_duplicates(&[named("Solo")]);
    assert!(groups.is_empty());
}

#[test]
fn similarity_counts_shared_words_over_all_words() {
    assert_eq!(
        calculate_name_similarity("John Smith", "john smith"),
        Similarity { shared: 2, total: 2 }
    );
    assert_eq!(calculate_name_similarity("Ann", "ann"), Similarity { shared: 1, total: 1 });
    assert_eq!(
        calculate_name_similarity("John Smith", "Smith John"),
        Similarity { shared: 2, total: 2 }
    );
    assert_eq!(
        calculate_name_similarity("John Smith", "John Smyth"),
        Similarity { shared: 1, total: 3 }
    );
    assert_eq!(
        calculate_name_similarity("a b c d e", "a b c d e f"),
        Similarity { shared: 5, total: 6 }
    );
    assert_eq!(
        calculate_name_similarity("a b c d", "a b c d e"),
        Similarity { shared: 4, total: 5 }
    );
    // repeated words count once, and any run of whitespace separates
    assert_eq!(
        calculate_name_similarity("ann  ann\tlee", "lee ANN bob"),
        Similarity { shared: 2, total: 3 }
    );
}

#[test]
fn similarity_threshold_is_strict() {
    // five of six words shared: above four fifths
    assert!(calculate_name_similarity("a b c d e", "a b c d e f").is_high());
    // four of five: exactly four fifths, which is not enough
    assert!(!calculate_name_similarity("a b c d", "a b c d e").is_high());
    assert!(Similarity { shared: 1, total: 1 }.is_high());
    assert!(!Similarity { shared: 0, total: 0 }.is_high());
}

#[test]
fn names_without_words() {
    // names without any word share nothing, equal or not
    assert_eq!(calculate_name_similarity("", ""), Similarity { shared: 0, total: 0 });
    assert_eq!(calculate_name_similarity(" ", " "), Similarity { shared: 0, total: 0 });
    assert_eq!(calculate_name_similarity(" ", "  "), Similarity { shared: 0, total: 0 });
    assert_eq!(calculate_name_similarity("", "ann"), Similarity { shared: 0, total: 1 });
    assert!(!are_potential_duplicates(&named(""), &named("")));
    assert!(!are_potential_duplicates(&named(" "), &named("  ")));
    assert!(find_potential_duplicates(&[named(""), named(""), named("")]).is_empty());
    // equal names that hold a word are alike
    assert!(are_potential_duplicates(&named("Ann"), &named("ANN")));
    assert!(are_potential_duplicates(&named("Ann"), &named(" ann ")));
}

#[test]
fn duplicates_either_way() {
    let a = contact("John Smith", "john@example.com", "0411111111", "Acme");
    let b = contact("J. Smith", "JOHN@example.com", "0422222222", "Other");
    let c = contact("Zed Other", "zed@example.com", "0433333333", "Acme");
    assert_eq!(are_potential_duplicates(&a, &b), are_potential_duplicates(&b, &a));
    assert_eq!(are_potential_duplicates(&a, &c), are_potential_duplicates(&c, &a));
    assert!(are_potential_duplicates(&a, &b));
    // the company plays no part
    assert!(!are_potential_duplicates(&a, &c));
}

#[test]
fn phones_need_a_digit_to_match() {
    let mut a = named("Ann Lee");
    let mut b = named("Bob Ray");
    a.phone = Some("n/a".to_string());
    b.phone = Some("-".to_string());
    assert!(!are_potential_duplicates(&a, &b));
    a.phone = Some("+61 (4) 12".to_string());
    b.phone = Some("61-412".to_string());
    assert!(are_potential_duplicates(&a, &b));
    b.phone = None;
    assert!(!are_potential_duplicates(&a, &b));
}

#[test]
fn emails_match_without_regard_to_case() {
    let mut a = named("Ann Lee");
    let mut b = named("Bob Ray");
    a.email = Some("Ann@X.com".to_string());
    b.email = Some("ann@x.COM".to_string());
    assert!(are_potential_duplicates(&a, &b));
    b.email = Some("ann@y.com".to_string());
    assert!(!are_potential_duplicates(&a, &b));
    a.email = None;
    b.email = None;
    assert!(!are_potential_duplicates(&a, &b));
}

#[test]
fn words_are_split_at_whitespace() {
    let text: Vec<char> = "  john\t smith\nlee ".chars().collect();
    let words: Vec<String> = split_words(&text).iter().map(|w| w.iter().collect()).collect();
    assert_eq!(words, vec!["john", "smith", "lee"]);
    assert!(split_words(&Vec::new()).is_empty());
    let blank: Vec<char> = " \t ".chars().collect();
    assert!(split_words(&blank).is_empty());
}

fn chars(s: &str) -> Vec<char> {
    s.chars().collect()
}

fn strings(words: &[Vec<char>]) -> Vec<String> {
    words.iter().map(|w| w.iter().collect()).collect()
}

#[test]
fn words_are_split_at_the_marks() {
    let text = chars("ab-cd--e");
    let marks: Vec<bool> = text.iter().map(|c| *c == '-').collect();
    assert_eq!(strings(&split_by(&text, &marks)), vec!["ab", "cd", "e"]);
    // a place that the marks do not reach is no separator
    assert_eq!(strings(&split_by(&text, &marks[..3].to_vec())), vec!["ab", "cd--e"]);
    assert_eq!(strings(&split_by(&text, &vec![])), vec!["ab-cd--e"]);
    assert_eq!(strings(&split_by(&text, &vec![true; 8])), Vec::<String>::new());
    assert_eq!(
        space_marks(&chars("a b\tc\u{a0}")),
        vec![false, true, false, true, false, true]
    );
}

#[test]
fn word_lists() {
    let list = vec![chars("ann"), chars("lee"), chars("ann")];
    assert!(contains_word(&list, &chars("lee")));
    assert!(!contains_word(&list, &chars("le")));
    assert!(!contains_word(&vec![], &chars("")));
    let mut out = vec![chars("bob")];
    add_distinct(&mut out, &list);
    assert_eq!(strings(&out), vec!["bob", "ann", "lee"]);
    assert_eq!(count_shared(&out, &list), 2);
    assert_eq!(count_shared(&out, &vec![]), 0);
    assert_eq!(count_shared(&vec![], &list), 0);
}

#[test]
fn whitespace_is_the_listed_characters() {
    let listed = |c: char| {
        ('\u{9}'..='\u{d}').contains(&c)
            || c == ' '
            || c == '\u{85}'
            || c == '\u{a0}'
            || c == '\u{1680}'
            || ('\u{2000}'..='\u{200a}').contains(&c)
            || c == '\u{2028}'
            || c == '\u{2029}'
            || c == '\u{202f}'
            || c == '\u{205f}'
            || c == '\u{3000}'
    };
    let all: Vec<char> = (0..=0x10ffffu32).filter_map(char::from_u32).collect();
    let marks = space_marks(&all);
    assert_eq!(marks.len(), all.len());
    for (c, mark) in all.iter().zip(marks.iter()) {
        assert_eq!(*mark, listed(*c), "U+{:04X}", *c as u32);
    }
}
