use rolodex::app::BrowseState;
use rolodex::filter::{filter, rank, score, search_key_of, MAX_SCORED_LEN};
use rolodex::model::Contact;

fn contact(id: i64, name: &str) -> Contact {
    Contact { id, name: name.to_string(), company: None, phone: None, email: None }
}

fn full(id: i64, name: &str, company: &str, email: &str, phone: &str) -> Contact {
    Contact {
        id,
        name: name.to_string(),
        company: Some(company.to_string()),
        email: Some(email.to_string()),
        phone: Some(phone.to_string()),
    }
}

#[test]
fn search_key_joins_the_fields_with_spaces() {
    let c = full(1, "Ann", "Acme", "ann@x.com", "0400");
    assert_eq!(search_key_of(&c), "Ann Acme ann@x.com 0400");
    assert_eq!(search_key_of(&contact(1, "Ann")), "Ann   ");
    let mut d = contact(2, "Bob");
    d.email = Some("b@x".to_string());
    assert_eq!(search_key_of(&d), "Bob  b@x ");
}

#[test]
fn empty_query_keeps_all_in_order() {
    let all = vec![contact(2, "Alice"), contact(1, "Bob"), contact(3, "Carol")];
    assert_eq!(filter(&all, ""), all);
}

#[test]
fn blank_query_keeps_all_in_order() {
    let all = vec![contact(2, "Alice"), contact(1, "Bob")];
    assert_eq!(filter(&all, "   "), all);
    assert_eq!(filter(&all, "\t\n"), all);
}

#[test]
fn query_keeps_only_matches() {
    let all = vec![contact(2, "Alice"), contact(1, "Bob")];
    assert_eq!(filter(&all, "bo"), vec![contact(1, "Bob")]);
    assert_eq!(filter(&all, "zz"), Vec::<Contact>::new());
    assert_eq!(filter(&[], "a"), Vec::<Contact>::new());
}

#[test]
fn query_matches_without_regard_to_case() {
    let all = vec![contact(2, "Alice"), contact(1, "Bob")];
    assert_eq!(filter(&all, "BO"), vec![contact(1, "Bob")]);
    assert_eq!(filter(&all, "aLi"), vec![contact(2, "Alice")]);
}

#[test]
fn query_matches_any_field() {
    let all = vec![
        full(1, "Ann", "Acme", "ann@x.com", "0400"),
        full(2, "Bob", "Bolt", "bob@y.org", "0511"),
    ];
    assert_eq!(filter(&all, "acme"), vec![all[0].clone()]);
    assert_eq!(filter(&all, "y.org"), vec![all[1].clone()]);
    assert_eq!(filter(&all, "0511"), vec![all[1].clone()]);
    // across fields, in order
    assert_eq!(filter(&all, "annacme"), vec![all[0].clone()]);
}

#[test]
fn a_match_is_a_subsequence() {
    assert!(score("Bob   ", "bb").is_some());
    assert!(score("Bob   ", "bob").is_some());
    assert!(score("Bob   ", "obb").is_none());
    assert!(score("Bob   ", "bobo").is_none());
    assert!(score("", "a").is_none());
    assert_eq!(score("anything", ""), Some(0));
}

#[test]
fn scores_of_the_matcher() {
    assert_eq!(score("bob   ", "bob"), Some(71));
    assert_eq!(score("b-o-b   ", "bob"), Some(69));
    assert_eq!(score("Bob   ", "bo"), Some(49));
}

#[test]
fn texts_beyond_the_limit_are_not_scored() {
    assert_eq!(MAX_SCORED_LEN, 1_000_000);
    let long = "a".repeat(MAX_SCORED_LEN + 1);
    assert_eq!(score(&long, "a"), None);
    assert_eq!(score("a", &long), None);
    let all = vec![contact(1, &long), contact(2, "a")];
    assert_eq!(filter(&all, "a"), vec![contact(2, "a")]);
    assert_eq!(filter(&all, " ").len(), 2);
}

#[test]
fn a_tighter_match_scores_higher() {
    let tight = score("bob   ", "bob").unwrap();
    let loose = score("b-o-b   ", "bob").unwrap();
    assert!(tight > loose);
}

#[test]
fn equal_scores_keep_their_order() {
    let all = vec![contact(1, "Bob"), contact(2, "Alice"), contact(3, "Bob"), contact(4, "Bob")];
    let shown = filter(&all, "bob");
    let ids: Vec<i64> = shown.iter().map(|c| c.id).collect();
    assert_eq!(ids, vec![1, 3, 4]);
}

#[test]
fn shown_contacts_fall_in_score() {
    let all = vec![
        contact(1, "Abigail Obrien"),
        contact(2, "Bob"),
        contact(3, "Carol"),
        contact(4, "Bo Bobson"),
        contact(5, "Rob Oberon"),
        contact(6, "Bob"),
    ];
    let shown = filter(&all, "bo");
    let scores: Vec<i64> =
        shown.iter().map(|c| score(&search_key_of(c), "bo").unwrap()).collect();
    for pair in scores.windows(2) {
        assert!(pair[0] >= pair[1]);
    }
    // exactly the matching contacts are shown
    let mut ids: Vec<i64> = shown.iter().map(|c| c.id).collect();
    ids.sort();
    assert_eq!(ids, vec![1, 2, 4, 5, 6]);
    // the two equal contacts keep their order
    let at = |id: i64| shown.iter().position(|c| c.id == id).unwrap();
    assert!(at(2) < at(6));
}

#[test]
fn rank_orders_places_by_score_then_place() {
    assert_eq!(rank(&vec![Some(5), None, Some(7), Some(5), Some(7)]), vec![2, 4, 0, 3]);
    assert_eq!(rank(&vec![None, None]), Vec::<usize>::new());
    assert_eq!(rank(&vec![]), Vec::<usize>::new());
    assert_eq!(rank(&vec![Some(1), Some(2), Some(3)]), vec![2, 1, 0]);
    assert_eq!(rank(&vec![Some(0), Some(0), Some(0)]), vec![0, 1, 2]);
    assert_eq!(rank(&vec![Some(-1), Some(i64::MAX), Some(i64::MIN)]), vec![1, 0, 2]);
}

#[test]
fn browse_state_starts_with_all() {
    let all = vec![contact(2, "Alice"), contact(1, "Bob")];
    let state = BrowseState::new(&all);
    assert_eq!(state.search_input, "");
    assert_eq!(state.filtered_contacts, all);
    assert_eq!(state.selected_index, 0);
    let empty = BrowseState::default();
    assert!(empty.filtered_contacts.is_empty());
}

#[test]
fn browse_state_filters_and_resets_the_selection() {
    let all = vec![contact(2, "Alice"), contact(1, "Bob")];
    let mut state = BrowseState::new(&all);
    state.selected_index = 1;
    state.search_input = "ali".to_string();
    state.update_filter(&all);
    assert_eq!(state.filtered_contacts, vec![contact(2, "Alice")]);
    assert_eq!(state.selected_index, 0);
    assert_eq!(state.search_input, "ali");
    state.selected_index = 5;
    state.search_input = " ".to_string();
    state.update_filter(&all);
    assert_eq!(state.filtered_contacts, all);
    assert_eq!(state.selected_index, 0);
}
