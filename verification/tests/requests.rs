use no_spam::page::{extract_page, MessageRef};
use no_spam::request::{
    advance, initial_state, list_spam_request, remove_spam_request, MAX_PAGE_SIZE,
};

#[test]
fn listing_call_carries_fixed_query_and_token() {
    let state = advance(initial_state(), 0, Some("T9".to_string()));
    let req = list_spam_request(&state);
    assert_eq!(req.user_id, "me");
    assert_eq!(req.query, "in:spam");
    assert_eq!(req.max_results, MAX_PAGE_SIZE);
    assert_eq!(req.page_token, Some("T9".to_string()));
}

#[test]
fn first_listing_call_has_no_token() {
    let req = list_spam_request(&initial_state());
    assert_eq!(req.page_token, None);
}

#[test]
fn empty_batch_is_a_no_op() {
    // No request is built for an empty identifier list, so no network call
    // can be issued for it.
    assert!(remove_spam_request(&Vec::new()).is_none());
}

#[test]
fn batch_request_removes_only_the_spam_label() {
    let ids = vec!["a".to_string(), "b".to_string()];
    let req = remove_spam_request(&ids).unwrap();
    assert_eq!(req.ids, ids);
    assert_eq!(req.remove_labels, vec!["SPAM".to_string()]);
    assert!(req.add_labels.is_empty());
}

#[test]
fn extraction_keeps_present_identifiers_in_order() {
    let msgs = vec![
        MessageRef { id: Some("a".to_string()) },
        MessageRef { id: None },
        MessageRef { id: Some("b".to_string()) },
    ];
    let p = extract_page(Some(msgs), Some("T1".to_string()));
    assert_eq!(p.ids, vec!["a".to_string(), "b".to_string()]);
    assert_eq!(p.next_token, Some("T1".to_string()));
}

#[test]
fn missing_message_list_is_an_empty_page() {
    let p = extract_page(None, None);
    assert!(p.ids.is_empty());
    assert_eq!(p.next_token, None);
}

#[test]
fn token_passes_through_even_without_identifiers() {
    let p = extract_page(Some(Vec::new()), Some("T2".to_string()));
    assert!(p.ids.is_empty());
    assert_eq!(p.next_token, Some("T2".to_string()));
}

#[test]
fn counter_accumulates_across_pages() {
    let s0 = initial_state();
    assert_eq!(s0.count, 0);
    let s1 = advance(s0, 2, Some("T1".to_string()));
    assert_eq!(s1.count, 2);
    let s2 = advance(s1, 1, None);
    assert_eq!(s2.count, 3);
    assert_eq!(s2.token, None);
}
