use no_spam::page::Page;
use no_spam::run::{run_against_store, FetchReply, RunOutcome};

fn ids(names: &[&str]) -> Vec<String> {
    names.iter().map(|s| s.to_string()).collect()
}

fn page(names: &[&str], next: Option<&str>) -> FetchReply {
    FetchReply::Success(Page { ids: ids(names), next_token: next.map(|s| s.to_string()) })
}

#[test]
fn end_to_end_two_pages() {
    // Page 1: ["a", "b"] with a continuation token; page 2: ["c"], final.
    let replies = vec![page(&["a", "b"], Some("T1")), page(&["c"], None)];
    let r = run_against_store(&replies, None);
    assert_eq!(r.outcome, RunOutcome::Done);
    assert_eq!(r.processed, 3);
    assert_eq!(r.fetches, 2);
    assert_eq!(r.batches, vec![ids(&["a", "b"]), ids(&["c"])]);
    assert_eq!(r.reports, vec![2, 3]);
}

#[test]
fn visits_every_page_once_in_order() {
    let replies = vec![
        page(&["a"], Some("T1")),
        page(&["b"], Some("T2")),
        page(&["c"], None),
    ];
    let r = run_against_store(&replies, None);
    assert_eq!(r.outcome, RunOutcome::Done);
    assert_eq!(r.fetches, 3);
    assert_eq!(r.batches, vec![ids(&["a"]), ids(&["b"]), ids(&["c"])]);
}

#[test]
fn terminates_at_first_tokenless_page() {
    // The store holds more replies, but the third page carries no token:
    // the later replies must never be fetched.
    let replies = vec![
        page(&["a"], Some("T1")),
        page(&["b"], Some("T2")),
        page(&["c"], None),
        page(&["never"], None),
    ];
    let r = run_against_store(&replies, None);
    assert_eq!(r.outcome, RunOutcome::Done);
    assert_eq!(r.fetches, 3);
    assert_eq!(r.processed, 3);
}

#[test]
fn empty_page_with_token_is_skipped_not_terminal() {
    // A page with zero identifiers but a token must trigger no mutation
    // call and must not end the run.
    let replies = vec![
        page(&["a"], Some("T1")),
        page(&[], Some("T2")),
        page(&["b"], None),
    ];
    let r = run_against_store(&replies, None);
    assert_eq!(r.outcome, RunOutcome::Done);
    assert_eq!(r.fetches, 3);
    assert_eq!(r.batches, vec![ids(&["a"]), ids(&["b"])]);
    assert_eq!(r.processed, 2);
    assert_eq!(r.reports, vec![1, 2]);
}

#[test]
fn empty_final_page_ends_run_without_mutation() {
    let replies = vec![page(&[], None)];
    let r = run_against_store(&replies, None);
    assert_eq!(r.outcome, RunOutcome::Done);
    assert_eq!(r.fetches, 1);
    assert!(r.batches.is_empty());
    assert_eq!(r.processed, 0);
    assert!(r.reports.is_empty());
}

#[test]
fn counter_equals_sum_of_page_lengths() {
    let replies = vec![
        page(&["a", "b", "c"], Some("T1")),
        page(&[], Some("T2")),
        page(&["d", "e"], None),
    ];
    let r = run_against_store(&replies, None);
    assert_eq!(r.processed, 5);
    assert_eq!(r.reports, vec![3, 5]);
}

#[test]
fn fetch_failure_on_page_three_of_five() {
    // Fail-fast: pages 1-2 are mutated, the fetch of page 3 fails, and
    // pages 4-5 are never attempted.
    let replies = vec![
        page(&["a", "b"], Some("T1")),
        page(&["c"], Some("T2")),
        FetchReply::Failure,
        page(&["d"], Some("T4")),
        page(&["e"], None),
    ];
    let r = run_against_store(&replies, None);
    assert_eq!(r.outcome, RunOutcome::FailedFetch);
    assert_eq!(r.fetches, 3);
    assert_eq!(r.batches.len(), 2);
    assert_eq!(r.batches, vec![ids(&["a", "b"]), ids(&["c"])]);
    assert_eq!(r.processed, 3);
    assert_eq!(r.reports, vec![2, 3]);
}

#[test]
fn fetch_failure_on_first_page() {
    let replies = vec![FetchReply::Failure, page(&["a"], None)];
    let r = run_against_store(&replies, None);
    assert_eq!(r.outcome, RunOutcome::FailedFetch);
    assert_eq!(r.fetches, 1);
    assert!(r.batches.is_empty());
    assert_eq!(r.processed, 0);
}

#[test]
fn mutation_failure_stops_run_before_next_fetch() {
    // The second mutation call fails: its batch was issued but not counted,
    // and the third page is never fetched.
    let replies = vec![
        page(&["a"], Some("T1")),
        page(&["b", "c"], Some("T2")),
        page(&["d"], None),
    ];
    let r = run_against_store(&replies, Some(1));
    assert_eq!(r.outcome, RunOutcome::FailedMutation);
    assert_eq!(r.fetches, 2);
    assert_eq!(r.batches, vec![ids(&["a"]), ids(&["b", "c"])]);
    assert_eq!(r.processed, 1);
    assert_eq!(r.reports, vec![1]);
}

#[test]
fn exhausted_store_surfaces_as_fetch_failure() {
    // Every page links onward but the store has nothing left to serve.
    let replies = vec![page(&["a"], Some("T1"))];
    let r = run_against_store(&replies, None);
    assert_eq!(r.outcome, RunOutcome::FailedFetch);
    assert_eq!(r.fetches, 1);
    assert_eq!(r.processed, 1);
}

#[test]
fn empty_store_fails_on_first_fetch() {
    let replies: Vec<FetchReply> = Vec::new();
    let r = run_against_store(&replies, None);
    assert_eq!(r.outcome, RunOutcome::FailedFetch);
    assert_eq!(r.fetches, 0);
}
