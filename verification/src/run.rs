//! The reclassification loop and its mathematical model.
//!
//! The loop strictly alternates a page fetch with a batch mutation: every
//! identifier a fetch returns is handed to exactly one mutation call before
//! the next fetch, empty pages are skipped without a mutation call, and the
//! run ends the first time a page arrives with no continuation token, or the
//! first time a call fails. `run_model` states that behavior once, as a
//! recursive function over the store's replies; `run_against_store` is the
//! executable loop, proved equal to the model.

use vstd::prelude::*;

use crate::page::Page;
use crate::request::{advance, clone_token, initial_state, remove_spam_request};

verus! {

/// How a run ended.
#[derive(Clone, Copy, Debug, PartialEq, Eq, Structural)]
pub enum RunOutcome {
    /// A page arrived with no continuation token; all fetched identifiers
    /// had their spam label removed.
    Done,
    /// A page fetch failed (transport, authorization or malformed reply);
    /// the run stopped before issuing any further call.
    FailedFetch,
    /// A batch mutation call failed; the run stopped before fetching again.
    FailedMutation,
}

/// One reply of the message store to a page fetch: either a page, or a fetch
/// failure. Authorization failures surface here as fetch failures too.
pub enum FetchReply {
    Success(Page),
    Failure,
}

/// Spec-level image of one store reply.
pub enum ReplyModel {
    Page { ids: Seq<Seq<char>>, next: Option<Seq<char>> },
    Failure,
}

impl View for FetchReply {
    type V = ReplyModel;

    open spec fn view(&self) -> ReplyModel {
        match self {
            FetchReply::Success(p) => ReplyModel::Page {
                ids: p.ids.deep_view(),
                next: p.next_token.deep_view(),
            },
            FetchReply::Failure => ReplyModel::Failure,
        }
    }
}

/// The replies of a store, as the model sees them.
pub open spec fn store_model(replies: Seq<FetchReply>) -> Seq<ReplyModel> {
    replies.map_values(|r: FetchReply| r@)
}

/// Everything observable about one run: how many fetch calls were issued,
/// which identifier batches were passed to mutation calls (in order), the
/// final cumulative counter, the progress values reported after each
/// successful mutation, and how the run ended.
pub struct RunModel {
    pub fetches: int,
    pub batches: Seq<Seq<Seq<char>>>,
    pub count: int,
    pub reports: Seq<int>,
    pub outcome: RunOutcome,
}

/// Count down an injected mutation-failure position by one call.
pub open spec fn next_fail(fail_at: Option<int>) -> Option<int> {
    match fail_at {
        Some(k) => Some(k - 1),
        None => None,
    }
}

/// The behavior of the reclassification loop against a store whose replies
/// are `store`, consumed in order; a store with no reply left answers a
/// fetch with a failure. `fail_at` injects a failure into the mutation call
/// with that index (counted from zero), as a fake store for testing does;
/// `None` lets every mutation call succeed.
///
/// Each iteration fetches one reply. A failure ends the run failed. An empty
/// page triggers no mutation call and either ends the run (no continuation
/// token) or moves on to the next page. A non-empty page's identifiers are
/// passed, all and only they, to one mutation call; if it fails the run ends
/// failed, otherwise the counter grows by the batch's length, the new count
/// is reported, and the run ends done or continues as the token dictates.
pub open spec fn run_model(store: Seq<ReplyModel>, fail_at: Option<int>) -> RunModel
    decreases store.len(),
{
    if store.len() == 0 {
        RunModel {
            fetches: 0,
            batches: seq![],
            count: 0,
            reports: seq![],
            outcome: RunOutcome::FailedFetch,
        }
    } else {
        match store[0] {
            ReplyModel::Failure => RunModel {
                fetches: 1,
                batches: seq![],
                count: 0,
                reports: seq![],
                outcome: RunOutcome::FailedFetch,
            },
            ReplyModel::Page { ids, next } => {
                if ids.len() == 0 {
                    if next is Some {
                        let rest = run_model(store.drop_first(), fail_at);
                        RunModel {
                            fetches: 1 + rest.fetches,
                            batches: rest.batches,
                            count: rest.count,
                            reports: rest.reports,
                            outcome: rest.outcome,
                        }
                    } else {
                        RunModel {
                            fetches: 1,
                            batches: seq![],
                            count: 0,
                            reports: seq![],
                            outcome: RunOutcome::Done,
                        }
                    }
                } else if fail_at == Some(0int) {
                    RunModel {
                        fetches: 1,
                        batches: seq![ids],
                        count: 0,
                        reports: seq![],
                        outcome: RunOutcome::FailedMutation,
                    }
                } else if next is Some {
                    let rest = run_model(store.drop_first(), next_fail(fail_at));
                    RunModel {
                        fetches: 1 + rest.fetches,
                        batches: seq![ids] + rest.batches,
                        count: ids.len() + rest.count,
                        reports: seq![ids.len() as int] + rest.reports.map_values(
                            |c: int| ids.len() + c,
                        ),
                        outcome: rest.outcome,
                    }
                } else {
                    RunModel {
                        fetches: 1,
                        batches: seq![ids],
                        count: ids.len() as int,
                        reports: seq![ids.len() as int],
                        outcome: RunOutcome::Done,
                    }
                }
            },
        }
    }
}

/// Shape facts every run has: it fetches at most one reply per store entry,
/// the counter never goes negative, one progress value is reported per
/// successful mutation call, and the counter equals the last reported value
/// (zero when nothing was reported).
pub proof fn lemma_run_model_basic(store: Seq<ReplyModel>, fail_at: Option<int>)
    ensures
        ({
            let m = run_model(store, fail_at);
            &&& 0 <= m.fetches <= store.len()
            &&& 0 <= m.count
            &&& m.reports.len() <= m.batches.len()
            &&& m.reports.len() == 0 ==> m.count == 0
            &&& m.reports.len() > 0 ==> m.reports.last() == m.count
        }),
    decreases store.len(),
{
    if store.len() > 0 {
        match store[0] {
            ReplyModel::Failure => {},
            ReplyModel::Page { ids, next } => {
                if ids.len() == 0 && next is Some {
                    lemma_run_model_basic(store.drop_first(), fail_at);
                } else if ids.len() > 0 && fail_at != Some(0int) && next is Some {
                    lemma_run_model_basic(store.drop_first(), next_fail(fail_at));
                }
            },
        }
    }
}

/// The spec image of an injected mutation-failure position.
pub open spec fn fail_model(fail_at: Option<usize>) -> Option<int> {
    match fail_at {
        Some(k) => Some(k as int),
        None => None,
    }
}

/// What remains of an injected failure position after `muts` mutation calls.
pub open spec fn rem_fail(fail_at: Option<int>, muts: int) -> Option<int> {
    match fail_at {
        Some(k) => Some(k - muts),
        None => None,
    }
}

/// The observable trace of one executable run; see `run_against_store`.
pub struct RunReport {
    pub outcome: RunOutcome,
    pub processed: usize,
    pub fetches: usize,
    pub batches: Vec<Vec<String>>,
    pub reports: Vec<usize>,
}

/// Drive one reclassification run against a store given as its sequence of
/// replies, as a test harness does with a fake store. `fail_mutation_at`
/// injects a failure into the mutation call with that index, if it is ever
/// reached. The returned trace is exactly the one `run_model` predicts.
pub fn run_against_store(replies: &Vec<FetchReply>, fail_mutation_at: Option<usize>) -> (r:
    RunReport)
    requires
        run_model(store_model(replies@), fail_model(fail_mutation_at)).count <= usize::MAX,
    ensures
        ({
            let m = run_model(store_model(replies@), fail_model(fail_mutation_at));
            &&& r.outcome == m.outcome
            &&& r.processed == m.count
            &&& r.fetches == m.fetches
            &&& r.batches.deep_view() == m.batches
            &&& r.reports@.map_values(|c: usize| c as int) == m.reports
        }),
{
    let ghost full = store_model(replies@);
    let ghost fail0 = fail_model(fail_mutation_at);
    let ghost total = run_model(full, fail0);

    let mut state = initial_state();
    let mut i: usize = 0;
    let mut muts: usize = 0;
    let mut batches: Vec<Vec<String>> = Vec::new();
    let mut reports: Vec<usize> = Vec::new();
    let mut outcome = RunOutcome::FailedFetch;

    proof {
        assert(full.skip(0) =~= full);
        assert(batches.deep_view() + total.batches =~= total.batches);
        assert(reports@.map_values(|c: usize| c as int) + total.reports.map_values(
            |c: int| state.count + c,
        ) =~= total.reports);
    }

    loop
        invariant_except_break
            fail_mutation_at matches Some(k) ==> muts <= k,
            ({
                let rest = run_model(full.skip(i as int), rem_fail(fail0, muts as int));
                &&& total.outcome == rest.outcome
                &&& total.fetches == i + rest.fetches
                &&& total.count == state.count + rest.count
                &&& total.batches == batches.deep_view() + rest.batches
                &&& total.reports == reports@.map_values(|c: usize| c as int)
                    + rest.reports.map_values(|c: int| state.count + c)
            }),
        invariant
            i <= replies.len(),
            muts <= i,
            full == store_model(replies@),
            fail0 == fail_model(fail_mutation_at),
            total == run_model(full, fail0),
            total.count <= usize::MAX,
            muts == batches.len(),
        ensures
            outcome == total.outcome,
            state.count == total.count,
            i == total.fetches,
            batches.deep_view() == total.batches,
            reports@.map_values(|c: usize| c as int) == total.reports,
        decreases replies.len() - i,
    {
        let ghost rem = rem_fail(fail0, muts as int);
        let ghost rest = run_model(full.skip(i as int), rem);

        if i >= replies.len() {
            proof {
                assert(full.len() == replies@.len());
                assert(full.skip(i as int) =~= Seq::<ReplyModel>::empty());
                assert(rest.reports.map_values(|c: int| state.count + c)
                    =~= Seq::<int>::empty());
                assert(reports@.map_values(|c: usize| c as int) + Seq::<int>::empty()
                    =~= reports@.map_values(|c: usize| c as int));
                assert(batches.deep_view() + rest.batches =~= batches.deep_view());
            }
            outcome = RunOutcome::FailedFetch;
            break;
        }

        proof {
            assert(full.skip(i as int).len() > 0);
            assert(full.skip(i as int)[0] == full[i as int]);
            assert(full[i as int] == replies@[i as int]@);
            assert(full.skip(i as int).drop_first() =~= full.skip(i + 1));
        }

        let page: &Page = match &replies[i] {
            FetchReply::Success(p) => p,
            FetchReply::Failure => {
                proof {
                    assert(rest.reports.map_values(|c: int| state.count + c)
                        =~= Seq::<int>::empty());
                    assert(reports@.map_values(|c: usize| c as int) + Seq::<int>::empty()
                        =~= reports@.map_values(|c: usize| c as int));
                    assert(batches.deep_view() + rest.batches =~= batches.deep_view());
                }
                i = i + 1;
                outcome = RunOutcome::FailedFetch;
                break;
            },
        };
        i = i + 1;

        let ghost page_ids = page.ids.deep_view();
        let ghost page_next = page.next_token.deep_view();
        proof {
            assert(full[i - 1] == (ReplyModel::Page { ids: page_ids, next: page_next }));
            assert(page_ids.len() == page.ids@.len());
        }

        match remove_spam_request(&page.ids) {
            None => {
                // Empty page: no mutation call. Continue or finish as the
                // token dictates.
                proof {
                    assert(page_ids.len() == 0);
                }
                state = advance(state, 0, clone_token(&page.next_token));
                if state.token.is_none() {
                    proof {
                        assert(page_next is None);
                        assert(rest.reports.map_values(|c: int| state.count + c)
                            =~= Seq::<int>::empty());
                        assert(reports@.map_values(|c: usize| c as int) + Seq::<int>::empty()
                            =~= reports@.map_values(|c: usize| c as int));
                        assert(batches.deep_view() + rest.batches =~= batches.deep_view());
                    }
                    outcome = RunOutcome::Done;
                    break;
                }
                proof {
                    assert(page_next is Some);
                    let rest2 = run_model(full.skip(i as int), rem);
                    assert(rest.fetches == 1 + rest2.fetches);
                    assert(rest.batches == rest2.batches);
                    assert(rest.count == rest2.count);
                    assert(rest.reports == rest2.reports);
                    assert(rest.outcome == rest2.outcome);
                }
            },
            Some(request) => {
                // Non-empty page: exactly its identifiers go to one batch
                // mutation call.
                proof {
                    assert(page_ids.len() > 0);
                    assert(request.ids.deep_view() =~= page_ids);
                    let old_b = batches.deep_view();
                    assert(old_b.push(page_ids) =~= old_b + seq![page_ids]);
                }
                let ghost old_batches = batches.deep_view();
                batches.push(request.ids);
                proof {
                    assert(batches.deep_view() =~= old_batches.push(page_ids));
                }

                let failed = match fail_mutation_at {
                    Some(k) => k == muts,
                    None => false,
                };
                if failed {
                    // The mutation call fails: the run ends here, with the
                    // counter unreported for this batch.
                    proof {
                        assert(rem == Some(0int));
                        assert(rest.outcome == RunOutcome::FailedMutation);
                        assert(rest.batches =~= seq![page_ids]);
                        assert(rest.count == 0);
                        assert(rest.reports =~= Seq::<int>::empty());
                        assert(batches.deep_view() =~= old_batches + seq![page_ids]);
                        assert(rest.reports.map_values(|c: int| state.count + c)
                            =~= Seq::<int>::empty());
                        assert(reports@.map_values(|c: usize| c as int) + Seq::<int>::empty()
                            =~= reports@.map_values(|c: usize| c as int));
                    }
                    muts = muts + 1;
                    outcome = RunOutcome::FailedMutation;
                    break;
                }
                muts = muts + 1;

                // The mutation call succeeded: count the batch and report
                // the new cumulative total.
                let ghost old_count = state.count;
                let ghost old_reports = reports@.map_values(|c: usize| c as int);
                let batch_len = page.ids.len();
                proof {
                    if rem is Some {
                        assert(rem != Some(0int));
                        assert(rem_fail(fail0, muts as int) == next_fail(rem));
                    }
                    lemma_run_model_basic(full.skip(i as int), rem_fail(fail0, muts as int));
                }
                state = advance(state, batch_len, clone_token(&page.next_token));
                reports.push(state.count);
                proof {
                    assert(reports@.map_values(|c: usize| c as int) =~= old_reports.push(
                        state.count as int,
                    ));
                }

                if state.token.is_none() {
                    proof {
                        assert(page_next is None);
                        assert(rest.batches =~= seq![page_ids]);
                        assert(rest.count == page_ids.len());
                        assert(rest.reports =~= seq![page_ids.len() as int]);
                        assert(rest.reports.map_values(|c: int| old_count + c)
                            =~= seq![old_count + page_ids.len()]);
                        assert(old_reports + seq![old_count + page_ids.len()]
                            =~= old_reports.push(state.count as int));
                        assert(batches.deep_view() =~= old_batches + seq![page_ids]);
                    }
                    outcome = RunOutcome::Done;
                    break;
                }
                proof {
                    assert(page_next is Some);
                    let rest2 = run_model(full.skip(i as int), next_fail(rem));
                    assert(rest.fetches == 1 + rest2.fetches);
                    assert(rest.batches == seq![page_ids] + rest2.batches);
                    assert(rest.count == page_ids.len() + rest2.count);
                    assert(rest.outcome == rest2.outcome);
                    assert(rest.reports == seq![page_ids.len() as int]
                        + rest2.reports.map_values(|c: int| page_ids.len() + c));

                    assert(batches.deep_view() + rest2.batches =~= old_batches + rest.batches);

                    assert(rest2.reports.map_values(|c: int| page_ids.len() + c).map_values(
                        |c: int| old_count + c,
                    ) =~= rest2.reports.map_values(|c: int| state.count + c));
                    assert(rest.reports.map_values(|c: int| old_count + c)
                        =~= seq![state.count as int] + rest2.reports.map_values(
                        |c: int| state.count + c,
                    ));
                    assert(old_reports + (seq![state.count as int] + rest2.reports.map_values(
                        |c: int| state.count + c,
                    )) =~= old_reports.push(state.count as int) + rest2.reports.map_values(
                        |c: int| state.count + c,
                    ));
                }
            },
        }
    }

    RunReport { outcome, processed: state.count, fetches: i, batches, reports }
}

} // verus!
