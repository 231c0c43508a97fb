//! Laws of the reclassification loop, stated over `run_model` — and so, via
//! the contract of `run_against_store`, over every executable run.

use vstd::prelude::*;

use crate::run::{run_model, RunOutcome, ReplyModel};

verus! {

/// A page that carries a continuation token: the loop must go on after it.
pub open spec fn is_linking_page(r: ReplyModel) -> bool {
    r matches ReplyModel::Page { next: Some(_), .. }
}

/// A page that carries no continuation token: the loop must end at it.
pub open spec fn is_final_page(r: ReplyModel) -> bool {
    r matches ReplyModel::Page { next: None, .. }
}

/// The identifiers a reply contributes: a page's identifier list, nothing
/// for a fetch failure.
pub open spec fn reply_ids(r: ReplyModel) -> Seq<Seq<char>> {
    match r {
        ReplyModel::Page { ids, .. } => ids,
        ReplyModel::Failure => Seq::empty(),
    }
}

/// All identifiers the store hands out over a sequence of replies, in order.
pub open spec fn fetched_ids(store: Seq<ReplyModel>) -> Seq<Seq<char>>
    decreases store.len(),
{
    if store.len() == 0 {
        Seq::empty()
    } else {
        reply_ids(store[0]) + fetched_ids(store.drop_first())
    }
}

/// How many replies in a sequence are pages with at least one identifier —
/// the pages that warrant a mutation call.
pub open spec fn nonempty_pages(store: Seq<ReplyModel>) -> int
    decreases store.len(),
{
    if store.len() == 0 {
        0
    } else {
        (if reply_ids(store[0]).len() > 0 {
            1int
        } else {
            0int
        }) + nonempty_pages(store.drop_first())
    }
}

/// Pagination termination: when the first `k` replies are pages that carry a
/// continuation token and reply `k` is a page without one, a run with no
/// injected mutation failure fetches each of those `k + 1` pages exactly
/// once, in order, and ends `Done` at the token-less page — the replies
/// after it are never fetched.
pub proof fn lemma_pagination_termination(store: Seq<ReplyModel>, k: int)
    requires
        0 <= k < store.len(),
        forall|j: int| 0 <= j < k ==> is_linking_page(#[trigger] store[j]),
        is_final_page(store[k]),
    ensures
        ({
            let m = run_model(store, None);
            &&& m.outcome == RunOutcome::Done
            &&& m.fetches == k + 1
        }),
    decreases k,
{
    if k > 0 {
        assert(is_linking_page(store[0]));
        let tail = store.drop_first();
        assert forall|j: int| 0 <= j < k - 1 implies is_linking_page(#[trigger] tail[j]) by {
            assert(tail[j] == store[j + 1]);
        }
        assert(is_final_page(tail[k - 1]));
        lemma_pagination_termination(tail, k - 1);
    }
}

/// Empty-page skip: no mutation call ever carries an empty identifier list,
/// and the number of mutation calls of a run is exactly the number of
/// non-empty pages among the replies it fetched — a page with zero
/// identifiers triggers none, whether or not a token accompanies it.
pub proof fn lemma_empty_page_skip(store: Seq<ReplyModel>, fail_at: Option<int>)
    ensures
        ({
            let m = run_model(store, fail_at);
            &&& forall|j: int| 0 <= j < m.batches.len() ==> (#[trigger] m.batches[j]).len() > 0
            &&& m.batches.len() == nonempty_pages(store.take(m.fetches))
        }),
    decreases store.len(),
{
    let m = run_model(store, fail_at);
    if store.len() == 0 {
        assert(store.take(0) =~= Seq::<ReplyModel>::empty());
    } else {
        match store[0] {
            ReplyModel::Failure => {
                lemma_take_one_step(store, 1);
                assert(nonempty_pages(store.drop_first().take(0)) == 0);
                assert(nonempty_pages(store.take(1)) == 0);
            },
            ReplyModel::Page { ids, next } => {
                if ids.len() == 0 && next is Some {
                    lemma_empty_page_skip(store.drop_first(), fail_at);
                    crate::run::lemma_run_model_basic(store.drop_first(), fail_at);
                    lemma_take_one_step(store, m.fetches);
                } else if ids.len() > 0 && fail_at != Some(0int) && next is Some {
                    lemma_empty_page_skip(store.drop_first(), crate::run::next_fail(fail_at));
                    crate::run::lemma_run_model_basic(
                        store.drop_first(),
                        crate::run::next_fail(fail_at),
                    );
                    lemma_take_one_step(store, m.fetches);
                    let rest = run_model(store.drop_first(), crate::run::next_fail(fail_at));
                    assert(m.batches == seq![ids] + rest.batches);
                    assert forall|j: int|
                        0 <= j < m.batches.len() implies (#[trigger] m.batches[j]).len() > 0 by {
                        if j > 0 {
                            assert(m.batches[j] == rest.batches[j - 1]);
                        }
                    }
                } else if ids.len() == 0 {
                    // Terminal empty page: one fetch, no mutation call.
                    lemma_take_one_step(store, 1);
                    assert(nonempty_pages(store.drop_first().take(0)) == 0);
                    assert(nonempty_pages(store.take(1)) == 0);
                } else {
                    // Terminal non-empty page, or the failing mutation call:
                    // one fetch, one mutation call for this page.
                    lemma_take_one_step(store, 1);
                    assert(m.batches =~= seq![ids]);
                    assert(nonempty_pages(store.drop_first().take(0)) == 0);
                    assert(nonempty_pages(store.take(1)) == 1);
                }
            },
        }
    }
}

/// For `1 <= f <= store.len()`, the first `f` replies decompose into the
/// first reply followed by `f - 1` replies of the remainder.
proof fn lemma_take_one_step(store: Seq<ReplyModel>, f: int)
    requires
        1 <= f <= store.len(),
    ensures
        store.take(f).len() > 0,
        store.take(f)[0] == store[0],
        store.take(f).drop_first() =~= store.drop_first().take(f - 1),
{
}

/// Every identifier is mutated exactly once: whatever the store replies and
/// wherever a failure strikes, the concatenation of the identifier batches
/// passed to mutation calls is exactly the concatenation of the identifier
/// lists of the pages fetched — nothing is dropped, nothing is repeated,
/// nothing is reordered, and no page is fetched ahead of its mutation.
pub proof fn lemma_each_identifier_mutated_once(store: Seq<ReplyModel>, fail_at: Option<int>)
    ensures
        ({
            let m = run_model(store, fail_at);
            m.batches.flatten() == fetched_ids(store.take(m.fetches))
        }),
    decreases store.len(),
{
    let m = run_model(store, fail_at);
    if store.len() == 0 {
        assert(store.take(0) =~= Seq::<ReplyModel>::empty());
        assert(m.batches.flatten() =~= Seq::<Seq<char>>::empty());
    } else {
        match store[0] {
            ReplyModel::Failure => {
                lemma_take_one_step(store, 1);
                assert(fetched_ids(store.drop_first().take(0)) =~= Seq::<Seq<char>>::empty());
                assert(m.batches.flatten() =~= Seq::<Seq<char>>::empty());
                assert(fetched_ids(store.take(1)) =~= Seq::<Seq<char>>::empty());
            },
            ReplyModel::Page { ids, next } => {
                if ids.len() == 0 && next is Some {
                    lemma_each_identifier_mutated_once(store.drop_first(), fail_at);
                    crate::run::lemma_run_model_basic(store.drop_first(), fail_at);
                    lemma_take_one_step(store, m.fetches);
                    assert(fetched_ids(store.take(m.fetches)) =~= m.batches.flatten());
                } else if ids.len() > 0 && fail_at != Some(0int) && next is Some {
                    lemma_each_identifier_mutated_once(
                        store.drop_first(),
                        crate::run::next_fail(fail_at),
                    );
                    crate::run::lemma_run_model_basic(
                        store.drop_first(),
                        crate::run::next_fail(fail_at),
                    );
                    lemma_take_one_step(store, m.fetches);
                    let rest = run_model(store.drop_first(), crate::run::next_fail(fail_at));
                    assert(m.batches == seq![ids] + rest.batches);
                    assert(m.batches.drop_first() =~= rest.batches);
                    assert(m.batches.flatten() == ids + rest.batches.flatten());
                } else if ids.len() == 0 {
                    // Terminal empty page: nothing fetched beyond it, nothing
                    // to mutate.
                    lemma_take_one_step(store, 1);
                    assert(fetched_ids(store.drop_first().take(0)) =~= Seq::<Seq<char>>::empty());
                    assert(m.batches.flatten() =~= Seq::<Seq<char>>::empty());
                    assert(fetched_ids(store.take(1)) =~= Seq::<Seq<char>>::empty());
                } else {
                    // Terminal non-empty page, or the failing mutation call:
                    // exactly this page's identifiers went to one call.
                    lemma_take_one_step(store, 1);
                    assert(fetched_ids(store.drop_first().take(0)) =~= Seq::<Seq<char>>::empty());
                    assert(m.batches =~= seq![ids]);
                    assert(m.batches.drop_first() =~= Seq::<Seq<Seq<char>>>::empty());
                    assert(Seq::<Seq<Seq<char>>>::empty().flatten() =~= Seq::<Seq<char>>::empty());
                    assert(m.batches.flatten() == ids + m.batches.drop_first().flatten());
                    assert(m.batches.flatten() =~= ids);
                    assert(fetched_ids(store.take(1)) =~= ids);
                }
            },
        }
    }
}

/// Counter accuracy: absent an injected mutation failure, the cumulative
/// counter of a run equals the total number of identifiers on the pages it
/// fetched — the sum of the identifier-list lengths across those pages.
pub proof fn lemma_counter_accuracy(store: Seq<ReplyModel>)
    ensures
        ({
            let m = run_model(store, None);
            m.count == fetched_ids(store.take(m.fetches)).len()
        }),
    decreases store.len(),
{
    let m = run_model(store, None);
    if store.len() == 0 {
        assert(store.take(0) =~= Seq::<ReplyModel>::empty());
    } else {
        match store[0] {
            ReplyModel::Failure => {
                lemma_take_one_step(store, 1);
                assert(fetched_ids(store.drop_first().take(0)) =~= Seq::<Seq<char>>::empty());
            },
            ReplyModel::Page { ids, next } => {
                if next is Some {
                    lemma_counter_accuracy(store.drop_first());
                    crate::run::lemma_run_model_basic(store.drop_first(), None);
                    lemma_take_one_step(store, m.fetches);
                } else {
                    lemma_take_one_step(store, 1);
                    assert(fetched_ids(store.drop_first().take(0)) =~= Seq::<Seq<char>>::empty());
                }
            },
        }
    }
}

/// Fail-fast: when the first `k` replies are pages that carry a token and
/// reply `k` is a fetch failure, the run (with no injected mutation failure)
/// ends `FailedFetch` right there: it fetches exactly `k + 1` replies, never
/// touches the later ones, has issued one mutation call per non-empty page
/// among the first `k`, and has counted exactly their identifiers.
pub proof fn lemma_fail_fast(store: Seq<ReplyModel>, k: int)
    requires
        0 <= k < store.len(),
        forall|j: int| 0 <= j < k ==> is_linking_page(#[trigger] store[j]),
        store[k] is Failure,
    ensures
        ({
            let m = run_model(store, None);
            &&& m.outcome == RunOutcome::FailedFetch
            &&& m.fetches == k + 1
            &&& m.batches.len() == nonempty_pages(store.take(k))
            &&& m.count == fetched_ids(store.take(k)).len()
        }),
    decreases k,
{
    let m = run_model(store, None);
    if k == 0 {
        assert(store.take(0) =~= Seq::<ReplyModel>::empty());
    } else {
        assert(is_linking_page(store[0]));
        let tail = store.drop_first();
        assert forall|j: int| 0 <= j < k - 1 implies is_linking_page(#[trigger] tail[j]) by {
            assert(tail[j] == store[j + 1]);
        }
        assert(tail[k - 1] is Failure);
        lemma_fail_fast(tail, k - 1);
        lemma_take_one_step(store, k);
    }
}

/// The total number of identifiers across a sequence of mutation batches.
pub open spec fn batch_sizes_sum(batches: Seq<Seq<Seq<char>>>) -> int
    decreases batches.len(),
{
    if batches.len() == 0 {
        0
    } else {
        batches[0].len() + batch_sizes_sum(batches.drop_first())
    }
}

/// Progress reports are running sums: the value reported after the
/// `j + 1`-th successful mutation call is exactly the total number of
/// identifiers in the first `j + 1` batches — the counter never skips,
/// double-counts, or lags a page.
pub proof fn lemma_reports_are_running_sums(store: Seq<ReplyModel>, fail_at: Option<int>)
    ensures
        ({
            let m = run_model(store, fail_at);
            forall|j: int|
                0 <= j < m.reports.len() ==> #[trigger] m.reports[j] == batch_sizes_sum(
                    m.batches.take(j + 1),
                )
        }),
    decreases store.len(),
{
    let m = run_model(store, fail_at);
    if store.len() == 0 {
    } else {
        match store[0] {
            ReplyModel::Failure => {},
            ReplyModel::Page { ids, next } => {
                if ids.len() == 0 && next is Some {
                    lemma_reports_are_running_sums(store.drop_first(), fail_at);
                } else if ids.len() > 0 && fail_at != Some(0int) && next is Some {
                    lemma_reports_are_running_sums(
                        store.drop_first(),
                        crate::run::next_fail(fail_at),
                    );
                    let rest = run_model(store.drop_first(), crate::run::next_fail(fail_at));
                    crate::run::lemma_run_model_basic(
                        store.drop_first(),
                        crate::run::next_fail(fail_at),
                    );
                    assert forall|j: int|
                        0 <= j < m.reports.len() implies #[trigger] m.reports[j]
                        == batch_sizes_sum(m.batches.take(j + 1)) by {
                        assert(j < m.batches.len());
                        assert(m.batches.take(j + 1).len() > 0);
                        assert(m.batches.take(j + 1)[0] == ids);
                        assert(m.batches.take(j + 1).drop_first() =~= rest.batches.take(j));
                        if j == 0 {
                            assert(rest.batches.take(0) =~= Seq::<Seq<Seq<char>>>::empty());
                            assert(batch_sizes_sum(rest.batches.take(0)) == 0);
                            assert(batch_sizes_sum(m.batches.take(1)) == ids.len());
                            assert(m.reports[0] == ids.len());
                        } else {
                            assert(m.reports[j] == rest.reports.map_values(
                                |c: int| ids.len() + c,
                            )[j - 1]);
                            assert(m.reports[j] == ids.len() + rest.reports[j - 1]);
                            assert(rest.reports[j - 1] == batch_sizes_sum(
                                rest.batches.take(j),
                            ));
                            assert(batch_sizes_sum(m.batches.take(j + 1)) == ids.len()
                                + batch_sizes_sum(rest.batches.take(j)));
                        }
                    }
                } else if ids.len() > 0 && fail_at != Some(0int) {
                    // Terminal non-empty page: the single report is the
                    // single batch's size.
                    assert forall|j: int|
                        0 <= j < m.reports.len() implies #[trigger] m.reports[j]
                        == batch_sizes_sum(m.batches.take(j + 1)) by {
                        assert(j == 0);
                        assert(m.batches.take(1) =~= seq![ids]);
                        assert(seq![ids].drop_first() =~= Seq::<Seq<Seq<char>>>::empty());
                        assert(batch_sizes_sum(seq![ids].drop_first()) == 0);
                        assert(batch_sizes_sum(m.batches.take(1)) == ids.len());
                        assert(m.reports[0] == ids.len());
                    }
                }
            },
        }
    }
}

/// The run stops exactly at its cause: every reply it fetched before the
/// last one was a page carrying a continuation token (so nothing stopped the
/// loop early), and the last fetched reply is a token-less page when the run
/// ended `Done`, a fetch failure (or an exhausted store) when it ended
/// `FailedFetch`, and a non-empty page when it ended `FailedMutation`.
pub proof fn lemma_run_stops_exactly_at_cause(store: Seq<ReplyModel>, fail_at: Option<int>)
    ensures
        ({
            let m = run_model(store, fail_at);
            &&& forall|j: int| 0 <= j < m.fetches - 1 ==> is_linking_page(#[trigger] store[j])
            &&& m.outcome == RunOutcome::Done ==> m.fetches >= 1 && is_final_page(
                store[m.fetches - 1],
            )
            &&& m.outcome == RunOutcome::FailedFetch ==> m.fetches == store.len() || (m.fetches
                >= 1 && store[m.fetches - 1] is Failure)
            &&& m.outcome == RunOutcome::FailedMutation ==> m.fetches >= 1 && reply_ids(
                store[m.fetches - 1],
            ).len() > 0
        }),
    decreases store.len(),
{
    let m = run_model(store, fail_at);
    if store.len() > 0 {
        match store[0] {
            ReplyModel::Failure => {},
            ReplyModel::Page { ids, next } => {
                let continuing = if ids.len() == 0 {
                    next is Some
                } else {
                    fail_at != Some(0int) && next is Some
                };
                if continuing {
                    let rem = if ids.len() == 0 {
                        fail_at
                    } else {
                        crate::run::next_fail(fail_at)
                    };
                    lemma_run_stops_exactly_at_cause(store.drop_first(), rem);
                    crate::run::lemma_run_model_basic(store.drop_first(), rem);
                    let rest = run_model(store.drop_first(), rem);
                    assert forall|j: int|
                        0 <= j < m.fetches - 1 implies is_linking_page(#[trigger] store[j]) by {
                        if j > 0 {
                            assert(store[j] == store.drop_first()[j - 1]);
                        }
                    }
                    if rest.fetches >= 1 {
                        assert(store[m.fetches - 1] == store.drop_first()[rest.fetches - 1]);
                    }
                }
            },
        }
    }
}

} // verus!
