//! Run state and the two request builders of the reclassification loop.

use vstd::prelude::*;

verus! {

/// Advisory upper bound on the number of identifiers requested per page.
/// The store may return fewer; callers must not assume pages are full.
pub const MAX_PAGE_SIZE: u32 = 1000;

/// The account whose messages are listed and relabeled.
pub open spec fn user_id_spec() -> Seq<char> {
    "me"@
}

/// The fixed query selecting messages currently labeled as spam.
pub open spec fn spam_query_spec() -> Seq<char> {
    "in:spam"@
}

/// The label removed from every fetched message.
pub open spec fn spam_label_spec() -> Seq<char> {
    "SPAM"@
}

/// Transient, in-memory state of one reclassification run: the continuation
/// token for the next page fetch (absent before the first fetch and once the
/// final page has been seen) and the cumulative count of identifiers whose
/// spam label has been removed so far.
pub struct RunState {
    pub token: Option<String>,
    pub count: usize,
}

/// The state a run starts in: no continuation token, nothing counted.
pub fn initial_state() -> (s: RunState)
    ensures
        s.token is None,
        s.count == 0,
{
    RunState { token: None, count: 0 }
}

/// Move the run past one page: add the number of identifiers just relabeled
/// (zero for a page that was skipped as empty) and adopt the continuation
/// token that came with the page.
pub fn advance(state: RunState, relabeled: usize, next: Option<String>) -> (s: RunState)
    requires
        state.count + relabeled <= usize::MAX,
    ensures
        s.count == state.count + relabeled,
        s.token == next,
{
    RunState { token: next, count: state.count + relabeled }
}

/// The parameters of one page-listing call against the remote store: the
/// account, the fixed spam query, the advisory page-size bound, and the
/// continuation token of the previous page, if any.
pub struct ListSpamRequest {
    pub user_id: String,
    pub query: String,
    pub max_results: u32,
    pub page_token: Option<String>,
}

/// Build the listing call for the page that `state` points at. The query and
/// the page-size bound are fixed for the whole run; the continuation token is
/// passed through verbatim and never constructed here.
pub fn list_spam_request(state: &RunState) -> (r: ListSpamRequest)
    ensures
        r.user_id@ == user_id_spec(),
        r.query@ == spam_query_spec(),
        r.max_results == MAX_PAGE_SIZE,
        r.page_token == state.token,
{
    ListSpamRequest {
        user_id: "me".to_owned(),
        query: "in:spam".to_owned(),
        max_results: MAX_PAGE_SIZE,
        page_token: clone_token(&state.token),
    }
}

/// The body of one batch label-removal call: the identifiers to relabel,
/// the labels to remove (exactly the spam label) and the labels to add
/// (none, ever).
pub struct RemoveSpamRequest {
    pub ids: Vec<String>,
    pub remove_labels: Vec<String>,
    pub add_labels: Vec<String>,
}

/// Build the batch mutation call for one fetched page. An empty page yields
/// no request at all — the mutation step is a no-op then and must not reach
/// the network. A non-empty page yields a request for exactly its
/// identifiers, removing only the spam label and adding nothing.
pub fn remove_spam_request(ids: &Vec<String>) -> (r: Option<RemoveSpamRequest>)
    ensures
        r is Some <==> ids@.len() > 0,
        r matches Some(q) ==> {
            &&& q.ids@ == ids@
            &&& q.remove_labels@.len() == 1
            &&& q.remove_labels@[0]@ == spam_label_spec()
            &&& q.add_labels@.len() == 0
        },
{
    if ids.len() == 0 {
        None
    } else {
        let cloned_ids = ids.clone();
        proof {
            assert(cloned_ids@ =~= ids@);
        }
        let mut remove_labels: Vec<String> = Vec::new();
        remove_labels.push("SPAM".to_owned());
        Some(RemoveSpamRequest { ids: cloned_ids, remove_labels, add_labels: Vec::new() })
    }
}

/// Clone an optional continuation token.
pub(crate) fn clone_token(token: &Option<String>) -> (r: Option<String>)
    ensures
        r == *token,
{
    match token {
        Some(s) => Some(s.clone()),
        None => None,
    }
}

} // verus!
