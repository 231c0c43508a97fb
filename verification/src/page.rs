//! One fetched page of spam-labeled message identifiers.

use vstd::prelude::*;

verus! {

/// One entry of a listing reply: a message reference whose identifier may be
/// absent (the provider only promises an identifier for well-formed entries).
pub struct MessageRef {
    pub id: Option<String>,
}

/// One page of the paginated listing: the ordered identifiers present on the
/// page (possibly none) and the continuation token for the page after it.
/// An absent token (distinct from an empty string) means no further pages.
pub struct Page {
    pub ids: Vec<String>,
    pub next_token: Option<String>,
}

/// The identifiers present in a sequence of message references, in order,
/// skipping entries that carry no identifier.
pub open spec fn extracted(msgs: Seq<MessageRef>) -> Seq<Seq<char>>
    decreases msgs.len(),
{
    if msgs.len() == 0 {
        Seq::empty()
    } else {
        extracted(msgs.drop_last()) + (match msgs.last().id {
            Some(s) => seq![s@],
            None => Seq::<Seq<char>>::empty(),
        })
    }
}

/// Shape a raw listing reply into a `Page`: keep every identifier that is
/// present, in order, and pass the continuation token through unmodified.
/// A reply with no message list at all is an empty page.
pub fn extract_page(messages: Option<Vec<MessageRef>>, next_token: Option<String>) -> (p: Page)
    ensures
        p.next_token == next_token,
        match messages {
            Some(msgs) => p.ids.deep_view() == extracted(msgs@),
            None => p.ids@ =~= Seq::<String>::empty(),
        },
{
    let ids = match &messages {
        Some(msgs) => {
            let mut out: Vec<String> = Vec::new();
            let mut i: usize = 0;
            while i < msgs.len()
                invariant
                    i <= msgs.len(),
                    out.deep_view() == extracted(msgs@.take(i as int)),
                decreases msgs.len() - i,
            {
                let ghost prefix = msgs@.take(i as int);
                match &msgs[i] {
                    MessageRef { id: Some(s) } => {
                        let ghost old_out = out.deep_view();
                        out.push(s.clone());
                        proof {
                            assert(msgs@.take(i + 1).drop_last() =~= prefix);
                            assert(msgs@.take(i + 1).last() == msgs@[i as int]);
                            assert(extracted(msgs@.take(i + 1)) =~= old_out.push(s@));
                            assert(out.deep_view() =~= old_out.push(s@));
                        }
                    },
                    MessageRef { id: None } => {
                        proof {
                            assert(msgs@.take(i + 1).drop_last() =~= prefix);
                            assert(msgs@.take(i + 1).last() == msgs@[i as int]);
                            assert(extracted(msgs@.take(i + 1)) =~= out.deep_view());
                        }
                    },
                }
                i = i + 1;
            }
            proof {
                assert(msgs@.take(msgs@.len() as int) =~= msgs@);
            }
            out
        },
        None => Vec::new(),
    };
    Page { ids, next_token }
}

} // verus!
