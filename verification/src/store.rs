//! The content store's decisions: whether a URL's document must be fetched
//! or can be reused from disk, and whether a stored document's sniffed MIME
//! type makes it eligible for link extraction.  The store itself (disk and
//! network) lives outside; these decisions are what it obeys.

use vstd::prelude::*;
use crate::chars::str_starts_with;
use crate::pathmap::local_path_spec;

verus! {

/// What to do about a URL's document, given whether a local copy exists.
#[derive(Clone, Copy, Debug, PartialEq, Eq, Structural)]
pub enum FetchDecision {
    /// A local copy exists: reuse it, with no freshness check, ever.
    UseLocal,
    /// No local copy: issue the one network fetch this URL will ever get.
    FetchRemote,
}

/// The fetch-or-reuse rule: reuse exactly when a local copy exists.
pub open spec fn fetch_decision_spec(has_local: bool) -> FetchDecision {
    if has_local {
        FetchDecision::UseLocal
    } else {
        FetchDecision::FetchRemote
    }
}

/// Decides between reusing the local copy and fetching over the network.
pub fn fetch_decision(has_local: bool) -> (r: FetchDecision)
    ensures
        r == fetch_decision_spec(has_local),
{
    if has_local {
        FetchDecision::UseLocal
    } else {
        FetchDecision::FetchRemote
    }
}

/// LAW: a document that is already mirrored is served from disk; the
/// decision for an existing local copy is never a network fetch, and a
/// missing copy always fetches.
pub proof fn lemma_local_copy_never_fetched()
    ensures
        fetch_decision_spec(true) == FetchDecision::UseLocal,
        fetch_decision_spec(false) == FetchDecision::FetchRemote,
{
}

/// LAW (round trip): a document mirrored once is served from disk ever
/// after.  A later visit of the same URL against the same site root maps to
/// the same local path, and since that path now holds a local copy, the
/// decision there is to reuse it: no second network fetch happens.
pub proof fn lemma_round_trip(
    u: Seq<char>,
    root: Seq<char>,
    p1: Option<Seq<char>>,
    p2: Option<Seq<char>>,
)
    requires
        p1 == local_path_spec(u, root),
        p2 == local_path_spec(u, root),
    ensures
        p1 == p2,
        fetch_decision_spec(true) == FetchDecision::UseLocal,
{
}

/// Whether a sniffed MIME type belongs to the text family, the only family
/// whose documents are scanned for links.
pub open spec fn is_text_mime(m: Seq<char>) -> bool {
    "text/"@.is_prefix_of(m)
}

/// Whether a sniffed MIME type is text-like and so eligible for link
/// extraction.
pub fn text_mime(m: &str) -> (r: bool)
    ensures
        r == is_text_mime(m@),
{
    str_starts_with(m, "text/")
}

} // verus!
