//! The crawl engine: one configuration (site root and scope policy) and one
//! frontier, with the per-URL pipeline as pure decision functions.  The
//! caller performs the I/O between the steps — existence check, network
//! fetch, disk write, disk read — and every decision about what to fetch,
//! where to store it and what to enqueue is made and specified here.

use vstd::prelude::*;
use vstd::utf8::{decode_utf8, valid_utf8};
use crate::extract::{extract_links, extracted_links};
use crate::frontier::{drain_step, Frontier};
use crate::chars::opt_str_view;
use crate::outside::{classify_bytes, decode_entities, normalize_url, resolve_url, url_normalized,
    url_resolved, utf8_string};
use crate::pathmap::{local_path_spec, to_local_path};
use crate::percent::percent_decode_str;
use crate::scope::{in_scope, in_scope_spec, normalized_for_scope, scope_allows};
use crate::store::{is_text_mime, text_mime};

verus! {

/// Why a dequeued URL is dropped without producing a document.
#[derive(Clone, Copy, Debug, PartialEq, Eq, Structural)]
pub enum SkipReason {
    /// The URL, or one of its decoded forms, cannot be parsed or decoded.
    Unparseable,
    /// The scope policy does not allow the URL.  Routine filtering, not an
    /// error.
    OutOfScope,
}

/// The plan for one dequeued URL.
#[derive(Debug)]
pub enum UrlPlan {
    /// Drop the URL; it never produces a local document and is never
    /// retried.
    Skip(SkipReason),
    /// Process the URL: `target` is its normalized form, `local_path` the
    /// relative storage path of its document.
    Visit { target: String, local_path: String },
}

/// The ghost shape of a plan.
pub enum PlanModel {
    SkipUnparseable,
    SkipOutOfScope,
    Visit(Seq<char>, Seq<char>),
}

/// The view of a plan.
pub open spec fn plan_view(r: UrlPlan) -> PlanModel {
    match r {
        UrlPlan::Skip(SkipReason::Unparseable) => PlanModel::SkipUnparseable,
        UrlPlan::Skip(SkipReason::OutOfScope) => PlanModel::SkipOutOfScope,
        UrlPlan::Visit { target, local_path } => PlanModel::Visit(target@, local_path@),
    }
}

/// The pipeline decision for one URL: parse it, normalize and scope-check
/// it, and map it to its local path.
pub open spec fn plan_spec(
    u: Seq<char>,
    root: Seq<char>,
    inc: Seq<Seq<char>>,
    exc: Seq<Seq<char>>,
) -> PlanModel {
    match url_normalized(u) {
        None => PlanModel::SkipUnparseable,
        Some(t) => match normalized_for_scope(t) {
            None => PlanModel::SkipUnparseable,
            Some(d) => if !in_scope_spec(d, inc, exc) {
                PlanModel::SkipOutOfScope
            } else {
                match local_path_spec(t, root) {
                    None => PlanModel::SkipUnparseable,
                    Some(p) => PlanModel::Visit(t, p),
                }
            },
        },
    }
}

/// Whether a discovered link is offered to the frontier: it must be
/// parseable, and its normalized form must be in scope.
pub open spec fn offer_link(l: Seq<char>, inc: Seq<Seq<char>>, exc: Seq<Seq<char>>) -> bool {
    &&& url_normalized(l) is Some
    &&& match normalized_for_scope(l) {
        Some(d) => in_scope_spec(d, inc, exc),
        None => false,
    }
}

/// The subsequence of `ls` that the frontier receives: the parseable,
/// in-scope entries, in order.  Everything else is dropped, never queued.
pub open spec fn offered(ls: Seq<Seq<char>>, inc: Seq<Seq<char>>, exc: Seq<Seq<char>>) -> Seq<
    Seq<char>,
>
    decreases ls.len(),
{
    if ls.len() == 0 {
        Seq::empty()
    } else if offer_link(ls[0], inc, exc) {
        seq![ls[0]] + offered(ls.drop_first(), inc, exc)
    } else {
        offered(ls.drop_first(), inc, exc)
    }
}

/// What handling one stored document did.
#[derive(Debug)]
pub enum DocOutcome {
    /// The sniffed type is outside the text family: the document is kept on
    /// disk but contributes nothing to the frontier.
    NonText(String),
    /// The document is text-like but not valid UTF-8; it is skipped.
    Unreadable,
    /// The document was scanned: its sniffed type, and how many links the
    /// scan extracted; of those, the parseable in-scope ones were queued.
    Extracted(String, usize),
}

pub struct Crawler {
    /// The serialization of the site root the seed resolves to.
    pub site_root: String,
    /// Include prefixes of the scope policy.
    pub includes: Vec<String>,
    /// Exclude prefixes of the scope policy.
    pub excludes: Vec<String>,
    /// The frontier queue and visited set.
    pub frontier: Frontier,
}

impl Crawler {
    /// The crawler for one seed URL and one scope policy; the site root is
    /// resolved from the seed, and the seed is the one queued URL.  `None`
    /// when the seed does not parse.
    pub fn new(seed: &str, includes: Vec<String>, excludes: Vec<String>) -> (r: Option<Crawler>)
        ensures
            match r {
                Some(c) => {
                    &&& url_normalized(seed@) is Some
                    &&& url_resolved(seed@, "/"@) == Some(c.site_root@)
                    &&& c.includes.deep_view() == includes.deep_view()
                    &&& c.excludes.deep_view() == excludes.deep_view()
                    &&& c.frontier.queue_view() == seq![seed@]
                    &&& c.frontier.visited_view() == Seq::<Seq<char>>::empty()
                },
                None => url_normalized(seed@) is None || url_resolved(seed@, "/"@) is None,
            },
    {
        if normalize_url(seed).is_none() {
            return None;
        }
        let root = match resolve_url(seed, "/") {
            None => {
                return None;
            },
            Some(t) => t,
        };
        let mut frontier = Frontier::new();
        frontier.enqueue(seed.to_owned());
        proof {
            assert(Seq::<Seq<char>>::empty().push(seed@) =~= seq![seed@]);
        }
        Some(Crawler { site_root: root, includes, excludes, frontier })
    }

    /// Offers a discovered URL to the frontier.  Unparseable candidates are
    /// dropped, not queued; everything else is appended, and deduplication
    /// happens when the queue is drained.
    pub fn enqueue_candidate(&mut self, url: String) -> (r: bool)
        ensures
            r == (url_normalized(url@) is Some),
            r ==> final(self).frontier.queue_view() == old(self).frontier.queue_view().push(url@),
            !r ==> final(self).frontier.queue_view() == old(self).frontier.queue_view(),
            final(self).frontier.visited_view() == old(self).frontier.visited_view(),
            final(self).site_root@ == old(self).site_root@,
            final(self).includes.deep_view() == old(self).includes.deep_view(),
            final(self).excludes.deep_view() == old(self).excludes.deep_view(),
    {
        match normalize_url(url.as_str()) {
            Some(_) => {
                self.frontier.enqueue(url);
                true
            },
            None => false,
        }
    }

    /// Takes the next URL to process, skipping and discarding entries that
    /// are already visited; the returned URL is recorded as visited before
    /// any processing starts.
    pub fn take_next(&mut self) -> (r: Option<String>)
        ensures
            ({
                let step = drain_step(
                    old(self).frontier.queue_view(),
                    old(self).frontier.visited_view(),
                );
                &&& opt_str_view(r) == step.0
                &&& final(self).frontier.queue_view() == step.1
                &&& final(self).frontier.visited_view() == step.2
            }),
            final(self).site_root@ == old(self).site_root@,
            final(self).includes.deep_view() == old(self).includes.deep_view(),
            final(self).excludes.deep_view() == old(self).excludes.deep_view(),
    {
        self.frontier.take_next()
    }

    /// Plans one dequeued URL: parse it, normalize and scope-check it, map
    /// it to its local path.  No state changes; the caller then checks for
    /// a local copy, fetches and stores on a miss, and hands the stored
    /// bytes to `handle_document`.
    pub fn plan(&self, url: &str) -> (r: UrlPlan)
        ensures
            plan_view(r) == plan_spec(
                url@,
                self.site_root@,
                self.includes.deep_view(),
                self.excludes.deep_view(),
            ),
    {
        let target = match normalize_url(url) {
            None => {
                return UrlPlan::Skip(SkipReason::Unparseable);
            },
            Some(t) => t,
        };
        let decoded = match percent_decode_str(target.as_str()) {
            None => {
                return UrlPlan::Skip(SkipReason::Unparseable);
            },
            Some(p) => match decode_entities(p.as_str()) {
                None => {
                    return UrlPlan::Skip(SkipReason::Unparseable);
                },
                Some(d) => d,
            },
        };
        if !scope_allows(decoded.as_str(), &self.includes, &self.excludes) {
            return UrlPlan::Skip(SkipReason::OutOfScope);
        }
        match to_local_path(target.as_str(), self.site_root.as_str()) {
            None => UrlPlan::Skip(SkipReason::Unparseable),
            Some(p) => UrlPlan::Visit { target, local_path: p },
        }
    }

    /// Handles the stored document of `page_url`: sniffs its type from the
    /// bytes alone, and hands the result to `handle_classified`.  The
    /// sniffed type depends on the machine's magic database, so this
    /// contract states what holds of every outcome: the visited set and the
    /// policy never change, and the queue can only grow by parseable,
    /// in-scope extracted links.
    pub fn handle_document(&mut self, page_url: &str, bytes: &Vec<u8>) -> (r: DocOutcome)
        ensures
            final(self).frontier.visited_view() == old(self).frontier.visited_view(),
            final(self).site_root@ == old(self).site_root@,
            final(self).includes.deep_view() == old(self).includes.deep_view(),
            final(self).excludes.deep_view() == old(self).excludes.deep_view(),
            match r {
                DocOutcome::NonText(m) => !is_text_mime(m@) && final(self).frontier.queue_view()
                    == old(self).frontier.queue_view(),
                DocOutcome::Unreadable => !valid_utf8(bytes@) && final(self).frontier.queue_view()
                    == old(self).frontier.queue_view(),
                DocOutcome::Extracted(m, n) => {
                    &&& is_text_mime(m@)
                    &&& valid_utf8(bytes@)
                    &&& n == extracted_links(decode_utf8(bytes@), page_url@).len()
                    &&& final(self).frontier.queue_view() == old(self).frontier.queue_view()
                        + offered(
                        extracted_links(decode_utf8(bytes@), page_url@),
                        old(self).includes.deep_view(),
                        old(self).excludes.deep_view(),
                    )
                },
            },
    {
        let mime = classify_bytes(bytes);
        self.handle_classified(page_url, bytes, mime)
    }

    /// Handles a stored document whose MIME type is already known.  Only a
    /// text-family document is scanned; a non-text or non-UTF-8 one is kept
    /// on disk and contributes nothing.  Every extracted link that is
    /// parseable and in scope is queued, in extraction order.
    pub fn handle_classified(&mut self, page_url: &str, bytes: &Vec<u8>, mime: String) -> (r:
        DocOutcome)
        ensures
            final(self).frontier.visited_view() == old(self).frontier.visited_view(),
            final(self).site_root@ == old(self).site_root@,
            final(self).includes.deep_view() == old(self).includes.deep_view(),
            final(self).excludes.deep_view() == old(self).excludes.deep_view(),
            !is_text_mime(mime@) ==> (r matches DocOutcome::NonText(m) && m@ == mime@)
                && final(self).frontier.queue_view() == old(self).frontier.queue_view(),
            is_text_mime(mime@) && !valid_utf8(bytes@) ==> r is Unreadable
                && final(self).frontier.queue_view() == old(self).frontier.queue_view(),
            is_text_mime(mime@) && valid_utf8(bytes@) ==> (r matches DocOutcome::Extracted(m, n)
                && m@ == mime@ && n == extracted_links(decode_utf8(bytes@), page_url@).len())
                && final(self).frontier.queue_view() == old(self).frontier.queue_view() + offered(
                extracted_links(decode_utf8(bytes@), page_url@),
                old(self).includes.deep_view(),
                old(self).excludes.deep_view(),
            ),
    {
        if !text_mime(mime.as_str()) {
            return DocOutcome::NonText(mime);
        }
        let text = match utf8_string(bytes) {
            None => {
                return DocOutcome::Unreadable;
            },
            Some(t) => t,
        };
        let links = extract_links(text.as_str(), page_url);
        let n = links.len();
        let ghost ls = links.deep_view();
        let ghost inc0 = old(self).includes.deep_view();
        let ghost exc0 = old(self).excludes.deep_view();
        let mut i: usize = 0;
        proof {
            assert(ls.skip(0) =~= ls);
        }
        while i < links.len()
            invariant
                i <= ls.len(),
                ls == links.deep_view(),
                links@.len() == ls.len(),
                inc0 == old(self).includes.deep_view(),
                exc0 == old(self).excludes.deep_view(),
                self.frontier.queue_view() + offered(ls.skip(i as int), inc0, exc0) == old(
                    self,
                ).frontier.queue_view() + offered(ls, inc0, exc0),
                self.frontier.visited_view() == old(self).frontier.visited_view(),
                self.site_root@ == old(self).site_root@,
                self.includes.deep_view() == old(self).includes.deep_view(),
                self.excludes.deep_view() == old(self).excludes.deep_view(),
            decreases ls.len() - i,
        {
            let ghost rest = ls.skip(i as int);
            let ghost qb = self.frontier.queue_view();
            proof {
                assert(rest[0] == ls[i as int]);
                assert(ls[i as int] == links@[i as int]@);
                assert(rest.drop_first() =~= ls.skip(i as int + 1));
            }
            let link = links[i].clone();
            if in_scope(link.as_str(), &self.includes, &self.excludes) {
                let pushed = self.enqueue_candidate(link);
                proof {
                    if pushed {
                        assert(offer_link(rest[0], inc0, exc0));
                        assert(offered(rest, inc0, exc0) == seq![rest[0]] + offered(
                            rest.drop_first(),
                            inc0,
                            exc0,
                        ));
                        assert(self.frontier.queue_view() =~= qb.push(rest[0]));
                        assert(qb.push(rest[0]) + offered(ls.skip(i as int + 1), inc0, exc0) =~= qb
                            + (seq![rest[0]] + offered(ls.skip(i as int + 1), inc0, exc0)));
                    } else {
                        assert(!offer_link(rest[0], inc0, exc0));
                        assert(offered(rest, inc0, exc0) == offered(
                            rest.drop_first(),
                            inc0,
                            exc0,
                        ));
                    }
                }
            } else {
                proof {
                    assert(!offer_link(rest[0], inc0, exc0));
                    assert(offered(rest, inc0, exc0) == offered(rest.drop_first(), inc0, exc0));
                }
            }
            i = i + 1;
        }
        proof {
            assert(ls.skip(ls.len() as int) =~= Seq::<Seq<char>>::empty());
            assert(self.frontier.queue_view() + Seq::<Seq<char>>::empty()
                =~= self.frontier.queue_view());
        }
        DocOutcome::Extracted(mime, n)
    }
}

} // verus!
