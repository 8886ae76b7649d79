//! The scope policy: a URL is eligible for crawling iff it starts with at
//! least one include prefix and with no exclude prefix.  Matching is literal
//! prefix comparison on the decoded URL string; the order of the entries
//! never affects the result, because the policy is a pure conjunction of a
//! disjunction (includes) and a negated disjunction (excludes), not a
//! first-match rule.

use vstd::prelude::*;
use crate::chars::str_starts_with;
use crate::outside::{decode_entities, entity_decoded};
use crate::percent::{percent_decode_str, percent_decoded_str};

verus! {

/// The normalization applied to a URL before scope comparison:
/// percent-decode first, then HTML-entity-decode, since a discovered href
/// may carry either encoding.  `None` when either step fails.
pub open spec fn normalized_for_scope(u: Seq<char>) -> Option<Seq<char>> {
    match percent_decoded_str(u) {
        Some(p) => entity_decoded(p),
        None => None,
    }
}

/// Some entry of `prefixes` is a prefix of `u`.
pub open spec fn matches_any(u: Seq<char>, prefixes: Seq<Seq<char>>) -> bool {
    exists|i: int| 0 <= i < prefixes.len() && (#[trigger] prefixes[i]).is_prefix_of(u)
}

/// The scope policy, as a predicate on the decoded URL string.
pub open spec fn in_scope_spec(
    u: Seq<char>,
    includes: Seq<Seq<char>>,
    excludes: Seq<Seq<char>>,
) -> bool {
    matches_any(u, includes) && !matches_any(u, excludes)
}

/// Whether some entry of `prefixes` is a prefix of `url`.
pub fn matches_any_prefix(url: &str, prefixes: &Vec<String>) -> (r: bool)
    ensures
        r == matches_any(url@, prefixes.deep_view()),
{
    let ghost ps = prefixes.deep_view();
    let mut i: usize = 0;
    while i < prefixes.len()
        invariant
            ps == prefixes.deep_view(),
            prefixes@.len() == ps.len(),
            i <= ps.len(),
            forall|j: int| 0 <= j < i ==> !(#[trigger] ps[j]).is_prefix_of(url@),
        decreases ps.len() - i,
    {
        proof {
            assert(ps[i as int] == prefixes@[i as int]@);
        }
        if str_starts_with(url, prefixes[i].as_str()) {
            return true;
        }
        i = i + 1;
    }
    false
}

/// The scope decision on an already-decoded URL string: in scope iff some
/// include prefix matches and no exclude prefix matches.
pub fn scope_allows(url: &str, includes: &Vec<String>, excludes: &Vec<String>) -> (r: bool)
    ensures
        r == in_scope_spec(url@, includes.deep_view(), excludes.deep_view()),
{
    let inc = matches_any_prefix(url, includes);
    if !inc {
        return false;
    }
    let exc = matches_any_prefix(url, excludes);
    !exc
}

/// The full scope filter: normalize the URL, then apply the policy.  A URL
/// whose normalization fails is treated as out of scope and dropped.
pub fn in_scope(url: &str, includes: &Vec<String>, excludes: &Vec<String>) -> (r: bool)
    ensures
        r == match normalized_for_scope(url@) {
            Some(d) => in_scope_spec(d, includes.deep_view(), excludes.deep_view()),
            None => false,
        },
{
    match percent_decode_str(url) {
        None => false,
        Some(p) => match decode_entities(p.as_str()) {
            None => false,
            Some(d) => scope_allows(d.as_str(), includes, excludes),
        },
    }
}

/// LAW: the policy is a conjunction.  `in_scope` holds iff at least one
/// include prefix matches and no exclude prefix matches.
pub proof fn lemma_in_scope_conjunction(u: Seq<char>, inc: Seq<Seq<char>>, exc: Seq<Seq<char>>)
    ensures
        in_scope_spec(u, inc, exc) <==> (matches_any(u, inc) && !matches_any(u, exc)),
{
}

/// LAW: the order of the entries of a prefix list never affects whether one
/// of them matches; two lists with the same entries decide alike.
pub proof fn lemma_order_irrelevant(u: Seq<char>, ps: Seq<Seq<char>>, qs: Seq<Seq<char>>)
    requires
        ps.to_multiset() == qs.to_multiset(),
    ensures
        matches_any(u, ps) == matches_any(u, qs),
{
    broadcast use vstd::seq_lib::group_to_multiset_ensures;

    if matches_any(u, ps) {
        let i = choose|i: int| 0 <= i < ps.len() && (#[trigger] ps[i]).is_prefix_of(u);
        assert(ps.contains(ps[i]));
        assert(qs.to_multiset().count(ps[i]) > 0);
        assert(qs.contains(ps[i]));
        let j = choose|j: int| 0 <= j < qs.len() && qs[j] == ps[i];
        assert(matches_any(u, qs));
    }
    if matches_any(u, qs) {
        let i = choose|i: int| 0 <= i < qs.len() && (#[trigger] qs[i]).is_prefix_of(u);
        assert(qs.contains(qs[i]));
        assert(ps.to_multiset().count(qs[i]) > 0);
        assert(ps.contains(qs[i]));
        let j = choose|j: int| 0 <= j < ps.len() && ps[j] == qs[i];
        assert(matches_any(u, ps));
    }
}

/// LAW: adding a prefix to the excludes can only turn an in-scope URL into an
/// out-of-scope one, never the reverse.
pub proof fn lemma_exclude_monotone(
    u: Seq<char>,
    inc: Seq<Seq<char>>,
    exc: Seq<Seq<char>>,
    e: Seq<char>,
)
    ensures
        in_scope_spec(u, inc, exc.push(e)) ==> in_scope_spec(u, inc, exc),
{
    if in_scope_spec(u, inc, exc.push(e)) {
        assert forall|i: int| 0 <= i < exc.len() implies !(#[trigger] exc[i]).is_prefix_of(u) by {
            assert(exc.push(e)[i] == exc[i]);
        }
    }
}

} // verus!
