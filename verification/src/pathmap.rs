//! The path mapper: derives the local storage path of a URL relative to the
//! site root.  The first occurrence of the root is removed from the URL, any
//! leading path separators are trimmed, and the remainder is
//! percent-decoded.  A URL equal to the root maps to the empty remainder,
//! for which the fixed file name `index.html` stands in.

use vstd::prelude::*;
use vstd::string::StrSliceExecFns;
use crate::chars::{chars_vec, opt_str_view, string_of};
use crate::percent::{percent_decode_str, percent_decoded_str};

verus! {

/// The first position at or after `i` where `p` occurs in `s`, if any.
pub open spec fn first_occurrence_from(s: Seq<char>, p: Seq<char>, i: int) -> Option<int>
    decreases s.len() + 1 - i,
    when 0 <= i
{
    if i + p.len() > s.len() {
        None
    } else if s.subrange(i, i + p.len() as int) == p {
        Some(i)
    } else {
        first_occurrence_from(s, p, i + 1)
    }
}

/// `s` with the first occurrence of `p` removed; `s` itself when `p` does
/// not occur.
pub open spec fn remove_first(s: Seq<char>, p: Seq<char>) -> Seq<char> {
    match first_occurrence_from(s, p, 0) {
        Some(i) => s.take(i) + s.skip(i + p.len() as int),
        None => s,
    }
}

/// `s` without its leading `/` characters.
pub open spec fn trim_slashes(s: Seq<char>) -> Seq<char>
    decreases s.len(),
{
    if s.len() > 0 && s[0] == '/' {
        trim_slashes(s.drop_first())
    } else {
        s
    }
}

/// The local storage path of `u` relative to `root`: remove the first
/// occurrence of `root`, trim leading separators, percent-decode the
/// remainder, and let the empty remainder mean `index.html`.  `None` when
/// the remainder percent-decodes to bytes that are not valid UTF-8.
pub open spec fn local_path_spec(u: Seq<char>, root: Seq<char>) -> Option<Seq<char>> {
    match percent_decoded_str(trim_slashes(remove_first(u, root))) {
        Some(d) => Some(
            if d.len() == 0 {
                "index.html"@
            } else {
                d
            },
        ),
        None => None,
    }
}

/// An occurrence reported by `first_occurrence_from` lies at or after the
/// start of the search and fits inside `s`, and `p` stands there.
pub proof fn lemma_first_occurrence_bounds(s: Seq<char>, p: Seq<char>, j: int, i: int)
    requires
        0 <= j,
        first_occurrence_from(s, p, j) == Some(i),
    ensures
        j <= i,
        i + p.len() <= s.len(),
        s.subrange(i, i + p.len() as int) == p,
    decreases s.len() + 1 - j,
{
    if j + p.len() > s.len() {
    } else if s.subrange(j, j + p.len() as int) == p {
    } else {
        lemma_first_occurrence_bounds(s, p, j + 1, i);
    }
}

/// Whether `p@` occurs in `s@` at position `i`.
fn match_at(s: &Vec<char>, p: &Vec<char>, i: usize) -> (r: bool)
    requires
        i + p@.len() <= s@.len(),
    ensures
        r == (s@.subrange(i as int, i as int + p@.len() as int) == p@),
{
    let ghost w = s@.subrange(i as int, i as int + p@.len() as int);
    let n = s.len();
    let mut k: usize = 0;
    while k < p.len()
        invariant
            n == s@.len(),
            i + p@.len() <= s@.len(),
            k <= p@.len(),
            w == s@.subrange(i as int, i as int + p@.len() as int),
            forall|j: int| 0 <= j < k ==> w[j] == p@[j],
        decreases p@.len() - k,
    {
        if s[i + k] != p[k] {
            proof {
                assert(w[k as int] != p@[k as int]);
            }
            return false;
        }
        k = k + 1;
    }
    proof {
        assert(w =~= p@);
    }
    true
}

/// The first position where `p@` occurs in `s@`, if any.
pub fn find_first(s: &Vec<char>, p: &Vec<char>) -> (r: Option<usize>)
    ensures
        match r {
            Some(i) => Some(i as int) == first_occurrence_from(s@, p@, 0),
            None => first_occurrence_from(s@, p@, 0) is None,
        },
{
    if p.len() > s.len() {
        return None;
    }
    if p.len() == 0 {
        proof {
            assert(s@.subrange(0, 0) =~= p@);
        }
        return Some(0);
    }
    let mut i: usize = 0;
    while i <= s.len() - p.len()
        invariant
            1 <= p@.len() <= s@.len(),
            i <= s@.len() - p@.len() + 1,
            first_occurrence_from(s@, p@, 0) == first_occurrence_from(s@, p@, i as int),
        decreases s@.len() - i,
    {
        if match_at(s, p, i) {
            return Some(i);
        }
        i = i + 1;
    }
    None
}

/// `s@` with the first occurrence of `p@` removed.
pub fn remove_first_occurrence(s: &Vec<char>, p: &Vec<char>) -> (r: Vec<char>)
    ensures
        r@ == remove_first(s@, p@),
{
    let mut out: Vec<char> = Vec::new();
    match find_first(s, p) {
        Some(i) => {
            proof {
                lemma_first_occurrence_bounds(s@, p@, 0, i as int);
            }
            let n = s.len();
            let mut k: usize = 0;
            while k < i
                invariant
                    i <= s@.len(),
                    k <= i,
                    out@ == s@.take(k as int),
                decreases i - k,
            {
                out.push(s[k]);
                k = k + 1;
                proof {
                    assert(s@.take(k as int) =~= s@.take(k - 1).push(s@[k - 1]));
                }
            }
            let mut k2: usize = i + p.len();
            proof {
                assert(out@ + s@.skip(k2 as int).take(0) =~= s@.take(i as int));
            }
            while k2 < s.len()
                invariant
                    i + p@.len() <= k2 <= s@.len() || k2 == i + p@.len(),
                    i + p@.len() <= s@.len(),
                    k2 <= s@.len(),
                    out@ == s@.take(i as int) + s@.skip(i as int + p@.len() as int).take(
                        k2 - i - p@.len(),
                    ),
                decreases s@.len() - k2,
    {
                out.push(s[k2]);
                k2 = k2 + 1;
                proof {
                    let base = s@.skip(i as int + p@.len() as int);
                    assert(base.take(k2 - i - p@.len()) =~= base.take(k2 - 1 - i - p@.len()).push(
                        base[k2 - 1 - i - p@.len()]));
                    assert(base[k2 - 1 - i - p@.len()] == s@[k2 - 1]);
                    assert(out@ =~= s@.take(i as int) + base.take(k2 - i - p@.len()));
                }
            }
            proof {
                let base = s@.skip(i as int + p@.len() as int);
                assert(base.take(s@.len() - i - p@.len()) =~= base);
            }
            out
        },
        None => {
            let mut k: usize = 0;
            while k < s.len()
                invariant
                    k <= s@.len(),
                    out@ == s@.take(k as int),
                decreases s@.len() - k,
            {
                out.push(s[k]);
                k = k + 1;
                proof {
                    assert(s@.take(k as int) =~= s@.take(k - 1).push(s@[k - 1]));
                }
            }
            proof {
                assert(s@.take(s@.len() as int) =~= s@);
            }
            out
        },
    }
}

/// `s@` without its leading `/` characters.
pub fn trim_leading_slashes(s: &Vec<char>) -> (r: Vec<char>)
    ensures
        r@ == trim_slashes(s@),
{
    let mut i: usize = 0;
    proof {
        assert(s@.skip(0) =~= s@);
    }
    while i < s.len() && s[i] == '/'
        invariant
            i <= s@.len(),
            trim_slashes(s@) == trim_slashes(s@.skip(i as int)),
        decreases s@.len() - i,
    {
        i = i + 1;
        proof {
            assert(s@.skip(i - 1).drop_first() =~= s@.skip(i as int));
        }
    }
    let mut out: Vec<char> = Vec::new();
    let mut k: usize = i;
    while k < s.len()
        invariant
            i <= k <= s@.len(),
            out@ == s@.skip(i as int).take(k - i),
        decreases s@.len() - k,
    {
        out.push(s[k]);
        k = k + 1;
        proof {
            let base = s@.skip(i as int);
            assert(base.take(k - i) =~= base.take(k - 1 - i).push(base[k - 1 - i]));
        }
    }
    proof {
        assert(s@.skip(i as int).take(s@.len() - i) =~= s@.skip(i as int));
        assert(trim_slashes(s@.skip(i as int)) == s@.skip(i as int));
    }
    out
}

/// The local storage path of `url` relative to `site_root`; `None` when the
/// percent-decoded remainder is not valid UTF-8.
pub fn to_local_path(url: &str, site_root: &str) -> (r: Option<String>)
    ensures
        opt_str_view(r) == local_path_spec(url@, site_root@),
{
    let u = chars_vec(url);
    let p = chars_vec(site_root);
    let stripped = remove_first_occurrence(&u, &p);
    let trimmed = trim_leading_slashes(&stripped);
    let rel = string_of(&trimmed);
    match percent_decode_str(rel.as_str()) {
        None => None,
        Some(d) => {
            if d.as_str().unicode_len() == 0 {
                Some("index.html".to_owned())
            } else {
                Some(d)
            }
        },
    }
}

/// LAW: the mapping from a URL and a site root to a local path is a pure
/// function of its two arguments: any two results for the same pair are the
/// same.
pub proof fn lemma_local_path_deterministic(
    u: Seq<char>,
    root: Seq<char>,
    p1: Option<Seq<char>>,
    p2: Option<Seq<char>>,
)
    requires
        p1 == local_path_spec(u, root),
        p2 == local_path_spec(u, root),
    ensures
        p1 == p2,
{
}

} // verus!
