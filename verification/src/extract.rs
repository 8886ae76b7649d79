//! The link extractor: a textual scan of a document for double-quoted
//! `href="..."` attribute values.  Each captured value is entity-decoded;
//! fragment-only references (starting with `#`) are discarded; the rest are
//! resolved against the page's own URL into absolute URLs.  The scan is
//! deliberately textual, not structural: values inside comments or scripts
//! are found too, as the design accepts.

use vstd::prelude::*;
use vstd::string::StrSliceExecFns;
use crate::chars::{chars_vec, opt_str_view, string_of};
use crate::outside::{decode_entities, entity_decoded, resolve_url, url_resolved};

verus! {

/// The six characters that open an href attribute value.
pub open spec fn href_open() -> Seq<char> {
    seq!['h', 'r', 'e', 'f', '=', '"']
}

/// Whether an href value opens at position `i` of `t`.
pub open spec fn open_at(t: Seq<char>, i: int) -> bool {
    0 <= i && i + 6 <= t.len() && t.subrange(i, i + 6) == href_open()
}

/// The position of the first `"` at or after `from`, or the length of `t`
/// when there is none.
pub open spec fn close_from(t: Seq<char>, from: int) -> int
    decreases t.len() + 1 - from,
    when 0 <= from
{
    if from >= t.len() {
        t.len() as int
    } else if t[from] == '"' {
        from
    } else {
        close_from(t, from + 1)
    }
}

/// The successive non-empty double-quoted href values of `t`, scanning left
/// to right from position `i`; matches do not overlap, and an opening whose
/// value would be empty or unterminated captures nothing.
pub open spec fn captures_from(t: Seq<char>, i: int) -> Seq<Seq<char>>
    decreases t.len() + 1 - i,
    when 0 <= i
{
    if i + 6 > t.len() {
        Seq::empty()
    } else if open_at(t, i) {
        let e = close_from(t, i + 6);
        if e < t.len() && e > i + 6 {
            seq![t.subrange(i + 6, e)] + captures_from(t, e + 1)
        } else {
            captures_from(t, i + 1)
        }
    } else {
        captures_from(t, i + 1)
    }
}

/// All captured href values of `t`.
pub open spec fn href_captures(t: Seq<char>) -> Seq<Seq<char>> {
    captures_from(t, 0)
}

/// The absolute link one captured href value contributes against `base`:
/// entity-decode the value, discard it when it is a fragment-only reference,
/// otherwise resolve it; `None` also when decoding or resolution fails.
pub open spec fn link_of(base: Seq<char>, h: Seq<char>) -> Option<Seq<char>> {
    match entity_decoded(h) {
        Some(d) => if d.len() > 0 && d[0] == '#' {
            None
        } else {
            url_resolved(base, d)
        },
        None => None,
    }
}

/// The absolute links that the captured values `caps` contribute against
/// `base`, in order, with the discarded ones left out.
pub open spec fn links_from(base: Seq<char>, caps: Seq<Seq<char>>) -> Seq<Seq<char>>
    decreases caps.len(),
{
    if caps.len() == 0 {
        Seq::empty()
    } else {
        match link_of(base, caps[0]) {
            Some(u) => seq![u] + links_from(base, caps.drop_first()),
            None => links_from(base, caps.drop_first()),
        }
    }
}

/// The absolute links extracted from the document text `text` whose own URL
/// is `base`.
pub open spec fn extracted_links(text: Seq<char>, base: Seq<char>) -> Seq<Seq<char>> {
    links_from(base, href_captures(text))
}

/// The position of the first `"` in `t@` at or after `from`, or `t@.len()`.
fn find_close(t: &Vec<char>, from: usize) -> (r: usize)
    requires
        from <= t@.len(),
    ensures
        r as int == close_from(t@, from as int),
        from <= r <= t@.len(),
{
    let mut j = from;
    while j < t.len() && t[j] != '"'
        invariant
            from <= j <= t@.len(),
            close_from(t@, from as int) == close_from(t@, j as int),
        decreases t@.len() - j,
    {
        j = j + 1;
    }
    proof {
        if j < t@.len() {
            assert(close_from(t@, j as int) == j as int);
        }
    }
    j
}

/// Whether an href value opens at position `i` of `t@`.
fn open_at_exec(t: &Vec<char>, i: usize) -> (r: bool)
    requires
        i + 6 <= t@.len(),
    ensures
        r == open_at(t@, i as int),
{
    let n = t.len();
    let r = t[i] == 'h' && t[i + 1] == 'r' && t[i + 2] == 'e' && t[i + 3] == 'f' && t[i + 4] == '='
        && t[i + 5] == '"';
    proof {
        let sub = t@.subrange(i as int, i as int + 6);
        assert(sub.len() == 6);
        assert(sub[0] == t@[i as int] && sub[1] == t@[i as int + 1] && sub[2] == t@[i as int + 2]
            && sub[3] == t@[i as int + 3] && sub[4] == t@[i as int + 4] && sub[5] == t@[i as int
            + 5]);
        assert(href_open()[0] == 'h' && href_open()[1] == 'r' && href_open()[2] == 'e'
            && href_open()[3] == 'f' && href_open()[4] == '=' && href_open()[5] == '"');
        if r {
            assert(sub =~= href_open());
        }
        if sub == href_open() {
            assert(t@[i as int] == 'h' && t@[i as int + 1] == 'r' && t@[i as int + 2] == 'e' && t@[
                i as int + 3] == 'f' && t@[i as int + 4] == '=' && t@[i as int + 5] == '"');
        }
    }
    r
}

/// The captured href values of `t@`, as strings, in scan order.
pub fn scan_hrefs(t: &Vec<char>) -> (r: Vec<String>)
    ensures
        r.deep_view() == href_captures(t@),
{
    let mut out: Vec<String> = Vec::new();
    let mut i: usize = 0;
    proof {
        assert(out.deep_view() + captures_from(t@, 0) =~= captures_from(t@, 0));
    }
    while t.len() - i >= 6
        invariant
            i <= t@.len(),
            href_captures(t@) == out.deep_view() + captures_from(t@, i as int),
        decreases t@.len() - i,
    {
        let ghost out0 = out.deep_view();
        let ghost j = i as int;
        if open_at_exec(t, i) {
            let e = find_close(t, i + 6);
            if e < t.len() && e > i + 6 {
                let mut cap: Vec<char> = Vec::new();
                let mut k = i + 6;
                proof {
                    assert(cap@ =~= t@.subrange(j + 6, j + 6));
                }
                while k < e
                    invariant
                        i + 6 <= k <= e <= t@.len(),
                        cap@ == t@.subrange(i + 6, k as int),
                    decreases e - k,
                {
                    cap.push(t[k]);
                    k = k + 1;
                    proof {
                        assert(t@.subrange(i as int + 6, k as int) =~= t@.subrange(
                            i as int + 6,
                            k - 1,
                        ).push(t@[k - 1]));
                    }
                }
                let s = string_of(&cap);
                out.push(s);
                i = e + 1;
                proof {
                    assert(captures_from(t@, j) == seq![t@.subrange(j + 6, close_from(t@, j + 6))]
                        + captures_from(t@, close_from(t@, j + 6) + 1));
                    assert(out.deep_view() =~= out0 + seq![t@.subrange(j + 6, e as int)]);
                    assert((out0 + seq![t@.subrange(j + 6, e as int)]) + captures_from(
                        t@,
                        i as int,
                    ) =~= out0 + (seq![t@.subrange(j + 6, e as int)] + captures_from(t@, i as int)));
                }
            } else {
                i = i + 1;
                proof {
                    assert(captures_from(t@, j) == captures_from(t@, j + 1));
                }
            }
        } else {
            i = i + 1;
            proof {
                assert(captures_from(t@, j) == captures_from(t@, j + 1));
            }
        }
    }
    proof {
        assert(captures_from(t@, i as int) == Seq::<Seq<char>>::empty());
        assert(out.deep_view() + Seq::<Seq<char>>::empty() =~= out.deep_view());
    }
    out
}

/// The absolute link one href value contributes against `base`, or `None`
/// when it is discarded.
pub fn link_for(base: &str, h: &str) -> (r: Option<String>)
    ensures
        opt_str_view(r) == link_of(base@, h@),
{
    match decode_entities(h) {
        None => None,
        Some(d) => {
            if !d.as_str().is_empty() && d.as_str().get_char(0) == '#' {
                None
            } else {
                resolve_url(base, d.as_str())
            }
        },
    }
}

/// The absolute links of the captured values `caps` against `base`.
pub fn resolve_links(base: &str, caps: &Vec<String>) -> (r: Vec<String>)
    ensures
        r.deep_view() == links_from(base@, caps.deep_view()),
{
    let mut out: Vec<String> = Vec::new();
    let mut i: usize = 0;
    proof {
        assert(caps.deep_view().skip(0) =~= caps.deep_view());
        assert(out.deep_view() + links_from(base@, caps.deep_view()) =~= links_from(
            base@,
            caps.deep_view(),
        ));
    }
    while i < caps.len()
        invariant
            i <= caps@.len(),
            caps@.len() == caps.deep_view().len(),
            links_from(base@, caps.deep_view()) == out.deep_view() + links_from(
                base@,
                caps.deep_view().skip(i as int),
            ),
        decreases caps@.len() - i,
    {
        let ghost out0 = out.deep_view();
        let ghost rest = caps.deep_view().skip(i as int);
        proof {
            assert(rest[0] == caps.deep_view()[i as int]);
            assert(caps.deep_view()[i as int] == caps@[i as int]@);
            assert(rest.drop_first() =~= caps.deep_view().skip(i as int + 1));
        }
        match link_for(base, caps[i].as_str()) {
            Some(u) => {
                let ghost uv = u@;
                out.push(u);
                proof {
                    assert(links_from(base@, rest) == seq![uv] + links_from(
                        base@,
                        rest.drop_first(),
                    ));
                    assert(out.deep_view() =~= out0 + seq![uv]);
                    assert((out0 + seq![uv]) + links_from(base@, rest.drop_first()) =~= out0 + (
                    seq![uv] + links_from(base@, rest.drop_first())));
                }
            },
            None => {
                proof {
                    assert(links_from(base@, rest) == links_from(base@, rest.drop_first()));
                }
            },
        }
        i = i + 1;
    }
    proof {
        assert(caps.deep_view().skip(caps.deep_view().len() as int) =~= Seq::<Seq<char>>::empty());
        assert(out.deep_view() + Seq::<Seq<char>>::empty() =~= out.deep_view());
    }
    out
}

/// The absolute links extracted from `text`, resolved against the page's
/// own URL `base_url`, in the order the scan finds them.
pub fn extract_links(text: &str, base_url: &str) -> (r: Vec<String>)
    ensures
        r.deep_view() == extracted_links(text@, base_url@),
{
    let t = chars_vec(text);
    let caps = scan_hrefs(&t);
    resolve_links(base_url, &caps)
}

/// LAW: a fragment-only href value (its decoded form starts with `#`)
/// contributes no link, whatever the base URL.
pub proof fn lemma_fragment_never_linked(base: Seq<char>, h: Seq<char>, d: Seq<char>)
    requires
        entity_decoded(h) == Some(d),
        d.len() > 0,
        d[0] == '#',
    ensures
        link_of(base, h) is None,
{
}

} // verus!
