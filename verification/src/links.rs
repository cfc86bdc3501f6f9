//! The link extractor: finds URL-shaped substrings in message text.
//!
//! Text is handled as UTF-8 bytes. A match is
//!
//! > scheme `http://` | `https://` | `ftp://`, then a host — word bytes
//! > (ASCII letters, digits, `_`, `-`) with at least one interior dot — then
//! > a tail of URL bytes ending in a byte that is neither dot, comma nor
//! > colon.
//!
//! Precisely, at a position where a scheme starts: take the longest run of
//! tail bytes after the scheme, cut it back to its last end byte, and accept
//! if what remains starts with one or more word bytes, then a dot, then a
//! word byte, with at least one further byte after that. Matches are
//! non-overlapping and found left to right; scanning resumes right after
//! each match. Every byte of the pattern is ASCII, so working on bytes and
//! working on characters find the same matches.

use vstd::prelude::*;

verus! {

/// A word byte, allowed in a host: ASCII letter, digit, `_` or `-`.
pub open spec fn is_host_byte(b: u8) -> bool {
    ||| 0x30 <= b <= 0x39  // digit
    ||| 0x41 <= b <= 0x5a  // uppercase letter
    ||| 0x61 <= b <= 0x7a  // lowercase letter
    ||| b == 0x5f  // `_`
    ||| b == 0x2d  // `-`
}

/// A tail byte, allowed anywhere after the scheme:
/// word bytes and `. , @ ? ^ = % & : / ~ + #`.
pub open spec fn is_tail_byte(b: u8) -> bool {
    ||| is_host_byte(b)
    ||| b == 0x2e  // `.`
    ||| b == 0x2c  // `,`
    ||| b == 0x40  // `@`
    ||| b == 0x3f  // `?`
    ||| b == 0x5e  // `^`
    ||| b == 0x3d  // `=`
    ||| b == 0x25  // `%`
    ||| b == 0x26  // `&`
    ||| b == 0x3a  // `:`
    ||| b == 0x2f  // `/`
    ||| b == 0x7e  // `~`
    ||| b == 0x2b  // `+`
    ||| b == 0x23  // `#`
}

/// An end byte, allowed as the last byte of a match: any tail byte except
/// dot, comma and colon.
pub open spec fn is_end_byte(b: u8) -> bool {
    is_tail_byte(b) && b != 0x2e && b != 0x2c && b != 0x3a
}

/// Length of the scheme starting at `p`: 7 for `http://`, 8 for `https://`,
/// 6 for `ftp://`, 0 when none starts here.
pub open spec fn scheme_len_at(t: Seq<u8>, p: int) -> int {
    if p + 7 <= t.len() && t[p] == 0x68 && t[p + 1] == 0x74 && t[p + 2] == 0x74 && t[p + 3] == 0x70
        && t[p + 4] == 0x3a && t[p + 5] == 0x2f && t[p + 6] == 0x2f {
        7  // "http://"
    } else if p + 8 <= t.len() && t[p] == 0x68 && t[p + 1] == 0x74 && t[p + 2] == 0x74 && t[p + 3]
        == 0x70 && t[p + 4] == 0x73 && t[p + 5] == 0x3a && t[p + 6] == 0x2f && t[p + 7] == 0x2f {
        8  // "https://"
    } else if p + 6 <= t.len() && t[p] == 0x66 && t[p + 1] == 0x74 && t[p + 2] == 0x70 && t[p + 3]
        == 0x3a && t[p + 4] == 0x2f && t[p + 5] == 0x2f {
        6  // "ftp://"
    } else {
        0
    }
}

/// End of the run of tail bytes that starts at `q`: the first index at or
/// after `q` whose byte is not a tail byte (or the end of the text).
pub open spec fn run_end(t: Seq<u8>, q: int) -> int
    decreases t.len() - q,
    when 0 <= q <= t.len()
{
    if q >= t.len() {
        q
    } else if !is_tail_byte(t[q]) {
        q
    } else {
        run_end(t, q + 1)
    }
}

/// Cut the run `[q, e)` back to just after its last end byte; `q` when it has
/// none.
pub open spec fn cut_to_end_byte(t: Seq<u8>, q: int, e: int) -> int
    decreases e - q,
    when q <= e
{
    if e <= q {
        q
    } else if is_end_byte(t[e - 1]) {
        e
    } else {
        cut_to_end_byte(t, q, e - 1)
    }
}

/// End of the run of word bytes that starts at `q`.
pub open spec fn host_end(t: Seq<u8>, q: int) -> int
    decreases t.len() - q,
    when 0 <= q <= t.len()
{
    if q >= t.len() {
        q
    } else if !is_host_byte(t[q]) {
        q
    } else {
        host_end(t, q + 1)
    }
}

/// The end of the URL-shaped match starting at `p`, if one starts there: the
/// scheme, then the tail-byte run cut back to its last end byte, accepted
/// when its word-byte prefix is non-empty and is followed by a dot, a word
/// byte, and at least one further byte within the match.
pub open spec fn match_end_at(t: Seq<u8>, p: int) -> Option<int> {
    let sl = scheme_len_at(t, p);
    if sl == 0 {
        Option::None
    } else {
        let q = p + sl;
        let k = cut_to_end_byte(t, q, run_end(t, q));
        let h = host_end(t, q);
        if h > q && h + 3 <= k && t[h] == 0x2e && is_host_byte(t[h + 1]) {
            Option::Some(k)
        } else {
            Option::None
        }
    }
}

/// Whether any position of `t` starts a URL-shaped match.
pub open spec fn contains_url(t: Seq<u8>) -> bool {
    exists|p: int| 0 <= p < t.len() && match_end_at(t, p) is Some
}

proof fn lemma_run_end_bounds(t: Seq<u8>, q: int)
    requires
        0 <= q <= t.len(),
    ensures
        q <= run_end(t, q) <= t.len(),
    decreases t.len() - q,
{
    if q < t.len() && is_tail_byte(t[q]) {
        lemma_run_end_bounds(t, q + 1);
    }
}

proof fn lemma_cut_bounds(t: Seq<u8>, q: int, e: int)
    requires
        q <= e,
    ensures
        q <= cut_to_end_byte(t, q, e) <= e,
    decreases e - q,
{
    if e > q && !is_end_byte(t[e - 1]) {
        lemma_cut_bounds(t, q, e - 1);
    }
}

proof fn lemma_host_end_bounds(t: Seq<u8>, q: int)
    requires
        0 <= q <= t.len(),
    ensures
        q <= host_end(t, q) <= t.len(),
    decreases t.len() - q,
{
    if q < t.len() && is_host_byte(t[q]) {
        lemma_host_end_bounds(t, q + 1);
    }
}

/// A match never ends at or before its start, and never past the text.
proof fn lemma_match_end_bounds(t: Seq<u8>, p: int)
    requires
        0 <= p <= t.len(),
    ensures
        match match_end_at(t, p) {
            Option::Some(k) => p < k <= t.len(),
            Option::None => true,
        },
{
    let sl = scheme_len_at(t, p);
    if sl != 0 {
        let q = p + sl;
        lemma_run_end_bounds(t, q);
        lemma_cut_bounds(t, q, run_end(t, q));
        lemma_host_end_bounds(t, q);
    }
}

/// The matches of `t` from position `p` on, leftmost first, each match
/// skipped over before scanning resumes.
pub open spec fn scan_from(t: Seq<u8>, p: int) -> Seq<Seq<u8>>
    decreases t.len() - p,
    when 0 <= p <= t.len()
    via scan_from_decreases
{
    if p >= t.len() {
        Seq::empty()
    } else {
        match match_end_at(t, p) {
            Option::Some(k) => seq![t.subrange(p, k)] + scan_from(t, k),
            Option::None => scan_from(t, p + 1),
        }
    }
}

#[via_fn]
proof fn scan_from_decreases(t: Seq<u8>, p: int) {
    if 0 <= p < t.len() {
        lemma_match_end_bounds(t, p);
    }
}

/// All URL-shaped matches of `t`, in order of appearance.
pub open spec fn url_matches(t: Seq<u8>) -> Seq<Seq<u8>> {
    scan_from(t, 0)
}

proof fn lemma_scan_from_empty_iff(t: Seq<u8>, p: int)
    requires
        0 <= p <= t.len(),
    ensures
        scan_from(t, p).len() == 0 <==> (forall|q: int|
            p <= q < t.len() ==> match_end_at(t, q) is None),
    decreases t.len() - p,
{
    if p < t.len() {
        lemma_match_end_bounds(t, p);
        match match_end_at(t, p) {
            Option::Some(k) => {},
            Option::None => {
                lemma_scan_from_empty_iff(t, p + 1);
            },
        }
    }
}

/// Law: the scan yields no matches exactly when no position of the text
/// starts a URL-shaped match — a message without URL-shaped substrings
/// yields no candidate links, so nothing downstream has anything to look up,
/// record or report.
pub proof fn lemma_no_url_no_matches(t: Seq<u8>)
    ensures
        url_matches(t).len() == 0 <==> !contains_url(t),
{
    lemma_scan_from_empty_iff(t, 0);
}

/// Whether a word byte: see `is_host_byte`.
fn byte_is_host(b: u8) -> (r: bool)
    ensures
        r == is_host_byte(b),
{
    (0x30 <= b && b <= 0x39) || (0x41 <= b && b <= 0x5a) || (0x61 <= b && b <= 0x7a) || b == 0x5f
        || b == 0x2d
}

/// Whether a tail byte: see `is_tail_byte`.
fn byte_is_tail(b: u8) -> (r: bool)
    ensures
        r == is_tail_byte(b),
{
    byte_is_host(b) || b == 0x2e || b == 0x2c || b == 0x40 || b == 0x3f || b == 0x5e || b == 0x3d
        || b == 0x25 || b == 0x26 || b == 0x3a || b == 0x2f || b == 0x7e || b == 0x2b || b == 0x23
}

/// Whether an end byte: see `is_end_byte`.
fn byte_is_end(b: u8) -> (r: bool)
    ensures
        r == is_end_byte(b),
{
    byte_is_tail(b) && b != 0x2e && b != 0x2c && b != 0x3a
}

/// Length of the scheme starting at `p`, executably.
fn scheme_len(t: &Vec<u8>, p: usize) -> (r: usize)
    requires
        p <= t@.len(),
    ensures
        r == scheme_len_at(t@, p as int),
{
    let n = t.len();
    if n >= 7 && p <= n - 7 && t[p] == 0x68 && t[p + 1] == 0x74 && t[p + 2] == 0x74 && t[p + 3]
        == 0x70 && t[p + 4] == 0x3a && t[p + 5] == 0x2f && t[p + 6] == 0x2f {
        7
    } else if n >= 8 && p <= n - 8 && t[p] == 0x68 && t[p + 1] == 0x74 && t[p + 2] == 0x74 && t[p
        + 3] == 0x70 && t[p + 4] == 0x73 && t[p + 5] == 0x3a && t[p + 6] == 0x2f && t[p + 7]
        == 0x2f {
        8
    } else if n >= 6 && p <= n - 6 && t[p] == 0x66 && t[p + 1] == 0x74 && t[p + 2] == 0x70 && t[p
        + 3] == 0x3a && t[p + 4] == 0x2f && t[p + 5] == 0x2f {
        6
    } else {
        0
    }
}

/// End of the tail-byte run starting at `q`, executably.
fn run_end_from(t: &Vec<u8>, q: usize) -> (r: usize)
    requires
        q <= t@.len(),
    ensures
        r == run_end(t@, q as int),
        q <= r <= t@.len(),
{
    let mut i: usize = q;
    while i < t.len() && byte_is_tail(t[i])
        invariant
            q <= i <= t@.len(),
            run_end(t@, q as int) == run_end(t@, i as int),
        decreases t@.len() - i,
    {
        i = i + 1;
    }
    i
}

/// Cut `[q, e)` back to just after its last end byte, executably.
fn cut_from(t: &Vec<u8>, q: usize, e: usize) -> (r: usize)
    requires
        q <= e <= t@.len(),
    ensures
        r == cut_to_end_byte(t@, q as int, e as int),
        q <= r <= e,
{
    let mut i: usize = e;
    while i > q && !byte_is_end(t[i - 1])
        invariant
            q <= i <= e <= t@.len(),
            cut_to_end_byte(t@, q as int, e as int) == cut_to_end_byte(t@, q as int, i as int),
        decreases i,
    {
        i = i - 1;
    }
    i
}

/// End of the word-byte run starting at `q`, executably.
fn host_end_from(t: &Vec<u8>, q: usize) -> (r: usize)
    requires
        q <= t@.len(),
    ensures
        r == host_end(t@, q as int),
        q <= r <= t@.len(),
{
    let mut i: usize = q;
    while i < t.len() && byte_is_host(t[i])
        invariant
            q <= i <= t@.len(),
            host_end(t@, q as int) == host_end(t@, i as int),
        decreases t@.len() - i,
    {
        i = i + 1;
    }
    i
}

/// The end of the URL-shaped match starting at `p`, if one starts there,
/// executably.
fn match_end(t: &Vec<u8>, p: usize) -> (r: Option<usize>)
    requires
        p <= t@.len(),
    ensures
        match r {
            Option::Some(k) => match_end_at(t@, p as int) == Option::Some(k as int) && p < k
                <= t@.len(),
            Option::None => match_end_at(t@, p as int) is None,
        },
{
    proof {
        lemma_match_end_bounds(t@, p as int);
    }
    let sl = scheme_len(t, p);
    if sl == 0 {
        return Option::None;
    }
    let n = t.len();
    proof {
        assert(p + sl <= n);
    }
    let q = p + sl;
    let e = run_end_from(t, q);
    let k = cut_from(t, q, e);
    let h = host_end_from(t, q);
    if h > q && k >= 3 && h <= k - 3 && t[h] == 0x2e && byte_is_host(t[h + 1]) {
        Option::Some(k)
    } else {
        Option::None
    }
}

/// Copy the bytes `[a, b)` of `t` into a fresh vector.
fn copy_range(t: &Vec<u8>, a: usize, b: usize) -> (r: Vec<u8>)
    requires
        a <= b <= t@.len(),
    ensures
        r@ == t@.subrange(a as int, b as int),
{
    let mut r: Vec<u8> = Vec::new();
    let mut i: usize = a;
    while i < b
        invariant
            a <= i <= b <= t@.len(),
            r@ == t@.subrange(a as int, i as int),
        decreases b - i,
    {
        r.push(t[i]);
        proof {
            assert(t@.subrange(a as int, i as int).push(t@[i as int]) =~= t@.subrange(
                a as int,
                i as int + 1,
            ));
        }
        i = i + 1;
    }
    r
}

/// Extract every URL-shaped match of `text`, leftmost first, duplicates
/// included; matches never overlap. The result is empty exactly when the
/// text has no URL-shaped substring.
pub fn extract_links(text: &Vec<u8>) -> (r: Vec<Vec<u8>>)
    ensures
        r.deep_view() == url_matches(text@),
        r@.len() == 0 <==> !contains_url(text@),
{
    let mut out: Vec<Vec<u8>> = Vec::new();
    let mut p: usize = 0;
    while p < text.len()
        invariant
            0 <= p <= text@.len(),
            out.deep_view() + scan_from(text@, p as int) == scan_from(text@, 0),
        decreases text@.len() - p,
    {
        match match_end(text, p) {
            Option::Some(k) => {
                let ghost prev = out.deep_view();
                let m = copy_range(text, p, k);
                out.push(m);
                proof {
                    assert(out.deep_view() =~~= prev.push(text@.subrange(p as int, k as int)));
                    assert(prev.push(text@.subrange(p as int, k as int)) + scan_from(
                        text@,
                        k as int,
                    ) =~~= prev + scan_from(text@, p as int));
                }
                p = k;
            },
            Option::None => {
                p = p + 1;
            },
        }
    }
    proof {
        assert(out.deep_view() + scan_from(text@, p as int) =~~= out.deep_view());
        assert(out.deep_view().len() == out@.len());
        lemma_no_url_no_matches(text@);
    }
    out
}

} // verus!
