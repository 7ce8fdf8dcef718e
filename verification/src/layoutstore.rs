//! Runtime-imported Oryx layouts: reading the layout id a user enters, and
//! checking that a fetched layout document can be displayed.

use vstd::prelude::*;
use crate::json::{
    json_error_of, json_of, parse_json, as_array, as_text, get_array, get_member, get_path, get_text, index, pointer, Json,
};
use crate::text::{
    all_alphanumeric, all_alphanumeric_in, alphanumeric, any_alphanumeric, any_alphanumeric_in,
    chars_of, copy_range, decimal, is_quote, is_space, push_decimal, starts_with, strip,
    strip_bounds, strip_end, strip_start, substring, whitespace,
};

verus! {

/// The marker that precedes the layout id in a full Oryx URL.
pub open spec fn layouts_marker() -> Seq<char> {
    "/layouts/"@
}

/// The first position at or after `i` where `pat` occurs in `s`.
pub open spec fn find_from(s: Seq<char>, pat: Seq<char>, i: int) -> Option<int>
    decreases s.len() + 1 - i,
{
    if i < 0 || i + pat.len() > s.len() {
        None
    } else if s.subrange(i, i + pat.len()) == pat {
        Some(i)
    } else {
        find_from(s, pat, i + 1)
    }
}

/// What follows the first `/layouts/` in `s`, or all of `s` where there is none.
pub open spec fn source_path(s: Seq<char>) -> Seq<char> {
    match find_from(s, layouts_marker(), 0) {
        Some(k) => s.skip(k + layouts_marker().len()),
        None => s,
    }
}

/// The first position at or after `i` that does not hold a `/`.
pub open spec fn segment_start(s: Seq<char>, i: int) -> int
    decreases s.len() - i,
{
    if 0 <= i < s.len() && s[i] == '/' {
        segment_start(s, i + 1)
    } else {
        i
    }
}

/// The first position at or after `i` that holds a `/` (or the end of `s`).
pub open spec fn segment_end(s: Seq<char>, i: int) -> int
    decreases s.len() - i,
{
    if 0 <= i < s.len() && s[i] != '/' {
        segment_end(s, i + 1)
    } else {
        i
    }
}

/// The error for an input with nothing in it.
pub open spec fn empty_source_error() -> Seq<char> {
    "enter an Oryx layout URL or id"@
}

/// The error for an input that holds only slashes.
pub open spec fn no_id_error() -> Seq<char> {
    "no layout id found"@
}

/// The error for a layout id that is not made of letters and digits.
pub open spec fn bad_id_error(hash: Seq<char>) -> Seq<char> {
    "'"@ + hash + "' does not look like an Oryx layout id"@
}

/// The revision used when the input names none.
pub open spec fn latest() -> Seq<char> {
    "latest"@
}

/// What a layout source reads as: the layout id (hash) and the revision, or
/// the message that says why it reads as neither.
///
/// The input is trimmed of white space, then of double quotes; a full URL is
/// cut after its first `/layouts/`; of the rest, the first non-empty
/// `/`-separated segment is the hash and the second, where it holds a letter or
/// digit, the revision (`latest` otherwise).
pub open spec fn spec_parse_source(source: Seq<char>) -> Result<(Seq<char>, Seq<char>), Seq<char>> {
    let s = strip(strip(source, is_space()), is_quote());
    if s.len() == 0 {
        Err(empty_source_error())
    } else {
        let p = source_path(s);
        let a = segment_start(p, 0);
        if a >= p.len() {
            Err(no_id_error())
        } else {
            let b = segment_end(p, a);
            let hash = p.subrange(a, b);
            let c = segment_start(p, b);
            let d = segment_end(p, c);
            let revision = if c < p.len() && any_alphanumeric(p.subrange(c, d)) {
                p.subrange(c, d)
            } else {
                latest()
            };
            if !all_alphanumeric(hash) {
                Err(bad_id_error(hash))
            } else {
                Ok((hash, revision))
            }
        }
    }
}

proof fn lemma_segment_bounds(s: Seq<char>, i: int)
    requires
        0 <= i <= s.len(),
    ensures
        i <= segment_start(s, i) <= s.len(),
        i <= segment_end(s, i) <= s.len(),
        segment_start(s, i) < s.len() ==> s[segment_start(s, i)] != '/',
    decreases s.len() - i,
{
    if i < s.len() {
        lemma_segment_bounds(s, i + 1);
    }
}

/// Whether `pat` occurs in `s` at position `i`.
fn occurs_at(s: &Vec<char>, pat: &Vec<char>, i: usize) -> (r: bool)
    requires
        i + pat@.len() <= s@.len(),
    ensures
        r == (s@.subrange(i as int, i + pat@.len()) == pat@),
{
    let n = s.len();
    let m = pat.len();
    let mut j: usize = 0;
    while j < m
        invariant
            n == s@.len(),
            m == pat@.len(),
            i + m <= n,
            j <= m,
            forall|k: int| 0 <= k < j ==> s@[i + k] == pat@[k],
        decreases m - j,
    {
        if s[i + j] != pat[j] {
            assert(s@.subrange(i as int, i + m)[j as int] != pat@[j as int]);
            return false;
        }
        j = j + 1;
    }
    assert(s@.subrange(i as int, i + m) =~= pat@);
    true
}

/// The first position where `pat` occurs in `s`.
fn find(s: &Vec<char>, pat: &Vec<char>) -> (r: Option<usize>)
    ensures
        r matches Some(k) ==> find_from(s@, pat@, 0) == Some(k as int),
        r is None ==> find_from(s@, pat@, 0) is None,
{
    let n = s.len();
    let m = pat.len();
    if m > n {
        return None;
    }
    let mut i: usize = 0;
    loop
        invariant
            n == s@.len(),
            m == pat@.len(),
            m <= n,
            i <= n - m,
            find_from(s@, pat@, 0) == find_from(s@, pat@, i as int),
        decreases n - m - i,
    {
        if occurs_at(s, pat, i) {
            return Some(i);
        }
        if i == n - m {
            assert(find_from(s@, pat@, i + 1) is None);
            return None;
        }
        i = i + 1;
    }
}

/// The first position at or after `i` that does not hold a `/`.
fn skip_slashes(p: &Vec<char>, i: usize) -> (r: usize)
    requires
        i <= p@.len(),
    ensures
        r == segment_start(p@, i as int),
{
    let mut k = i;
    while k < p.len() && p[k] == '/'
        invariant
            i <= k <= p@.len(),
            segment_start(p@, i as int) == segment_start(p@, k as int),
        decreases p@.len() - k,
    {
        k = k + 1;
    }
    k
}

/// The first position at or after `i` that holds a `/` (or the end).
fn skip_segment(p: &Vec<char>, i: usize) -> (r: usize)
    requires
        i <= p@.len(),
    ensures
        r == segment_end(p@, i as int),
{
    let mut k = i;
    while k < p.len() && p[k] != '/'
        invariant
            i <= k <= p@.len(),
            segment_end(p@, i as int) == segment_end(p@, k as int),
        decreases p@.len() - k,
    {
        k = k + 1;
    }
    k
}

/// The part of a layout source that holds the id segments, with the position
/// in the source where it starts; `None` where nothing is left after trimming.
fn source_segments(source: &str) -> (r: Option<(Vec<char>, usize)>)
    ensures
        source@.len() <= usize::MAX,
        r is None <==> strip(strip(source@, is_space()), is_quote()).len() == 0,
        r matches Some((p, base)) ==> {
            &&& p@ == source_path(strip(strip(source@, is_space()), is_quote()))
            &&& base + p@.len() <= source@.len()
            &&& p@ == source@.subrange(base as int, base + p@.len())
        },
{
    let cs = chars_of(source);
    let (a0, b0) = strip_bounds(&cs, 0, cs.len(), true);
    let (a1, b1) = strip_bounds(&cs, a0, b0, false);
    assert(cs@.subrange(0, cs@.len() as int) =~= source@);
    let ghost s = strip(strip(source@, is_space()), is_quote());
    assert(cs@.subrange(a1 as int, b1 as int) == s);
    if a1 == b1 {
        return None;
    }
    let st = copy_range(&cs, a1, b1);
    let marker = chars_of("/layouts/");
    match find(&st, &marker) {
        Some(k) => {
            proof {
                lemma_find_in_bounds(st@, marker@, 0);
            }
            let p = copy_range(&st, k + marker.len(), st.len());
            assert(p@ =~= st@.skip(k + marker@.len()));
            assert(p@ =~= source@.subrange(a1 + k + marker@.len(), a1 + k + marker@.len() + p@.len()));
            Some((p, a1 + k + marker.len()))
        },
        None => {
            assert(st@ =~= source@.subrange(a1 as int, a1 + st@.len()));
            Some((st, a1))
        },
    }
}

/// Reads a layout source: a full Oryx URL (`…/ergodox-ez/layouts/<hash>/<revision>/0`),
/// a `<hash>/<revision>` pair, or a bare layout hash (revision `latest`).
pub fn parse_source(source: &str) -> (res: Result<(String, String), String>)
    ensures
        match spec_parse_source(source@) {
            Ok((hash, revision)) => res matches Ok((h, r)) && h@ == hash && r@ == revision,
            Err(e) => res matches Err(m) && m@ == e,
        },
{
    let (p, base) = match source_segments(source) {
        None => {
            return Err(String::from_str("enter an Oryx layout URL or id"));
        },
        Some(found) => found,
    };
    let a = skip_slashes(&p, 0);
    proof {
        lemma_segment_bounds(p@, 0);
    }
    if a >= p.len() {
        return Err(String::from_str("no layout id found"));
    }
    let b = skip_segment(&p, a);
    proof {
        lemma_segment_bounds(p@, a as int);
    }
    let c = skip_slashes(&p, b);
    proof {
        lemma_segment_bounds(p@, b as int);
    }
    let d = skip_segment(&p, c);
    proof {
        lemma_segment_bounds(p@, c as int);
    }
    let hash = substring(source, base + a, base + b);
    assert(hash@ =~= p@.subrange(a as int, b as int));
    let revision = if c < p.len() && any_alphanumeric_in(&p, c, d) {
        let r = substring(source, base + c, base + d);
        assert(r@ =~= p@.subrange(c as int, d as int));
        r
    } else {
        String::from_str("latest")
    };
    if !all_alphanumeric_in(&p, a, b) {
        let mut msg = String::from_str("'");
        msg.append(hash.as_str());
        msg.append("' does not look like an Oryx layout id");
        return Err(msg);
    }
    Ok((hash, revision))
}

proof fn lemma_strip_unchanged(s: Seq<char>, p: spec_fn(char) -> bool)
    requires
        s.len() > 0 ==> !p(s[0]) && !p(s.last()),
    ensures
        strip(s, p) == s,
{
    assert(strip_start(s, p) == s);
    assert(strip_end(s, p) == s);
}

proof fn lemma_find_first(s: Seq<char>, pat: Seq<char>, i: int, k: int)
    requires
        0 <= i <= k,
        k + pat.len() <= s.len(),
        s.subrange(k, k + pat.len()) == pat,
        forall|j: int| i <= j < k ==> #[trigger] s.subrange(j, j + pat.len()) != pat,
    ensures
        find_from(s, pat, i) == Some(k),
    decreases k - i,
{
    if i < k {
        lemma_find_first(s, pat, i + 1, k);
    }
}

proof fn lemma_find_none(s: Seq<char>, pat: Seq<char>, i: int)
    requires
        0 <= i,
        forall|j: int| i <= j && j + pat.len() <= s.len() ==> #[trigger] s.subrange(j, j + pat.len()) != pat,
    ensures
        find_from(s, pat, i) is None,
    decreases s.len() + 1 - i,
{
    if i + pat.len() <= s.len() {
        lemma_find_none(s, pat, i + 1);
    }
}

proof fn lemma_segment_end_at(s: Seq<char>, i: int, j: int)
    requires
        0 <= i <= j <= s.len(),
        forall|k: int| i <= k < j ==> s[k] != '/',
        j == s.len() || s[j] == '/',
    ensures
        segment_end(s, i) == j,
    decreases j - i,
{
    if i < j {
        lemma_segment_end_at(s, i + 1, j);
    }
}

/// No `/layouts/` occurs in `s` where `s` holds at most one slash, at `slash`.
proof fn lemma_no_marker(s: Seq<char>, slash: int)
    requires
        forall|k: int| 0 <= k < s.len() && k != slash ==> s[k] != '/',
    ensures
        find_from(s, layouts_marker(), 0) is None,
{
    reveal_strlit("/layouts/");
    let m = layouts_marker();
    assert forall|j: int| 0 <= j && j + m.len() <= s.len() implies #[trigger] s.subrange(j, j + m.len()) != m by {
        if s.subrange(j, j + m.len()) == m {
            assert(s.subrange(j, j + m.len())[0] == '/');
            assert(s.subrange(j, j + m.len())[8] == '/');
        }
    }
    lemma_find_none(s, m, 0);
}

proof fn lemma_strip_len(s: Seq<char>, p: spec_fn(char) -> bool)
    ensures
        strip_start(s, p).len() <= s.len(),
        strip_end(s, p).len() <= s.len(),
        s.len() > 0 && p(s[0]) ==> strip_start(s, p).len() < s.len(),
        s.len() > 0 && p(s.last()) ==> strip_end(s, p).len() < s.len(),
        s.len() > 0 && !p(s[0]) ==> strip_start(s, p) == s,
        s.len() > 0 && !p(s.last()) ==> strip_end(s, p) == s,
    decreases s.len(),
{
    if s.len() > 0 {
        lemma_strip_len(s.drop_first(), p);
        lemma_strip_len(s.drop_last(), p);
    }
}

/// What stripping leaves unchanged starts and ends with characters it keeps.
proof fn lemma_strip_fixed(s: Seq<char>, p: spec_fn(char) -> bool)
    requires
        strip(s, p).len() == s.len(),
        s.len() > 0,
    ensures
        !p(s[0]),
        !p(s.last()),
        strip(s, p) == s,
{
    lemma_strip_len(s, p);
    lemma_strip_len(strip_start(s, p), p);
    assert(!p(s[0]));
    assert(strip_start(s, p) == s);
    assert(!p(s.last()));
}

proof fn lemma_strip_start_all(a: Seq<char>, b: Seq<char>, p: spec_fn(char) -> bool)
    requires
        forall|i: int| 0 <= i < a.len() ==> p(#[trigger] a[i]),
    ensures
        strip_start(a + b, p) == strip_start(b, p),
    decreases a.len(),
{
    if a.len() == 0 {
        assert(a + b =~= b);
    } else {
        assert((a + b)[0] == a[0]);
        assert((a + b).drop_first() =~= a.drop_first() + b);
        assert forall|i: int| 0 <= i < a.drop_first().len() implies p(#[trigger] a.drop_first()[i]) by {
            assert(a.drop_first()[i] == a[i + 1]);
        }
        lemma_strip_start_all(a.drop_first(), b, p);
    }
}

proof fn lemma_strip_end_all(a: Seq<char>, b: Seq<char>, p: spec_fn(char) -> bool)
    requires
        forall|i: int| 0 <= i < b.len() ==> p(#[trigger] b[i]),
    ensures
        strip_end(a + b, p) == strip_end(a, p),
    decreases b.len(),
{
    if b.len() == 0 {
        assert(a + b =~= a);
    } else {
        assert((a + b).last() == b.last());
        assert((a + b).drop_last() =~= a + b.drop_last());
        assert forall|i: int| 0 <= i < b.drop_last().len() implies p(#[trigger] b.drop_last()[i]) by {
            assert(b.drop_last()[i] == b[i]);
        }
        lemma_strip_end_all(a, b.drop_last(), p);
    }
}

proof fn lemma_strip_start_some(a: Seq<char>, b: Seq<char>, p: spec_fn(char) -> bool, k: int)
    requires
        0 <= k < a.len(),
        !p(a[k]),
    ensures
        strip_start(a + b, p) == strip_start(a, p) + b,
    decreases a.len(),
{
    assert((a + b)[0] == a[0]);
    if p(a[0]) {
        assert((a + b).drop_first() =~= a.drop_first() + b);
        assert(a.drop_first()[k - 1] == a[k]);
        lemma_strip_start_some(a.drop_first(), b, p, k - 1);
    }
}

/// The only slashes in the characters `i..segment_end(s, i)` are none.
proof fn lemma_segment_no_slash(s: Seq<char>, i: int)
    requires
        0 <= i <= s.len(),
    ensures
        forall|k: int| i <= k < segment_end(s, i) ==> s[k] != '/',
        i < s.len() && s[i] != '/' ==> segment_end(s, i) > i,
    decreases s.len() - i,
{
    if i < s.len() && s[i] != '/' {
        lemma_segment_no_slash(s, i + 1);
        lemma_segment_bounds(s, i + 1);
    }
}

/// How the id segments `hash/revision tail` read, where `tail` is empty or
/// starts with a slash.
proof fn lemma_segments(p: Seq<char>, hash: Seq<char>, revision: Seq<char>, tail: Seq<char>)
    requires
        p == hash + seq!['/'] + revision + tail,
        hash.len() > 0,
        all_alphanumeric(hash),
        revision.len() > 0,
        forall|i: int| 0 <= i < revision.len() ==> #[trigger] revision[i] != '/',
        tail.len() == 0 || tail[0] == '/',
    ensures
        segment_start(p, 0) == 0,
        segment_end(p, 0) == hash.len(),
        segment_start(p, hash.len() as int) == hash.len() + 1,
        segment_end(p, (hash.len() + 1) as int) == hash.len() + 1 + revision.len(),
        p.subrange(0, hash.len() as int) == hash,
        p.subrange((hash.len() + 1) as int, (hash.len() + 1 + revision.len()) as int) == revision,
{
    let h = hash.len() as int;
    let r = revision.len() as int;
    assert(p[0] == hash[0]);
    assert(alphanumeric(hash[0]));
    assert forall|k: int| 0 <= k < h implies p[k] != '/' by {
        assert(p[k] == hash[k]);
        assert(alphanumeric(hash[k]));
    }
    assert(p[h] == '/');
    lemma_segment_end_at(p, 0, h);
    assert(p[h + 1] == revision[0]);
    assert(segment_start(p, h + 1) == h + 1);
    assert forall|k: int| h + 1 <= k < h + 1 + r implies p[k] != '/' by {
        assert(p[k] == revision[k - h - 1]);
    }
    if tail.len() > 0 {
        assert(p[h + 1 + r] == tail[0]);
    }
    lemma_segment_end_at(p, h + 1, h + 1 + r);
    assert(p.subrange(0, h) =~= hash);
    assert(p.subrange(h + 1, h + 1 + r) =~= revision);
}

/// A bare layout id reads as that id at its latest revision.
pub proof fn law_bare_id(hash: Seq<char>)
    requires
        hash.len() > 0,
        all_alphanumeric(hash),
    ensures
        spec_parse_source(hash) == Ok::<(Seq<char>, Seq<char>), Seq<char>>((hash, latest())),
{
    assert(alphanumeric(hash[0]));
    assert(alphanumeric(hash.last()));
    lemma_strip_unchanged(hash, is_space());
    lemma_strip_unchanged(hash, is_quote());
    assert forall|k: int| 0 <= k < hash.len() implies hash[k] != '/' by {
        assert(alphanumeric(hash[k]));
    }
    lemma_no_marker(hash, -1);
    assert(source_path(hash) == hash);
    lemma_segment_end_at(hash, 0, hash.len() as int);
    assert(hash.subrange(0, hash.len() as int) =~= hash);
}

/// A `<hash>/<revision>` pair reads as that id and revision, for any id of
/// letters and digits and any revision without a slash that holds a letter
/// or digit (or is `latest`) and does not end in white space or a quote.
pub proof fn law_id_and_revision(hash: Seq<char>, revision: Seq<char>)
    requires
        hash.len() > 0,
        all_alphanumeric(hash),
        revision.len() > 0,
        forall|i: int| 0 <= i < revision.len() ==> #[trigger] revision[i] != '/',
        any_alphanumeric(revision) || revision == latest(),
        !whitespace(revision.last()) && revision.last() != '"',
    ensures
        spec_parse_source(hash + seq!['/'] + revision) == Ok::<(Seq<char>, Seq<char>), Seq<char>>(
            (hash, revision),
        ),
{
    let s = hash + seq!['/'] + revision;
    let h = hash.len() as int;
    assert(s =~= hash + seq!['/'] + revision + Seq::<char>::empty());
    assert(s[0] == hash[0] && alphanumeric(hash[0]));
    assert(s.last() == revision.last());
    lemma_strip_unchanged(s, is_space());
    lemma_strip_unchanged(s, is_quote());
    assert forall|k: int| 0 <= k < s.len() && k != h implies s[k] != '/' by {
        if k < h {
            assert(s[k] == hash[k] && alphanumeric(hash[k]));
        } else {
            assert(s[k] == revision[k - h - 1]);
        }
    }
    lemma_no_marker(s, h);
    lemma_segments(s, hash, revision, Seq::empty());
}

/// What follows the revision segment never changes what a source reads as:
/// `<hash>/<revision><tail>`, with a tail that is empty or starts with a
/// slash (such as the `/0` or `/1` layer of an Oryx URL), reads as that id and
/// revision, wherever the whole holds no `/layouts/` and does not end in white
/// space or a quote.
pub proof fn law_tail_ignored(hash: Seq<char>, revision: Seq<char>, tail: Seq<char>)
    requires
        hash.len() > 0,
        all_alphanumeric(hash),
        revision.len() > 0,
        forall|i: int| 0 <= i < revision.len() ==> #[trigger] revision[i] != '/',
        any_alphanumeric(revision),
        tail.len() == 0 || tail[0] == '/',
        tail.len() == 0 ==> !whitespace(revision.last()) && revision.last() != '"',
        tail.len() > 0 ==> !whitespace(tail.last()) && tail.last() != '"',
        forall|k: int|
            0 <= k && k + layouts_marker().len() <= hash.len() + 1 + revision.len() + tail.len()
                ==> #[trigger] (hash + seq!['/'] + revision + tail).subrange(
                k,
                k + layouts_marker().len(),
            ) != layouts_marker(),
    ensures
        spec_parse_source(hash + seq!['/'] + revision + tail) == Ok::<
            (Seq<char>, Seq<char>),
            Seq<char>,
        >((hash, revision)),
{
    let s = hash + seq!['/'] + revision + tail;
    assert(s[0] == hash[0] && alphanumeric(hash[0]));
    if tail.len() > 0 {
        assert(s.last() == tail.last());
    } else {
        assert(s.last() == revision.last());
    }
    lemma_strip_unchanged(s, is_space());
    lemma_strip_unchanged(s, is_quote());
    lemma_find_none(s, layouts_marker(), 0);
    assert(source_path(s) == s);
    lemma_segments(s, hash, revision, tail);
}

/// Reading back what a source reads as, written as `<hash>/<revision>`,
/// gives the same id and revision, unless the revision ends in white space
/// or a double quote (which the reading would trim).
pub proof fn law_round_trip(source: Seq<char>, hash: Seq<char>, revision: Seq<char>)
    requires
        spec_parse_source(source) == Ok::<(Seq<char>, Seq<char>), Seq<char>>((hash, revision)),
        !whitespace(revision.last()) && revision.last() != '"',
    ensures
        spec_parse_source(hash + seq!['/'] + revision) == Ok::<(Seq<char>, Seq<char>), Seq<char>>(
            (hash, revision),
        ),
{
    law_parsed_id_is_alphanumeric(source);
    let t = strip(strip(source, is_space()), is_quote());
    let p = source_path(t);
    lemma_segment_bounds(p, 0);
    let a = segment_start(p, 0);
    lemma_segment_bounds(p, a);
    let b = segment_end(p, a);
    lemma_segment_bounds(p, b);
    let c = segment_start(p, b);
    lemma_segment_bounds(p, c);
    let d = segment_end(p, c);
    lemma_segment_no_slash(p, c);
    if c < p.len() && any_alphanumeric(p.subrange(c, d)) {
        assert(revision == p.subrange(c, d));
        assert forall|i: int| 0 <= i < revision.len() implies #[trigger] revision[i] != '/' by {
            assert(revision[i] == p[c + i]);
        }
    } else {
        assert(revision == latest());
        reveal_strlit("latest");
        assert(revision.len() == 6);
    }
    law_id_and_revision(hash, revision);
}

/// White space around a source, and double quotes inside it, do not change
/// what the source reads as (for a source with no white space at its ends).
pub proof fn law_trim(
    source: Seq<char>,
    lead: Seq<char>,
    open: Seq<char>,
    close: Seq<char>,
    trail: Seq<char>,
)
    requires
        strip(source, is_space()) == source,
        forall|i: int| 0 <= i < lead.len() ==> whitespace(#[trigger] lead[i]),
        forall|i: int| 0 <= i < trail.len() ==> whitespace(#[trigger] trail[i]),
        forall|i: int| 0 <= i < open.len() ==> #[trigger] open[i] == '"',
        forall|i: int| 0 <= i < close.len() ==> #[trigger] close[i] == '"',
    ensures
        spec_parse_source(lead + open + source + close + trail) == spec_parse_source(source),
{
    let sp = is_space();
    let q = is_quote();
    let m = open + source + close;
    let x = lead + open + source + close + trail;
    assert(x =~= lead + (m + trail));
    assert forall|i: int| 0 <= i < lead.len() implies sp(#[trigger] lead[i]) by {
        assert(whitespace(lead[i]));
    }
    assert forall|i: int| 0 <= i < trail.len() implies sp(#[trigger] trail[i]) by {
        assert(whitespace(trail[i]));
    }
    assert forall|i: int| 0 <= i < open.len() implies q(#[trigger] open[i]) by {
        assert(open[i] == '"');
    }
    assert forall|i: int| 0 <= i < close.len() implies q(#[trigger] close[i]) by {
        assert(close[i] == '"');
    }
    lemma_strip_start_all(lead, m + trail, sp);
    if source.len() > 0 {
        lemma_strip_fixed(source, sp);
    }
    if m.len() == 0 {
        assert(m + trail =~= trail);
        lemma_strip_start_all(trail, Seq::empty(), sp);
        assert(trail + Seq::<char>::empty() =~= trail);
        assert(strip(x, sp) == Seq::<char>::empty());
        assert(source =~= Seq::<char>::empty());
    } else {
        if open.len() > 0 {
            assert(m[0] == open[0]);
        } else if source.len() > 0 {
            assert(m[0] == source[0]);
        } else {
            assert(m[0] == close[0]);
        }
        assert(!sp(m[0]));
        lemma_strip_start_some(m, trail, sp, 0);
        lemma_strip_len(m, sp);
        lemma_strip_end_all(m, trail, sp);
        if close.len() > 0 {
            assert(m.last() == close.last());
        } else if source.len() > 0 {
            assert(m.last() == source.last());
        } else {
            assert(m.last() == open.last());
        }
        assert(!sp(m.last()));
        assert(strip(x, sp) == m);
        assert(m =~= open + (source + close));
        lemma_strip_start_all(open, source + close, q);
        if exists|k: int| 0 <= k < source.len() && !q(source[k]) {
            let k = choose|k: int| 0 <= k < source.len() && !q(source[k]);
            lemma_strip_start_some(source, close, q, k);
            lemma_strip_end_all(strip_start(source, q), close, q);
        } else {
            assert forall|i: int| 0 <= i < source.len() implies q(#[trigger] source[i]) by {}
            lemma_strip_start_all(source, close, q);
            lemma_strip_start_all(close, Seq::empty(), q);
            assert(close + Seq::<char>::empty() =~= close);
            lemma_strip_start_all(source, Seq::empty(), q);
            assert(source + Seq::<char>::empty() =~= source);
        }
        assert(strip(strip(x, sp), q) == strip(source, q));
    }
}

/// A full Oryx URL reads as what follows its first `/layouts/`: a prefix
/// that ends in `/layouts/` does not change what a trimmed source without
/// `/layouts/` reads as.
pub proof fn law_url_prefix(prefix: Seq<char>, path: Seq<char>)
    requires
        prefix.len() == 0 || (!whitespace(prefix[0]) && prefix[0] != '"'),
        forall|k: int|
            0 <= k < prefix.len() ==> #[trigger] (prefix + layouts_marker()).subrange(
                k,
                k + layouts_marker().len(),
            ) != layouts_marker(),
        path.len() > 0,
        strip(strip(path, is_space()), is_quote()) == path,
        forall|k: int|
            0 <= k && k + layouts_marker().len() <= path.len() ==> #[trigger] path.subrange(
                k,
                k + layouts_marker().len(),
            ) != layouts_marker(),
    ensures
        spec_parse_source(prefix + layouts_marker() + path) == spec_parse_source(path),
{
    reveal_strlit("/layouts/");
    let m = layouts_marker();
    let sp = is_space();
    let q = is_quote();
    let x = prefix + m + path;
    let y = strip(path, sp);
    lemma_strip_len(path, sp);
    lemma_strip_len(y, q);
    lemma_strip_len(strip_start(path, sp), sp);
    lemma_strip_len(strip_start(y, q), q);
    assert(strip(y, q).len() <= y.len());
    assert(y.len() == path.len());
    lemma_strip_fixed(path, sp);
    lemma_strip_fixed(path, q);
    if prefix.len() > 0 {
        assert(x[0] == prefix[0]);
    } else {
        assert(x[0] == m[0]);
    }
    assert(x.last() == path.last());
    lemma_strip_unchanged(x, sp);
    lemma_strip_unchanged(x, q);
    let n = prefix.len() as int;
    assert forall|j: int| 0 <= j < n implies #[trigger] x.subrange(j, j + m.len()) != m by {
        assert(x.subrange(j, j + m.len()) =~= (prefix + m).subrange(j, j + m.len()));
    }
    assert(x.subrange(n, n + m.len()) =~= m);
    lemma_find_first(x, m, 0, n);
    assert(source_path(x) =~= path);
    lemma_find_none(path, m, 0);
    assert(source_path(path) == path);
}

/// Whatever a source reads as, its layout id is a non-empty run of letters
/// and digits, and its revision is `latest` or holds a letter or digit.
pub proof fn law_parsed_id_is_alphanumeric(source: Seq<char>)
    ensures
        spec_parse_source(source) matches Ok((hash, revision)) ==> {
            &&& hash.len() > 0
            &&& all_alphanumeric(hash)
            &&& (revision == latest() || any_alphanumeric(revision))
        },
{
    let s = strip(strip(source, is_space()), is_quote());
    if s.len() > 0 {
        let p = source_path(s);
        lemma_segment_bounds(p, 0);
        let a = segment_start(p, 0);
        if a < p.len() {
            lemma_segment_bounds(p, a);
            lemma_segment_bounds(p, a + 1);
            assert(segment_end(p, a) == segment_end(p, a + 1));
        }
    }
}

proof fn lemma_find_in_bounds(s: Seq<char>, pat: Seq<char>, i: int)
    ensures
        find_from(s, pat, i) matches Some(k) ==> i <= k && k + pat.len() <= s.len(),
    decreases s.len() + 1 - i,
{
    if !(i < 0 || i + pat.len() > s.len()) && s.subrange(i, i + pat.len()) != pat {
        lemma_find_in_bounds(s, pat, i + 1);
    }
}

/// Keys on each layer of an Ergodox EZ layout.
pub const EXPECTED_KEYS_PER_LAYER: usize = 76;

/// What an imported layout is: title, layout id, revision and number of layers.
#[derive(Debug, PartialEq, Eq)]
pub struct LayoutMeta {
    pub title: String,
    pub hash_id: String,
    pub revision: String,
    pub layers: usize,
}

/// The content of a `LayoutMeta`.
pub struct LayoutMetaView {
    pub title: Seq<char>,
    pub hash_id: Seq<char>,
    pub revision: Seq<char>,
    pub layers: nat,
}

impl View for LayoutMeta {
    type V = LayoutMetaView;

    open spec fn view(&self) -> LayoutMetaView {
        LayoutMetaView {
            title: self.title@,
            hash_id: self.hash_id@,
            revision: self.revision@,
            layers: self.layers as nat,
        }
    }
}

/// The text of `v` where it is a string, `default` otherwise.
pub open spec fn text_or(v: Json, default: Seq<char>) -> Seq<char> {
    match as_text(v) {
        Some(t) => t,
        None => default,
    }
}

/// The number of keys of a layer: the length of its `keys` array, 0 where it has none.
pub open spec fn key_count(layer: Json) -> nat {
    match as_array(index(layer, "keys"@)) {
        Some(keys) => keys.len(),
        None => 0,
    }
}

/// The first layer at or after `i` whose number of keys is not the expected one.
pub open spec fn first_bad_layer(layers: Seq<Json>, i: int) -> Option<int>
    decreases layers.len() - i,
{
    if i < 0 || i >= layers.len() {
        None
    } else if key_count(layers[i]) != EXPECTED_KEYS_PER_LAYER {
        Some(i)
    } else {
        first_bad_layer(layers, i + 1)
    }
}

/// The error for a layout with no layout document in it.
pub open spec fn layout_missing_error() -> Seq<char> {
    "layout not found on Oryx — check the id/revision"@
}

/// The error for a layout made for another keyboard.
pub open spec fn geometry_error(geometry: Seq<char>) -> Seq<char> {
    "layout is for '"@ + geometry + "', only ergodox-ez layouts can be displayed"@
}

/// The error for a layout without layers.
pub open spec fn no_layers_error() -> Seq<char> {
    "layout has no layers"@
}

/// The error for a layer with the wrong number of keys.
pub open spec fn layer_error(layer: Json) -> Seq<char> {
    "layer '"@ + text_or(index(layer, "title"@), "?"@) + "' has "@ + decimal(key_count(layer))
        + " keys, expected "@ + decimal(EXPECTED_KEYS_PER_LAYER as nat)
}

/// What a layout document fetched from Oryx (`{"data":{"layout":…}}`) reads as:
/// the layout is at `/data/layout` and not `null`; its `geometry` starts with
/// `ergodox`; `/revision/layers` is a non-empty array; every layer has the
/// expected number of keys. Then the title (`untitled` if none), no layout id,
/// the revision id at `/revision/hashId` (`?` if none) and the number of layers.
pub open spec fn spec_validate(doc: Json) -> Result<LayoutMetaView, Seq<char>> {
    match pointer(doc, "data"@, "layout"@) {
        None => Err(layout_missing_error()),
        Some(Json::Null) => Err(layout_missing_error()),
        Some(layout) => {
            let geometry = text_or(index(layout, "geometry"@), Seq::empty());
            if !("ergodox"@.len() <= geometry.len() && geometry.take("ergodox"@.len() as int)
                == "ergodox"@) {
                Err(geometry_error(geometry))
            } else {
                match pointer(layout, "revision"@, "layers"@) {
                    None => Err(no_layers_error()),
                    Some(l) => match as_array(l) {
                        None => Err(no_layers_error()),
                        Some(layers) => if layers.len() == 0 {
                            Err(no_layers_error())
                        } else {
                            match first_bad_layer(layers, 0) {
                                Some(i) => Err(layer_error(layers[i])),
                                None => Ok(
                                    LayoutMetaView {
                                        title: text_or(index(layout, "title"@), "untitled"@),
                                        hash_id: Seq::empty(),
                                        revision: match pointer(layout, "revision"@, "hashId"@) {
                                            Some(h) => text_or(h, "?"@),
                                            None => "?"@,
                                        },
                                        layers: layers.len(),
                                    },
                                ),
                            }
                        },
                    },
                }
            }
        },
    }
}

/// The text of the member `key` of `v` (see `text_or` and `index`).
fn member_text<'a>(v: &'a Json, key: &str) -> (r: Option<&'a String>)
    ensures
        match as_text(index(*v, key@)) {
            Some(t) => r matches Some(x) && x@ == t,
            None => r is None,
        },
{
    match get_member(v, key) {
        Some(m) => get_text(m),
        None => None,
    }
}

/// The number of keys of a layer (see `key_count`).
fn layer_key_count(layer: &Json) -> (r: usize)
    ensures
        r == key_count(*layer),
{
    let keys = match get_member(layer, "keys") {
        Some(k) => k,
        None => {
            return 0;
        },
    };
    match get_array(keys) {
        Some(items) => items.len(),
        None => 0,
    }
}

/// A copy of the text, or of `default` where there is none.
fn text_or_default(t: Option<&String>, default: &str) -> (r: String)
    ensures
        match t {
            Some(x) => r@ == x@,
            None => r@ == default@,
        },
{
    match t {
        Some(x) => x.clone(),
        None => String::from_str(default),
    }
}

/// The error for a layer with the wrong number of keys (see `layer_error`).
fn layer_error_text(layer: &Json, count: usize) -> (r: String)
    requires
        count == key_count(*layer),
    ensures
        r@ == layer_error(*layer),
{
    let title = text_or_default(member_text(layer, "title"), "?");
    let mut msg = String::from_str("layer '");
    msg.append(title.as_str());
    msg.append("' has ");
    push_decimal(&mut msg, count);
    msg.append(" keys, expected ");
    push_decimal(&mut msg, EXPECTED_KEYS_PER_LAYER);
    msg
}

/// Checks that a layout document fetched from Oryx can be displayed, and
/// reads what it is (see `spec_validate`; the layout id is left empty).
#[verifier::loop_isolation(false)]
pub fn validate(doc: &Json) -> (r: Result<LayoutMeta, String>)
    ensures
        match spec_validate(*doc) {
            Ok(meta) => r matches Ok(m) && m@ == meta,
            Err(e) => r matches Err(m) && m@ == e,
        },
{
    let layout = match get_path(doc, "data", "layout") {
        Some(l) => l,
        None => {
            return Err(String::from_str("layout not found on Oryx — check the id/revision"));
        },
    };
    if let Json::Null = layout {
        return Err(String::from_str("layout not found on Oryx — check the id/revision"));
    }
    assert(pointer(*doc, "data"@, "layout"@) == Some(*layout));
    assert(*layout != Json::Null);
    proof {
        reveal_strlit("");
    }
    let geometry = text_or_default(member_text(layout, "geometry"), "");
    assert(geometry@ == text_or(index(*layout, "geometry"@), Seq::empty()));
    if !starts_with(geometry.as_str(), "ergodox") {
        let mut msg = String::from_str("layout is for '");
        msg.append(geometry.as_str());
        msg.append("', only ergodox-ez layouts can be displayed");
        return Err(msg);
    }
    let layers = match get_path(layout, "revision", "layers") {
        Some(l) => match get_array(l) {
            Some(items) => items,
            None => {
                assert(pointer(*layout, "revision"@, "layers"@) == Some(*l));
                assert(as_array(*l) is None);
                return Err(String::from_str("layout has no layers"));
            },
        },
        None => {
            return Err(String::from_str("layout has no layers"));
        },
    };
    if layers.len() == 0 {
        return Err(String::from_str("layout has no layers"));
    }
    let mut i: usize = 0;
    while i < layers.len()
        invariant
            i <= layers@.len(),
            first_bad_layer(layers@, 0) == first_bad_layer(layers@, i as int),
        decreases layers@.len() - i,
    {
        let count = layer_key_count(&layers[i]);
        if count != EXPECTED_KEYS_PER_LAYER {
            return Err(layer_error_text(&layers[i], count));
        }
        i = i + 1;
    }
    let title = text_or_default(member_text(layout, "title"), "untitled");
    let revision = match get_path(layout, "revision", "hashId") {
        Some(h) => text_or_default(get_text(h), "?"),
        None => String::from_str("?"),
    };
    Ok(LayoutMeta { title, hash_id: String::new(), revision, layers: layers.len() })
}

/// Reads the text of the Oryx answer as a JSON document.
pub fn read_response(text: &str) -> (r: Result<Json, String>)
    ensures
        match json_of(text@) {
            Some(j) => r == Ok::<Json, String>(j),
            None => r matches Err(e) && e@ == "Oryx response is not JSON: "@ + json_error_of(text@),
        },
{
    match parse_json(text) {
        Ok(j) => Ok(j),
        Err(e) => {
            let mut m = String::from_str("Oryx response is not JSON: ");
            m.append(e.as_str());
            Err(m)
        },
    }
}

/// Reads the text of a stored layout as a JSON document; `None` where it is
/// no JSON.
pub fn read_stored(text: &str) -> (r: Option<Json>)
    ensures
        r == json_of(text@),
{
    match parse_json(text) {
        Ok(j) => Some(j),
        Err(_) => None,
    }
}

/// What a successful validation reports comes from the layout at
/// `/data/layout` itself: its own `title` member (`untitled` where it has no
/// text there, whatever the revision holds), the text at `/revision/hashId`
/// (`?` where there is none), the number of layers at `/revision/layers`, and
/// no layout id; every layer has the expected number of keys.
pub proof fn law_validated_meta(doc: Json)
    ensures
        spec_validate(doc) matches Ok(meta) ==> {
            &&& pointer(doc, "data"@, "layout"@) matches Some(layout) && {
                &&& meta.title == text_or(index(layout, "title"@), "untitled"@)
                &&& meta.revision == (match pointer(layout, "revision"@, "hashId"@) {
                    Some(h) => text_or(h, "?"@),
                    None => "?"@,
                })
                &&& pointer(layout, "revision"@, "layers"@) matches Some(l) && as_array(l) matches Some(
                    layers,
                ) && meta.layers == layers.len() && layers.len() > 0 && forall|i: int|
                    0 <= i < layers.len() ==> key_count(#[trigger] layers[i])
                        == EXPECTED_KEYS_PER_LAYER
            }
            &&& meta.hash_id.len() == 0
        },
{
    if let Some(layout) = pointer(doc, "data"@, "layout"@) {
        if let Some(l) = pointer(layout, "revision"@, "layers"@) {
            if let Some(layers) = as_array(l) {
                lemma_no_bad_layer(layers, 0);
            }
        }
    }
}

proof fn lemma_no_bad_layer(layers: Seq<Json>, i: int)
    requires
        0 <= i,
    ensures
        first_bad_layer(layers, i) is None ==> forall|k: int|
            i <= k < layers.len() ==> key_count(#[trigger] layers[k]) == EXPECTED_KEYS_PER_LAYER,
    decreases layers.len() - i,
{
    if i < layers.len() {
        lemma_no_bad_layer(layers, i + 1);
    }
}

/// What importing a layout document fetched for layout id `hash` gives:
/// what `validate` reads, with the layout id filled in.
pub fn import_meta(doc: &Json, hash: String) -> (r: Result<LayoutMeta, String>)
    ensures
        match spec_validate(*doc) {
            Ok(meta) => r matches Ok(m) && m@ == LayoutMetaView { hash_id: hash@, ..meta },
            Err(e) => r matches Err(m) && m@ == e,
        },
{
    let mut meta = validate(doc)?;
    meta.hash_id = hash;
    Ok(meta)
}

} // verus!
