//! Character classes and small string builders shared by the other modules.

use vstd::prelude::*;

verus! {

/// Whether a character outside ASCII has the Unicode `Alphabetic` property or
/// a general category for numbers, as `char::is_alphanumeric` decides.
pub uninterp spec fn letter_or_digit(c: char) -> bool;

/// Whether a character is an ASCII letter or digit.
pub open spec fn ascii_alphanumeric(c: char) -> bool {
    ('0' <= c <= '9') || ('A' <= c <= 'Z') || ('a' <= c <= 'z')
}

/// Whether `char::is_alphanumeric` holds of a character: in ASCII, exactly
/// the letters and digits; beyond it, a letter or digit, which is never a
/// white-space character (those have the general categories `Zs`, `Zl`, `Zp`
/// or `Cc`).
pub open spec fn alphanumeric(c: char) -> bool {
    if (c as u32) < 0x80 {
        ascii_alphanumeric(c)
    } else {
        letter_or_digit(c) && !whitespace(c)
    }
}

/// Whether a character has the Unicode `White_Space` property, as
/// `char::is_whitespace` decides: U+0009 to U+000D, U+0020, U+0085, U+00A0,
/// U+1680, U+2000 to U+200A, U+2028, U+2029, U+202F, U+205F and U+3000.
pub open spec fn whitespace(c: char) -> bool {
    let n = c as u32;
    ||| 0x09 <= n <= 0x0D
    ||| n == 0x20
    ||| n == 0x85
    ||| n == 0xA0
    ||| n == 0x1680
    ||| 0x2000 <= n <= 0x200A
    ||| n == 0x2028
    ||| n == 0x2029
    ||| n == 0x202F
    ||| n == 0x205F
    ||| n == 0x3000
}

/// Whether a character has the general category `Cc` (control codes), as
/// `char::is_control` decides: U+0000 to U+001F and U+007F to U+009F.
pub open spec fn control(c: char) -> bool {
    let n = c as u32;
    n <= 0x1F || 0x7F <= n <= 0x9F
}

/// What `char::to_uppercase` gives for a character outside ASCII (its
/// Unicode uppercase mapping, one or more characters).
pub uninterp spec fn unicode_uppercase(c: char) -> Seq<char>;

/// The uppercase of one character: ASCII `a` to `z` become `A` to `Z`, the
/// rest of ASCII stays as it is, and other characters map as Unicode says.
pub open spec fn uppercase_char(c: char) -> Seq<char> {
    if 'a' <= c <= 'z' {
        seq![((c as u32) - 0x20) as char]
    } else if (c as u32) < 0x80 {
        seq![c]
    } else {
        unicode_uppercase(c)
    }
}

/// What `str::to_uppercase` returns for a string: the uppercase of each of
/// its characters, in order.
pub open spec fn uppercase(s: Seq<char>) -> Seq<char>
    decreases s.len(),
{
    if s.len() == 0 {
        Seq::empty()
    } else {
        uppercase(s.drop_last()) + uppercase_char(s.last())
    }
}

/// Calls `char::is_alphanumeric`, which holds of the characters that
/// `alphanumeric` describes; beyond ASCII its result is named `letter_or_digit`.
#[verifier::external_body]
pub(crate) fn is_alphanumeric(c: char) -> (r: bool)
    ensures
        r == alphanumeric(c),
        (c as u32) >= 0x80 ==> r == (letter_or_digit(c) && !whitespace(c)),
{
    c.is_alphanumeric()
}

/// Whether a character is white space (`char::is_whitespace`: the
/// `White_Space` characters listed at `whitespace`).
pub fn is_whitespace(c: char) -> (r: bool)
    ensures
        r == whitespace(c),
{
    let n = c as u32;
    (0x09 <= n && n <= 0x0D) || n == 0x20 || n == 0x85 || n == 0xA0 || n == 0x1680 || (0x2000 <= n
        && n <= 0x200A) || n == 0x2028 || n == 0x2029 || n == 0x202F || n == 0x205F || n == 0x3000
}

/// Whether a character is a control character (`char::is_control`: general
/// category `Cc`, listed at `control`).
pub fn is_control(c: char) -> (r: bool)
    ensures
        r == control(c),
{
    let n = c as u32;
    n <= 0x1F || (0x7F <= n && n <= 0x9F)
}

/// Calls `str::to_uppercase`, which maps each character as `uppercase_char`
/// says (beyond ASCII the mapping is named `unicode_uppercase`); every
/// character maps to one or more, so a non-empty string stays non-empty.
#[verifier::external_body]
pub(crate) fn to_uppercase(s: &str) -> (r: String)
    ensures
        r@ == uppercase(s@),
        s@.len() == 1 && (s@[0] as u32) >= 0x80 ==> r@ == unicode_uppercase(s@[0]),
        s@.len() > 0 ==> r@.len() > 0,
{
    s.to_uppercase()
}

/// Whether two strings hold the same characters.
pub fn same_text(a: &str, b: &str) -> (r: bool)
    ensures
        r == (a@ == b@),
{
    String::from_str(a) == String::from_str(b)
}

/// Whether `s` starts with `prefix`.
pub fn starts_with(s: &str, prefix: &str) -> (r: bool)
    ensures
        r == (prefix@.len() <= s@.len() && s@.take(prefix@.len() as int) == prefix@),
{
    let sv = chars_of(s);
    let pv = chars_of(prefix);
    if pv.len() > sv.len() {
        return false;
    }
    let mut i: usize = 0;
    while i < pv.len()
        invariant
            sv@ == s@,
            pv@ == prefix@,
            pv@.len() <= sv@.len(),
            i <= pv@.len(),
            forall|k: int| 0 <= k < i ==> sv@[k] == pv@[k],
        decreases pv@.len() - i,
    {
        if sv[i] != pv[i] {
            assert(s@.take(prefix@.len() as int)[i as int] != prefix@[i as int]);
            return false;
        }
        i = i + 1;
    }
    assert(s@.take(prefix@.len() as int) =~= prefix@);
    true
}

/// The characters of a string, one by one.
pub fn chars_of(s: &str) -> (v: Vec<char>)
    ensures
        v@ == s@,
        s@.len() <= usize::MAX,
{
    let n = s.unicode_len();
    let mut v: Vec<char> = Vec::new();
    let mut i: usize = 0;
    while i < n
        invariant
            n == s@.len(),
            i <= n,
            v@ == s@.take(i as int),
        decreases n - i,
    {
        let c = s.get_char(i);
        v.push(c);
        i = i + 1;
        assert(v@ =~= s@.take(i as int));
    }
    assert(s@.take(n as int) =~= s@);
    v
}

/// An owned copy of the characters `from..to` of a string.
pub fn substring(s: &str, from: usize, to: usize) -> (r: String)
    requires
        from <= to <= s@.len(),
    ensures
        r@ == s@.subrange(from as int, to as int),
{
    String::from_str(s.substring_char(from, to))
}

/// The digit character of a number below ten.
pub open spec fn digit_char(d: nat) -> char
    recommends
        d < 10,
{
    "0123456789"@[d as int]
}

/// The lowercase hexadecimal digit character of a number below sixteen.
pub open spec fn hex_char(d: nat) -> char
    recommends
        d < 16,
{
    "0123456789abcdef"@[d as int]
}

/// The decimal representation of a natural number, without leading zeros.
pub open spec fn decimal(n: nat) -> Seq<char>
    decreases n,
{
    if n < 10 {
        seq![digit_char(n)]
    } else {
        decimal(n / 10).push(digit_char(n % 10))
    }
}

/// Appends the decimal representation of `n` to `out`.
pub fn push_decimal(out: &mut String, n: usize)
    ensures
        final(out)@ == old(out)@ + decimal(n as nat),
    decreases n,
{
    if n >= 10 {
        push_decimal(out, n / 10);
    }
    let d = n % 10;
    let digits = "0123456789";
    proof {
        reveal_strlit("0123456789");
    }
    out.append(digits.substring_char(d, d + 1));
    proof {
        assert(digits@.subrange(d as int, d + 1) =~= seq![digit_char(d as nat)]);
        if n >= 10 {
            assert(decimal(n as nat) == decimal((n / 10) as nat).push(digit_char((n % 10) as nat)));
        }
    }
}


/// `s` without its leading characters that satisfy `p`.
pub open spec fn strip_start(s: Seq<char>, p: spec_fn(char) -> bool) -> Seq<char>
    decreases s.len(),
{
    if s.len() > 0 && p(s[0]) {
        strip_start(s.drop_first(), p)
    } else {
        s
    }
}

/// `s` without its trailing characters that satisfy `p`.
pub open spec fn strip_end(s: Seq<char>, p: spec_fn(char) -> bool) -> Seq<char>
    decreases s.len(),
{
    if s.len() > 0 && p(s.last()) {
        strip_end(s.drop_last(), p)
    } else {
        s
    }
}

/// `s` without its leading and trailing characters that satisfy `p`
/// (what `str::trim_matches` does with a character predicate).
pub open spec fn strip(s: Seq<char>, p: spec_fn(char) -> bool) -> Seq<char> {
    strip_end(strip_start(s, p), p)
}

/// The white-space predicate, as a value.
pub open spec fn is_space() -> spec_fn(char) -> bool {
    |c: char| whitespace(c)
}

/// The predicate "is a double quote", as a value.
pub open spec fn is_quote() -> spec_fn(char) -> bool {
    |c: char| c == '"'
}

/// Every character of `s` is alphanumeric.
pub open spec fn all_alphanumeric(s: Seq<char>) -> bool {
    forall|i: int| 0 <= i < s.len() ==> alphanumeric(#[trigger] s[i])
}

/// Some character of `s` is alphanumeric.
pub open spec fn any_alphanumeric(s: Seq<char>) -> bool {
    exists|i: int| 0 <= i < s.len() && alphanumeric(#[trigger] s[i])
}

/// Every character of `s` is a non-control character.
pub open spec fn printable(s: Seq<char>) -> bool {
    forall|i: int| 0 <= i < s.len() ==> !control(#[trigger] s[i])
}

/// A copy of the characters `lo..hi` of `v`.
pub fn copy_range(v: &Vec<char>, lo: usize, hi: usize) -> (r: Vec<char>)
    requires
        lo <= hi <= v@.len(),
    ensures
        r@ == v@.subrange(lo as int, hi as int),
{
    let mut r: Vec<char> = Vec::new();
    let mut i = lo;
    while i < hi
        invariant
            lo <= i <= hi <= v@.len(),
            r@ == v@.subrange(lo as int, i as int),
        decreases hi - i,
    {
        r.push(v[i]);
        i = i + 1;
        assert(r@ =~= v@.subrange(lo as int, i as int));
    }
    r
}

/// The bounds `a..b` within `lo..hi` of what stays of `v[lo..hi]` once the
/// leading and trailing white space (`spaces`) or double quotes (`!spaces`)
/// are stripped.
pub fn strip_bounds(v: &Vec<char>, lo: usize, hi: usize, spaces: bool) -> (r: (usize, usize))
    requires
        lo <= hi <= v@.len(),
    ensures
        lo <= r.0 <= r.1 <= hi,
        v@.subrange(r.0 as int, r.1 as int) == strip(
            v@.subrange(lo as int, hi as int),
            if spaces { is_space() } else { is_quote() },
        ),
{
    let ghost p = if spaces { is_space() } else { is_quote() };
    let mut a = lo;
    loop
        invariant
            lo <= a <= hi <= v@.len(),
            p == (if spaces { is_space() } else { is_quote() }),
            strip_start(v@.subrange(lo as int, hi as int), p) == strip_start(
                v@.subrange(a as int, hi as int),
                p,
            ),
        ensures
            lo <= a <= hi,
            strip_start(v@.subrange(lo as int, hi as int), p) == v@.subrange(a as int, hi as int),
        decreases hi - a,
    {
        if a == hi {
            assert(strip_start(v@.subrange(a as int, hi as int), p) == v@.subrange(a as int, hi as int));
            break;
        }
        let c = v[a];
        let hit = if spaces { is_whitespace(c) } else { c == '"' };
        assert(hit == p(c));
        assert(v@.subrange(a as int, hi as int)[0] == c);
        if !hit {
            break;
        }
        assert(v@.subrange(a as int, hi as int).drop_first() =~= v@.subrange(a + 1, hi as int));
        a = a + 1;
    }
    let mut b = hi;
    loop
        invariant
            lo <= a <= b <= hi <= v@.len(),
            p == (if spaces { is_space() } else { is_quote() }),
            strip_end(v@.subrange(a as int, hi as int), p) == strip_end(
                v@.subrange(a as int, b as int),
                p,
            ),
        ensures
            lo <= a <= b <= hi,
            strip_end(v@.subrange(a as int, hi as int), p) == v@.subrange(a as int, b as int),
        decreases b - a,
    {
        if b == a {
            assert(strip_end(v@.subrange(a as int, b as int), p) == v@.subrange(a as int, b as int));
            break;
        }
        let c = v[b - 1];
        let hit = if spaces { is_whitespace(c) } else { c == '"' };
        assert(hit == p(c));
        assert(v@.subrange(a as int, b as int).last() == c);
        if !hit {
            break;
        }
        assert(v@.subrange(a as int, b as int).drop_last() =~= v@.subrange(a as int, b - 1));
        b = b - 1;
    }
    (a, b)
}

/// Whether every character of `v[lo..hi]` is alphanumeric.
pub fn all_alphanumeric_in(v: &Vec<char>, lo: usize, hi: usize) -> (r: bool)
    requires
        lo <= hi <= v@.len(),
    ensures
        r == all_alphanumeric(v@.subrange(lo as int, hi as int)),
{
    let mut i = lo;
    while i < hi
        invariant
            lo <= i <= hi <= v@.len(),
            forall|j: int| lo <= j < i ==> alphanumeric(#[trigger] v@[j]),
        decreases hi - i,
    {
        if !is_alphanumeric(v[i]) {
            assert(v@.subrange(lo as int, hi as int)[i - lo] == v@[i as int]);
            return false;
        }
        i = i + 1;
    }
    assert forall|j: int| 0 <= j < hi - lo implies alphanumeric(
        #[trigger] v@.subrange(lo as int, hi as int)[j],
    ) by {
        assert(v@.subrange(lo as int, hi as int)[j] == v@[lo + j]);
    }
    true
}

/// Whether some character of `v[lo..hi]` is alphanumeric.
pub fn any_alphanumeric_in(v: &Vec<char>, lo: usize, hi: usize) -> (r: bool)
    requires
        lo <= hi <= v@.len(),
    ensures
        r == any_alphanumeric(v@.subrange(lo as int, hi as int)),
{
    let mut i = lo;
    while i < hi
        invariant
            lo <= i <= hi <= v@.len(),
            forall|j: int| lo <= j < i ==> !alphanumeric(#[trigger] v@[j]),
        decreases hi - i,
    {
        if is_alphanumeric(v[i]) {
            assert(v@.subrange(lo as int, hi as int)[i - lo] == v@[i as int]);
            return true;
        }
        i = i + 1;
    }
    assert forall|j: int| 0 <= j < hi - lo implies !alphanumeric(
        #[trigger] v@.subrange(lo as int, hi as int)[j],
    ) by {
        assert(v@.subrange(lo as int, hi as int)[j] == v@[lo + j]);
    }
    false
}

} // verus!
