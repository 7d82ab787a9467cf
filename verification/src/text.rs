//! Character-level helpers on `str` with exact specifications: Unicode
//! whitespace trimming, ASCII case folding and decimal rendering.

use vstd::prelude::*;

verus! {

/// The Unicode `White_Space` property, which is what `char::is_whitespace` tests.
pub open spec fn is_space(c: char) -> bool {
    ||| '\u{9}' <= c <= '\u{d}'
    ||| c == ' '
    ||| c == '\u{85}'
    ||| c == '\u{a0}'
    ||| c == '\u{1680}'
    ||| '\u{2000}' <= c <= '\u{200a}'
    ||| c == '\u{2028}'
    ||| c == '\u{2029}'
    ||| c == '\u{202f}'
    ||| c == '\u{205f}'
    ||| c == '\u{3000}'
}

/// `s` without its leading whitespace.
pub open spec fn trim_start(s: Seq<char>) -> Seq<char>
    decreases s.len(),
{
    if s.len() > 0 && is_space(s[0]) {
        trim_start(s.drop_first())
    } else {
        s
    }
}

/// `s` without its trailing whitespace.
pub open spec fn trim_end(s: Seq<char>) -> Seq<char>
    decreases s.len(),
{
    if s.len() > 0 && is_space(s.last()) {
        trim_end(s.drop_last())
    } else {
        s
    }
}

/// `s` without leading and trailing whitespace, as `str::trim` gives it.
pub open spec fn trimmed(s: Seq<char>) -> Seq<char> {
    trim_end(trim_start(s))
}

/// Every character of `s` is whitespace.
pub open spec fn all_space(s: Seq<char>) -> bool {
    forall|i: int| 0 <= i < s.len() ==> #[trigger] is_space(s[i])
}

/// Leading whitespace in front of a text is removed with the text's own.
pub proof fn lemma_trim_start_after_space(p: Seq<char>, x: Seq<char>)
    requires
        all_space(p),
    ensures
        trim_start(p + x) == trim_start(x),
    decreases p.len(),
{
    if p.len() > 0 {
        assert((p + x)[0] == p[0]);
        assert((p + x).drop_first() =~= p.drop_first() + x);
        assert(is_space(p[0]));
        assert forall|i: int| 0 <= i < p.drop_first().len() implies #[trigger] is_space(p.drop_first()[i]) by {
            assert(p.drop_first()[i] == p[i + 1]);
        }
        lemma_trim_start_after_space(p.drop_first(), x);
    } else {
        assert(p + x =~= x);
    }
}

/// Trailing whitespace after a text is removed with the text's own.
pub proof fn lemma_trim_end_before_space(x: Seq<char>, q: Seq<char>)
    requires
        all_space(q),
    ensures
        trim_end(x + q) == trim_end(x),
    decreases q.len(),
{
    if q.len() > 0 {
        assert((x + q).last() == q.last());
        assert(is_space(q[q.len() - 1]));
        assert((x + q).drop_last() =~= x + q.drop_last());
        assert forall|i: int| 0 <= i < q.drop_last().len() implies #[trigger] is_space(q.drop_last()[i]) by {
            assert(q.drop_last()[i] == q[i]);
        }
        lemma_trim_end_before_space(x, q.drop_last());
    } else {
        assert(x + q =~= x);
    }
}

/// Removing leading whitespace from `x + q` removes it from `x` alone, or,
/// when `x` is all whitespace, from `q`.
pub proof fn lemma_trim_start_append(x: Seq<char>, q: Seq<char>)
    ensures
        trim_start(x).len() > 0 ==> trim_start(x + q) == trim_start(x) + q,
        trim_start(x).len() == 0 ==> trim_start(x + q) == trim_start(q),
    decreases x.len(),
{
    if x.len() == 0 {
        assert(x + q =~= q);
    } else {
        assert((x + q)[0] == x[0]);
        if is_space(x[0]) {
            assert((x + q).drop_first() =~= x.drop_first() + q);
            lemma_trim_start_append(x.drop_first(), q);
        }
    }
}

/// A text that is all whitespace trims to nothing.
pub proof fn lemma_trim_start_all_space(q: Seq<char>)
    requires
        all_space(q),
    ensures
        trim_start(q).len() == 0,
{
    lemma_trim_start_after_space(q, Seq::empty());
    assert(q + Seq::<char>::empty() =~= q);
}

/// A character that is not whitespace survives trimming at the start.
proof fn lemma_trim_start_keeps_nonspace(s: Seq<char>, i: int)
    requires
        0 <= i < s.len(),
        !is_space(s[i]),
    ensures
        exists|j: int| 0 <= j < trim_start(s).len() && !is_space(#[trigger] trim_start(s)[j]),
    decreases s.len(),
{
    if is_space(s[0]) {
        assert(s.drop_first()[i - 1] == s[i]);
        assert(trim_start(s) == trim_start(s.drop_first()));
        lemma_trim_start_keeps_nonspace(s.drop_first(), i - 1);
    } else {
        assert(trim_start(s) == s);
        assert(trim_start(s)[i] == s[i]);
    }
}

/// A character that is not whitespace keeps the end-trimmed text nonempty.
proof fn lemma_trim_end_keeps_nonspace(s: Seq<char>, i: int)
    requires
        0 <= i < s.len(),
        !is_space(s[i]),
    ensures
        trim_end(s).len() > 0,
    decreases s.len(),
{
    if is_space(s.last()) {
        assert(s.drop_last()[i] == s[i]);
        lemma_trim_end_keeps_nonspace(s.drop_last(), i);
    }
}

/// A text trims to nothing exactly when every character of it is whitespace.
pub proof fn lemma_trimmed_empty_iff_all_space(s: Seq<char>)
    ensures
        (trimmed(s).len() == 0) == all_space(s),
{
    if all_space(s) {
        lemma_trim_start_all_space(s);
        assert(trim_end(trim_start(s)).len() == 0);
    } else {
        let i = choose|i: int| 0 <= i < s.len() && !is_space(#[trigger] s[i]);
        lemma_trim_start_keeps_nonspace(s, i);
        let j = choose|j: int| 0 <= j < trim_start(s).len() && !is_space(#[trigger] trim_start(s)[j]);
        lemma_trim_end_keeps_nonspace(trim_start(s), j);
    }
}

/// Whitespace added around a text does not change the trimmed text.
pub proof fn lemma_trimmed_ignores_padding(p: Seq<char>, x: Seq<char>, q: Seq<char>)
    requires
        all_space(p),
        all_space(q),
    ensures
        trimmed(p + x + q) == trimmed(x),
{
    assert(p + x + q =~= p + (x + q));
    lemma_trim_start_after_space(p, x + q);
    lemma_trim_start_append(x, q);
    if trim_start(x).len() > 0 {
        lemma_trim_end_before_space(trim_start(x), q);
    } else {
        lemma_trim_start_all_space(q);
        assert(trim_start(q) =~= trim_start(x));
    }
}

/// The character `c` after ASCII upper-casing: `a`..=`z` become `A`..=`Z`.
pub open spec fn ascii_upper(c: char) -> char {
    if 'a' <= c <= 'z' {
        ((c as u32 - 32) as u32) as char
    } else {
        c
    }
}

/// `s` with every ASCII letter upper-cased, as `str::to_ascii_uppercase` gives it.
pub open spec fn upper_text(s: Seq<char>) -> Seq<char> {
    s.map_values(|c: char| ascii_upper(c))
}

/// Upper-casing keeps a character's lower-case form and whether it is whitespace.
pub proof fn lemma_ascii_upper_char(c: char)
    ensures
        ascii_lower(ascii_upper(c)) == ascii_lower(c),
        is_space(ascii_upper(c)) == is_space(c),
{
    if 'a' <= c <= 'z' {
        let u = ascii_upper(c);
        assert(u as u32 == c as u32 - 32);
    }
}

/// Trimming and upper-casing can be done in either order.
pub proof fn lemma_trimmed_upper(x: Seq<char>)
    ensures
        trimmed(upper_text(x)) == upper_text(trimmed(x)),
{
    lemma_trim_start_upper(x);
    lemma_trim_end_upper(trim_start(x));
}

proof fn lemma_trim_start_upper(x: Seq<char>)
    ensures
        trim_start(upper_text(x)) == upper_text(trim_start(x)),
    decreases x.len(),
{
    if x.len() > 0 {
        lemma_ascii_upper_char(x[0]);
        assert(upper_text(x)[0] == ascii_upper(x[0]));
        assert(upper_text(x).drop_first() =~= upper_text(x.drop_first()));
        lemma_trim_start_upper(x.drop_first());
    } else {
        assert(upper_text(x) =~= x);
    }
}

proof fn lemma_trim_end_upper(x: Seq<char>)
    ensures
        trim_end(upper_text(x)) == upper_text(trim_end(x)),
    decreases x.len(),
{
    if x.len() > 0 {
        lemma_ascii_upper_char(x.last());
        assert(upper_text(x).last() == ascii_upper(x.last()));
        assert(upper_text(x).drop_last() =~= upper_text(x.drop_last()));
        lemma_trim_end_upper(x.drop_last());
    } else {
        assert(upper_text(x) =~= x);
    }
}

/// Upper-casing a text does not change what it equals up to ASCII case.
pub proof fn lemma_eq_ignore_case_upper(s: Seq<char>, t: Seq<char>)
    ensures
        eq_ignore_ascii_case(upper_text(s), t) == eq_ignore_ascii_case(s, t),
{
    assert forall|i: int| 0 <= i < s.len() implies #[trigger] ascii_lower(upper_text(s)[i]) == ascii_lower(s[i]) by {
        lemma_ascii_upper_char(s[i]);
    }
    if eq_ignore_ascii_case(s, t) {
        assert forall|i: int| 0 <= i < upper_text(s).len() implies #[trigger] ascii_lower(upper_text(s)[i]) == ascii_lower(t[i]) by {
            assert(ascii_lower(upper_text(s)[i]) == ascii_lower(s[i]));
        }
    }
    if eq_ignore_ascii_case(upper_text(s), t) {
        assert forall|i: int| 0 <= i < s.len() implies #[trigger] ascii_lower(s[i]) == ascii_lower(t[i]) by {
            assert(ascii_lower(upper_text(s)[i]) == ascii_lower(s[i]));
        }
    }
}

/// Whether `c` is a whitespace character.
pub fn is_space_char(c: char) -> (r: bool)
    ensures
        r == is_space(c),
{
    ('\u{9}' <= c && c <= '\u{d}') || c == ' ' || c == '\u{85}' || c == '\u{a0}' || c == '\u{1680}'
        || ('\u{2000}' <= c && c <= '\u{200a}') || c == '\u{2028}' || c == '\u{2029}'
        || c == '\u{202f}' || c == '\u{205f}' || c == '\u{3000}'
}

/// `s` with leading and trailing whitespace removed.
pub fn trim(s: &str) -> (r: &str)
    ensures
        r@ == trimmed(s@),
{
    let n = s.unicode_len();
    let mut lo: usize = 0;
    assert(s@.subrange(0, n as int) =~= s@);
    while lo < n && is_space_char(s.get_char(lo))
        invariant
            n == s@.len(),
            lo <= n,
            trim_start(s@) == trim_start(s@.subrange(lo as int, n as int)),
        decreases n - lo,
    {
        let ghost rest = s@.subrange(lo as int, n as int);
        assert(rest.drop_first() =~= s@.subrange(lo + 1, n as int));
        lo = lo + 1;
    }
    assert(trim_start(s@) == s@.subrange(lo as int, n as int));
    let mut hi: usize = n;
    while hi > lo && is_space_char(s.get_char(hi - 1))
        invariant
            n == s@.len(),
            lo <= hi <= n,
            trimmed(s@) == trim_end(s@.subrange(lo as int, hi as int)),
        decreases hi - lo,
    {
        let ghost part = s@.subrange(lo as int, hi as int);
        assert(part.drop_last() =~= s@.subrange(lo as int, hi - 1));
        hi = hi - 1;
    }
    s.substring_char(lo, hi)
}

/// The code point of `c` after ASCII lower-casing: `A`..=`Z` become
/// `a`..=`z`, every other character stays as it is.
pub open spec fn ascii_lower(c: char) -> u32 {
    if 'A' <= c <= 'Z' {
        (c as u32 + 32) as u32
    } else {
        c as u32
    }
}

/// `a` and `b` are equal up to ASCII case, as `str::eq_ignore_ascii_case`
/// decides.
pub open spec fn eq_ignore_ascii_case(a: Seq<char>, b: Seq<char>) -> bool {
    &&& a.len() == b.len()
    &&& forall|i: int| 0 <= i < a.len() ==> #[trigger] ascii_lower(a[i]) == ascii_lower(b[i])
}

/// Whether `a` and `b` are the same character up to ASCII case.
pub fn char_eq_ignore_ascii_case(a: char, b: char) -> (r: bool)
    ensures
        r == (ascii_lower(a) == ascii_lower(b)),
{
    let x: u32 = if 'A' <= a && a <= 'Z' { a as u32 + 32 } else { a as u32 };
    let y: u32 = if 'A' <= b && b <= 'Z' { b as u32 + 32 } else { b as u32 };
    x == y
}

/// Whether `a` and `b` are equal up to ASCII case.
pub fn str_eq_ignore_ascii_case(a: &str, b: &str) -> (r: bool)
    ensures
        r == eq_ignore_ascii_case(a@, b@),
{
    let n = a.unicode_len();
    if n != b.unicode_len() {
        return false;
    }
    let mut i: usize = 0;
    while i < n
        invariant
            n == a@.len(),
            n == b@.len(),
            i <= n,
            forall|j: int| 0 <= j < i ==> #[trigger] ascii_lower(a@[j]) == ascii_lower(b@[j]),
        decreases n - i,
    {
        if !char_eq_ignore_ascii_case(a.get_char(i), b.get_char(i)) {
            return false;
        }
        i = i + 1;
    }
    true
}

/// Whether `a` and `b` hold the same characters.
pub fn str_eq(a: &str, b: &str) -> (r: bool)
    ensures
        r == (a@ == b@),
{
    let n = a.unicode_len();
    if n != b.unicode_len() {
        return false;
    }
    let mut i: usize = 0;
    while i < n
        invariant
            n == a@.len(),
            n == b@.len(),
            i <= n,
            forall|j: int| 0 <= j < i ==> a@[j] == b@[j],
        decreases n - i,
    {
        if a.get_char(i) != b.get_char(i) {
            return false;
        }
        i = i + 1;
    }
    assert(a@ =~= b@);
    true
}

/// Whether `needle` occurs in `hay` as a contiguous piece.
pub open spec fn contains_text(hay: Seq<char>, needle: Seq<char>) -> bool {
    exists|i: int| 0 <= i <= hay.len() - needle.len() && #[trigger] hay.subrange(i, i + needle.len()) == needle
}

/// Every text contains each of its pieces: `a + b + c` contains `b`.
pub proof fn lemma_contains_middle(a: Seq<char>, b: Seq<char>, c: Seq<char>)
    ensures
        contains_text(a + b + c, b),
{
    let hay = a + b + c;
    assert(hay.subrange(a.len() as int, (a.len() + b.len()) as int) =~= b);
}

/// The decimal digit `d` (below ten) as text.
pub open spec fn digit_text(d: nat) -> Seq<char> {
    if d == 0 {
        seq!['0']
    } else if d == 1 {
        seq!['1']
    } else if d == 2 {
        seq!['2']
    } else if d == 3 {
        seq!['3']
    } else if d == 4 {
        seq!['4']
    } else if d == 5 {
        seq!['5']
    } else if d == 6 {
        seq!['6']
    } else if d == 7 {
        seq!['7']
    } else if d == 8 {
        seq!['8']
    } else {
        seq!['9']
    }
}

/// The decimal representation of `n`, without leading zeros.
pub open spec fn decimal(n: nat) -> Seq<char>
    decreases n,
{
    if n < 10 {
        digit_text(n)
    } else {
        decimal(n / 10) + digit_text(n % 10)
    }
}

/// The decimal representation of the integer `n`, with a `-` in front when
/// it is negative, as `to_string` writes integers.
pub open spec fn signed_decimal(n: int) -> Seq<char> {
    if n < 0 {
        seq!['-'] + decimal((-n) as nat)
    } else {
        decimal(n as nat)
    }
}

fn digit_str(d: u128) -> (r: &'static str)
    requires
        d < 10,
    ensures
        r@ == digit_text(d as nat),
{
    if d == 0 {
        proof { reveal_strlit("0"); }
        "0"
    } else if d == 1 {
        proof { reveal_strlit("1"); }
        "1"
    } else if d == 2 {
        proof { reveal_strlit("2"); }
        "2"
    } else if d == 3 {
        proof { reveal_strlit("3"); }
        "3"
    } else if d == 4 {
        proof { reveal_strlit("4"); }
        "4"
    } else if d == 5 {
        proof { reveal_strlit("5"); }
        "5"
    } else if d == 6 {
        proof { reveal_strlit("6"); }
        "6"
    } else if d == 7 {
        proof { reveal_strlit("7"); }
        "7"
    } else if d == 8 {
        proof { reveal_strlit("8"); }
        "8"
    } else {
        proof { reveal_strlit("9"); }
        "9"
    }
}

/// Appends the decimal representation of `n` to `out`.
pub fn push_decimal(out: &mut String, n: u128)
    ensures
        final(out)@ == old(out)@ + decimal(n as nat),
    decreases n,
{
    if n < 10 {
        out.append(digit_str(n));
    } else {
        push_decimal(out, n / 10);
        out.append(digit_str(n % 10));
        assert(decimal(n as nat) == decimal((n / 10) as nat) + digit_text((n % 10) as nat));
    }
}

/// Appends the decimal representation of the signed integer `n` to `out`.
pub fn push_signed_decimal(out: &mut String, n: i128)
    ensures
        final(out)@ == old(out)@ + signed_decimal(n as int),
{
    if n < 0 {
        proof { reveal_strlit("-"); }
        out.append("-");
        let magnitude: u128 = if n == i128::MIN {
            170141183460469231731687303715884105728u128
        } else {
            (-n) as u128
        };
        push_decimal(out, magnitude);
    } else {
        push_decimal(out, n as u128);
    }
}

} // verus!
