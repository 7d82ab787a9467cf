//! Places in a TOML text: the line and column of a byte position, and the
//! framed excerpt that an error about a range of bytes is shown with (the
//! line and column, the line itself, and a row of carets under the range),
//! in the frame the TOML reader draws around its own errors.

use vstd::prelude::*;
use vstd::utf8::*;
use crate::document::Span;
use crate::text::{decimal, push_decimal};

verus! {

/// The number of line feeds in `b`.
pub open spec fn newlines(b: Seq<u8>) -> nat
    decreases b.len(),
{
    if b.len() == 0 {
        0
    } else {
        newlines(b.drop_last()) + if b.last() == 10u8 { 1nat } else { 0nat }
    }
}

/// The start of the line that holds byte `i` of `b`: just after the last
/// line feed before `i`, or 0 when there is none.
pub open spec fn line_start(b: Seq<u8>, i: int) -> int
    decreases i,
{
    if i <= 0 {
        0
    } else if b[i - 1] == 10u8 {
        i
    } else {
        line_start(b, i - 1)
    }
}

/// The end of the line that starts at `s`: the first line feed at or after
/// `s`, or the end of `b` when there is none.
pub open spec fn line_end(b: Seq<u8>, s: int) -> int
    decreases b.len() - s,
{
    if s >= b.len() {
        b.len() as int
    } else if b[s] == 10u8 {
        s
    } else {
        line_end(b, s + 1)
    }
}

/// The byte that position `i` of a nonempty `b` is read at: `i` itself, or
/// the last byte for a position past the end.
pub open spec fn held_byte(b: Seq<u8>, i: nat) -> int {
    if i < b.len() {
        i as int
    } else {
        b.len() - 1
    }
}

/// The start of the line that position `i` of `b` lies on.
pub open spec fn line_of(b: Seq<u8>, i: nat) -> int {
    if b.len() == 0 {
        0
    } else {
        line_start(b, held_byte(b, i))
    }
}

/// The line and the column, both counted from 0, of byte position `i` of
/// `b`. The line is the number of line feeds before the line that holds the
/// position. The column is the number of characters from the line's start
/// to the held byte (the held byte not counted) when those bytes, the held
/// byte included, are UTF-8, and the number of bytes otherwise; a position
/// past the end adds the bytes it lies beyond the last one. In an empty `b`
/// the position is on line 0 at its own column.
pub open spec fn position(b: Seq<u8>, i: nat) -> (nat, nat) {
    if b.len() == 0 {
        (0, i)
    } else {
        let h = held_byte(b, i);
        let s = line_start(b, h);
        let piece = b.subrange(s, h + 1);
        let col: int = if valid_utf8(piece) {
            decode_utf8(piece).len() - 1
        } else {
            h - s
        };
        (newlines(b.subrange(0, s)), (col + (i - h)) as nat)
    }
}

/// `n` copies of `c`.
pub open spec fn repeated(c: char, n: nat) -> Seq<char> {
    Seq::new(n, |_j: int| c)
}

/// The text of an error about the bytes `span` of the UTF-8 encoding of
/// `input`, framed as the TOML reader frames its errors: a heading with the
/// line and column, counted from 1; an empty gutter; the line itself, after
/// its number; carets under the range, at least one and no further than the
/// line's end allows; and the message.
pub open spec fn framed_error(input: Seq<char>, span: Span, message: Seq<char>) -> Seq<char> {
    let b = encode_utf8(input);
    let line = position(b, span.start as nat).0;
    let column = position(b, span.start as nat).1;
    let s = line_of(b, span.start as nat);
    let e = line_end(b, s);
    let number = decimal(line + 1);
    let gutter = repeated(' ', number.len() + 1);
    let room: int = if e - s > column { e - s - column } else { 0 };
    let wide: int = if span.end - span.start < room { span.end - span.start } else { room };
    let marks: nat = if wide > 1 { wide as nat } else { 1 };
    "TOML parse error at line "@ + number + ", column "@ + decimal(column + 1) + "\n"@
        + gutter + "|\n"@
        + number + " | "@ + decode_utf8(b.subrange(s, e)) + "\n"@
        + gutter + "|"@ + repeated(' ', column + 1) + repeated('^', marks) + "\n"@
        + message + "\n"@
}

/// The text that the UTF-8 bytes `bytes` encode, by `std::str::from_utf8`;
/// `None` when `bytes` is not UTF-8. The contract states both.
#[verifier::external_body]
fn utf8_text(bytes: &[u8]) -> (r: Option<String>)
    ensures
        r is Some <==> valid_utf8(bytes@),
        r matches Some(t) ==> t@ == decode_utf8(bytes@),
{
    std::str::from_utf8(bytes).ok().map(|t| t.to_owned())
}

/// `line_start` lies at or before the byte, just after a line feed when it
/// is not 0.
proof fn lemma_line_start(b: Seq<u8>, i: int)
    requires
        0 <= i <= b.len(),
    ensures
        0 <= line_start(b, i) <= i,
        line_start(b, i) > 0 ==> b[line_start(b, i) - 1] == 10u8,
    decreases i,
{
    if i > 0 && b[i - 1] != 10u8 {
        lemma_line_start(b, i - 1);
    }
}

/// `line_end` lies at or after the start, on a line feed when it is not the
/// end of `b`.
proof fn lemma_line_end(b: Seq<u8>, s: int)
    requires
        0 <= s <= b.len(),
    ensures
        s <= line_end(b, s) <= b.len(),
        line_end(b, s) < b.len() ==> b[line_end(b, s)] == 10u8,
    decreases b.len() - s,
{
    if s < b.len() && b[s] != 10u8 {
        lemma_line_end(b, s + 1);
    }
}

/// In UTF-8, the byte after an ASCII character starts a character or ends
/// the text.
proof fn lemma_boundary_after_ascii(b: Seq<u8>, i: int)
    requires
        valid_utf8(b),
        0 <= i < b.len(),
        b[i] <= 0x7f,
    ensures
        is_char_boundary(b, i + 1),
    decreases b.len(),
{
    let l = length_of_first_scalar(b);
    let rest = pop_first_scalar(b);
    assert(valid_first_scalar(b));
    assert(1 <= l <= b.len());
    assert(rest.len() == b.len() - l);
    if i < l {
        assert(i == 0);
        assert(l == 1);
        reveal_with_fuel(is_char_boundary, 2);
    } else {
        assert(rest[i - l] == b[i]);
        lemma_boundary_after_ascii(rest, i - l);
    }
}

/// The bytes of one line of a UTF-8 text are UTF-8.
proof fn lemma_line_is_utf8(b: Seq<u8>, s: int)
    requires
        valid_utf8(b),
        0 <= s <= b.len(),
        s > 0 ==> b[s - 1] == 10u8,
    ensures
        valid_utf8(b.subrange(s, line_end(b, s))),
{
    broadcast use is_char_boundary_start_end_of_seq;

    let e = line_end(b, s);
    lemma_line_end(b, s);
    if s > 0 {
        lemma_boundary_after_ascii(b, s - 1);
    }
    assert(is_char_boundary(b, s));
    valid_utf8_split(b, s);
    let t = b.subrange(s, b.len() as int);
    if e < b.len() {
        assert(t[e - s] == b[e]);
        is_char_boundary_iff_is_leading_byte(t, e - s);
    }
    assert(is_char_boundary(t, e - s));
    valid_utf8_split(t, e - s);
    assert(t.subrange(0, e - s) =~= b.subrange(s, e));
}

/// The bytes of `b` from `from` up to `to`.
fn byte_range(b: &[u8], from: usize, to: usize) -> (r: Vec<u8>)
    requires
        from <= to <= b@.len(),
    ensures
        r@ == b@.subrange(from as int, to as int),
{
    let mut out: Vec<u8> = Vec::new();
    let mut i: usize = from;
    while i < to
        invariant
            from <= i <= to <= b@.len(),
            out@ == b@.subrange(from as int, i as int),
        decreases to - i,
    {
        out.push(b[i]);
        i = i + 1;
        assert(out@ =~= b@.subrange(from as int, i as int));
    }
    out
}

/// Appends `n` copies of `c`, which `unit` holds, to `out`.
fn push_repeated(out: &mut String, c: char, unit: &str, n: u128)
    requires
        unit@ == seq![c],
    ensures
        final(out)@ == old(out)@ + repeated(c, n as nat),
{
    let mut i: u128 = 0;
    while i < n
        invariant
            i <= n,
            unit@ == seq![c],
            out@ == old(out)@ + repeated(c, i as nat),
        decreases n - i,
    {
        let ghost before = out@;
        out.append(unit);
        assert(repeated(c, (i + 1) as nat) =~= repeated(c, i as nat) + seq![c]);
        assert(out@ =~= before + seq![c]);
        i = i + 1;
        assert(out@ =~= old(out)@ + repeated(c, i as nat));
    }
    assert(out@ =~= old(out)@ + repeated(c, n as nat));
}

/// The line and column of byte position `index` of `b`, and the start of
/// its line.
fn locate(b: &[u8], index: usize) -> (r: (u128, u128, usize))
    requires
        valid_utf8(b@),
    ensures
        r.0 as nat == position(b@, index as nat).0,
        r.1 as nat == position(b@, index as nat).1,
        r.2 as int == line_of(b@, index as nat),
        r.2 <= b@.len(),
        r.0 <= r.2 as u128,
        r.1 <= 2 * (usize::MAX as u128),
{
    let n = b.len();
    if n == 0 {
        return (0, index as u128, 0);
    }
    let h: usize = if index < n { index } else { n - 1 };
    let mut s: usize = h;
    while s > 0 && b[s - 1] != 10u8
        invariant
            s <= h < b@.len(),
            line_start(b@, s as int) == line_start(b@, h as int),
        decreases s,
    {
        s = s - 1;
    }
    assert(line_start(b@, s as int) == s as int);
    let mut line: u128 = 0;
    let mut j: usize = 0;
    while j < s
        invariant
            j <= s <= h < b@.len(),
            line <= j,
            line as nat == newlines(b@.subrange(0, j as int)),
        decreases s - j,
    {
        assert(b@.subrange(0, j + 1).drop_last() =~= b@.subrange(0, j as int));
        if b[j] == 10u8 {
            line = line + 1;
        }
        j = j + 1;
    }
    let piece = byte_range(b, s, h + 1);
    let col: u128 = match utf8_text(piece.as_slice()) {
        Some(t) => {
            assert(decode_utf8(piece@).len() > 0);
            (t.unicode_len() - 1) as u128
        },
        None => (h - s) as u128,
    };
    (line, col + (index - h) as u128, s)
}

/// The framed text of an error about the bytes `span` of `input`; see
/// [`framed_error`].
pub fn framed_error_text(input: &str, span: Span, message: &str) -> (r: String)
    ensures
        r@ == framed_error(input@, span, message@),
{
    let b = input.as_bytes();
    proof {
        encode_utf8_valid_utf8(input@);
    }
    let ghost bytes = encode_utf8(input@);
    assert(b@ == bytes);
    let (line, column, s) = locate(b, span.start);
    let n = b.len();
    let mut e: usize = s;
    while e < n && b[e] != 10u8
        invariant
            s <= e <= n,
            n == b@.len(),
            line_end(b@, e as int) == line_end(b@, s as int),
        decreases n - e,
    {
        e = e + 1;
    }
    assert(line_end(b@, e as int) == e as int);
    proof {
        if b@.len() > 0 {
            lemma_line_start(b@, held_byte(b@, span.start as nat));
        }
        lemma_line_is_utf8(b@, s as int);
    }
    let content = match utf8_text(byte_range(b, s, e).as_slice()) {
        Some(t) => t,
        None => String::new(),
    };
    let mut number = String::new();
    push_decimal(&mut number, line + 1);
    let gutter: u128 = number.unicode_len() as u128 + 1;
    let width: u128 = (e - s) as u128;
    let room: u128 = if width > column { width - column } else { 0 };
    let marks: u128 = if span.end < span.start {
        1
    } else {
        let asked: u128 = (span.end - span.start) as u128;
        let wide = if asked < room { asked } else { room };
        if wide > 1 { wide } else { 1 }
    };
    proof {
        reveal_strlit(" ");
        reveal_strlit("^");
        assert(" "@ =~= seq![' ']);
        assert("^"@ =~= seq!['^']);
    }
    let mut out = String::new();
    out.append("TOML parse error at line ");
    out.append(number.as_str());
    out.append(", column ");
    push_decimal(&mut out, column + 1);
    out.append("\n");
    push_repeated(&mut out, ' ', " ", gutter);
    out.append("|\n");
    out.append(number.as_str());
    out.append(" | ");
    out.append(content.as_str());
    out.append("\n");
    push_repeated(&mut out, ' ', " ", gutter);
    out.append("|");
    push_repeated(&mut out, ' ', " ", column + 1);
    push_repeated(&mut out, '^', "^", marks);
    out.append("\n");
    out.append(message);
    out.append("\n");
    out
}

} // verus!
