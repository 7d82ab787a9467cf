//! A TOML document as the schema reads it: its top-level table, key by key,
//! with every value kept, tables and arrays included.

use vstd::prelude::*;
use serde::Deserialize as _;
use toml::de::{DeFloat, DeValue};
use crate::text::{decimal, signed_decimal, push_decimal, push_signed_decimal};

verus! {

/// A TOML value.
#[derive(Debug)]
pub enum TomlValue {
    /// An integer as the reader gives it: its digits, with a sign where
    /// the text has one, and the base they are written in.
    Integer { digits: String, radix: u32 },
    /// A float, by the text `serde` describes it with (such as
    /// ``floating point `1.5` ``), or `None` when it does not fit an `f64`.
    Float(Option<String>),
    Text(String),
    Boolean(bool),
    Datetime,
    Array(Vec<TomlValue>),
    Table(Vec<TomlEntry>),
}

/// A range of bytes of a TOML text, from `start` up to `end`.
#[derive(Debug, Clone, Copy, PartialEq, Eq, Structural)]
pub struct Span {
    pub start: usize,
    pub end: usize,
}

/// The bytes that a range of the standard library covers.
pub fn span_of(r: core::ops::Range<usize>) -> (s: Span)
    ensures
        s.start == r.start,
        s.end == r.end,
{
    Span { start: r.start, end: r.end }
}

/// One key of a TOML table with its value, and where each stands in the text.
#[derive(Debug)]
pub struct TomlEntry {
    pub key: String,
    pub key_span: Span,
    pub value: TomlValue,
    pub value_span: Span,
}

impl TomlEntry {
    /// The entry of `key` and `value`, which stand at the byte ranges
    /// `key_at` and `value_at` of the text.
    pub fn new(key_at: core::ops::Range<usize>, value_at: core::ops::Range<usize>, key: String, value: TomlValue) -> (r: TomlEntry)
        ensures
            r.key == key,
            r.value == value,
            r.key_span == (Span { start: key_at.start, end: key_at.end }),
            r.value_span == (Span { start: value_at.start, end: value_at.end }),
    {
        TomlEntry { key, key_span: span_of(key_at), value, value_span: span_of(value_at) }
    }
}

/// A TOML document as the reader hands it back: the span it gives the
/// document as a whole, and the top-level table's entries.
#[derive(Debug)]
pub struct TomlDocument {
    pub span: Span,
    pub entries: Vec<TomlEntry>,
}

/// The mathematical content of a [`TomlEntry`].
pub struct EntryView {
    pub key: Seq<char>,
    pub key_span: Span,
    pub value: TomlValueView,
    pub value_span: Span,
}

/// The mathematical content of a [`TomlValue`].
pub enum TomlValueView {
    Integer(Seq<char>, u32),
    Float(Option<Seq<char>>),
    Text(Seq<char>),
    Boolean(bool),
    Datetime,
    Array(Seq<TomlValueView>),
    Table(Seq<EntryView>),
}

impl View for TomlValue {
    type V = TomlValueView;

    open spec fn view(&self) -> TomlValueView {
        value_view(*self)
    }
}

/// The content of a value.
pub open spec fn value_view(v: TomlValue) -> TomlValueView
    decreases v,
{
    match v {
        TomlValue::Integer { digits, radix } => TomlValueView::Integer(digits@, radix),
        TomlValue::Float(d) => TomlValueView::Float(match d {
            Some(s) => Some(s@),
            None => None,
        }),
        TomlValue::Text(s) => TomlValueView::Text(s@),
        TomlValue::Boolean(b) => TomlValueView::Boolean(b),
        TomlValue::Datetime => TomlValueView::Datetime,
        TomlValue::Array(items) => TomlValueView::Array(values_view(items@)),
        TomlValue::Table(entries) => TomlValueView::Table(entries_view(entries@)),
    }
}

/// The content of a sequence of values.
pub open spec fn values_view(s: Seq<TomlValue>) -> Seq<TomlValueView>
    decreases s,
{
    if s.len() == 0 {
        Seq::empty()
    } else {
        seq![value_view(s[0])] + values_view(s.drop_first())
    }
}

/// The content of one entry.
pub open spec fn entry_view(e: TomlEntry) -> EntryView
    decreases e,
{
    EntryView { key: e.key@, key_span: e.key_span, value: value_view(e.value), value_span: e.value_span }
}

/// The content of a table: its keys with their values.
pub open spec fn entries_view(s: Seq<TomlEntry>) -> Seq<EntryView>
    decreases s,
{
    if s.len() == 0 {
        Seq::empty()
    } else {
        seq![entry_view(s[0])] + entries_view(s.drop_first())
    }
}

/// The keys of a table with their values, where they stand left out.
pub open spec fn entry_contents(s: Seq<EntryView>) -> Seq<(Seq<char>, TomlValueView)> {
    s.map_values(|e: EntryView| (e.key, e.value))
}

/// `values_view` keeps the length and reads each value on its own.
pub proof fn lemma_values_view(s: Seq<TomlValue>)
    ensures
        values_view(s).len() == s.len(),
        forall|i: int| 0 <= i < s.len() ==> #[trigger] values_view(s)[i] == value_view(s[i]),
    decreases s.len(),
{
    if s.len() > 0 {
        lemma_values_view(s.drop_first());
        assert forall|i: int| 0 <= i < s.len() implies #[trigger] values_view(s)[i] == value_view(s[i]) by {
            if i > 0 {
                assert(values_view(s)[i] == values_view(s.drop_first())[i - 1]);
                assert(s.drop_first()[i - 1] == s[i]);
            }
        }
    }
}

/// `entries_view` keeps the length and reads each entry on its own.
pub proof fn lemma_entries_view(s: Seq<TomlEntry>)
    ensures
        entries_view(s).len() == s.len(),
        forall|i: int| 0 <= i < s.len() ==> #[trigger] entries_view(s)[i] == entry_view(s[i]),
    decreases s.len(),
{
    if s.len() > 0 {
        lemma_entries_view(s.drop_first());
        assert forall|i: int| 0 <= i < s.len() implies #[trigger] entries_view(s)[i] == entry_view(s[i]) by {
            if i > 0 {
                assert(entries_view(s)[i] == entries_view(s.drop_first())[i - 1]);
                assert(s.drop_first()[i - 1] == s[i]);
            }
        }
    }
}

/// The value of a digit in bases up to 36 (`0`..`9`, then `a`..`z` in
/// either case), as `char::to_digit` reads it; 36 for any other character.
pub open spec fn digit_value(c: char) -> nat {
    if '0' <= c <= '9' {
        (c as u32 - '0' as u32) as nat
    } else if 'a' <= c <= 'z' {
        (c as u32 - 'a' as u32 + 10) as nat
    } else if 'A' <= c <= 'Z' {
        (c as u32 - 'A' as u32 + 10) as nat
    } else {
        36
    }
}

/// The number that the digits `s` write in base `radix`, if each of them is
/// a digit of that base.
pub open spec fn digits_value(s: Seq<char>, radix: nat) -> Option<nat>
    decreases s.len(),
{
    if s.len() == 0 {
        Some(0)
    } else {
        match digits_value(s.drop_last(), radix) {
            Some(v) => if digit_value(s.last()) < radix {
                Some(v * radix + digit_value(s.last()))
            } else {
                None
            },
            None => None,
        }
    }
}

/// The number that `from_str_radix` reads from `text` in base `radix`,
/// whatever range the target type has: an optional `+` or `-`, then at
/// least one digit of the base.
pub open spec fn integer_value(text: Seq<char>, radix: nat) -> Option<int> {
    let signed = text.len() > 0 && (text[0] == '+' || text[0] == '-');
    let body = if signed { text.drop_first() } else { text };
    if body.len() == 0 {
        None
    } else {
        match digits_value(body, radix) {
            Some(m) => Some(if signed && text[0] == '-' { -m } else { m as int }),
            None => None,
        }
    }
}

/// How the TOML deserializer hands an integer on: as an `i64` when it fits,
/// else as a `u64`, else as an `i128`, else as a `u128`, else not at all.
#[derive(Debug, Clone, Copy, PartialEq, Eq, Structural)]
pub enum IntegerReading {
    Signed(i64),
    Unsigned(u64),
    WideSigned(i128),
    WideUnsigned(u128),
    Overflow,
}

/// The reading of the integer written `text` in base `radix`.
pub open spec fn integer_reading(text: Seq<char>, radix: nat) -> IntegerReading {
    match integer_value(text, radix) {
        Some(n) => if i64::MIN <= n <= i64::MAX {
            IntegerReading::Signed(n as i64)
        } else if 0 <= n <= u64::MAX {
            IntegerReading::Unsigned(n as u64)
        } else if i128::MIN <= n <= i128::MAX {
            IntegerReading::WideSigned(n as i128)
        } else if 0 <= n <= u128::MAX {
            IntegerReading::WideUnsigned(n as u128)
        } else {
            IntegerReading::Overflow
        },
        None => IntegerReading::Overflow,
    }
}

/// The value of the digit `c`.
pub fn digit_of(c: char) -> (r: u32)
    ensures
        r == digit_value(c),
{
    if '0' <= c && c <= '9' {
        c as u32 - '0' as u32
    } else if 'a' <= c && c <= 'z' {
        c as u32 - 'a' as u32 + 10
    } else if 'A' <= c && c <= 'Z' {
        c as u32 - 'A' as u32 + 10
    } else {
        36
    }
}

/// A prefix of valid digits has a value, and no larger one than the whole.
proof fn lemma_digits_prefix(s: Seq<char>, radix: nat, k: int)
    requires
        0 <= k <= s.len(),
        digits_value(s, radix) is Some,
    ensures
        digits_value(s.take(k), radix) matches Some(w) && w <= digits_value(s, radix).unwrap(),
    decreases s.len(),
{
    if k == s.len() {
        assert(s.take(k) =~= s);
    } else {
        let v = digits_value(s.drop_last(), radix).unwrap();
        lemma_digits_prefix(s.drop_last(), radix, k);
        assert(s.drop_last().take(k) =~= s.take(k));
        assert(radix >= 1);
        assert(v * radix + digit_value(s.last()) >= v) by (nonlinear_arith)
            requires radix >= 1;
    }
}

/// Reads the integer written `digits` in base `radix`.
pub fn read_integer(digits: &str, radix: u32) -> (r: IntegerReading)
    ensures
        r == integer_reading(digits@, radix as nat),
{
    let n = digits.unicode_len();
    let ghost t = digits@;
    let mut start: usize = 0;
    let mut negative = false;
    if n > 0 {
        let c = digits.get_char(0);
        if c == '+' || c == '-' {
            start = 1;
            negative = c == '-';
        }
    }
    let ghost body = t.subrange(start as int, n as int);
    assert(start == 1 ==> body =~= t.drop_first());
    assert(start == 0 ==> body =~= t);
    if start == n {
        return IntegerReading::Overflow;
    }
    let mut m: u128 = 0;
    let mut i: usize = start;
    assert(body.take(0) =~= Seq::<char>::empty());
    while i < n
        invariant
            start <= i <= n,
            n == t.len(),
            t == digits@,
            body == t.subrange(start as int, n as int),
            start < n,
            (start == 1) == (t.len() > 0 && (t[0] == '+' || t[0] == '-')),
            start <= 1,
            negative == (start == 1 && t[0] == '-'),
            start == 1 ==> body == t.drop_first(),
            start == 0 ==> body == t,
            digits_value(body.take(i - start), radix as nat) == Some(m as nat),
        decreases n - i,
    {
        let d = digit_of(digits.get_char(i));
        let ghost k = i - start;
        assert(body.take(k + 1).drop_last() =~= body.take(k));
        assert(body.take(k + 1).last() == t[i as int]);
        if d >= radix {
            proof {
                assert(digits_value(body.take(k + 1), radix as nat) is None);
                if digits_value(body, radix as nat) is Some {
                    lemma_digits_prefix(body, radix as nat, k + 1);
                }
                assert(digits_value(body, radix as nat) is None);
                assert(integer_value(t, radix as nat) is None);
            }
            return IntegerReading::Overflow;
        }
        match m.checked_mul(radix as u128) {
            Some(p) => match p.checked_add(d as u128) {
                Some(q) => {
                    m = q;
                },
                None => {
                    proof {
                        assert(digits_value(body.take(k + 1), radix as nat) == Some((p + d) as nat));
                        if digits_value(body, radix as nat) is Some {
                            lemma_digits_prefix(body, radix as nat, k + 1);
                            assert(digits_value(body, radix as nat).unwrap() > u128::MAX);
                        }
                        assert(integer_value(t, radix as nat) matches Some(x) ==> (x > u128::MAX || x < -u128::MAX));
                    }
                    return IntegerReading::Overflow;
                },
            },
            None => {
                proof {
                    if digits_value(body, radix as nat) is Some {
                        lemma_digits_prefix(body, radix as nat, k + 1);
                        assert((m as nat) * (radix as nat) + d >= (m as nat) * (radix as nat)) by (nonlinear_arith);
                        assert(digits_value(body, radix as nat).unwrap() > u128::MAX);
                    }
                    assert(integer_value(t, radix as nat) matches Some(x) ==> (x > u128::MAX || x < -u128::MAX));
                }
                return IntegerReading::Overflow;
            },
        }
        i = i + 1;
    }
    assert(body.take(n - start) =~= body);
    if negative {
        if m <= 9223372036854775808u128 {
            if m == 9223372036854775808u128 {
                IntegerReading::Signed(i64::MIN)
            } else {
                IntegerReading::Signed(-(m as i64))
            }
        } else if m <= 170141183460469231731687303715884105728u128 {
            if m == 170141183460469231731687303715884105728u128 {
                IntegerReading::WideSigned(i128::MIN)
            } else {
                IntegerReading::WideSigned(-(m as i128))
            }
        } else {
            IntegerReading::Overflow
        }
    } else if m <= 9223372036854775807u128 {
        IntegerReading::Signed(m as i64)
    } else if m <= 18446744073709551615u128 {
        IntegerReading::Unsigned(m as u64)
    } else if m <= 170141183460469231731687303715884105727u128 {
        IntegerReading::WideSigned(m as i128)
    } else {
        IntegerReading::WideUnsigned(m)
    }
}

/// What a value of the wrong kind is, by the kinds `serde` tells apart in
/// its errors.
#[derive(Debug)]
pub enum Unexpected {
    Signed(i64),
    Unsigned(u64),
    WideSigned(i128),
    WideUnsigned(u128),
    /// A float, by `serde`'s description of it.
    Float(String),
    Boolean(bool),
    Text(String),
    Sequence,
    Mapping,
}

/// The mathematical content of an [`Unexpected`].
pub enum UnexpectedView {
    Signed(i64),
    Unsigned(u64),
    WideSigned(i128),
    WideUnsigned(u128),
    Float(Seq<char>),
    Boolean(bool),
    Text(Seq<char>),
    Sequence,
    Mapping,
}

impl View for Unexpected {
    type V = UnexpectedView;

    open spec fn view(&self) -> UnexpectedView {
        match self {
            Unexpected::Signed(i) => UnexpectedView::Signed(*i),
            Unexpected::Unsigned(u) => UnexpectedView::Unsigned(*u),
            Unexpected::WideSigned(i) => UnexpectedView::WideSigned(*i),
            Unexpected::WideUnsigned(u) => UnexpectedView::WideUnsigned(*u),
            Unexpected::Float(d) => UnexpectedView::Float(d@),
            Unexpected::Boolean(b) => UnexpectedView::Boolean(*b),
            Unexpected::Text(s) => UnexpectedView::Text(s@),
            Unexpected::Sequence => UnexpectedView::Sequence,
            Unexpected::Mapping => UnexpectedView::Mapping,
        }
    }
}

/// The text `{:?}` writes for the string `s`: `s` in double quotes, with
/// quotes, backslashes and unprintable characters escaped.
pub uninterp spec fn debug_text(s: Seq<char>) -> Seq<char>;

/// Writes `s` as `Debug` writes a string (`format!("{s:?}")`). The result is
/// named by [`debug_text`]; the escaping rules are std's and not restated.
#[verifier::external_body]
fn debug_string(s: &str) -> (r: String)
    ensures
        r@ == debug_text(s@),
{
    format!("{s:?}")
}

/// How `serde` describes an unexpected value in an error.
pub open spec fn unexpected_text(u: UnexpectedView) -> Seq<char> {
    match u {
        UnexpectedView::Signed(i) => "integer `"@ + signed_decimal(i as int) + "`"@,
        UnexpectedView::Unsigned(n) => "integer `"@ + decimal(n as nat) + "`"@,
        UnexpectedView::WideSigned(i) => "integer `"@ + signed_decimal(i as int) + "` as i128"@,
        UnexpectedView::WideUnsigned(n) => "integer `"@ + decimal(n as nat) + "` as u128"@,
        UnexpectedView::Float(d) => d,
        UnexpectedView::Boolean(b) => if b {
            "boolean `true`"@
        } else {
            "boolean `false`"@
        },
        UnexpectedView::Text(s) => "string "@ + debug_text(s),
        UnexpectedView::Sequence => "sequence"@,
        UnexpectedView::Mapping => "map"@,
    }
}

impl Unexpected {
    /// Appends the description of the value to `out`.
    pub fn describe_into(&self, out: &mut String)
        ensures
            final(out)@ == old(out)@ + unexpected_text(self@),
    {
        match self {
            Unexpected::Signed(i) => {
                out.append("integer `");
                push_signed_decimal(out, *i as i128);
                out.append("`");
            },
            Unexpected::Unsigned(n) => {
                out.append("integer `");
                push_decimal(out, *n as u128);
                out.append("`");
            },
            Unexpected::WideSigned(i) => {
                out.append("integer `");
                push_signed_decimal(out, *i);
                out.append("` as i128");
            },
            Unexpected::WideUnsigned(n) => {
                out.append("integer `");
                push_decimal(out, *n);
                out.append("` as u128");
            },
            Unexpected::Float(d) => out.append(d.as_str()),
            Unexpected::Boolean(b) => if *b {
                out.append("boolean `true`")
            } else {
                out.append("boolean `false`")
            },
            Unexpected::Text(s) => {
                out.append("string ");
                let d = debug_string(s.as_str());
                out.append(d.as_str());
            },
            Unexpected::Sequence => out.append("sequence"),
            Unexpected::Mapping => out.append("map"),
        }
    }
}

#[verifier::external_type_specification]
#[verifier::external_body]
pub struct ExTomlError(toml::de::Error);

#[verifier::external_type_specification]
#[verifier::external_body]
pub struct ExDeValue<'a>(toml::de::DeValue<'a>);

#[verifier::external_type_specification]
#[verifier::external_body]
pub struct ExDeFloat<'a>(toml::de::DeFloat<'a>);

/// The TOML document `text` as the reader reads it: the span it gives the
/// document and the top-level table, key by key in the order that the reader
/// keeps them (sorted by key), each key and value with its span; or `None`
/// when the reader refuses `text`.
pub uninterp spec fn toml_table(text: Seq<char>) -> Option<(Span, Seq<EntryView>)>;

/// Reads `text` with `toml::de::DeTable::parse`, the reading that
/// `toml::from_str` starts with, and hands back the document's span and its
/// entries in the table's order, each with the spans the reader gives its key
/// and value, each value converted by [`toml_value`]. The contract says that
/// the outcome is the named result [`toml_table`] of `text`, so the same text
/// always gives the same document; what the document holds for a given text
/// is the `toml` crate's reading and is not stated.
#[verifier::external_body]
pub(crate) fn read_toml_table(text: &str) -> (r: Result<TomlDocument, toml::de::Error>)
    ensures
        r is Ok <==> toml_table(text@) is Some,
        r matches Ok(d) ==> toml_table(text@) == Some((d.span, entries_view(d.entries@))),
{
    let table = toml::de::DeTable::parse(text)?;
    let span = span_of(table.span());
    let entries = table.into_inner().into_iter().map(|(k, v)| TomlEntry::new(
        k.span(), v.span(), k.into_inner().into_owned(), toml_value(v.into_inner()),
    ));
    Ok(TomlDocument { span, entries: entries.collect() })
}

/// Converts a value of the TOML reader, one variant to one variant: an
/// integer keeps its digits and base (`DeInteger::as_str`, `radix`), a float
/// becomes [`float_value`], arrays and tables are converted item by
/// item, each table entry with the spans of its key and value. Nothing is
/// stated of the result.
#[verifier::external_body]
fn toml_value(value: DeValue<'_>) -> TomlValue {
    match value {
        DeValue::String(s) => TomlValue::Text(s.into_owned()),
        DeValue::Integer(i) => TomlValue::Integer { digits: i.as_str().to_owned(), radix: i.radix() },
        DeValue::Float(f) => float_value(f),
        DeValue::Boolean(b) => TomlValue::Boolean(b),
        DeValue::Datetime(_) => TomlValue::Datetime,
        DeValue::Array(a) => TomlValue::Array(a.into_iter().map(|v| toml_value(v.into_inner())).collect()),
        DeValue::Table(t) => TomlValue::Table(t.into_iter().map(|(k, v)| TomlEntry::new(
            k.span(), v.span(), k.into_inner().into_owned(), toml_value(v.into_inner()),
        )).collect()),
    }
}

/// Reads a float of the TOML reader with the reader's own deserialization
/// into a `toml::Value`, and gives it as a [`TomlValue::Float`] described
/// with `serde`'s `Unexpected::Float` (``floating point `1.5` ``), or with
/// `None` when the reader finds no `f64` for it. Nothing is stated of the
/// result.
#[verifier::external_body]
fn float_value(f: DeFloat<'_>) -> TomlValue {
    let value = toml::Spanned::new(0..0, DeValue::Float(f));
    let read = toml::Value::deserialize(toml::de::ValueDeserializer::from(value));
    TomlValue::Float(read.ok().and_then(|v| v.as_float()).map(|x| serde::de::Unexpected::Float(x).to_string()))
}

/// The text of a TOML reading error, as its `Display` writes it. Nothing is
/// stated of the text.
#[verifier::external_body]
pub(crate) fn toml_error_text(e: &toml::de::Error) -> String {
    e.to_string()
}

} // verus!
