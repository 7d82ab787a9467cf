//! The configuration schema: which keys a configuration document may hold,
//! what each key's value must be, and how a document becomes a [`Config`].
//!
//! The TOML syntax itself is read by the `toml` crate; what it hands back is
//! the document's top-level table, one [`TomlEntry`] per key. Deciding what
//! the table means is this module's work: the keys are visited in the order
//! the table gives them, a key outside the schema stops the decoding, a
//! repeated key or a value of the wrong kind stops it, and a required key
//! that never came is reported after all keys were visited, `port` before
//! `mode`. The texts of these refusals are worded as `serde` words them,
//! and each refusal points at a range of the text (the refused key or value,
//! or the whole document for a missing key), which its text shows framed as
//! the TOML reader frames its own errors.

use vstd::prelude::*;
use crate::mode::{Mode, LogLevel, mode_named, level_named, mode_name, level_name,
    lemma_mode_name_roundtrip, lemma_level_name_roundtrip, lemma_mode_name_ignores_ascii_case};
use crate::error::{ConfigError, ConfigProblem};
use crate::text::{str_eq, decimal, digit_text, eq_ignore_ascii_case};
use crate::document::{TomlValue, TomlValueView, TomlEntry, TomlDocument, EntryView, Span, entries_view,
    entry_view, entry_contents, Unexpected, UnexpectedView, IntegerReading, integer_reading, read_integer,
    unexpected_text, toml_table, read_toml_table, toml_error_text, lemma_entries_view, lemma_values_view,
    digits_value, digit_value, integer_value};
use crate::place::{framed_error, framed_error_text};

verus! {

/// The application configuration, read from a TOML file.
#[derive(Debug, Clone, Copy, PartialEq, Eq, Structural)]
pub struct Config {
    /// Listening port; never 0.
    pub port: u16,
    /// Run mode.
    pub mode: Mode,
    /// Log level, when the file names one.
    pub log_level: Option<LogLevel>,
}

/// The configuration used when there is no configuration file.
pub open spec fn default_config() -> Config {
    Config { port: 8080, mode: Mode::Dev, log_level: None }
}

impl Default for Config {
    fn default() -> (r: Config)
        ensures
            r == default_config(),
    {
        Config { port: 8080, mode: Mode::Dev, log_level: None }
    }
}

/// A key of the configuration schema.
#[derive(Debug, Clone, Copy, PartialEq, Eq, Structural, Hash)]
pub enum ConfigField {
    Port,
    Mode,
    LogLevel,
}

/// The name of a schema key.
pub open spec fn field_name(f: ConfigField) -> Seq<char> {
    match f {
        ConfigField::Port => seq!['p', 'o', 'r', 't'],
        ConfigField::Mode => seq!['m', 'o', 'd', 'e'],
        ConfigField::LogLevel => seq!['l', 'o', 'g', '_', 'l', 'e', 'v', 'e', 'l'],
    }
}

impl ConfigField {
    /// The name of the key.
    pub fn as_str(&self) -> (r: &'static str)
        ensures
            r@ == field_name(*self),
    {
        match self {
            ConfigField::Port => {
                proof { reveal_strlit("port"); }
                "port"
            },
            ConfigField::Mode => {
                proof { reveal_strlit("mode"); }
                "mode"
            },
            ConfigField::LogLevel => {
                proof { reveal_strlit("log_level"); }
                "log_level"
            },
        }
    }
}

/// The kind of a TOML value, by the name the TOML reader gives it.
#[derive(Debug, Clone, Copy, PartialEq, Eq, Structural, Hash)]
pub enum ValueKind {
    String,
    Integer,
    Float,
    Boolean,
    Datetime,
    Array,
    Table,
}

/// The kind of a value.
pub open spec fn kind_of(v: TomlValueView) -> ValueKind {
    match v {
        TomlValueView::Integer(..) => ValueKind::Integer,
        TomlValueView::Float(_) => ValueKind::Float,
        TomlValueView::Text(_) => ValueKind::String,
        TomlValueView::Boolean(_) => ValueKind::Boolean,
        TomlValueView::Datetime => ValueKind::Datetime,
        TomlValueView::Array(_) => ValueKind::Array,
        TomlValueView::Table(_) => ValueKind::Table,
    }
}

/// The name of a kind.
pub open spec fn kind_name(k: ValueKind) -> Seq<char> {
    match k {
        ValueKind::String => "string"@,
        ValueKind::Integer => "integer"@,
        ValueKind::Float => "float"@,
        ValueKind::Boolean => "boolean"@,
        ValueKind::Datetime => "datetime"@,
        ValueKind::Array => "array"@,
        ValueKind::Table => "table"@,
    }
}

impl ValueKind {
    /// The kind of `v`.
    pub fn of(v: &TomlValue) -> (r: ValueKind)
        ensures
            r == kind_of(v@),
    {
        match v {
            TomlValue::Integer { .. } => ValueKind::Integer,
            TomlValue::Float(_) => ValueKind::Float,
            TomlValue::Text(_) => ValueKind::String,
            TomlValue::Boolean(_) => ValueKind::Boolean,
            TomlValue::Datetime => ValueKind::Datetime,
            TomlValue::Array(_) => ValueKind::Array,
            TomlValue::Table(_) => ValueKind::Table,
        }
    }

    /// The name of the kind.
    pub fn name(&self) -> (r: &'static str)
        ensures
            r@ == kind_name(*self),
    {
        match self {
            ValueKind::String => "string",
            ValueKind::Integer => "integer",
            ValueKind::Float => "float",
            ValueKind::Boolean => "boolean",
            ValueKind::Datetime => "datetime",
            ValueKind::Array => "array",
            ValueKind::Table => "table",
        }
    }
}

/// Why the table of a configuration document was refused by the schema.
#[derive(Debug)]
pub enum FormatError {
    /// A required key is absent.
    MissingField(ConfigField),
    /// A key occurs twice.
    DuplicateField(ConfigField),
    /// A key outside the schema.
    UnknownField(String),
    /// A key's value is of a kind the key does not take.
    InvalidType(ConfigField, Unexpected),
    /// The port is an integer outside `u16`.
    InvalidValue(Unexpected),
    /// An integer that fits no integer type the reader hands on.
    IntegerOverflow,
    /// A float that fits no `f64`.
    FloatOverflow,
    /// The port is 0.
    ZeroPort,
    /// The mode is a text that names no mode.
    UnknownMode(String),
    /// The log level, as a text or as the key of a one-key table, names no level.
    UnknownLogLevel(String),
    /// The log level is neither a text nor a table.
    LevelWrongKind,
    /// The log level is an empty table.
    LevelTableEmpty,
    /// The log level is a table with more than one key.
    LevelTableCrowded,
    /// The log level is a one-key table whose value is a nonempty array.
    LevelArrayNotEmpty,
    /// The log level is a one-key table whose value is a nonempty table.
    LevelTableNotEmpty,
    /// The log level is a one-key table whose value is neither an array nor
    /// a table.
    LevelNotTable(ValueKind),
}

/// The mathematical content of a [`FormatError`].
pub enum FormatProblem {
    MissingField(ConfigField),
    DuplicateField(ConfigField),
    UnknownField(Seq<char>),
    InvalidType(ConfigField, UnexpectedView),
    InvalidValue(UnexpectedView),
    IntegerOverflow,
    FloatOverflow,
    ZeroPort,
    UnknownMode(Seq<char>),
    UnknownLogLevel(Seq<char>),
    LevelWrongKind,
    LevelTableEmpty,
    LevelTableCrowded,
    LevelArrayNotEmpty,
    LevelTableNotEmpty,
    LevelNotTable(ValueKind),
}

impl View for FormatError {
    type V = FormatProblem;

    open spec fn view(&self) -> FormatProblem {
        match self {
            FormatError::MissingField(f) => FormatProblem::MissingField(*f),
            FormatError::DuplicateField(f) => FormatProblem::DuplicateField(*f),
            FormatError::UnknownField(k) => FormatProblem::UnknownField(k@),
            FormatError::InvalidType(f, u) => FormatProblem::InvalidType(*f, u@),
            FormatError::InvalidValue(u) => FormatProblem::InvalidValue(u@),
            FormatError::IntegerOverflow => FormatProblem::IntegerOverflow,
            FormatError::FloatOverflow => FormatProblem::FloatOverflow,
            FormatError::ZeroPort => FormatProblem::ZeroPort,
            FormatError::UnknownMode(s) => FormatProblem::UnknownMode(s@),
            FormatError::UnknownLogLevel(s) => FormatProblem::UnknownLogLevel(s@),
            FormatError::LevelWrongKind => FormatProblem::LevelWrongKind,
            FormatError::LevelTableEmpty => FormatProblem::LevelTableEmpty,
            FormatError::LevelTableCrowded => FormatProblem::LevelTableCrowded,
            FormatError::LevelArrayNotEmpty => FormatProblem::LevelArrayNotEmpty,
            FormatError::LevelTableNotEmpty => FormatProblem::LevelTableNotEmpty,
            FormatError::LevelNotTable(k) => FormatProblem::LevelNotTable(*k),
        }
    }
}

/// How the TOML reader hands a value to a reader of one type that it is not:
/// the value as `serde` describes it, or the reader's own overflow error.
pub open spec fn unexpected_of(v: TomlValueView) -> Result<UnexpectedView, FormatProblem> {
    match v {
        TomlValueView::Integer(d, r) => match integer_reading(d, r as nat) {
            IntegerReading::Signed(i) => Ok(UnexpectedView::Signed(i)),
            IntegerReading::Unsigned(n) => Ok(UnexpectedView::Unsigned(n)),
            IntegerReading::WideSigned(i) => Ok(UnexpectedView::WideSigned(i)),
            IntegerReading::WideUnsigned(n) => Ok(UnexpectedView::WideUnsigned(n)),
            IntegerReading::Overflow => Err(FormatProblem::IntegerOverflow),
        },
        TomlValueView::Float(d) => match d {
            Some(t) => Ok(UnexpectedView::Float(t)),
            None => Err(FormatProblem::FloatOverflow),
        },
        TomlValueView::Text(s) => Ok(UnexpectedView::Text(s)),
        TomlValueView::Boolean(b) => Ok(UnexpectedView::Boolean(b)),
        TomlValueView::Datetime => Ok(UnexpectedView::Mapping),
        TomlValueView::Array(_) => Ok(UnexpectedView::Sequence),
        TomlValueView::Table(_) => Ok(UnexpectedView::Mapping),
    }
}

/// The refusal of `v` as the value of `f` for being of the wrong kind.
pub open spec fn wrong_kind(f: ConfigField, v: TomlValueView) -> FormatProblem {
    match unexpected_of(v) {
        Ok(u) => FormatProblem::InvalidType(f, u),
        Err(p) => p,
    }
}

/// What the value of `port` gives: an integer from 1 to 65535.
pub open spec fn port_from_value(v: TomlValueView) -> Result<u16, FormatProblem> {
    match v {
        TomlValueView::Integer(d, r) => match integer_reading(d, r as nat) {
            IntegerReading::Signed(i) => if i == 0 {
                Err(FormatProblem::ZeroPort)
            } else if 0 < i <= u16::MAX {
                Ok(i as u16)
            } else {
                Err(FormatProblem::InvalidValue(UnexpectedView::Signed(i)))
            },
            IntegerReading::Unsigned(n) => Err(FormatProblem::InvalidValue(UnexpectedView::Unsigned(n))),
            _ => Err(wrong_kind(ConfigField::Port, v)),
        },
        _ => Err(wrong_kind(ConfigField::Port, v)),
    }
}

/// What the value of `mode` gives: a text naming a mode in any ASCII case.
pub open spec fn mode_from_value(v: TomlValueView) -> Result<Mode, FormatProblem> {
    match v {
        TomlValueView::Text(s) => match mode_named(s) {
            Some(m) => Ok(m),
            None => Err(FormatProblem::UnknownMode(s)),
        },
        _ => Err(wrong_kind(ConfigField::Mode, v)),
    }
}

/// What a one-key table gives as the log level: the key must name a level
/// exactly, and its value must be an empty array or an empty table.
pub open spec fn level_from_entry(key: Seq<char>, v: TomlValueView) -> Result<LogLevel, FormatProblem> {
    match level_named(key) {
        None => Err(FormatProblem::UnknownLogLevel(key)),
        Some(l) => match v {
            TomlValueView::Array(a) => if a.len() == 0 {
                Ok(l)
            } else {
                Err(FormatProblem::LevelArrayNotEmpty)
            },
            TomlValueView::Table(t) => if t.len() == 0 {
                Ok(l)
            } else {
                Err(FormatProblem::LevelTableNotEmpty)
            },
            _ => Err(FormatProblem::LevelNotTable(kind_of(v))),
        },
    }
}

/// What the value of `log_level` gives: a text that is exactly a level's
/// name, or a table with exactly one key, as [`level_from_entry`] reads it.
pub open spec fn level_from_value(v: TomlValueView) -> Result<LogLevel, FormatProblem> {
    match v {
        TomlValueView::Text(s) => match level_named(s) {
            Some(l) => Ok(l),
            None => Err(FormatProblem::UnknownLogLevel(s)),
        },
        TomlValueView::Table(t) => if t.len() == 0 {
            Err(FormatProblem::LevelTableEmpty)
        } else if t.len() != 1 {
            Err(FormatProblem::LevelTableCrowded)
        } else {
            level_from_entry(t[0].key, t[0].value)
        },
        _ => Err(FormatProblem::LevelWrongKind),
    }
}

/// The schema keys seen so far while a table is read, with their values.
#[derive(Debug, Clone, Copy, PartialEq, Eq, Structural)]
pub struct Fields {
    pub port: Option<u16>,
    pub mode: Option<Mode>,
    pub log_level: Option<Option<LogLevel>>,
}

/// No key seen yet.
pub open spec fn no_fields() -> Fields {
    Fields { port: None, mode: None, log_level: None }
}

/// Reading one more key with its value.
pub open spec fn take_entry(acc: Fields, key: Seq<char>, v: TomlValueView) -> Result<Fields, FormatProblem> {
    if key == field_name(ConfigField::Port) {
        if acc.port is Some {
            Err(FormatProblem::DuplicateField(ConfigField::Port))
        } else {
            match port_from_value(v) {
                Ok(p) => Ok(Fields { port: Some(p), ..acc }),
                Err(e) => Err(e),
            }
        }
    } else if key == field_name(ConfigField::Mode) {
        if acc.mode is Some {
            Err(FormatProblem::DuplicateField(ConfigField::Mode))
        } else {
            match mode_from_value(v) {
                Ok(m) => Ok(Fields { mode: Some(m), ..acc }),
                Err(e) => Err(e),
            }
        }
    } else if key == field_name(ConfigField::LogLevel) {
        if acc.log_level is Some {
            Err(FormatProblem::DuplicateField(ConfigField::LogLevel))
        } else {
            match level_from_value(v) {
                Ok(l) => Ok(Fields { log_level: Some(Some(l)), ..acc }),
                Err(e) => Err(e),
            }
        }
    } else {
        Err(FormatProblem::UnknownField(key))
    }
}

/// Reading the keys of `entries` in order, starting from `acc`; the first
/// refused key ends the reading.
pub open spec fn take_entries(entries: Seq<(Seq<char>, TomlValueView)>, acc: Fields) -> Result<Fields, FormatProblem>
    decreases entries.len(),
{
    if entries.len() == 0 {
        Ok(acc)
    } else {
        match take_entry(acc, entries[0].0, entries[0].1) {
            Ok(next) => take_entries(entries.drop_first(), next),
            Err(e) => Err(e),
        }
    }
}

/// The configuration that the keys read make up, once all were read.
pub open spec fn finish_fields(acc: Fields) -> Result<Config, FormatProblem> {
    match (acc.port, acc.mode) {
        (None, _) => Err(FormatProblem::MissingField(ConfigField::Port)),
        (Some(_), None) => Err(FormatProblem::MissingField(ConfigField::Mode)),
        (Some(port), Some(mode)) => Ok(Config {
            port,
            mode,
            log_level: match acc.log_level {
                Some(l) => l,
                None => None,
            },
        }),
    }
}

/// The configuration that a top-level table describes, or why it describes none.
pub open spec fn config_from_table(entries: Seq<(Seq<char>, TomlValueView)>) -> Result<Config, FormatProblem> {
    match take_entries(entries, no_fields()) {
        Ok(acc) => finish_fields(acc),
        Err(e) => Err(e),
    }
}

/// Where a refusal of the log level's value `v`, standing at `span`, points:
/// at the key of a one-key table when that key names no level, at the key's
/// value when that value is refused, and otherwise at the whole value.
pub open spec fn level_span(v: TomlValueView, span: Span) -> Span {
    match v {
        TomlValueView::Table(t) => if t.len() != 1 {
            span
        } else if level_named(t[0].key) is None {
            t[0].key_span
        } else {
            t[0].value_span
        },
        _ => span,
    }
}

/// Where the refusal of the entry `e`, read after the keys `acc`, points: a
/// repeated key at the whole document, which stands at `doc`; a key outside
/// the schema at the key; a refused value at the value, or for the log level
/// where [`level_span`] says.
pub open spec fn entry_span(acc: Fields, e: EntryView, doc: Span) -> Span {
    if e.key == field_name(ConfigField::Port) {
        if acc.port is Some { doc } else { e.value_span }
    } else if e.key == field_name(ConfigField::Mode) {
        if acc.mode is Some { doc } else { e.value_span }
    } else if e.key == field_name(ConfigField::LogLevel) {
        if acc.log_level is Some { doc } else { level_span(e.value, e.value_span) }
    } else {
        e.key_span
    }
}

/// Where the refusal of the entries `entries`, read in order after the keys
/// `acc`, points: where the first refused entry's refusal points, or at the
/// whole document, which stands at `doc`, when every entry was read and a
/// required key is missing.
pub open spec fn refusal_span_from(entries: Seq<EntryView>, acc: Fields, doc: Span) -> Span
    decreases entries.len(),
{
    if entries.len() == 0 {
        doc
    } else {
        match take_entry(acc, entries[0].key, entries[0].value) {
            Ok(next) => refusal_span_from(entries.drop_first(), next, doc),
            Err(_) => entry_span(acc, entries[0], doc),
        }
    }
}

/// Where the refusal of a document that stands at `doc` and whose table is
/// `entries` points.
pub open spec fn refusal_span(doc: Span, entries: Seq<EntryView>) -> Span {
    refusal_span_from(entries, no_fields(), doc)
}

/// A refusal by the schema, with the bytes of the text it points at.
#[derive(Debug)]
pub struct SchemaError {
    pub problem: FormatError,
    pub span: Span,
}

/// A decoding outcome by its mathematical content.
pub open spec fn format_outcome(r: Result<Config, SchemaError>) -> Result<Config, FormatProblem> {
    match r {
        Ok(c) => Ok(c),
        Err(e) => Err(e.problem@),
    }
}

/// Describes a value that a key does not take, or gives the reader's
/// overflow error for it.
pub fn unexpected_value(value: &TomlValue) -> (r: Result<Unexpected, FormatError>)
    ensures
        match r {
            Ok(u) => unexpected_of(value@) == Ok::<UnexpectedView, FormatProblem>(u@),
            Err(e) => unexpected_of(value@) == Err::<UnexpectedView, FormatProblem>(e@),
        },
{
    match value {
        TomlValue::Integer { digits, radix } => match read_integer(digits.as_str(), *radix) {
            IntegerReading::Signed(i) => Ok(Unexpected::Signed(i)),
            IntegerReading::Unsigned(n) => Ok(Unexpected::Unsigned(n)),
            IntegerReading::WideSigned(i) => Ok(Unexpected::WideSigned(i)),
            IntegerReading::WideUnsigned(n) => Ok(Unexpected::WideUnsigned(n)),
            IntegerReading::Overflow => Err(FormatError::IntegerOverflow),
        },
        TomlValue::Float(d) => match d {
            Some(t) => Ok(Unexpected::Float(t.clone())),
            None => Err(FormatError::FloatOverflow),
        },
        TomlValue::Text(s) => Ok(Unexpected::Text(s.clone())),
        TomlValue::Boolean(b) => Ok(Unexpected::Boolean(*b)),
        TomlValue::Datetime => Ok(Unexpected::Mapping),
        TomlValue::Array(_) => Ok(Unexpected::Sequence),
        TomlValue::Table(_) => Ok(Unexpected::Mapping),
    }
}

/// The refusal of `value` as the value of `field` for being of the wrong kind.
fn wrong_kind_error(field: ConfigField, value: &TomlValue) -> (r: FormatError)
    ensures
        r@ == wrong_kind(field, value@),
{
    match unexpected_value(value) {
        Ok(u) => FormatError::InvalidType(field, u),
        Err(e) => e,
    }
}

/// Reads the value of `port`: an integer that fits `u16` and is not 0.
pub fn non_zero_port(value: &TomlValue) -> (r: Result<u16, FormatError>)
    ensures
        match r {
            Ok(p) => port_from_value(value@) == Ok::<u16, FormatProblem>(p),
            Err(e) => port_from_value(value@) == Err::<u16, FormatProblem>(e@),
        },
{
    match value {
        TomlValue::Integer { digits, radix } => match read_integer(digits.as_str(), *radix) {
            IntegerReading::Signed(i) => if i == 0 {
                Err(FormatError::ZeroPort)
            } else if 0 < i && i <= 65535 {
                Ok(i as u16)
            } else {
                Err(FormatError::InvalidValue(Unexpected::Signed(i)))
            },
            IntegerReading::Unsigned(n) => Err(FormatError::InvalidValue(Unexpected::Unsigned(n))),
            _ => Err(wrong_kind_error(ConfigField::Port, value)),
        },
        _ => Err(wrong_kind_error(ConfigField::Port, value)),
    }
}

/// Reads the value of `mode`.
pub fn mode_value(value: &TomlValue) -> (r: Result<Mode, FormatError>)
    ensures
        match r {
            Ok(m) => mode_from_value(value@) == Ok::<Mode, FormatProblem>(m),
            Err(e) => mode_from_value(value@) == Err::<Mode, FormatProblem>(e@),
        },
{
    match value {
        TomlValue::Text(s) => match Mode::from_name(s.as_str()) {
            Ok(m) => Ok(m),
            Err(_) => Err(FormatError::UnknownMode(s.clone())),
        },
        _ => Err(wrong_kind_error(ConfigField::Mode, value)),
    }
}

/// Reads the value of `log_level`, which stands at `span`.
pub fn level_value(value: &TomlValue, span: Span) -> (r: Result<LogLevel, SchemaError>)
    ensures
        match r {
            Ok(l) => level_from_value(value@) == Ok::<LogLevel, FormatProblem>(l),
            Err(e) => level_from_value(value@) == Err::<LogLevel, FormatProblem>(e.problem@)
                && e.span == level_span(value@, span),
        },
{
    match value {
        TomlValue::Text(s) => match LogLevel::from_name(s.as_str()) {
            Some(l) => Ok(l),
            None => Err(SchemaError { problem: FormatError::UnknownLogLevel(s.clone()), span }),
        },
        TomlValue::Table(entries) => {
            proof { lemma_entries_view(entries@); }
            if entries.len() == 0 {
                Err(SchemaError { problem: FormatError::LevelTableEmpty, span })
            } else if entries.len() != 1 {
                Err(SchemaError { problem: FormatError::LevelTableCrowded, span })
            } else {
                let entry = &entries[0];
                match LogLevel::from_name(entry.key.as_str()) {
                    None => Err(SchemaError { problem: FormatError::UnknownLogLevel(entry.key.clone()), span: entry.key_span }),
                    Some(l) => match &entry.value {
                        TomlValue::Array(items) => {
                            proof { lemma_values_view(items@); }
                            if items.len() == 0 {
                                Ok(l)
                            } else {
                                Err(SchemaError { problem: FormatError::LevelArrayNotEmpty, span: entry.value_span })
                            }
                        },
                        TomlValue::Table(inner) => {
                            proof { lemma_entries_view(inner@); }
                            if inner.len() == 0 {
                                Ok(l)
                            } else {
                                Err(SchemaError { problem: FormatError::LevelTableNotEmpty, span: entry.value_span })
                            }
                        },
                        other => Err(SchemaError { problem: FormatError::LevelNotTable(ValueKind::of(other)), span: entry.value_span }),
                    },
                }
            }
        },
        _ => Err(SchemaError { problem: FormatError::LevelWrongKind, span }),
    }
}

/// Reads one key with its value into `acc`; a refusal points where
/// [`entry_span`] says, the whole document standing at `doc`.
fn take_one(acc: Fields, entry: &TomlEntry, doc: Span) -> (r: Result<Fields, SchemaError>)
    ensures
        match r {
            Ok(f) => take_entry(acc, entry.key@, entry.value@) == Ok::<Fields, FormatProblem>(f),
            Err(e) => take_entry(acc, entry.key@, entry.value@) == Err::<Fields, FormatProblem>(e.problem@)
                && e.span == entry_span(acc, entry_view(*entry), doc),
        },
{
    let key = entry.key.as_str();
    if str_eq(key, ConfigField::Port.as_str()) {
        if acc.port.is_some() {
            return Err(SchemaError { problem: FormatError::DuplicateField(ConfigField::Port), span: doc });
        }
        match non_zero_port(&entry.value) {
            Ok(p) => Ok(Fields { port: Some(p), ..acc }),
            Err(e) => Err(SchemaError { problem: e, span: entry.value_span }),
        }
    } else if str_eq(key, ConfigField::Mode.as_str()) {
        if acc.mode.is_some() {
            return Err(SchemaError { problem: FormatError::DuplicateField(ConfigField::Mode), span: doc });
        }
        match mode_value(&entry.value) {
            Ok(m) => Ok(Fields { mode: Some(m), ..acc }),
            Err(e) => Err(SchemaError { problem: e, span: entry.value_span }),
        }
    } else if str_eq(key, ConfigField::LogLevel.as_str()) {
        if acc.log_level.is_some() {
            return Err(SchemaError { problem: FormatError::DuplicateField(ConfigField::LogLevel), span: doc });
        }
        let l = level_value(&entry.value, entry.value_span)?;
        Ok(Fields { log_level: Some(Some(l)), ..acc })
    } else {
        Err(SchemaError { problem: FormatError::UnknownField(entry.key.clone()), span: entry.key_span })
    }
}

/// The configuration that a TOML document describes: the decoding that the
/// schema's deserializer performs on the keys of its table in the order
/// given, each refusal with the place it points at.
pub fn config_from_document(doc: &TomlDocument) -> (r: Result<Config, SchemaError>)
    ensures
        format_outcome(r) == config_from_table(entry_contents(entries_view(doc.entries@))),
        r matches Err(e) ==> e.span == refusal_span(doc.span, entries_view(doc.entries@)),
{
    let entries = &doc.entries;
    let ghost views = entries_view(entries@);
    let ghost all = entry_contents(views);
    let mut acc = Fields { port: None, mode: None, log_level: None };
    let mut i: usize = 0;
    proof { lemma_entries_view(entries@); }
    assert(all.skip(0) =~= all);
    assert(views.skip(0) =~= views);
    while i < entries.len()
        invariant
            i <= entries.len(),
            entries@ == doc.entries@,
            views == entries_view(entries@),
            all == entry_contents(views),
            views.len() == entries@.len(),
            forall|j: int| 0 <= j < entries@.len() ==> #[trigger] views[j] == entry_view(entries@[j]),
            take_entries(all, no_fields()) == take_entries(all.skip(i as int), acc),
            refusal_span(doc.span, views) == refusal_span_from(views.skip(i as int), acc, doc.span),
        decreases entries.len() - i,
    {
        let ghost rest = all.skip(i as int);
        let ghost rest_views = views.skip(i as int);
        assert(rest[0] == (entries@[i as int].key@, entries@[i as int].value@));
        assert(rest_views[0] == entry_view(entries@[i as int]));
        assert(rest.drop_first() =~= all.skip(i + 1));
        assert(rest_views.drop_first() =~= views.skip(i + 1));
        assert(rest.len() > 0 && rest_views.len() > 0);
        assert(rest[0] == (rest_views[0].key, rest_views[0].value));
        match take_one(acc, &entries[i], doc.span) {
            Ok(next) => {
                acc = next;
            },
            Err(e) => {
                assert(take_entries(rest, acc) == Err::<Fields, FormatProblem>(e.problem@));
                assert(refusal_span_from(rest_views, acc, doc.span) == e.span);
                return Err(e);
            },
        }
        i = i + 1;
    }
    assert(all.skip(i as int) =~= Seq::<(Seq<char>, TomlValueView)>::empty());
    assert(views.skip(i as int) =~= Seq::<EntryView>::empty());
    match (acc.port, acc.mode) {
        (None, _) => Err(SchemaError { problem: FormatError::MissingField(ConfigField::Port), span: doc.span }),
        (Some(_), None) => Err(SchemaError { problem: FormatError::MissingField(ConfigField::Mode), span: doc.span }),
        (Some(port), Some(mode)) => Ok(Config {
            port,
            mode,
            log_level: match acc.log_level {
                Some(l) => l,
                None => None,
            },
        }),
    }
}

/// A refusal of a configuration text.
#[derive(Debug)]
pub enum TomlError {
    /// The TOML reader refused the text; the error is the reader's, and its
    /// text shows the place itself.
    Syntax(toml::de::Error),
    /// The text's table does not fit the schema; `input` is the text.
    Schema { error: SchemaError, input: String },
}

/// The mathematical content of a [`TomlError`]; a syntax error is known by
/// its kind only.
pub enum TomlProblem {
    Syntax,
    Schema(FormatProblem, Span, Seq<char>),
}

impl View for TomlError {
    type V = TomlProblem;

    open spec fn view(&self) -> TomlProblem {
        match self {
            TomlError::Syntax(_) => TomlProblem::Syntax,
            TomlError::Schema { error, input } => TomlProblem::Schema(error.problem@, error.span, input@),
        }
    }
}

/// The text of a refusal by the schema: its [`problem_text`], framed with
/// the place in the text that it points at.
pub open spec fn schema_error_text(problem: FormatProblem, span: Span, input: Seq<char>) -> Seq<char> {
    framed_error(input, span, problem_text(problem))
}

impl TomlError {
    /// The text of the error: for a syntax error the TOML reader's text, for
    /// a refusal by the schema [`schema_error_text`].
    pub fn message(&self) -> (r: String)
        ensures
            self@ matches TomlProblem::Schema(p, span, input) ==> r@ == schema_error_text(p, span, input),
    {
        match self {
            TomlError::Syntax(e) => toml_error_text(e),
            TomlError::Schema { error, input } => {
                let text = error.problem.message();
                framed_error_text(input.as_str(), error.span, text.as_str())
            },
        }
    }
}

/// What reading the configuration text `text` gives.
pub open spec fn config_from_text(text: Seq<char>) -> Result<Config, ConfigProblem> {
    match toml_table(text) {
        None => Err(ConfigProblem::Toml(TomlProblem::Syntax)),
        Some((doc, entries)) => match config_from_table(entry_contents(entries)) {
            Ok(c) => Ok(c),
            Err(p) => Err(ConfigProblem::Toml(TomlProblem::Schema(p, refusal_span(doc, entries), text))),
        },
    }
}

/// A loading outcome by its mathematical content.
pub open spec fn config_outcome(r: Result<Config, ConfigError>) -> Result<Config, ConfigProblem> {
    match r {
        Ok(c) => Ok(c),
        Err(e) => Err(e@),
    }
}

/// Reads a TOML text into a [`Config`] and checks it against the schema.
pub fn parse_config(text: &str) -> (r: Result<Config, ConfigError>)
    ensures
        config_outcome(r) == config_from_text(text@),
        r matches Ok(c) ==> c.port != 0,
{
    match read_toml_table(text) {
        Err(e) => Err(ConfigError::Toml(TomlError::Syntax(e))),
        Ok(doc) => {
            let r = config_from_document(&doc);
            proof { lemma_decoded_port_nonzero(entry_contents(entries_view(doc.entries@))); }
            match r {
                Ok(c) => Ok(c),
                Err(error) => Err(ConfigError::Toml(TomlError::Schema { error, input: text.to_owned() })),
            }
        },
    }
}

/// Reading keys never records a port of 0.
proof fn lemma_take_entries_port(entries: Seq<(Seq<char>, TomlValueView)>, acc: Fields)
    requires
        acc.port matches Some(p) ==> p != 0,
    ensures
        take_entries(entries, acc) matches Ok(f) ==> (f.port matches Some(p) ==> p != 0),
    decreases entries.len(),
{
    if entries.len() > 0 {
        if let Ok(next) = take_entry(acc, entries[0].0, entries[0].1) {
            lemma_take_entries_port(entries.drop_first(), next);
        }
    }
}

/// A configuration decoded from any table has a nonzero port.
pub proof fn lemma_decoded_port_nonzero(entries: Seq<(Seq<char>, TomlValueView)>)
    ensures
        config_from_table(entries) matches Ok(c) ==> c.port != 0,
{
    lemma_take_entries_port(entries, no_fields());
}

/// What a key expects, in the words of an invalid-type error.
pub open spec fn expected_text(f: ConfigField) -> Seq<char> {
    match f {
        ConfigField::Port => "u16"@,
        ConfigField::Mode => "a string"@,
        ConfigField::LogLevel => "enum LogLevel"@,
    }
}

/// The text of a refusal other than one by the TOML reader, worded as
/// `serde` and the TOML reader word such errors.
pub open spec fn problem_text(p: FormatProblem) -> Seq<char> {
    match p {
        FormatProblem::MissingField(f) => "missing field `"@ + field_name(f) + "`"@,
        FormatProblem::DuplicateField(f) => "duplicate field `"@ + field_name(f) + "`"@,
        FormatProblem::UnknownField(k) => "unknown field `"@ + k
            + "`, expected one of `port`, `mode`, `log_level`"@,
        FormatProblem::InvalidType(f, u) => "invalid type: "@ + unexpected_text(u) + ", expected "@
            + expected_text(f),
        FormatProblem::InvalidValue(u) => "invalid value: "@ + unexpected_text(u) + ", expected u16"@,
        FormatProblem::IntegerOverflow => "integer number overflowed"@,
        FormatProblem::FloatOverflow => "floating-point number overflowed"@,
        FormatProblem::ZeroPort => "端口不能为 0"@,
        FormatProblem::UnknownMode(_) => "Matching variant not found"@,
        FormatProblem::UnknownLogLevel(s) => "unknown variant `"@ + s
            + "`, expected one of `trace`, `debug`, `info`, `warn`, `error`"@,
        FormatProblem::LevelWrongKind => "wanted string or table"@,
        FormatProblem::LevelTableEmpty => "wanted exactly 1 element, found 0 elements"@,
        FormatProblem::LevelTableCrowded => "wanted exactly 1 element, more than 1 element"@,
        FormatProblem::LevelArrayNotEmpty => "expected empty array"@,
        FormatProblem::LevelTableNotEmpty => "expected empty table"@,
        FormatProblem::LevelNotTable(k) => "expected table, found "@ + kind_name(k),
    }
}

impl ConfigField {
    /// What the key expects, in the words of an invalid-type error.
    fn expected(&self) -> (r: &'static str)
        ensures
            r@ == expected_text(*self),
    {
        match self {
            ConfigField::Port => "u16",
            ConfigField::Mode => "a string",
            ConfigField::LogLevel => "enum LogLevel",
        }
    }
}

impl FormatError {
    /// The text of the error: [`problem_text`].
    pub fn message(&self) -> (r: String)
        ensures
            r@ == problem_text(self@),
    {
        let mut out = String::new();
        match self {
            FormatError::MissingField(f) => {
                out.append("missing field `");
                out.append(f.as_str());
                out.append("`");
            },
            FormatError::DuplicateField(f) => {
                out.append("duplicate field `");
                out.append(f.as_str());
                out.append("`");
            },
            FormatError::UnknownField(k) => {
                out.append("unknown field `");
                out.append(k.as_str());
                out.append("`, expected one of `port`, `mode`, `log_level`");
            },
            FormatError::InvalidType(f, u) => {
                out.append("invalid type: ");
                u.describe_into(&mut out);
                out.append(", expected ");
                out.append(f.expected());
            },
            FormatError::InvalidValue(u) => {
                out.append("invalid value: ");
                u.describe_into(&mut out);
                out.append(", expected u16");
            },
            FormatError::IntegerOverflow => out.append("integer number overflowed"),
            FormatError::FloatOverflow => out.append("floating-point number overflowed"),
            FormatError::ZeroPort => out.append("端口不能为 0"),
            FormatError::UnknownMode(_) => out.append("Matching variant not found"),
            FormatError::UnknownLogLevel(s) => {
                out.append("unknown variant `");
                out.append(s.as_str());
                out.append("`, expected one of `trace`, `debug`, `info`, `warn`, `error`");
            },
            FormatError::LevelWrongKind => out.append("wanted string or table"),
            FormatError::LevelTableEmpty => out.append("wanted exactly 1 element, found 0 elements"),
            FormatError::LevelTableCrowded => out.append("wanted exactly 1 element, more than 1 element"),
            FormatError::LevelArrayNotEmpty => out.append("expected empty array"),
            FormatError::LevelTableNotEmpty => out.append("expected empty table"),
            FormatError::LevelNotTable(k) => {
                out.append("expected table, found ");
                out.append(k.name());
            },
        }
        out
    }
}

/// The top-level table that writes `c` down, in the order the TOML reader
/// keeps keys (`log_level`, `mode`, `port`): the mode and level by their
/// names, the port in decimal, the level only when there is one.
pub open spec fn config_table(c: Config) -> Seq<(Seq<char>, TomlValueView)> {
    let rest = seq![
        (field_name(ConfigField::Mode), TomlValueView::Text(mode_name(c.mode))),
        (field_name(ConfigField::Port), TomlValueView::Integer(decimal(c.port as nat), 10)),
    ];
    match c.log_level {
        Some(l) => seq![(field_name(ConfigField::LogLevel), TomlValueView::Text(level_name(l)))] + rest,
        None => rest,
    }
}

/// A decimal representation starts with a digit and reads back in base 10
/// as its number.
proof fn lemma_decimal_digits(n: nat)
    ensures
        decimal(n).len() > 0,
        '0' <= decimal(n)[0] <= '9',
        digits_value(decimal(n), 10) == Some(n),
    decreases n,
{
    if n < 10 {
        let d = decimal(n);
        assert(d == digit_text(n));
        assert(d.drop_last() =~= Seq::<char>::empty());
        assert(digits_value(d.drop_last(), 10) == Some(0nat));
        assert(digit_value(d.last()) == n);
        assert(digits_value(d, 10) == Some(0 * 10 + n));
    } else {
        lemma_decimal_digits(n / 10);
        let d = decimal(n);
        let head = decimal(n / 10);
        let tail = digit_text(n % 10);
        assert(d == head + tail);
        assert(d.drop_last() =~= head);
        assert(d.last() == tail[0]);
        assert(digit_value(tail[0]) == n % 10);
        assert(d[0] == head[0]);
        assert((n / 10) * 10 + n % 10 == n) by (nonlinear_arith);
        assert(digits_value(d, 10) == Some((n / 10) * 10 + n % 10));
    }
}

/// A number written in decimal reads back as that number.
pub proof fn lemma_decimal_reading(n: nat)
    requires
        n <= i64::MAX,
    ensures
        integer_reading(decimal(n), 10) == IntegerReading::Signed(n as i64),
{
    lemma_decimal_digits(n);
    assert(integer_value(decimal(n), 10) == Some(n as int));
}

/// Writing a configuration with a nonzero port down as a table and reading
/// the table back gives the same configuration: each mode and level is read
/// back from the name it is written with.
pub proof fn lemma_config_table_roundtrip(c: Config)
    requires
        c.port != 0,
    ensures
        config_from_table(config_table(c)) == Ok::<Config, FormatProblem>(c),
{
    lemma_mode_name_roundtrip(c.mode);
    lemma_decimal_reading(c.port as nat);
    let t = config_table(c);
    let mode_entry = (field_name(ConfigField::Mode), TomlValueView::Text(mode_name(c.mode)));
    let port_entry = (field_name(ConfigField::Port), TomlValueView::Integer(decimal(c.port as nat), 10));
    let rest = seq![mode_entry, port_entry];
    assert(rest.drop_first() =~= seq![port_entry]);
    assert(seq![port_entry].drop_first() =~= Seq::<(Seq<char>, TomlValueView)>::empty());
    assert(field_name(ConfigField::Mode) != field_name(ConfigField::Port));
    assert(field_name(ConfigField::LogLevel) != field_name(ConfigField::Port));
    assert(field_name(ConfigField::LogLevel) != field_name(ConfigField::Mode));
    match c.log_level {
        Some(l) => {
            lemma_level_name_roundtrip(l);
            assert(t.drop_first() =~= rest);
            let after_level = Fields { port: None, mode: None, log_level: Some(Some(l)) };
            assert(take_entry(no_fields(), t[0].0, t[0].1) == Ok::<Fields, FormatProblem>(after_level));
            let after_mode = Fields { mode: Some(c.mode), ..after_level };
            assert(take_entry(after_level, rest[0].0, rest[0].1) == Ok::<Fields, FormatProblem>(after_mode));
            let after_port = Fields { port: Some(c.port), ..after_mode };
            assert(take_entry(after_mode, port_entry.0, port_entry.1) == Ok::<Fields, FormatProblem>(after_port));
            let last = seq![port_entry];
            assert(last[0] == port_entry);
            assert(take_entries(last.drop_first(), after_port) == Ok::<Fields, FormatProblem>(after_port));
            assert(take_entries(last, after_mode) == Ok::<Fields, FormatProblem>(after_port));
            assert(take_entries(rest, after_level) == Ok::<Fields, FormatProblem>(after_port));
        },
        None => {
            let after_mode = Fields { mode: Some(c.mode), ..no_fields() };
            assert(take_entry(no_fields(), rest[0].0, rest[0].1) == Ok::<Fields, FormatProblem>(after_mode));
            let after_port = Fields { port: Some(c.port), ..after_mode };
            assert(take_entry(after_mode, port_entry.0, port_entry.1) == Ok::<Fields, FormatProblem>(after_port));
            let last = seq![port_entry];
            assert(last[0] == port_entry);
            assert(take_entries(last.drop_first(), after_port) == Ok::<Fields, FormatProblem>(after_port));
            assert(take_entries(last, after_mode) == Ok::<Fields, FormatProblem>(after_port));
        },
    }
}

/// The configuration file's `mode` is read as the command line reads one:
/// a text that is a mode's name in any ASCII case (`Dev`, `DEV`, `dev`)
/// gives that mode.
pub proof fn lemma_mode_value_ignores_case(s: Seq<char>, m: Mode)
    requires
        eq_ignore_ascii_case(s, mode_name(m)),
    ensures
        mode_from_value(TomlValueView::Text(s)) == Ok::<Mode, FormatProblem>(m),
{
    lemma_mode_name_ignores_ascii_case(m, s);
}

/// A `mode` text that is no mode's name in any ASCII case is refused, the
/// refusal carrying the text as it stands.
pub proof fn lemma_mode_value_unknown(s: Seq<char>)
    requires
        forall|m: Mode| !eq_ignore_ascii_case(s, #[trigger] mode_name(m)),
    ensures
        mode_from_value(TomlValueView::Text(s)) == Err::<Mode, FormatProblem>(FormatProblem::UnknownMode(s)),
{
    assert(!eq_ignore_ascii_case(s, mode_name(Mode::Dev)));
    assert(!eq_ignore_ascii_case(s, mode_name(Mode::Staging)));
    assert(!eq_ignore_ascii_case(s, mode_name(Mode::Prod)));
    assert(!eq_ignore_ascii_case(s, mode_name(Mode::Test)));
}

/// A table of a nonzero port and a mode written in any ASCII case reads as
/// that port and mode, with no log level.
pub proof fn lemma_table_mode_in_any_case(port: u16, s: Seq<char>, m: Mode)
    requires
        port != 0,
        eq_ignore_ascii_case(s, mode_name(m)),
    ensures
        config_from_table(seq![
            (field_name(ConfigField::Mode), TomlValueView::Text(s)),
            (field_name(ConfigField::Port), TomlValueView::Integer(decimal(port as nat), 10)),
        ]) == Ok::<Config, FormatProblem>(Config { port, mode: m, log_level: None }),
{
    lemma_mode_name_ignores_ascii_case(m, s);
    lemma_decimal_reading(port as nat);
    let mode_entry = (field_name(ConfigField::Mode), TomlValueView::Text(s));
    let port_entry = (field_name(ConfigField::Port), TomlValueView::Integer(decimal(port as nat), 10));
    let t = seq![mode_entry, port_entry];
    assert(field_name(ConfigField::Mode) != field_name(ConfigField::Port));
    let after_mode = Fields { mode: Some(m), ..no_fields() };
    assert(take_entry(no_fields(), t[0].0, t[0].1) == Ok::<Fields, FormatProblem>(after_mode));
    let after_port = Fields { port: Some(port), ..after_mode };
    assert(take_entry(after_mode, port_entry.0, port_entry.1) == Ok::<Fields, FormatProblem>(after_port));
    assert(t.drop_first() =~= seq![port_entry]);
    let last = seq![port_entry];
    assert(last[0] == port_entry);
    assert(last.drop_first() =~= Seq::<(Seq<char>, TomlValueView)>::empty());
    assert(take_entries(last.drop_first(), after_port) == Ok::<Fields, FormatProblem>(after_port));
    assert(take_entries(last, after_mode) == Ok::<Fields, FormatProblem>(after_port));
}

/// Whether `key` is one of the schema's keys.
pub open spec fn is_schema_key(key: Seq<char>) -> bool {
    ||| key == field_name(ConfigField::Port)
    ||| key == field_name(ConfigField::Mode)
    ||| key == field_name(ConfigField::LogLevel)
}

proof fn lemma_take_entries_unknown_key(entries: Seq<(Seq<char>, TomlValueView)>, acc: Fields, i: int)
    requires
        0 <= i < entries.len(),
        !is_schema_key(entries[i].0),
    ensures
        take_entries(entries, acc) is Err,
    decreases i,
{
    if i > 0 {
        if let Ok(next) = take_entry(acc, entries[0].0, entries[0].1) {
            assert(entries.drop_first()[i - 1] == entries[i]);
            lemma_take_entries_unknown_key(entries.drop_first(), next, i - 1);
        }
    }
}

/// A table with a key outside the schema is refused: unknown keys are never
/// silently ignored, so a misspelt optional key does not pass unnoticed.
pub proof fn lemma_unknown_key_refused(entries: Seq<(Seq<char>, TomlValueView)>, i: int)
    requires
        0 <= i < entries.len(),
        !is_schema_key(entries[i].0),
    ensures
        config_from_table(entries) is Err,
{
    lemma_take_entries_unknown_key(entries, no_fields(), i);
}

proof fn lemma_take_entries_zero_port(entries: Seq<(Seq<char>, TomlValueView)>, acc: Fields, i: int)
    requires
        0 <= i < entries.len(),
        entries[i].0 == field_name(ConfigField::Port),
        entries[i].1 matches TomlValueView::Integer(d, r) && integer_reading(d, r as nat) == IntegerReading::Signed(0),
    ensures
        take_entries(entries, acc) is Err,
    decreases i,
{
    if i > 0 {
        if let Ok(next) = take_entry(acc, entries[0].0, entries[0].1) {
            assert(entries.drop_first()[i - 1] == entries[i]);
            lemma_take_entries_zero_port(entries.drop_first(), next, i - 1);
        }
    }
}

/// A table whose `port` is an integer that reads as 0 is refused.
pub proof fn lemma_zero_port_refused(entries: Seq<(Seq<char>, TomlValueView)>, i: int)
    requires
        0 <= i < entries.len(),
        entries[i].0 == field_name(ConfigField::Port),
        entries[i].1 matches TomlValueView::Integer(d, r) && integer_reading(d, r as nat) == IntegerReading::Signed(0),
    ensures
        config_from_table(entries) is Err,
{
    lemma_take_entries_zero_port(entries, no_fields(), i);
}

proof fn lemma_take_entries_keeps_absent(entries: Seq<(Seq<char>, TomlValueView)>, acc: Fields, f: ConfigField)
    requires
        forall|j: int| 0 <= j < entries.len() ==> entries[j].0 != field_name(f),
    ensures
        take_entries(entries, acc) matches Ok(r) ==> match f {
            ConfigField::Port => r.port == acc.port,
            ConfigField::Mode => r.mode == acc.mode,
            ConfigField::LogLevel => r.log_level == acc.log_level,
        },
    decreases entries.len(),
{
    if entries.len() > 0 {
        assert(entries[0].0 != field_name(f));
        if let Ok(next) = take_entry(acc, entries[0].0, entries[0].1) {
            assert forall|j: int| 0 <= j < entries.drop_first().len() implies entries.drop_first()[j].0 != field_name(f) by {
                assert(entries.drop_first()[j] == entries[j + 1]);
            }
            lemma_take_entries_keeps_absent(entries.drop_first(), next, f);
        }
    }
}

/// A table without `port`, or without `mode`, is refused: both keys are
/// required, and only `log_level` may be left out, which then reads as no
/// level.
pub proof fn lemma_required_keys(entries: Seq<(Seq<char>, TomlValueView)>)
    ensures
        (forall|j: int| 0 <= j < entries.len() ==> entries[j].0 != field_name(ConfigField::Port))
            ==> config_from_table(entries) is Err,
        (forall|j: int| 0 <= j < entries.len() ==> entries[j].0 != field_name(ConfigField::Mode))
            ==> config_from_table(entries) is Err,
        (forall|j: int| 0 <= j < entries.len() ==> entries[j].0 != field_name(ConfigField::LogLevel))
            ==> (config_from_table(entries) matches Ok(c) ==> c.log_level is None),
{
    if forall|j: int| 0 <= j < entries.len() ==> entries[j].0 != field_name(ConfigField::Port) {
        lemma_take_entries_keeps_absent(entries, no_fields(), ConfigField::Port);
    }
    if forall|j: int| 0 <= j < entries.len() ==> entries[j].0 != field_name(ConfigField::Mode) {
        lemma_take_entries_keeps_absent(entries, no_fields(), ConfigField::Mode);
    }
    if forall|j: int| 0 <= j < entries.len() ==> entries[j].0 != field_name(ConfigField::LogLevel) {
        lemma_take_entries_keeps_absent(entries, no_fields(), ConfigField::LogLevel);
    }
}

} // verus!
