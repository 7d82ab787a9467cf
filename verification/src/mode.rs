//! The run modes and log levels of the service, with their names.
//!
//! A mode is named in snake case (`dev`, `staging`, `prod`, `test`) and a
//! name is recognised whatever its ASCII case. A log level is named in snake
//! case too (`trace`, `debug`, `info`, `warn`, `error`), and there the case
//! must match exactly.

use vstd::prelude::*;
use crate::text::{eq_ignore_ascii_case, ascii_lower, str_eq_ignore_ascii_case, str_eq};

verus! {

/// Run mode.
#[derive(Debug, Clone, Copy, PartialEq, Eq, Structural, Hash)]
pub enum Mode {
    /// Local development.
    Dev,
    /// Pre-release.
    Staging,
    /// Production.
    Prod,
    /// Automated tests.
    Test,
}

/// Log level that a configuration file may ask for.
#[derive(Debug, Clone, Copy, PartialEq, Eq, Structural, Hash)]
pub enum LogLevel {
    Trace,
    Debug,
    Info,
    Warn,
    Error,
}

/// The error of recognising a mode name: no mode has that name.
#[derive(Debug, Clone, Copy, PartialEq, Eq, Structural, Hash)]
pub enum ModeParseError {
    /// No variant matches the text.
    VariantNotFound,
}

/// Every mode, in declaration order.
pub open spec fn all_modes() -> Seq<Mode> {
    seq![Mode::Dev, Mode::Staging, Mode::Prod, Mode::Test]
}

/// The name of a mode.
pub open spec fn mode_name(m: Mode) -> Seq<char> {
    match m {
        Mode::Dev => seq!['d', 'e', 'v'],
        Mode::Staging => seq!['s', 't', 'a', 'g', 'i', 'n', 'g'],
        Mode::Prod => seq!['p', 'r', 'o', 'd'],
        Mode::Test => seq!['t', 'e', 's', 't'],
    }
}

/// The mode whose name equals `s` up to ASCII case, if there is one.
pub open spec fn mode_named(s: Seq<char>) -> Option<Mode> {
    if eq_ignore_ascii_case(s, mode_name(Mode::Dev)) {
        Some(Mode::Dev)
    } else if eq_ignore_ascii_case(s, mode_name(Mode::Staging)) {
        Some(Mode::Staging)
    } else if eq_ignore_ascii_case(s, mode_name(Mode::Prod)) {
        Some(Mode::Prod)
    } else if eq_ignore_ascii_case(s, mode_name(Mode::Test)) {
        Some(Mode::Test)
    } else {
        None
    }
}

/// What recognising `s` as a mode gives.
pub open spec fn mode_from_text(s: Seq<char>) -> Result<Mode, ModeParseError> {
    match mode_named(s) {
        Some(m) => Ok(m),
        None => Err(ModeParseError::VariantNotFound),
    }
}

/// The name of a log level.
pub open spec fn level_name(l: LogLevel) -> Seq<char> {
    match l {
        LogLevel::Trace => seq!['t', 'r', 'a', 'c', 'e'],
        LogLevel::Debug => seq!['d', 'e', 'b', 'u', 'g'],
        LogLevel::Info => seq!['i', 'n', 'f', 'o'],
        LogLevel::Warn => seq!['w', 'a', 'r', 'n'],
        LogLevel::Error => seq!['e', 'r', 'r', 'o', 'r'],
    }
}

/// The log level whose name is exactly `s`, if there is one.
pub open spec fn level_named(s: Seq<char>) -> Option<LogLevel> {
    if s == level_name(LogLevel::Trace) {
        Some(LogLevel::Trace)
    } else if s == level_name(LogLevel::Debug) {
        Some(LogLevel::Debug)
    } else if s == level_name(LogLevel::Info) {
        Some(LogLevel::Info)
    } else if s == level_name(LogLevel::Warn) {
        Some(LogLevel::Warn)
    } else if s == level_name(LogLevel::Error) {
        Some(LogLevel::Error)
    } else {
        None
    }
}

impl Mode {
    /// The names of every mode, in declaration order.
    pub const VARIANTS: [&'static str; 4] = ["dev", "staging", "prod", "test"];

    /// Every mode, in declaration order.
    pub fn iter() -> (r: Vec<Mode>)
        ensures
            r@ == all_modes(),
    {
        let r = vec![Mode::Dev, Mode::Staging, Mode::Prod, Mode::Test];
        assert(r@ =~= all_modes());
        r
    }

    /// The name of the mode.
    pub fn as_str(&self) -> (r: &'static str)
        ensures
            r@ == mode_name(*self),
    {
        match self {
            Mode::Dev => {
                proof { reveal_strlit("dev"); }
                "dev"
            },
            Mode::Staging => {
                proof { reveal_strlit("staging"); }
                "staging"
            },
            Mode::Prod => {
                proof { reveal_strlit("prod"); }
                "prod"
            },
            Mode::Test => {
                proof { reveal_strlit("test"); }
                "test"
            },
        }
    }

    /// The name of the mode, as an owned string.
    pub fn to_string(&self) -> (r: String)
        ensures
            r@ == mode_name(*self),
    {
        self.as_str().to_owned()
    }

    /// The mode whose name equals `s` up to ASCII case. Surrounding
    /// whitespace is not removed here.
    pub fn from_name(s: &str) -> (r: Result<Mode, ModeParseError>)
        ensures
            r == mode_from_text(s@),
    {
        if str_eq_ignore_ascii_case(s, Mode::Dev.as_str()) {
            Ok(Mode::Dev)
        } else if str_eq_ignore_ascii_case(s, Mode::Staging.as_str()) {
            Ok(Mode::Staging)
        } else if str_eq_ignore_ascii_case(s, Mode::Prod.as_str()) {
            Ok(Mode::Prod)
        } else if str_eq_ignore_ascii_case(s, Mode::Test.as_str()) {
            Ok(Mode::Test)
        } else {
            Err(ModeParseError::VariantNotFound)
        }
    }
}

impl ModeParseError {
    /// The text of the error.
    pub fn message(&self) -> (r: String)
        ensures
            r@ == "Matching variant not found"@,
    {
        "Matching variant not found".to_owned()
    }
}

impl From<Mode> for String {
    fn from(value: Mode) -> (r: String)
        ensures
            r@ == mode_name(value),
    {
        value.to_string()
    }
}

impl vstd::std_specs::convert::FromSpecImpl<Mode> for String {
    /// Strings with the same characters are not known to be the same value,
    /// so `from` is described by its own `ensures` instead.
    open spec fn obeys_from_spec() -> bool {
        false
    }

    open spec fn from_spec(v: Mode) -> String {
        arbitrary()
    }
}

impl std::str::FromStr for Mode {
    type Err = ModeParseError;

    fn from_str(s: &str) -> (r: Result<Mode, ModeParseError>)
        ensures
            r == mode_from_text(s@),
    {
        Mode::from_name(s)
    }
}

impl TryFrom<String> for Mode {
    type Error = ModeParseError;

    fn try_from(value: String) -> (r: Result<Mode, ModeParseError>) {
        Mode::from_name(value.as_str())
    }
}

impl vstd::std_specs::convert::TryFromSpecImpl<String> for Mode {
    open spec fn obeys_try_from_spec() -> bool {
        true
    }

    open spec fn try_from_spec(v: String) -> Result<Mode, ModeParseError> {
        mode_from_text(v@)
    }
}

impl LogLevel {
    /// The name of the level.
    pub fn as_str(&self) -> (r: &'static str)
        ensures
            r@ == level_name(*self),
    {
        match self {
            LogLevel::Trace => {
                proof { reveal_strlit("trace"); }
                "trace"
            },
            LogLevel::Debug => {
                proof { reveal_strlit("debug"); }
                "debug"
            },
            LogLevel::Info => {
                proof { reveal_strlit("info"); }
                "info"
            },
            LogLevel::Warn => {
                proof { reveal_strlit("warn"); }
                "warn"
            },
            LogLevel::Error => {
                proof { reveal_strlit("error"); }
                "error"
            },
        }
    }

    /// The level whose name is exactly `s`.
    pub fn from_name(s: &str) -> (r: Option<LogLevel>)
        ensures
            r == level_named(s@),
    {
        if str_eq(s, LogLevel::Trace.as_str()) {
            Some(LogLevel::Trace)
        } else if str_eq(s, LogLevel::Debug.as_str()) {
            Some(LogLevel::Debug)
        } else if str_eq(s, LogLevel::Info.as_str()) {
            Some(LogLevel::Info)
        } else if str_eq(s, LogLevel::Warn.as_str()) {
            Some(LogLevel::Warn)
        } else if str_eq(s, LogLevel::Error.as_str()) {
            Some(LogLevel::Error)
        } else {
            None
        }
    }
}

/// Reading the name of a mode back gives that mode: a mode printed by its
/// name and parsed again is the same mode.
pub proof fn lemma_mode_name_roundtrip(m: Mode)
    ensures
        mode_named(mode_name(m)) == Some(m),
        mode_from_text(mode_name(m)) == Ok::<Mode, ModeParseError>(m),
{
    let n = mode_name(m);
    assert(eq_ignore_ascii_case(n, n));
    if m == Mode::Test {
        assert(ascii_lower(n[0]) != ascii_lower(mode_name(Mode::Prod)[0]));
    }
    if m == Mode::Prod {
        assert(ascii_lower(n[0]) == ascii_lower(mode_name(Mode::Prod)[0]));
    }
}

/// A name that differs from a mode's name only in ASCII case still names
/// that mode.
pub proof fn lemma_mode_name_ignores_ascii_case(m: Mode, s: Seq<char>)
    requires
        eq_ignore_ascii_case(s, mode_name(m)),
    ensures
        mode_named(s) == Some(m),
{
    if m == Mode::Test {
        assert(ascii_lower(s[0]) == ascii_lower(mode_name(Mode::Test)[0]));
        assert(ascii_lower(s[0]) != ascii_lower(mode_name(Mode::Prod)[0]));
    }
}

/// Reading the name of a log level back gives that level.
pub proof fn lemma_level_name_roundtrip(l: LogLevel)
    ensures
        level_named(level_name(l)) == Some(l),
{
    let n = level_name(l);
    assert(n != level_name(LogLevel::Trace) || l == LogLevel::Trace) by {
        if l != LogLevel::Trace {
            assert(n[0] != 't' || n[1] != 'r' || n.len() != 5);
        }
    }
    assert(n != level_name(LogLevel::Debug) || l == LogLevel::Debug) by {
        if l != LogLevel::Debug {
            assert(n[0] != 'd');
        }
    }
    assert(n != level_name(LogLevel::Info) || l == LogLevel::Info) by {
        if l != LogLevel::Info {
            assert(n[0] != 'i');
        }
    }
    assert(n != level_name(LogLevel::Warn) || l == LogLevel::Warn) by {
        if l != LogLevel::Warn {
            assert(n[0] != 'w');
        }
    }
}

} // verus!
