//! The errors of loading a configuration, their texts, the reading of a run
//! mode given on the command line, and the decision that turns the outcome
//! of reading the configuration file into a configuration.

use vstd::prelude::*;
use crate::config::{Config, TomlError, TomlProblem, schema_error_text, config_from_text,
    config_outcome, parse_config};
use crate::mode::{Mode, mode_name, mode_named, lemma_mode_name_ignores_ascii_case};
use crate::text::{trim, trimmed, contains_text, lemma_contains_middle, eq_ignore_ascii_case, all_space,
    upper_text, lemma_trimmed_ignores_padding, lemma_trimmed_upper, lemma_eq_ignore_case_upper};

verus! {

/// Errors of loading the configuration.
#[derive(Debug)]
#[non_exhaustive]
pub enum ConfigError {
    /// The configuration file does not exist.
    NotFound {
        /// The path the user gave.
        path: String,
    },
    /// Reading the configuration file failed otherwise (permissions, a
    /// directory, a disk error).
    Io {
        /// The path that failed.
        path: String,
        /// The underlying I/O error.
        source: std::io::Error,
    },
    /// The mode given on the command line names no mode.
    UnknownMode {
        /// The text given, without surrounding whitespace.
        value: String,
    },
    /// The configuration text is not TOML, or its keys or values do not fit
    /// the schema.
    Toml(TomlError),
}

#[verifier::external_type_specification]
#[verifier::external_body]
pub struct ExIoError(std::io::Error);

/// The mathematical content of a [`ConfigError`]; an I/O error is known by
/// its path only.
pub enum ConfigProblem {
    NotFound(Seq<char>),
    Io(Seq<char>),
    UnknownMode(Seq<char>),
    Toml(TomlProblem),
}

impl View for ConfigError {
    type V = ConfigProblem;

    open spec fn view(&self) -> ConfigProblem {
        match self {
            ConfigError::NotFound { path } => ConfigProblem::NotFound(path@),
            ConfigError::Io { path, .. } => ConfigProblem::Io(path@),
            ConfigError::UnknownMode { value } => ConfigProblem::UnknownMode(value@),
            ConfigError::Toml(e) => ConfigProblem::Toml(e@),
        }
    }
}

/// The list of every mode name that an unknown-mode error offers:
/// `dev / staging / prod / test`.
pub open spec fn mode_list() -> Seq<char> {
    mode_name(Mode::Dev) + " / "@ + mode_name(Mode::Staging) + " / "@ + mode_name(Mode::Prod)
        + " / "@ + mode_name(Mode::Test)
}

/// The text of an error.
pub open spec fn error_text(p: ConfigProblem) -> Seq<char> {
    match p {
        ConfigProblem::NotFound(path) => "找不到配置文件: "@ + path,
        ConfigProblem::Io(path) => "读取配置文件 "@ + path + " 失败"@,
        ConfigProblem::UnknownMode(value) => "未知的运行模式 "@ + value + "，可选值："@ + mode_list(),
        ConfigProblem::Toml(_) => "配置文件格式错误"@,
    }
}

/// The text of the underlying cause of an error, where that cause is
/// described by this library.
pub open spec fn cause_text(p: ConfigProblem) -> Option<Seq<char>> {
    match p {
        ConfigProblem::Toml(TomlProblem::Schema(p, span, input)) => Some(schema_error_text(p, span, input)),
        _ => None,
    }
}

/// The text of an I/O error, as its `Display` writes it. Nothing is stated
/// of the text.
#[verifier::external_body]
fn io_error_text(e: &std::io::Error) -> String {
    e.to_string()
}

impl ConfigError {
    /// The text of the error.
    pub fn message(&self) -> (r: String)
        ensures
            r@ == error_text(self@),
    {
        let mut out = String::new();
        match self {
            ConfigError::NotFound { path } => {
                out.append("找不到配置文件: ");
                out.append(path.as_str());
            },
            ConfigError::Io { path, .. } => {
                out.append("读取配置文件 ");
                out.append(path.as_str());
                out.append(" 失败");
            },
            ConfigError::UnknownMode { value } => {
                out.append("未知的运行模式 ");
                out.append(value.as_str());
                out.append("，可选值：");
                out.append(Mode::Dev.as_str());
                out.append(" / ");
                out.append(Mode::Staging.as_str());
                out.append(" / ");
                out.append(Mode::Prod.as_str());
                out.append(" / ");
                out.append(Mode::Test.as_str());
                assert(out@ =~= "未知的运行模式 "@ + value@ + "，可选值："@ + mode_list());
            },
            ConfigError::Toml(_) => {
                out.append("配置文件格式错误");
            },
        }
        out
    }

    /// The text of the underlying cause: the schema's or TOML reader's text
    /// for a format error, the I/O error's text for a read failure, and
    /// nothing for a missing file or an unknown mode.
    pub fn source_message(&self) -> (r: Option<String>)
        ensures
            r is Some <==> (self@ is Toml || self@ is Io),
            cause_text(self@) matches Some(t) ==> (r matches Some(s) && s@ == t),
    {
        match self {
            ConfigError::Toml(e) => Some(e.message()),
            ConfigError::Io { source, .. } => Some(io_error_text(source)),
            _ => None,
        }
    }
}

/// What reading a run mode from the command-line text `raw` gives.
pub open spec fn mode_from_argument(raw: Seq<char>) -> Result<Mode, ConfigProblem> {
    match mode_named(trimmed(raw)) {
        Some(m) => Ok(m),
        None => Err(ConfigProblem::UnknownMode(trimmed(raw))),
    }
}

/// Reads a run mode given on the command line: surrounding whitespace is
/// ignored and the name is matched whatever its ASCII case.
pub fn parse_mode(raw: &str) -> (r: Result<Mode, ConfigError>)
    ensures
        match r {
            Ok(m) => mode_from_argument(raw@) == Ok::<Mode, ConfigProblem>(m),
            Err(e) => mode_from_argument(raw@) == Err::<Mode, ConfigProblem>(e@),
        },
{
    let raw = trim(raw);
    match Mode::from_name(raw) {
        Ok(m) => Ok(m),
        Err(_) => Err(ConfigError::UnknownMode { value: raw.to_owned() }),
    }
}

/// The outcome of reading the configuration file.
#[derive(Debug)]
pub enum ReadOutcome {
    /// The file was read; its text.
    Text(String),
    /// The file does not exist.
    Missing,
    /// Reading failed otherwise.
    Failed(std::io::Error),
}

/// Turns the outcome of reading the configuration file at `path` into a
/// configuration: a text is parsed, a missing file is
/// [`ConfigError::NotFound`], any other failure is [`ConfigError::Io`] with
/// the I/O error as its source.
pub fn load_config_from(path: &str, outcome: ReadOutcome) -> (r: Result<Config, ConfigError>)
    ensures
        match outcome {
            ReadOutcome::Text(t) => config_outcome(r) == config_from_text(t@),
            ReadOutcome::Missing => config_outcome(r) == Err::<Config, ConfigProblem>(ConfigProblem::NotFound(path@)),
            ReadOutcome::Failed(e) => r matches Err(ConfigError::Io { path: p, source }) && p@ == path@ && source == e,
        },
{
    match outcome {
        ReadOutcome::Text(text) => parse_config(text.as_str()),
        ReadOutcome::Missing => Err(ConfigError::NotFound { path: path.to_owned() }),
        ReadOutcome::Failed(source) => Err(ConfigError::Io { path: path.to_owned(), source }),
    }
}

/// The text of an unknown-mode error names every mode, whatever text was
/// refused.
pub proof fn lemma_unknown_mode_text_lists_every_mode(value: Seq<char>, m: Mode)
    ensures
        contains_text(error_text(ConfigProblem::UnknownMode(value)), mode_name(m)),
{
    let head = "未知的运行模式 "@ + value + "，可选值："@;
    let sep = " / "@;
    let dev = mode_name(Mode::Dev);
    let staging = mode_name(Mode::Staging);
    let prod = mode_name(Mode::Prod);
    let test = mode_name(Mode::Test);
    let text = error_text(ConfigProblem::UnknownMode(value));
    match m {
        Mode::Dev => {
            assert(text =~= head + dev + (sep + staging + sep + prod + sep + test));
            lemma_contains_middle(head, dev, sep + staging + sep + prod + sep + test);
        },
        Mode::Staging => {
            assert(text =~= (head + dev + sep) + staging + (sep + prod + sep + test));
            lemma_contains_middle(head + dev + sep, staging, sep + prod + sep + test);
        },
        Mode::Prod => {
            assert(text =~= (head + dev + sep + staging + sep) + prod + (sep + test));
            lemma_contains_middle(head + dev + sep + staging + sep, prod, sep + test);
        },
        Mode::Test => {
            assert(text =~= (head + dev + sep + staging + sep + prod + sep) + test + Seq::empty());
            lemma_contains_middle(head + dev + sep + staging + sep + prod + sep, test, Seq::empty());
        },
    }
}

/// A command-line mode is read whatever its ASCII case and whatever
/// whitespace surrounds it: any text that, trimmed, equals a mode's name up
/// to ASCII case gives that mode.
pub proof fn lemma_mode_argument_ignores_case_and_padding(raw: Seq<char>, m: Mode)
    requires
        eq_ignore_ascii_case(trimmed(raw), mode_name(m)),
    ensures
        mode_from_argument(raw) == Ok::<Mode, ConfigProblem>(m),
{
    lemma_mode_name_ignores_ascii_case(m, trimmed(raw));
}

/// Whitespace around a command-line mode never changes what it gives: the
/// same mode, or the same refusal with the same text.
pub proof fn lemma_mode_argument_padding(p: Seq<char>, raw: Seq<char>, q: Seq<char>)
    requires
        all_space(p),
        all_space(q),
    ensures
        mode_from_argument(p + raw + q) == mode_from_argument(raw),
{
    lemma_trimmed_ignores_padding(p, raw, q);
}

/// Upper-casing a command-line mode never changes which mode it names.
pub proof fn lemma_mode_argument_upper_case(raw: Seq<char>)
    ensures
        mode_named(trimmed(upper_text(raw))) == mode_named(trimmed(raw)),
        (mode_from_argument(upper_text(raw)) is Ok) == (mode_from_argument(raw) is Ok),
        mode_from_argument(raw) matches Ok(m) ==> mode_from_argument(upper_text(raw)) == Ok::<Mode, ConfigProblem>(m),
{
    lemma_trimmed_upper(raw);
    let t = trimmed(raw);
    lemma_eq_ignore_case_upper(t, mode_name(Mode::Dev));
    lemma_eq_ignore_case_upper(t, mode_name(Mode::Staging));
    lemma_eq_ignore_case_upper(t, mode_name(Mode::Prod));
    lemma_eq_ignore_case_upper(t, mode_name(Mode::Test));
}

} // verus!
