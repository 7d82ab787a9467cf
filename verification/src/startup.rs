//! The decisions the program takes at start-up: which configuration it runs
//! with, given the outcome of loading the file and the mode given on the
//! command line, and the line it reports the configuration with.

use vstd::prelude::*;
use crate::config::{Config, default_config};
use crate::error::{ConfigError, ConfigProblem, parse_mode, mode_from_argument};
use crate::mode::{Mode, LogLevel, mode_name, level_name, mode_named, lemma_mode_name_ignores_ascii_case};
use crate::text::{decimal, push_decimal, trimmed, eq_ignore_ascii_case, ascii_upper};

verus! {

/// Why the program cannot start.
#[derive(Debug)]
pub enum StartupError {
    /// Loading the configuration failed with something other than a
    /// missing file.
    Load(ConfigError),
    /// The mode given on the command line names no mode.
    Mode(ConfigError),
}

/// The mathematical content of a [`StartupError`].
pub enum StartupProblem {
    Load(ConfigProblem),
    Mode(ConfigProblem),
}

impl View for StartupError {
    type V = StartupProblem;

    open spec fn view(&self) -> StartupProblem {
        match self {
            StartupError::Load(e) => StartupProblem::Load(e@),
            StartupError::Mode(e) => StartupProblem::Mode(e@),
        }
    }
}

/// The configuration the program runs with: the loaded one, or the default
/// when the file does not exist; then the mode given on the command line,
/// if any, replaces the configured mode. Any other loading error, or a mode
/// argument that names no mode, stops the program.
pub open spec fn startup_choice(loaded: Result<Config, ConfigProblem>, cli_mode: Option<Seq<char>>) -> Result<Config, StartupProblem> {
    let base = match loaded {
        Ok(c) => Ok(c),
        Err(ConfigProblem::NotFound(_)) => Ok(default_config()),
        Err(p) => Err(StartupProblem::Load(p)),
    };
    match base {
        Err(p) => Err(p),
        Ok(c) => match cli_mode {
            None => Ok(c),
            Some(raw) => match mode_from_argument(raw) {
                Ok(m) => Ok(Config { mode: m, ..c }),
                Err(p) => Err(StartupProblem::Mode(p)),
            },
        },
    }
}

/// Chooses the configuration to run with, as [`startup_choice`] says.
pub fn startup_config(loaded: Result<Config, ConfigError>, cli_mode: Option<&str>) -> (r: Result<Config, StartupError>)
    ensures
        ({
            let loaded_view = match loaded {
                Ok(c) => Ok(c),
                Err(e) => Err(e@),
            };
            let cli_view = match cli_mode {
                Some(s) => Some(s@),
                None => None,
            };
            let chosen = startup_choice(loaded_view, cli_view);
            match r {
                Ok(c) => chosen == Ok::<Config, StartupProblem>(c),
                Err(e) => chosen == Err::<Config, StartupProblem>(e@),
            }
        }),
        loaded matches Err(e) ==> (e is NotFound || r == Err::<Config, StartupError>(StartupError::Load(e))),
{
    let mut config = match loaded {
        Ok(c) => c,
        Err(ConfigError::NotFound { .. }) => Config::default(),
        Err(e) => return Err(StartupError::Load(e)),
    };
    if let Some(raw) = cli_mode {
        match parse_mode(raw) {
            Ok(m) => {
                config.mode = m;
            },
            Err(e) => return Err(StartupError::Mode(e)),
        }
    }
    Ok(config)
}

/// Without a mode on the command line the program runs with the loaded
/// configuration as it is, or, when the file does not exist, with port
/// 8080, mode `dev` and no log level.
pub proof fn lemma_startup_without_mode_argument(c: Config, path: Seq<char>)
    ensures
        startup_choice(Ok(c), None) == Ok::<Config, StartupProblem>(c),
        startup_choice(Err(ConfigProblem::NotFound(path)), None)
            == Ok::<Config, StartupProblem>(Config { port: 8080, mode: Mode::Dev, log_level: None }),
{
}

/// A mode given on the command line that, without surrounding whitespace,
/// is a mode's name in any ASCII case replaces the mode of the configuration
/// the program runs with, and nothing else: of the loaded configuration,
/// and just as much of the default one when the file does not exist.
pub proof fn lemma_startup_mode_argument_wins(c: Config, path: Seq<char>, raw: Seq<char>, m: Mode)
    requires
        eq_ignore_ascii_case(trimmed(raw), mode_name(m)),
    ensures
        startup_choice(Ok(c), Some(raw))
            == Ok::<Config, StartupProblem>(Config { port: c.port, mode: m, log_level: c.log_level }),
        startup_choice(Err(ConfigProblem::NotFound(path)), Some(raw))
            == Ok::<Config, StartupProblem>(Config { port: 8080, mode: m, log_level: None }),
{
    lemma_mode_name_ignores_ascii_case(m, trimmed(raw));
}

/// A mode given on the command line that names no mode stops the program,
/// whether the file was loaded or does not exist; the refusal carries the
/// text without surrounding whitespace.
pub proof fn lemma_startup_refuses_unknown_mode(loaded: Result<Config, ConfigProblem>, raw: Seq<char>)
    requires
        loaded is Ok || loaded is Err && loaded->Err_0 is NotFound,
        forall|m: Mode| !eq_ignore_ascii_case(trimmed(raw), #[trigger] mode_name(m)),
    ensures
        startup_choice(loaded, Some(raw))
            == Err::<Config, StartupProblem>(StartupProblem::Mode(ConfigProblem::UnknownMode(trimmed(raw)))),
{
    assert(!eq_ignore_ascii_case(trimmed(raw), mode_name(Mode::Dev)));
    assert(!eq_ignore_ascii_case(trimmed(raw), mode_name(Mode::Staging)));
    assert(!eq_ignore_ascii_case(trimmed(raw), mode_name(Mode::Prod)));
    assert(!eq_ignore_ascii_case(trimmed(raw), mode_name(Mode::Test)));
    assert(mode_named(trimmed(raw)) is None);
}

/// Any loading error other than a missing file stops the program with that
/// error, whatever the command line holds.
pub proof fn lemma_startup_load_error_stops(p: ConfigProblem, cli_mode: Option<Seq<char>>)
    requires
        !(p is NotFound),
    ensures
        startup_choice(Err(p), cli_mode) == Err::<Config, StartupProblem>(StartupProblem::Load(p)),
{
}

/// How a log level is written by `Debug`.
pub open spec fn level_debug_name(l: LogLevel) -> Seq<char> {
    match l {
        LogLevel::Trace => "Trace"@,
        LogLevel::Debug => "Debug"@,
        LogLevel::Info => "Info"@,
        LogLevel::Warn => "Warn"@,
        LogLevel::Error => "Error"@,
    }
}

/// The line that reports the configuration the program runs with:
/// `port = <port>, mode = <mode>, log_level = <level>`, the level written
/// as `Debug` writes an `Option<LogLevel>`.
pub open spec fn summary_text(c: Config) -> Seq<char> {
    "port = "@ + decimal(c.port as nat) + ", mode = "@ + mode_name(c.mode) + ", log_level = "@
        + match c.log_level {
        None => "None"@,
        Some(l) => "Some("@ + level_debug_name(l) + ")"@,
    }
}

/// The report line writes a log level by its variant's name: the level's
/// own name with its first letter upper-cased (`Some(Debug)` for `debug`).
pub proof fn lemma_summary_level_name(c: Config, l: LogLevel)
    requires
        c.log_level == Some(l),
    ensures
        summary_text(c) == "port = "@ + decimal(c.port as nat) + ", mode = "@ + mode_name(c.mode)
            + ", log_level = "@ + ("Some("@ + (seq![ascii_upper(level_name(l)[0])] + level_name(l).drop_first()) + ")"@),
{
    reveal_strlit("Trace");
    reveal_strlit("Debug");
    reveal_strlit("Info");
    reveal_strlit("Warn");
    reveal_strlit("Error");
    let n = level_name(l);
    assert(level_debug_name(l) =~= seq![ascii_upper(n[0])] + n.drop_first());
}

/// Configurations that differ only in their log level are reported by
/// different lines.
pub proof fn lemma_summary_tells_levels_apart(c: Config, l1: LogLevel, l2: LogLevel)
    requires
        l1 != l2,
    ensures
        summary_text(Config { log_level: Some(l1), ..c }) != summary_text(Config { log_level: Some(l2), ..c }),
{
    let c1 = Config { log_level: Some(l1), ..c };
    let c2 = Config { log_level: Some(l2), ..c };
    let head = "port = "@ + decimal(c.port as nat) + ", mode = "@ + mode_name(c.mode) + ", log_level = "@ + "Some("@;
    reveal_strlit("Some(");
    reveal_strlit(")");
    reveal_strlit("Trace");
    reveal_strlit("Debug");
    reveal_strlit("Info");
    reveal_strlit("Warn");
    reveal_strlit("Error");
    assert(summary_text(c1) =~= head + level_debug_name(l1) + ")"@);
    assert(summary_text(c2) =~= head + level_debug_name(l2) + ")"@);
    if summary_text(c1) == summary_text(c2) {
        let n1 = level_debug_name(l1);
        let n2 = level_debug_name(l2);
        assert(n1.len() == n2.len());
        assert(summary_text(c1).subrange(head.len() as int, (head.len() + n1.len()) as int) =~= n1);
        assert(summary_text(c2).subrange(head.len() as int, (head.len() + n2.len()) as int) =~= n2);
        assert(n1 == n2);
        assert(n1[0] != n2[0] || n1[1] != n2[1]);
    }
}

/// Writes the report line for `config`.
pub fn summary_line(config: &Config) -> (r: String)
    ensures
        r@ == summary_text(*config),
{
    let mut out = String::new();
    out.append("port = ");
    push_decimal(&mut out, config.port as u128);
    out.append(", mode = ");
    out.append(config.mode.as_str());
    out.append(", log_level = ");
    match config.log_level {
        None => out.append("None"),
        Some(l) => {
            out.append("Some(");
            let name = match l {
                LogLevel::Trace => "Trace",
                LogLevel::Debug => "Debug",
                LogLevel::Info => "Info",
                LogLevel::Warn => "Warn",
                LogLevel::Error => "Error",
            };
            out.append(name);
            out.append(")");
        },
    }
    out
}

} // verus!
