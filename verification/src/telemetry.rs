//! The decisions that setting up logging takes on the values of environment
//! variables: where log files go, whether `RUST_LOG` overrides the level
//! given in the configuration, and whether `RUST_LOG` looks like a mistyped
//! level. Reading the variables and installing the subscriber stay with the
//! program.

use vstd::prelude::*;
use crate::text::{trim, trimmed, eq_ignore_ascii_case, all_space, is_space, lemma_trimmed_empty_iff_all_space};

verus! {

/// The text of an environment variable's value, if it has one.
pub open spec fn env_text(env_value: Option<&str>) -> Option<Seq<char>> {
    match env_value {
        Some(v) => Some(v@),
        None => None,
    }
}

/// The log directory used when `ECOSYSTEM_LOG_DIR` is not set.
pub open spec fn default_log_dir() -> Seq<char> {
    seq!['l', 'o', 'g', 's']
}

/// Where log files go, given the value of `ECOSYSTEM_LOG_DIR` (`None` when
/// the variable is not set or not Unicode): a value that is empty or only
/// whitespace turns file logging off, any other value is the directory, and
/// without the variable the directory is `logs`.
pub open spec fn log_dir_for(env_value: Option<Seq<char>>) -> Option<Seq<char>> {
    match env_value {
        Some(dir) => if trimmed(dir).len() == 0 {
            None
        } else {
            Some(dir)
        },
        None => Some(default_log_dir()),
    }
}

/// Chooses the log directory from the value of `ECOSYSTEM_LOG_DIR`.
pub fn log_dir(env_value: Option<&str>) -> (r: Option<String>)
    ensures
        match r {
            Some(d) => log_dir_for(env_text(env_value)) == Some(d@),
            None => log_dir_for(env_text(env_value)) is None,
        },
{
    match env_value {
        Some(dir) => if trim(dir).unicode_len() == 0 {
            None
        } else {
            Some(dir.to_owned())
        },
        None => {
            proof { reveal_strlit("logs"); }
            Some("logs".to_owned())
        },
    }
}

/// Whether `RUST_LOG` overrides the level given in the configuration: it
/// does when it is set to something other than whitespace.
pub open spec fn env_overrides_level(env_value: Option<Seq<char>>) -> bool {
    env_value matches Some(v) && trimmed(v).len() != 0
}

/// Decides whether `RUST_LOG` overrides the configured level.
pub fn rust_log_overrides(env_value: Option<&str>) -> (r: bool)
    ensures
        r == env_overrides_level(env_text(env_value)),
{
    match env_value {
        Some(v) => trim(v).unicode_len() != 0,
        None => false,
    }
}

/// The log directory is the value of `ECOSYSTEM_LOG_DIR` exactly as it is
/// set, whenever that value holds anything but whitespace; a value of only
/// whitespace, the empty value included, turns file logging off; without
/// the variable, logs go to `logs`.
pub proof fn lemma_log_dir_is_the_value(d: Seq<char>)
    ensures
        !all_space(d) ==> log_dir_for(Some(d)) == Some(d),
        all_space(d) ==> log_dir_for(Some(d)) is None,
        log_dir_for(None) == Some(seq!['l', 'o', 'g', 's']),
{
    lemma_trimmed_empty_iff_all_space(d);
}

/// `RUST_LOG` overrides the configured level exactly when it is set and
/// holds a character that is not whitespace, whatever directives it holds
/// (`ecosystem=debug` as much as `debug`); unset, it never overrides.
pub proof fn lemma_rust_log_override(v: Seq<char>)
    ensures
        env_overrides_level(Some(v)) == (exists|i: int| 0 <= i < v.len() && !is_space(#[trigger] v[i])),
        !env_overrides_level(None),
{
    lemma_trimmed_empty_iff_all_space(v);
}

/// The texts that `usize::from_str` reads as a number from 0 to 5: an
/// optional `+`, then ASCII digits that are all `0` but the last, which is
/// one of `0` to `5`.
pub open spec fn small_level_number(s: Seq<char>) -> bool {
    let digits = if s.len() > 0 && s[0] == '+' { s.drop_first() } else { s };
    &&& digits.len() > 0
    &&& forall|i: int| 0 <= i < digits.len() - 1 ==> #[trigger] digits[i] == '0'
    &&& '0' <= digits.last() <= '5'
}

/// The texts that `tracing`'s `LevelFilter::from_str` accepts: a number from
/// 0 to 5, the empty text, or one of `error`, `warn`, `info`, `debug`,
/// `trace`, `off` in any ASCII case.
pub open spec fn is_level_filter_text(s: Seq<char>) -> bool {
    ||| small_level_number(s)
    ||| s.len() == 0
    ||| eq_ignore_ascii_case(s, seq!['e', 'r', 'r', 'o', 'r'])
    ||| eq_ignore_ascii_case(s, seq!['w', 'a', 'r', 'n'])
    ||| eq_ignore_ascii_case(s, seq!['i', 'n', 'f', 'o'])
    ||| eq_ignore_ascii_case(s, seq!['d', 'e', 'b', 'u', 'g'])
    ||| eq_ignore_ascii_case(s, seq!['t', 'r', 'a', 'c', 'e'])
    ||| eq_ignore_ascii_case(s, seq!['o', 'f', 'f'])
}

/// Whether `s` reads as a `tracing` level filter with
/// `LevelFilter::from_str`; the contract restates that function's source:
/// first a `usize` from 0 to 5, else the empty text or a level name or
/// `off` in any ASCII case.
#[verifier::external_body]
fn parses_as_level_filter(s: &str) -> (r: bool)
    ensures
        r == is_level_filter_text(s@),
{
    s.parse::<tracing::level_filters::LevelFilter>().is_ok()
}

/// Whether `c` occurs in `s`.
pub fn contains_char(s: &str, c: char) -> (r: bool)
    ensures
        r == s@.contains(c),
{
    let n = s.unicode_len();
    let mut i: usize = 0;
    while i < n
        invariant
            n == s@.len(),
            i <= n,
            forall|j: int| 0 <= j < i ==> s@[j] != c,
        decreases n - i,
    {
        if s.get_char(i) == c {
            assert(s@[i as int] == c);
            return true;
        }
        i = i + 1;
    }
    false
}

/// The text to warn about when `RUST_LOG` holds a single word that is not a
/// level: `RUST_LOG` without surrounding whitespace, when it is nonempty,
/// holds neither `=` nor `,`, and is no level filter.
pub open spec fn mistyped_level(env_value: Option<Seq<char>>) -> Option<Seq<char>> {
    match env_value {
        None => None,
        Some(v) => {
            let raw = trimmed(v);
            if raw.len() == 0 || raw.contains('=') || raw.contains(',') || is_level_filter_text(raw) {
                None
            } else {
                Some(raw)
            }
        },
    }
}

/// Decides whether `RUST_LOG` looks like a mistyped level, and if so gives
/// the word to name in the hint. The hint changes nothing in filtering.
pub fn rust_log_typo(env_value: Option<&str>) -> (r: Option<String>)
    ensures
        match r {
            Some(w) => mistyped_level(env_text(env_value)) == Some(w@),
            None => mistyped_level(env_text(env_value)) is None,
        },
{
    match env_value {
        None => None,
        Some(v) => {
            let raw = trim(v);
            if raw.unicode_len() == 0 || contains_char(raw, '=') || contains_char(raw, ',') {
                return None;
            }
            if parses_as_level_filter(raw) {
                return None;
            }
            Some(raw.to_owned())
        },
    }
}

} // verus!
