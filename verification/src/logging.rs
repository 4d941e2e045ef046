//! Log-level parsing. Setting up the actual log sinks is I/O and lives
//! outside the verified core; the core only decides which level a
//! configuration string denotes.

use crate::error::ConfigError;
use vstd::prelude::*;
use vstd::string::StrSliceExecFns;
use vstd::string::StringExecFns;

verus! {

/// The severity levels a configuration may select.
#[derive(Debug, Clone, Copy, PartialEq, Eq, Structural)]
pub enum LogLevel {
    Trace,
    Debug,
    Info,
    Warn,
    Error,
}

/// `a` equals `b` up to ASCII case, where `b` is already lowercase.
pub open spec fn chars_eq_ic(a: char, b: char) -> bool {
    a == b || (65 <= a as u32 <= 90 && a as u32 + 32 == b as u32)
}

/// `s` spells the lowercase keyword `kw`, ignoring ASCII case.
pub open spec fn matches_ic(s: Seq<char>, kw: Seq<char>) -> bool {
    s.len() == kw.len() && forall|i: int| 0 <= i < s.len() ==> chars_eq_ic(s[i], #[trigger] kw[i])
}

/// Which level the string `s` selects, if any: one of the five keywords,
/// ASCII case-insensitively.
pub open spec fn parse_level_spec(s: Seq<char>) -> Option<LogLevel> {
    if matches_ic(s, "trace"@) {
        Some(LogLevel::Trace)
    } else if matches_ic(s, "debug"@) {
        Some(LogLevel::Debug)
    } else if matches_ic(s, "info"@) {
        Some(LogLevel::Info)
    } else if matches_ic(s, "warn"@) {
        Some(LogLevel::Warn)
    } else if matches_ic(s, "error"@) {
        Some(LogLevel::Error)
    } else {
        None
    }
}

/// Compares `s` to the lowercase keyword `kw`, ignoring ASCII case.
fn matches_keyword(s: &str, kw: &str) -> (r: bool)
    ensures
        r == matches_ic(s@, kw@),
{
    let n = s.unicode_len();
    let m = kw.unicode_len();
    if n != m {
        return false;
    }
    let mut i: usize = 0;
    while i < n
        invariant
            n == s@.len(),
            n == kw@.len(),
            i <= n,
            forall|j: int| 0 <= j < i ==> chars_eq_ic(s@[j], #[trigger] kw@[j]),
        decreases n - i,
    {
        let a = s.get_char(i) as u32;
        let b = kw.get_char(i) as u32;
        if !(a == b || (65 <= a && a <= 90 && a + 32 == b)) {
            proof {
                assert(!chars_eq_ic(s@[i as int], kw@[i as int]));
            }
            return false;
        }
        i = i + 1;
    }
    true
}

/// Parses a log level from its (case-insensitive) name; any other string is
/// an invalid configuration value.
pub fn parse_log_level(level: &str) -> (r: Result<LogLevel, ConfigError>)
    ensures
        match r {
            Ok(l) => parse_level_spec(level@) == Some(l),
            Err(e) => parse_level_spec(level@) is None && (e matches ConfigError::InvalidValue(m)
                && m@ == "Invalid log level: "@ + level@),
        },
{
    if matches_keyword(level, "trace") {
        Ok(LogLevel::Trace)
    } else if matches_keyword(level, "debug") {
        Ok(LogLevel::Debug)
    } else if matches_keyword(level, "info") {
        Ok(LogLevel::Info)
    } else if matches_keyword(level, "warn") {
        Ok(LogLevel::Warn)
    } else if matches_keyword(level, "error") {
        Ok(LogLevel::Error)
    } else {
        Err(ConfigError::InvalidValue("Invalid log level: ".to_owned().concat(level)))
    }
}

} // verus!
