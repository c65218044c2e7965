use vstd::prelude::*;

use crate::error::LogManagerError;

verus! {

/// The five severities, from the least to the most severe.
#[derive(Debug, Clone, Copy, PartialEq, Eq, Structural)]
pub enum Severity {
    Trace,
    Debug,
    Info,
    Warn,
    Error,
}

/// Position of a severity on the scale TRACE < DEBUG < INFO < WARN < ERROR.
pub open spec fn rank(s: Severity) -> nat {
    match s {
        Severity::Trace => 0,
        Severity::Debug => 1,
        Severity::Info => 2,
        Severity::Warn => 3,
        Severity::Error => 4,
    }
}

impl Severity {
    pub fn rank(&self) -> (r: u8)
        ensures
            r as nat == rank(*self),
    {
        match self {
            Severity::Trace => 0,
            Severity::Debug => 1,
            Severity::Info => 2,
            Severity::Warn => 3,
            Severity::Error => 4,
        }
    }
}

/// A sink filtered at `minimum` keeps exactly the records at least as severe.
pub open spec fn admits(minimum: Severity, record: Severity) -> bool {
    rank(record) >= rank(minimum)
}

/// The per-sink severity gate.
pub fn passes(minimum: Severity, record: Severity) -> (r: bool)
    ensures
        r == admits(minimum, record),
{
    record.rank() >= minimum.rank()
}

/// `c` is `lower`, or its ASCII upper-case form (`lower` being a lower-case letter).
pub open spec fn char_matches_ignoring_case(c: char, lower: char) -> bool {
    c == lower || (c as u32) + 32 == lower as u32
}

/// `s` spells the lower-case ASCII word `word`, letter case aside.
pub open spec fn eq_ignoring_ascii_case(s: Seq<char>, word: Seq<char>) -> bool {
    s.len() == word.len() && forall|i: int|
        0 <= i < s.len() ==> #[trigger] char_matches_ignoring_case(s[i], word[i])
}

pub open spec fn is_decimal_digit(c: char) -> bool {
    '0' <= c && c <= '9'
}

/// Every character is a decimal digit, and there is at least one.
pub open spec fn all_digits(s: Seq<char>) -> bool {
    s.len() > 0 && forall|i: int| 0 <= i < s.len() ==> #[trigger] is_decimal_digit(s[i])
}

/// The number written by a string of decimal digits.
pub open spec fn decimal_value(s: Seq<char>) -> nat
    decreases s.len(),
{
    if s.len() == 0 {
        0
    } else {
        decimal_value(s.drop_last()) * 10 + ((s.last() as u32) - ('0' as u32)) as nat
    }
}

/// The value of an unsigned integer literal: an optional `+`, then digits.
pub open spec fn unsigned_text_value(s: Seq<char>) -> Option<nat> {
    if s.len() > 0 && s[0] == '+' && all_digits(s.drop_first()) {
        Some(decimal_value(s.drop_first()))
    } else if all_digits(s) {
        Some(decimal_value(s))
    } else {
        None
    }
}

/// The severity named by a text: a number from 1 (ERROR) to 5 (TRACE), or
/// one of the five names in any letter case.
pub open spec fn level_from_text(s: Seq<char>) -> Option<Severity> {
    let n = unsigned_text_value(s);
    if n == Some(1nat) {
        Some(Severity::Error)
    } else if n == Some(2nat) {
        Some(Severity::Warn)
    } else if n == Some(3nat) {
        Some(Severity::Info)
    } else if n == Some(4nat) {
        Some(Severity::Debug)
    } else if n == Some(5nat) {
        Some(Severity::Trace)
    } else if eq_ignoring_ascii_case(s, seq!['e', 'r', 'r', 'o', 'r']) {
        Some(Severity::Error)
    } else if eq_ignoring_ascii_case(s, seq!['w', 'a', 'r', 'n']) {
        Some(Severity::Warn)
    } else if eq_ignoring_ascii_case(s, seq!['i', 'n', 'f', 'o']) {
        Some(Severity::Info)
    } else if eq_ignoring_ascii_case(s, seq!['d', 'e', 'b', 'u', 'g']) {
        Some(Severity::Debug)
    } else if eq_ignoring_ascii_case(s, seq!['t', 'r', 'a', 'c', 'e']) {
        Some(Severity::Trace)
    } else {
        None
    }
}

/// Relies on `FromStr for tracing::Level`: a `usize` literal from 1 to 5, else
/// one of "error", "warn", "info", "debug", "trace" compared ignoring ASCII case.
#[verifier::external_body]
fn parse_level(s: &str) -> (r: Option<Severity>)
    ensures
        r == level_from_text(s@),
{
    match s.parse::<tracing::Level>() {
        Ok(tracing::Level::TRACE) => Some(Severity::Trace),
        Ok(tracing::Level::DEBUG) => Some(Severity::Debug),
        Ok(tracing::Level::INFO) => Some(Severity::Info),
        Ok(tracing::Level::WARN) => Some(Severity::Warn),
        // the one level left is ERROR
        Ok(_) => Some(Severity::Error),
        Err(_) => None,
    }
}

/// Reads a severity from its text form.
pub fn get_log_level(level: &str) -> (r: Result<Severity, LogManagerError>)
    ensures
        r == match level_from_text(level@) {
            Some(s) => Ok(s),
            None => Err(LogManagerError::InvalidLogLevelFormat),
        },
{
    match parse_level(level) {
        Some(s) => Ok(s),
        None => Err(LogManagerError::InvalidLogLevelFormat),
    }
}

} // verus!
