//! Log levels of the target's text log channel.

use vstd::prelude::*;
use vstd::string::StringExecFns;

use crate::log_line::{eq_ignore_ascii_case, spec_lower, spec_trim, trim_str, LogParseError};
use crate::trace_event::CName;

verus! {

/// A log level reported by the target.
#[derive(Debug, Clone, Copy, PartialEq, Eq, Structural)]
pub enum DefmtLogLevel {
    Trace,
    Debug,
    Info,
    Warn,
    Error,
}

/// The level a (trimmed, case-folded) level word names, if any.
pub open spec fn spec_defmt_level_of(s: Seq<char>) -> Option<DefmtLogLevel> {
    let w = spec_lower(spec_trim(s));
    if w == spec_lower("trace"@) {
        Some(DefmtLogLevel::Trace)
    } else if w == spec_lower("debug"@) {
        Some(DefmtLogLevel::Debug)
    } else if w == spec_lower("info"@) {
        Some(DefmtLogLevel::Info)
    } else if w == spec_lower("warn"@) {
        Some(DefmtLogLevel::Warn)
    } else if w == spec_lower("error"@) {
        Some(DefmtLogLevel::Error)
    } else {
        None
    }
}

impl DefmtLogLevel {
    /// Parse a level word, ignoring surrounding blanks and letter case.
    pub fn try_from_str(level_str: &str) -> (r: Result<DefmtLogLevel, LogParseError>)
        ensures
            match r {
                Ok(l) => spec_defmt_level_of(level_str@) == Some(l),
                Err(e) => spec_defmt_level_of(level_str@) is None && e
                    == LogParseError::UnknownLevel,
            },
    {
        let trimmed = trim_str(level_str);
        let t = trimmed.as_str();
        if eq_ignore_ascii_case(t, "trace") {
            Ok(DefmtLogLevel::Trace)
        } else if eq_ignore_ascii_case(t, "debug") {
            Ok(DefmtLogLevel::Debug)
        } else if eq_ignore_ascii_case(t, "info") {
            Ok(DefmtLogLevel::Info)
        } else if eq_ignore_ascii_case(t, "warn") {
            Ok(DefmtLogLevel::Warn)
        } else if eq_ignore_ascii_case(t, "error") {
            Ok(DefmtLogLevel::Error)
        } else {
            Err(LogParseError::UnknownLevel)
        }
    }

    /// The colour a level paints instants with: warnings and errors stand
    /// out.
    pub fn get_cname(&self) -> (r: CName)
        ensures
            r == match *self {
                DefmtLogLevel::Trace | DefmtLogLevel::Debug | DefmtLogLevel::Info => CName::Good,
                DefmtLogLevel::Warn | DefmtLogLevel::Error => CName::Terrible,
            },
    {
        match self {
            DefmtLogLevel::Trace => CName::Good,
            DefmtLogLevel::Debug => CName::Good,
            DefmtLogLevel::Info => CName::Good,
            DefmtLogLevel::Warn => CName::Terrible,
            DefmtLogLevel::Error => CName::Terrible,
        }
    }

    /// The level's upper-case label.
    pub fn to_string(&self) -> (r: String)
        ensures
            r@ == match *self {
                DefmtLogLevel::Trace => "TRACE"@,
                DefmtLogLevel::Debug => "DEBUG"@,
                DefmtLogLevel::Info => "INFO"@,
                DefmtLogLevel::Warn => "WARN"@,
                DefmtLogLevel::Error => "ERROR"@,
            },
    {
        match self {
            DefmtLogLevel::Trace => String::from_str("TRACE"),
            DefmtLogLevel::Debug => String::from_str("DEBUG"),
            DefmtLogLevel::Info => String::from_str("INFO"),
            DefmtLogLevel::Warn => String::from_str("WARN"),
            DefmtLogLevel::Error => String::from_str("ERROR"),
        }
    }
}

} // verus!
