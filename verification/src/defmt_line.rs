//! One decoded line of the target's log channel.

use vstd::prelude::*;

use crate::defmt_log_level::DefmtLogLevel;

verus! {

/// A log line decoded from the target: its level, an optional timestamp in
/// microseconds, and the formatted message.
#[derive(Debug, Clone, PartialEq, Eq)]
pub struct DefmtLine {
    log_level: DefmtLogLevel,
    timestamp_us: Option<u64>,
    message: String,
}

impl DefmtLine {
    /// The line's level.
    pub closed spec fn spec_log_level(&self) -> DefmtLogLevel {
        self.log_level
    }

    /// The line's timestamp, if it carried one.
    pub closed spec fn spec_timestamp_us(&self) -> Option<u64> {
        self.timestamp_us
    }

    /// The line's message characters.
    pub closed spec fn spec_message(&self) -> Seq<char> {
        self.message@
    }

    /// Assemble a decoded line.
    pub fn new(log_level: DefmtLogLevel, timestamp_us: Option<u64>, message: String) -> (r:
        DefmtLine)
        ensures
            r.spec_log_level() == log_level,
            r.spec_timestamp_us() == timestamp_us,
            r.spec_message() == message@,
    {
        DefmtLine { log_level, timestamp_us, message }
    }

    /// The line's level.
    pub fn log_level(&self) -> (r: DefmtLogLevel)
        ensures
            r == self.spec_log_level(),
    {
        self.log_level
    }

    /// The line's timestamp, if it carried one.
    pub fn timestamp_us(&self) -> (r: Option<u64>)
        ensures
            r == self.spec_timestamp_us(),
    {
        self.timestamp_us
    }

    /// The line's message.
    pub fn message(&self) -> (r: &str)
        ensures
            r@ == self.spec_message(),
    {
        self.message.as_str()
    }
}

} // verus!
