//! Text log lines of the form `<seconds> [<LEVEL>] <message>`.
//!
//! The target's text channel timestamps each line in fractional seconds.
//! Lines are parsed into a microsecond timestamp, a level, and the message;
//! the level word is matched ignoring case and surrounding blanks.

use vstd::prelude::*;
use vstd::string::StrSliceExecFns;
use vstd::string::StringExecFns;

use crate::trace_event::CName;

verus! {

/// Why a log line was rejected.
#[derive(Debug, Clone, Copy, PartialEq, Eq, Structural)]
pub enum LogParseError {
    /// The level word names no known level.
    UnknownLevel,
    /// The line has no opening bracket.
    MissingOpenBracket,
    /// The line has no closing bracket.
    MissingCloseBracket,
    /// The brackets leave no room for a level word.
    MalformedBrackets,
    /// The timestamp is not a decimal number of seconds, or does not fit.
    BadTimestamp,
}

/// ASCII blanks stripped from the edges of fields.
pub open spec fn spec_is_blank(c: char) -> bool {
    c == ' ' || c == '\t' || c == '\r' || c == '\n'
}

/// `s` without leading blanks.
pub open spec fn spec_trim_start(s: Seq<char>) -> Seq<char>
    decreases s.len(),
{
    if s.len() > 0 && spec_is_blank(s[0]) {
        spec_trim_start(s.skip(1))
    } else {
        s
    }
}

/// `s` without trailing blanks.
pub open spec fn spec_trim_end(s: Seq<char>) -> Seq<char>
    decreases s.len(),
{
    if s.len() > 0 && spec_is_blank(s.last()) {
        spec_trim_end(s.drop_last())
    } else {
        s
    }
}

/// `s` without leading or trailing blanks.
pub open spec fn spec_trim(s: Seq<char>) -> Seq<char> {
    spec_trim_end(spec_trim_start(s))
}

/// A character with an upper-case ASCII letter folded to lower case.
pub open spec fn spec_lower_char(c: char) -> char {
    if 'A' <= c && c <= 'Z' {
        (((c as u32) + 32) as u8) as char
    } else {
        c
    }
}

/// `s` with upper-case ASCII letters folded to lower case.
pub open spec fn spec_lower(s: Seq<char>) -> Seq<char> {
    s.map_values(|c: char| spec_lower_char(c))
}

/// Strip leading and trailing ASCII blanks.
pub fn trim_str(s: &str) -> (r: String)
    ensures
        r@ == spec_trim(s@),
{
    let len = s.unicode_len();
    let mut i: usize = 0;
    proof {
        assert(s@.skip(0) =~= s@);
    }
    loop
        invariant
            len == s@.len(),
            i <= len,
            spec_trim_start(s@) == spec_trim_start(s@.skip(i as int)),
        ensures
            i <= len,
            spec_trim_start(s@) == spec_trim_start(s@.skip(i as int)),
            i == len || !spec_is_blank(s@[i as int]),
        decreases len - i,
    {
        if i >= len {
            break;
        }
        let c = s.get_char(i);
        if !(c == ' ' || c == '\t' || c == '\r' || c == '\n') {
            break;
        }
        proof {
            assert(s@.skip(i as int)[0] == s@[i as int]);
            assert(s@.skip(i as int).skip(1) =~= s@.skip(i as int + 1));
        }
        i = i + 1;
    }
    if i == len {
        proof {
            assert(s@.skip(i as int) =~= Seq::<char>::empty());
            assert(spec_trim_end(Seq::<char>::empty()) =~= Seq::<char>::empty());
        }
        return String::new();
    }
    assert(spec_trim_start(s@) == s@.skip(i as int)) by {
        assert(s@.skip(i as int)[0] == s@[i as int]);
    }
    let mut j: usize = len;
    loop
        invariant
            len == s@.len(),
            i < len,
            i <= j <= len,
            !spec_is_blank(s@[i as int]),
            spec_trim_end(s@.skip(i as int)) == spec_trim_end(s@.subrange(i as int, j as int)),
        ensures
            i <= j <= len,
            spec_trim_end(s@.skip(i as int)) == spec_trim_end(s@.subrange(i as int, j as int)),
            j == i || !spec_is_blank(s@[j as int - 1]),
        decreases j,
    {
        if j <= i {
            break;
        }
        let c = s.get_char(j - 1);
        if !(c == ' ' || c == '\t' || c == '\r' || c == '\n') {
            break;
        }
        proof {
            let sub = s@.subrange(i as int, j as int);
            assert(sub.last() == s@[j as int - 1]);
            assert(sub.drop_last() =~= s@.subrange(i as int, j as int - 1));
        }
        j = j - 1;
    }
    proof {
        let sub = s@.subrange(i as int, j as int);
        if j == i {
            assert(sub =~= Seq::<char>::empty());
        } else {
            assert(sub.last() == s@[j as int - 1]);
            assert(!spec_is_blank(sub.last()));
        }
    }
    let piece = s.substring_char(i, j);
    String::from_str(piece)
}

/// Whether two strings are the same word up to ASCII letter case.
pub fn eq_ignore_ascii_case(a: &str, b: &str) -> (r: bool)
    ensures
        r == (spec_lower(a@) == spec_lower(b@)),
{
    let la = a.unicode_len();
    let lb = b.unicode_len();
    if la != lb {
        proof {
            assert(spec_lower(a@).len() == a@.len());
            assert(spec_lower(b@).len() == b@.len());
        }
        return false;
    }
    let mut i: usize = 0;
    while i < la
        invariant
            la == a@.len(),
            la == b@.len(),
            i <= la,
            forall|k: int|
                0 <= k < i ==> #[trigger] spec_lower(a@)[k] == spec_lower(b@)[k],
        decreases la - i,
    {
        let ca = lower_char(a.get_char(i));
        let cb = lower_char(b.get_char(i));
        if ca != cb {
            proof {
                assert(spec_lower(a@)[i as int] == spec_lower_char(a@[i as int]));
                assert(spec_lower(b@)[i as int] == spec_lower_char(b@[i as int]));
            }
            return false;
        }
        proof {
            assert(spec_lower(a@)[i as int] == spec_lower_char(a@[i as int]));
            assert(spec_lower(b@)[i as int] == spec_lower_char(b@[i as int]));
        }
        i = i + 1;
    }
    proof {
        assert(spec_lower(a@) =~= spec_lower(b@));
    }
    true
}

/// Fold an upper-case ASCII letter to lower case.
fn lower_char(c: char) -> (r: char)
    ensures
        r == spec_lower_char(c),
{
    if c >= 'A' && c <= 'Z' {
        let code = c as u32;
        assert(code + 32 <= 0x7A);
        ((code + 32) as u8) as char
    } else {
        c
    }
}

/// The first position of `c` in `s` at or after `i`, or the length of `s`.
pub open spec fn spec_find_char(s: Seq<char>, c: char, i: int) -> int
    decreases s.len() - i,
{
    if i < 0 || i >= s.len() {
        s.len() as int
    } else if s[i] == c {
        i
    } else {
        spec_find_char(s, c, i + 1)
    }
}

/// The find position never leaves the string.
pub proof fn lemma_find_char_bounds(s: Seq<char>, c: char, i: int)
    requires
        0 <= i <= s.len(),
    ensures
        i <= spec_find_char(s, c, i) <= s.len(),
    decreases s.len() - i,
{
    if i < s.len() && s[i] != c {
        lemma_find_char_bounds(s, c, i + 1);
    }
}

/// Find the first occurrence of `c`, or the string's length.
fn find_char(s: &str, c: char) -> (r: usize)
    ensures
        r == spec_find_char(s@, c, 0),
        r <= s@.len(),
{
    let len = s.unicode_len();
    let mut i: usize = 0;
    while i < len
        invariant
            len == s@.len(),
            i <= len,
            spec_find_char(s@, c, 0) == spec_find_char(s@, c, i as int),
        decreases len - i,
    {
        if s.get_char(i) == c {
            return i;
        }
        i = i + 1;
    }
    i
}

/// Whether every character is a decimal digit.
pub open spec fn spec_all_digits(s: Seq<char>) -> bool {
    forall|i: int| 0 <= i < s.len() ==> '0' <= #[trigger] s[i] <= '9'
}

/// The value of a string of decimal digits.
pub open spec fn spec_digits_value(s: Seq<char>) -> int
    decreases s.len(),
{
    if s.len() == 0 {
        0
    } else {
        spec_digits_value(s.drop_last()) * 10 + (s.last() as int - 0x30)
    }
}

/// A digit string's value only grows as digits are appended.
proof fn lemma_digits_value_grows(s: Seq<char>, k: int)
    requires
        0 <= k <= s.len(),
        spec_all_digits(s),
    ensures
        spec_digits_value(s.subrange(0, k)) <= spec_digits_value(s),
        spec_digits_value(s) >= 0,
    decreases s.len(),
{
    if s.len() == 0 {
        assert(s.subrange(0, k) =~= s);
    } else {
        assert(spec_all_digits(s.drop_last()));
        lemma_digits_value_grows(s.drop_last(), if k <= s.len() - 1 {
            k
        } else {
            (s.len() - 1) as int
        });
        assert('0' <= s.last() <= '9');
        if k <= s.len() - 1 {
            assert(s.subrange(0, k) =~= s.drop_last().subrange(0, k));
        } else {
            assert(s.subrange(0, k) =~= s);
        }
    }
}

/// The microsecond value a fractional-seconds string denotes: the integer
/// part scaled by one million plus the first six fractional digits scaled
/// out to microseconds; nothing when the string is not a decimal number or
/// the value does not fit 64 bits.
pub open spec fn spec_parse_micros(s: Seq<char>) -> Option<u64> {
    let dot = spec_find_char(s, '.', 0);
    let int_part = s.subrange(0, dot);
    let frac_part = if dot < s.len() {
        s.subrange(dot + 1, s.len() as int)
    } else {
        Seq::empty()
    };
    if int_part.len() == 0 || !spec_all_digits(int_part) || !spec_all_digits(frac_part) {
        None
    } else {
        let frac6 = if frac_part.len() >= 6 {
            frac_part.subrange(0, 6)
        } else {
            frac_part
        };
        let scale = spec_pow10(6 - frac6.len() as int);
        let total = spec_digits_value(int_part) * 1000000 + spec_digits_value(frac6) * scale;
        if total > u64::MAX {
            None
        } else {
            Some(total as u64)
        }
    }
}

/// Ten to the `n`.
pub open spec fn spec_pow10(n: int) -> int
    decreases n,
{
    if n <= 0 {
        1
    } else {
        10 * spec_pow10(n - 1)
    }
}

/// Accumulate the value of a digit substring, stopping when it can no
/// longer fit 64 bits.
fn digits_value_u128(s: &str, from: usize, to: usize) -> (r: Result<u128, LogParseError>)
    requires
        from <= to <= s@.len(),
        spec_all_digits(s@.subrange(from as int, to as int)),
    ensures
        match r {
            Ok(v) => v == spec_digits_value(s@.subrange(from as int, to as int)) && v
                <= u64::MAX,
            Err(e) => spec_digits_value(s@.subrange(from as int, to as int)) > u64::MAX && e
                == LogParseError::BadTimestamp,
        },
{
    let ghost whole = s@.subrange(from as int, to as int);
    proof {
        lemma_digits_value_grows(whole, whole.len() as int);
    }
    let mut acc: u128 = 0;
    let mut i: usize = from;
    while i < to
        invariant
            from <= i <= to <= s@.len(),
            whole == s@.subrange(from as int, to as int),
            spec_all_digits(whole),
            acc == spec_digits_value(whole.subrange(0, i - from)),
            acc <= u64::MAX,
        decreases to - i,
    {
        let c = s.get_char(i);
        proof {
            assert(whole[i - from] == s@[i as int]);
            assert('0' <= whole[i - from] <= '9');
        }
        let d = (c as u32) - 0x30;
        let next: u128 = acc * 10 + (d as u128);
        proof {
            assert(whole.subrange(0, i + 1 - from).drop_last() =~= whole.subrange(0, i - from));
            assert(whole.subrange(0, i + 1 - from).last() == whole[i - from]);
        }
        if next > u64::MAX as u128 {
            proof {
                lemma_digits_value_grows(whole, i + 1 - from as int);
            }
            return Err(LogParseError::BadTimestamp);
        }
        acc = next;
        i = i + 1;
    }
    proof {
        assert(whole.subrange(0, whole.len() as int) =~= whole);
    }
    Ok(acc)
}

/// Whether the characters of a substring are all decimal digits.
fn check_all_digits(s: &str, from: usize, to: usize) -> (r: bool)
    requires
        from <= to <= s@.len(),
    ensures
        r == spec_all_digits(s@.subrange(from as int, to as int)),
{
    let ghost whole = s@.subrange(from as int, to as int);
    let mut i: usize = from;
    while i < to
        invariant
            from <= i <= to <= s@.len(),
            whole == s@.subrange(from as int, to as int),
            forall|k: int| 0 <= k < i - from ==> '0' <= #[trigger] whole[k] <= '9',
        decreases to - i,
    {
        let c = s.get_char(i);
        proof {
            assert(whole[i - from] == s@[i as int]);
        }
        if !(c >= '0' && c <= '9') {
            return false;
        }
        i = i + 1;
    }
    true
}

/// Parse a fractional-seconds string into microseconds.
pub fn parse_micros(s: &str) -> (r: Result<u64, LogParseError>)
    ensures
        match r {
            Ok(v) => spec_parse_micros(s@) == Some(v),
            Err(e) => spec_parse_micros(s@) is None && e == LogParseError::BadTimestamp,
        },
{
    let len = s.unicode_len();
    let dot = find_char(s, '.');
    let ghost int_part = s@.subrange(0, dot as int);
    let ghost frac_part = if (dot as int) < s@.len() {
        s@.subrange(dot as int + 1, s@.len() as int)
    } else {
        Seq::<char>::empty()
    };
    if dot == 0 {
        return Err(LogParseError::BadTimestamp);
    }
    if !check_all_digits(s, 0, dot) {
        return Err(LogParseError::BadTimestamp);
    }
    let frac_from = if dot < len {
        dot + 1
    } else {
        len
    };
    proof {
        if (dot as int) < s@.len() {
            assert(frac_part =~= s@.subrange(frac_from as int, s@.len() as int));
        } else {
            assert(frac_part =~= s@.subrange(frac_from as int, s@.len() as int));
        }
    }
    if !check_all_digits(s, frac_from, len) {
        return Err(LogParseError::BadTimestamp);
    }
    let frac_to = if len - frac_from >= 6 {
        frac_from + 6
    } else {
        len
    };
    let ghost frac6 = if frac_part.len() >= 6 {
        frac_part.subrange(0, 6)
    } else {
        frac_part
    };
    proof {
        assert(frac6 =~= s@.subrange(frac_from as int, frac_to as int));
        assert(spec_all_digits(frac6));
    }
    let ghost flen = frac_to - frac_from;
    proof {
        assert(flen == frac6.len());
        lemma_digits_value_bound(frac6);
        lemma_pow10_bounds(flen as int);
        lemma_pow10_pos(6 - flen as int);
    }
    let int_val = match digits_value_u128(s, 0, dot) {
        Ok(v) => v,
        Err(e) => {
            proof {
                assert(spec_digits_value(int_part) * 1000000 >= spec_digits_value(int_part));
                assert(spec_digits_value(frac6) * spec_pow10(6 - frac6.len() as int) >= 0);
            }
            return Err(e);
        },
    };
    let frac_val = match digits_value_u128(s, frac_from, frac_to) {
        Ok(v) => v,
        Err(e) => {
            proof {
                assert(false);
            }
            return Err(e);
        },
    };
    let mut scale: u128 = 1;
    let mut k: usize = frac_to - frac_from;
    while k < 6
        invariant
            0 <= flen <= k <= 6,
            flen == frac_to - frac_from,
            scale == spec_pow10(k - flen),
        decreases 6 - k,
    {
        proof {
            lemma_pow10_bounds(k - flen);
        }
        scale = scale * 10;
        k = k + 1;
    }
    proof {
        assert(scale == spec_pow10(6 - frac6.len() as int));
        lemma_pow10_bounds(6 - frac6.len() as int);
        assert(frac_val < spec_pow10(flen as int));
        assert(frac_val * scale <= 1000000000000) by (nonlinear_arith)
            requires
                0 <= frac_val <= 1000000,
                0 <= scale <= 1000000,
        ;
    }
    let total: u128 = int_val * 1000000 + frac_val * scale;
    if total > u64::MAX as u128 {
        return Err(LogParseError::BadTimestamp);
    }
    Ok(total as u64)
}

/// Ten to the `n` is positive.
proof fn lemma_pow10_pos(n: int)
    ensures
        spec_pow10(n) >= 1,
    decreases n,
{
    if n > 0 {
        lemma_pow10_pos(n - 1);
    }
}

/// Ten to the `n` stays small for the scales used here.
proof fn lemma_pow10_bounds(n: int)
    requires
        n <= 6,
    ensures
        1 <= spec_pow10(n) <= 1000000,
{
    reveal_with_fuel(spec_pow10, 8);
    if n <= 0 {
    } else if n == 1 {
    } else if n == 2 {
    } else if n == 3 {
    } else if n == 4 {
    } else if n == 5 {
    } else {
        assert(n == 6);
    }
}

/// A digit string's value stays below ten to its length.
proof fn lemma_digits_value_bound(s: Seq<char>)
    requires
        spec_all_digits(s),
    ensures
        0 <= spec_digits_value(s) < spec_pow10(s.len() as int),
    decreases s.len(),
{
    if s.len() == 0 {
    } else {
        assert(spec_all_digits(s.drop_last()));
        lemma_digits_value_bound(s.drop_last());
        assert('0' <= s.last() <= '9');
        assert(spec_pow10(s.len() as int) == 10 * spec_pow10(s.len() as int - 1));
    }
}

/// A log level of the host's own log lines.
#[derive(Debug, Clone, Copy, PartialEq, Eq, Structural)]
pub enum LogLevel {
    Trace,
    Debug,
    Info,
    Warn,
    Error,
}

/// The level a (trimmed, case-folded) level word names, if any.
pub open spec fn spec_level_of(s: Seq<char>) -> Option<LogLevel> {
    let w = spec_lower(spec_trim(s));
    if w == spec_lower("trace"@) {
        Some(LogLevel::Trace)
    } else if w == spec_lower("debug"@) {
        Some(LogLevel::Debug)
    } else if w == spec_lower("info"@) {
        Some(LogLevel::Info)
    } else if w == spec_lower("warn"@) {
        Some(LogLevel::Warn)
    } else if w == spec_lower("error"@) {
        Some(LogLevel::Error)
    } else {
        None
    }
}

impl LogLevel {
    /// Parse a level word, ignoring surrounding blanks and letter case.
    pub fn from_str(level_str: &str) -> (r: Result<LogLevel, LogParseError>)
        ensures
            match r {
                Ok(l) => spec_level_of(level_str@) == Some(l),
                Err(e) => spec_level_of(level_str@) is None && e == LogParseError::UnknownLevel,
            },
    {
        let trimmed = trim_str(level_str);
        let t = trimmed.as_str();
        if eq_ignore_ascii_case(t, "trace") {
            Ok(LogLevel::Trace)
        } else if eq_ignore_ascii_case(t, "debug") {
            Ok(LogLevel::Debug)
        } else if eq_ignore_ascii_case(t, "info") {
            Ok(LogLevel::Info)
        } else if eq_ignore_ascii_case(t, "warn") {
            Ok(LogLevel::Warn)
        } else if eq_ignore_ascii_case(t, "error") {
            Ok(LogLevel::Error)
        } else {
            Err(LogParseError::UnknownLevel)
        }
    }

    /// The colour a level paints instants with: warnings and errors stand
    /// out.
    pub fn get_cname(&self) -> (r: CName)
        ensures
            r == match *self {
                LogLevel::Trace | LogLevel::Debug | LogLevel::Info => CName::Good,
                LogLevel::Warn | LogLevel::Error => CName::Terrible,
            },
    {
        match self {
            LogLevel::Trace => CName::Good,
            LogLevel::Debug => CName::Good,
            LogLevel::Info => CName::Good,
            LogLevel::Warn => CName::Terrible,
            LogLevel::Error => CName::Terrible,
        }
    }
}

/// One parsed log line.
#[derive(Debug, Clone, PartialEq, Eq)]
pub struct LogLine {
    /// When the line was logged, in microseconds.
    pub timestamp: crate::embassy_time::EmbassyTime,
    /// Its level.
    pub level: LogLevel,
    /// Its message.
    pub message: String,
}

/// What parsing a log line yields: timestamp in microseconds, level, and
/// the trimmed message characters.
pub open spec fn spec_parse_log_line(s: Seq<char>) -> Result<(u64, LogLevel, Seq<char>), LogParseError> {
    let a = spec_find_char(s, '[', 0);
    let b = spec_find_char(s, ']', 0);
    if a == s.len() {
        Err(LogParseError::MissingOpenBracket)
    } else if b == s.len() {
        Err(LogParseError::MissingCloseBracket)
    } else if a + 3 > b {
        Err(LogParseError::MalformedBrackets)
    } else {
        let ts = spec_parse_micros(spec_trim(s.subrange(0, a)));
        let level = spec_level_of(s.subrange(a + 1, b));
        let message = spec_trim(s.subrange(b + 1, s.len() as int));
        match ts {
            None => Err(LogParseError::BadTimestamp),
            Some(t) => match level {
                None => Err(LogParseError::UnknownLevel),
                Some(l) => Ok((t, l, message)),
            },
        }
    }
}

impl LogLine {
    /// Assemble a log line.
    pub fn new(timestamp: crate::embassy_time::EmbassyTime, level: LogLevel, message: String) -> (r:
        LogLine)
        ensures
            r.timestamp == timestamp,
            r.level == level,
            r.message@ == message@,
    {
        LogLine { timestamp, level, message }
    }

    /// Parse a `<seconds> [<LEVEL>] <message>` line.
    pub fn from_str(line: &str) -> (r: Result<LogLine, LogParseError>)
        ensures
            match r {
                Ok(l) => spec_parse_log_line(line@) == Ok::<_, LogParseError>(
                    (l.timestamp.spec_micros(), l.level, l.message@),
                ),
                Err(e) => spec_parse_log_line(line@) == Err::<(u64, LogLevel, Seq<char>), _>(e),
            },
    {
        let len = line.unicode_len();
        let open_bracket = find_char(line, '[');
        if open_bracket == len {
            return Err(LogParseError::MissingOpenBracket);
        }
        let close_bracket = find_char(line, ']');
        if close_bracket == len {
            return Err(LogParseError::MissingCloseBracket);
        }
        proof {
            lemma_find_char_bounds(line@, '[', 0);
            lemma_find_char_bounds(line@, ']', 0);
        }
        if close_bracket < open_bracket || close_bracket - open_bracket < 3 {
            return Err(LogParseError::MalformedBrackets);
        }
        let timestamp_piece = line.substring_char(0, open_bracket);
        let timestamp_str = trim_str(timestamp_piece);
        let level_piece = line.substring_char(open_bracket + 1, close_bracket);
        let message_piece = line.substring_char(close_bracket + 1, len);
        let message = trim_str(message_piece);
        let micros = match parse_micros(timestamp_str.as_str()) {
            Ok(v) => v,
            Err(e) => {
                return Err(LogParseError::BadTimestamp);
            },
        };
        let level = match LogLevel::from_str(level_piece) {
            Ok(l) => l,
            Err(e) => {
                return Err(LogParseError::UnknownLevel);
            },
        };
        Ok(
            LogLine {
                timestamp: crate::embassy_time::EmbassyTime::from_micros(micros),
                level,
                message,
            },
        )
    }
}

} // verus!
