//! Severity levels of log records, their order, and how they are read from
//! the numeric codes of a record and from user-supplied text.

use vstd::prelude::*;
use crate::text::chars_of;
use core::cmp::Ordering;
use vstd::std_specs::cmp::PartialOrdSpec;

verus! {

/// A failure to read a severity level.
#[derive(Debug, PartialEq, Eq)]
pub enum Error {
    /// The text names no level; it is carried as given.
    UnknownLogLevel(String),
}

/// The severity of a log record, from least to most severe; `Unknown` stands
/// for a numeric code that names no level and ranks above all of them, so a
/// filter on a minimum level never hides a record of unknown severity.
#[derive(Debug, Clone, Copy, PartialEq, Eq, Structural)]
pub enum LogLevel {
    Trace,
    Debug,
    Info,
    Warn,
    Error,
    Unknown,
}

/// The lower-case form of `s`, as Unicode defines it.
pub uninterp spec fn lower_of(s: Seq<char>) -> Seq<char>;

/// Relies on `str::to_lowercase`: its result depends on the characters of
/// the argument alone.
#[verifier::external_body]
fn lowercase(s: &str) -> (r: String)
    ensures
        r@ == lower_of(s@),
{
    s.to_lowercase()
}

/// The level that a lower-case token names: its initial or its full name.
pub open spec fn level_of_token(t: Seq<char>) -> Option<LogLevel> {
    if t == "t"@ || t == "trace"@ {
        Some(LogLevel::Trace)
    } else if t == "d"@ || t == "debug"@ {
        Some(LogLevel::Debug)
    } else if t == "i"@ || t == "info"@ {
        Some(LogLevel::Info)
    } else if t == "w"@ || t == "warn"@ {
        Some(LogLevel::Warn)
    } else if t == "e"@ || t == "error"@ {
        Some(LogLevel::Error)
    } else {
        None
    }
}

/// The level for a numeric code of a record.
pub open spec fn level_of_code(code: i32) -> LogLevel {
    if code == 5000 {
        LogLevel::Trace
    } else if code == 10000 {
        LogLevel::Debug
    } else if code == 20000 {
        LogLevel::Info
    } else if code == 30000 {
        LogLevel::Warn
    } else if code == 40000 {
        LogLevel::Error
    } else {
        LogLevel::Unknown
    }
}

fn is_token(t: &Vec<char>, word: &str) -> (r: bool)
    ensures
        r == (t@ == word@),
{
    let w = chars_of(word);
    crate::text::same_chars(t, &w)
}

impl LogLevel {
    /// The position of this level in the order of severity.
    pub open spec fn rank(self) -> int {
        match self {
            LogLevel::Trace => 0,
            LogLevel::Debug => 1,
            LogLevel::Info => 2,
            LogLevel::Warn => 3,
            LogLevel::Error => 4,
            LogLevel::Unknown => 5,
        }
    }

    fn rank_of(&self) -> (r: u8)
        ensures
            r as int == self.rank(),
    {
        match self {
            LogLevel::Trace => 0,
            LogLevel::Debug => 1,
            LogLevel::Info => 2,
            LogLevel::Warn => 3,
            LogLevel::Error => 4,
            LogLevel::Unknown => 5,
        }
    }

    /// The upper-case name of this level.
    pub fn name(&self) -> (r: &'static str)
        ensures
            r@ == match *self {
                LogLevel::Trace => "TRACE"@,
                LogLevel::Debug => "DEBUG"@,
                LogLevel::Info => "INFO"@,
                LogLevel::Warn => "WARN"@,
                LogLevel::Error => "ERROR"@,
                LogLevel::Unknown => "UNKNOWN"@,
            },
    {
        match self {
            LogLevel::Trace => "TRACE",
            LogLevel::Debug => "DEBUG",
            LogLevel::Info => "INFO",
            LogLevel::Warn => "WARN",
            LogLevel::Error => "ERROR",
            LogLevel::Unknown => "UNKNOWN",
        }
    }

    /// The level that an already lower-cased token names, if any.
    pub fn from_lowercase(t: &str) -> (r: Option<LogLevel>)
        ensures
            r == level_of_token(t@),
    {
        let c = chars_of(t);
        if is_token(&c, "t") || is_token(&c, "trace") {
            Some(LogLevel::Trace)
        } else if is_token(&c, "d") || is_token(&c, "debug") {
            Some(LogLevel::Debug)
        } else if is_token(&c, "i") || is_token(&c, "info") {
            Some(LogLevel::Info)
        } else if is_token(&c, "w") || is_token(&c, "warn") {
            Some(LogLevel::Warn)
        } else if is_token(&c, "e") || is_token(&c, "error") {
            Some(LogLevel::Error)
        } else {
            None
        }
    }

    /// The level that `s` names, in any case, by its initial or its full
    /// name; any other text is refused and handed back in the error.
    pub fn parse(s: &str) -> (r: Result<LogLevel, Error>)
        ensures
            match level_of_token(lower_of(s@)) {
                Some(l) => r == Ok::<LogLevel, Error>(l),
                None => r matches Err(Error::UnknownLogLevel(m)) && m@ == s@,
            },
    {
        let lower = lowercase(s);
        match LogLevel::from_lowercase(lower.as_str()) {
            Some(l) => Ok(l),
            None => Err(Error::UnknownLogLevel(s.to_owned())),
        }
    }
}

impl From<i32> for LogLevel {
    fn from(code: i32) -> (r: Self)
        ensures
            r == level_of_code(code),
    {
        if code == 5000 {
            LogLevel::Trace
        } else if code == 10000 {
            LogLevel::Debug
        } else if code == 20000 {
            LogLevel::Info
        } else if code == 30000 {
            LogLevel::Warn
        } else if code == 40000 {
            LogLevel::Error
        } else {
            LogLevel::Unknown
        }
    }
}

impl vstd::std_specs::convert::FromSpecImpl<i32> for LogLevel {
    open spec fn obeys_from_spec() -> bool {
        true
    }

    open spec fn from_spec(v: i32) -> LogLevel {
        level_of_code(v)
    }
}

impl PartialOrd for LogLevel {
    fn partial_cmp(&self, other: &LogLevel) -> Option<Ordering> {
        let a = self.rank_of();
        let b = other.rank_of();
        if a < b {
            Some(Ordering::Less)
        } else if a == b {
            Some(Ordering::Equal)
        } else {
            Some(Ordering::Greater)
        }
    }
}

impl vstd::std_specs::cmp::PartialOrdSpecImpl for LogLevel {
    open spec fn obeys_partial_cmp_spec() -> bool {
        true
    }

    open spec fn partial_cmp_spec(&self, other: &LogLevel) -> Option<Ordering> {
        if self.rank() < other.rank() {
            Some(Ordering::Less)
        } else if self.rank() == other.rank() {
            Some(Ordering::Equal)
        } else {
            Some(Ordering::Greater)
        }
    }
}

/// The named levels are ordered `Trace < Debug < Info < Warn < Error`, and
/// any two of them compare: equal when they are the same level, else one
/// below the other.
pub proof fn lemma_named_levels_ordered(a: LogLevel, b: LogLevel)
    requires
        a != LogLevel::Unknown,
        b != LogLevel::Unknown,
    ensures
        LogLevel::Trace.partial_cmp_spec(&LogLevel::Debug) == Some(Ordering::Less),
        LogLevel::Debug.partial_cmp_spec(&LogLevel::Info) == Some(Ordering::Less),
        LogLevel::Info.partial_cmp_spec(&LogLevel::Warn) == Some(Ordering::Less),
        LogLevel::Warn.partial_cmp_spec(&LogLevel::Error) == Some(Ordering::Less),
        (a.partial_cmp_spec(&b) == Some(Ordering::Equal)) == (a == b),
        (a.partial_cmp_spec(&b) == Some(Ordering::Less)) == (b.partial_cmp_spec(&a) == Some(
            Ordering::Greater,
        )),
        a.partial_cmp_spec(&b) is Some,
{
}

/// The order of levels is transitive.
pub proof fn lemma_levels_transitive(a: LogLevel, b: LogLevel, c: LogLevel)
    requires
        a.partial_cmp_spec(&b) == Some(Ordering::Less),
        b.partial_cmp_spec(&c) == Some(Ordering::Less),
    ensures
        a.partial_cmp_spec(&c) == Some(Ordering::Less),
{
}

/// Text never names `Unknown`: that level only comes from a numeric code.
pub proof fn lemma_token_never_unknown(t: Seq<char>)
    ensures
        level_of_token(t) != Some(LogLevel::Unknown),
{
}

impl core::str::FromStr for LogLevel {
    type Err = Error;

    /// The level that `s` names, as `LogLevel::parse` reads it.
    fn from_str(s: &str) -> (r: Result<LogLevel, Error>)
        ensures
            match level_of_token(lower_of(s@)) {
                Some(l) => r == Ok::<LogLevel, Error>(l),
                None => r matches Err(Error::UnknownLogLevel(m)) && m@ == s@,
            },
    {
        LogLevel::parse(s)
    }
}

} // verus!
