//! The decoded contents of a log record, and the text made from them.

use vstd::prelude::*;
use std::collections::HashMap;
use time::OffsetDateTime;
use time::error::ComponentRange;
use crate::level::LogLevel;
use crate::source::Source;
use crate::template::{arg_views, formatted};
use crate::text::{chars_of, push_all, string_of};

verus! {

#[verifier::external_type_specification]
#[verifier::external_body]
pub struct ExOffsetDateTime(OffsetDateTime);

#[verifier::external_type_specification]
#[verifier::external_body]
pub struct ExComponentRange(ComponentRange);

/// The first second that a date and time can stand for: the start of the
/// year -9999, in seconds from the Unix epoch.
pub const MIN_UNIX_SECONDS: i64 = -377_705_116_800;

/// The last second that a date and time can stand for: the end of the year
/// 9999, in seconds from the Unix epoch.
pub const MAX_UNIX_SECONDS: i64 = 253_402_300_799;

/// Whether a timestamp in milliseconds from the Unix epoch falls in a second
/// from `MIN_UNIX_SECONDS` to `MAX_UNIX_SECONDS`.
pub open spec fn time_in_range(millis: i64) -> bool {
    MIN_UNIX_SECONDS * 1000 <= millis <= MAX_UNIX_SECONDS * 1000 + 999
}

/// Relies on `time::OffsetDateTime::from_unix_timestamp_nanos`: it succeeds
/// for every timestamp whose whole seconds lie from the start of the year
/// -9999 to the end of the year 9999 (the range without the `large-dates`
/// feature, which only widens it).
#[verifier::external_body]
fn datetime_from_nanos(nanos: i128) -> (r: Result<OffsetDateTime, ComponentRange>)
    ensures
        MIN_UNIX_SECONDS * 1_000_000_000 <= nanos < (MAX_UNIX_SECONDS + 1) * 1_000_000_000
            ==> r is Ok,
{
    OffsetDateTime::from_unix_timestamp_nanos(nanos)
}

/// The decimal digits of `n`, most significant first.
pub open spec fn digits(n: nat) -> Seq<char>
    decreases n,
{
    if n < 10 {
        seq![digit(n)]
    } else {
        digits(n / 10).push(digit(n % 10))
    }
}

/// The character of the decimal digit `d`.
pub open spec fn digit(d: nat) -> char {
    if d == 0 {
        '0'
    } else if d == 1 {
        '1'
    } else if d == 2 {
        '2'
    } else if d == 3 {
        '3'
    } else if d == 4 {
        '4'
    } else if d == 5 {
        '5'
    } else if d == 6 {
        '6'
    } else if d == 7 {
        '7'
    } else if d == 8 {
        '8'
    } else {
        '9'
    }
}

/// `n` written in decimal, with a leading `-` when it is negative.
pub open spec fn decimal(n: int) -> Seq<char> {
    if n < 0 {
        seq!['-'] + digits((-n) as nat)
    } else {
        digits(n as nat)
    }
}

fn digit_char(d: u64) -> (c: char)
    requires
        d < 10,
    ensures
        c == digit(d as nat),
{
    if d == 0 {
        '0'
    } else if d == 1 {
        '1'
    } else if d == 2 {
        '2'
    } else if d == 3 {
        '3'
    } else if d == 4 {
        '4'
    } else if d == 5 {
        '5'
    } else if d == 6 {
        '6'
    } else if d == 7 {
        '7'
    } else if d == 8 {
        '8'
    } else {
        '9'
    }
}

fn push_digits(out: &mut Vec<char>, n: u64)
    ensures
        final(out)@ == old(out)@ + digits(n as nat),
    decreases n,
{
    if n >= 10 {
        push_digits(out, n / 10);
    }
    out.push(digit_char(n % 10));
}

fn push_decimal(out: &mut Vec<char>, n: i32)
    ensures
        final(out)@ == old(out)@ + decimal(n as int),
{
    if n < 0 {
        out.push('-');
        let m: u64 = (0i64 - n as i64) as u64;
        push_digits(out, m);
    } else {
        push_digits(out, n as u64);
    }
}

/// One decoded log record.
pub struct LogEvent {
    /// The message template, with `{}` anchors for the arguments.
    pub template: String,
    pub thread_name: String,
    pub logger_name: Source,
    pub context: LogContext,
    pub level: LogLevel,
    /// The arguments for the anchors of the template, in order.
    pub arguments: Vec<String>,
    pub throwable: Option<Throwable>,
    pub stacktrace: Option<Vec<StackFrame>>,
    pub marker: Option<Marker>,
    /// When the record was made, in milliseconds from the Unix epoch.
    pub time_stamp: i64,
    pub mdc: HashMap<String, String>,
}

/// The logging context that a record was made in.
pub struct LogContext {
    pub birth_time: i64,
    pub name: String,
    pub properties: HashMap<String, String>,
}

/// An exception attached to a record.
pub struct Throwable {
    pub class_name: String,
    pub message: Option<String>,
    pub common_frames: i32,
    pub cause: Option<Box<Throwable>>,
    pub suppressed: Vec<Throwable>,
    pub stack_trace: Vec<StackTraceElement>,
}

/// One frame of a call stack.
pub struct StackFrame {
    pub declaring_class: Option<String>,
    pub line: i32,
    pub class_loader_name: Option<String>,
    pub method_name: Option<String>,
    pub module_name: Option<String>,
    pub format: u8,
    pub module_version: Option<String>,
    pub file_name: Option<String>,
}

/// A frame of an exception's stack, with where its class was loaded from.
pub struct StackTraceElement {
    pub ste: StackFrame,
    pub cpd: Option<ClassPackagingData>,
}

/// Where a class was loaded from.
pub struct ClassPackagingData {
    pub code_location: String,
    pub version: String,
    pub exact: bool,
}

/// A named marker on a record, with the markers it refers to.
pub struct Marker {
    pub name: String,
    pub references: Vec<Marker>,
}

/// A list of markers as the record holds it.
pub struct Markers {
    pub markers: Vec<Marker>,
}

/// A string map of a record, in the forms that the record may hold it in.
pub enum JavaMap {
    Empty,
    HashMap(HashMap<String, String>),
    Sync(HashMap<String, String>),
}

/// Whether a frame names its class, its method and its file.
pub open spec fn printable(f: StackFrame) -> bool {
    &&& f.declaring_class is Some
    &&& f.method_name is Some
    &&& f.file_name is Some
}

/// A frame as a stack trace shows it: `class.method(file:line)`.
pub open spec fn frame_text(f: StackFrame) -> Seq<char> {
    f.declaring_class->0@ + "."@ + f.method_name->0@ + "("@ + f.file_name->0@ + ":"@ + decimal(
        f.line as int,
    ) + ")"@
}

/// The pieces `p` with `sep` between each two of them.
pub open spec fn joined_with(p: Seq<Seq<char>>, sep: Seq<char>) -> Seq<char>
    decreases p.len(),
{
    if p.len() == 0 {
        Seq::empty()
    } else if p.len() == 1 {
        p[0]
    } else {
        joined_with(p.drop_last(), sep) + sep + p.last()
    }
}

/// The line that starts each frame of a stack trace after the first.
pub open spec fn frame_separator() -> Seq<char> {
    "\n     at "@
}

/// Whether every frame of an exception's stack can be shown.
pub open spec fn trace_printable(t: Throwable) -> bool {
    forall|i: int| 0 <= i < t.stack_trace@.len() ==> printable(#[trigger] t.stack_trace@[i].ste)
}

/// The frames of an exception's stack, one per line.
pub open spec fn trace_text(t: Throwable) -> Seq<char> {
    joined_with(t.stack_trace@.map_values(|e: StackTraceElement| frame_text(e.ste)), frame_separator())
}

impl StackFrame {
    /// This frame as a stack trace shows it.
    pub fn to_text(&self) -> (r: String)
        requires
            printable(*self),
        ensures
            r@ == frame_text(*self),
    {
        let mut out: Vec<char> = Vec::new();
        match (&self.declaring_class, &self.method_name, &self.file_name) {
            (Some(class), Some(method), Some(file)) => {
                push_all(&mut out, &chars_of(class.as_str()));
                out.push('.');
                push_all(&mut out, &chars_of(method.as_str()));
                out.push('(');
                push_all(&mut out, &chars_of(file.as_str()));
                out.push(':');
                push_decimal(&mut out, self.line);
                out.push(')');
            },
            _ => {},
        }
        proof {
            reveal_strlit(".");
            reveal_strlit("(");
            reveal_strlit(":");
            reveal_strlit(")");
        }
        assert(out@ =~= frame_text(*self));
        string_of(&out)
    }
}

impl StackTraceElement {
    /// The frame of this element as a stack trace shows it.
    pub fn to_text(&self) -> (r: String)
        requires
            printable(self.ste),
        ensures
            r@ == frame_text(self.ste),
    {
        self.ste.to_text()
    }
}

impl Throwable {
    /// The frames of this exception's stack, one per line, each after the
    /// first led by `at`.
    pub fn trace(&self) -> (r: String)
        requires
            trace_printable(*self),
        ensures
            r@ == trace_text(*self),
    {
        let ghost texts = self.stack_trace@.map_values(|e: StackTraceElement| frame_text(e.ste));
        let sep = chars_of("\n     at ");
        let mut out: Vec<char> = Vec::new();
        let mut i: usize = 0;
        while i < self.stack_trace.len()
            invariant
                i <= self.stack_trace@.len(),
                trace_printable(*self),
                texts == self.stack_trace@.map_values(|e: StackTraceElement| frame_text(e.ste)),
                sep@ == frame_separator(),
                out@ == joined_with(texts.take(i as int), frame_separator()),
            decreases self.stack_trace@.len() - i,
        {
            assert(printable(self.stack_trace@[i as int].ste));
            let line = chars_of(self.stack_trace[i].to_text().as_str());
            if i > 0 {
                push_all(&mut out, &sep);
            }
            push_all(&mut out, &line);
            assert(texts.take(i + 1).drop_last() == texts.take(i as int));
            assert(texts.take(i + 1).last() == line@);
            if i == 0 {
                assert(texts.take(0).len() == 0);
                assert(out@ == line@);
            }
            i = i + 1;
        }
        assert(texts.take(self.stack_trace@.len() as int) == texts);
        string_of(&out)
    }
}

impl LogEvent {
    /// The message of this record: its template with the arguments put in.
    pub fn message(&self) -> (r: String)
        ensures
            r@ == formatted(self.template@, arg_views(self.arguments@)),
    {
        crate::template::format(self.template.as_str(), self.arguments.as_slice())
    }

    /// When this record was made, in UTC.
    pub fn time(&self) -> (r: OffsetDateTime)
        requires
            time_in_range(self.time_stamp),
    {
        let nanos: i128 = 1_000_000 * self.time_stamp as i128;
        match datetime_from_nanos(nanos) {
            Ok(t) => t,
            Err(_) => vstd::pervasive::unreached(),
        }
    }

    /// The exception of this record, if any: a new line, its class name and
    /// its stack trace; else nothing.
    pub fn stack(&self) -> (r: String)
        requires
            self.throwable matches Some(t) ==> trace_printable(t),
        ensures
            r@ == match self.throwable {
                Some(t) => "\n"@ + t.class_name@ + trace_text(t),
                None => Seq::empty(),
            },
    {
        match &self.throwable {
            Some(t) => {
                let mut out: Vec<char> = Vec::new();
                out.push('\n');
                push_all(&mut out, &chars_of(t.class_name.as_str()));
                push_all(&mut out, &chars_of(t.trace().as_str()));
                proof {
                    reveal_strlit("\n");
                }
                assert(out@ =~= "\n"@ + t.class_name@ + trace_text(*t));
                string_of(&out)
            },
            None => String::new(),
        }
    }
}

impl Markers {
    /// The markers of this list, in order.
    pub fn into_vec(self) -> (r: Vec<Marker>)
        ensures
            r == self.markers,
    {
        self.markers
    }
}

impl JavaMap {
    /// The entries of this map, whatever form it came in.
    pub fn into_map(self) -> (r: HashMap<String, String>)
        ensures
            match self {
                JavaMap::Empty => r@ == vstd::map::Map::<String, String>::empty(),
                JavaMap::HashMap(m) => r == m,
                JavaMap::Sync(m) => r == m,
            },
    {
        match self {
            JavaMap::Empty => HashMap::with_capacity(0),
            JavaMap::HashMap(m) => m,
            JavaMap::Sync(m) => m,
        }
    }
}

} // verus!
