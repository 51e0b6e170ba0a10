//! Publication times: an instant of the UTC time line held as two integers,
//! with chrono doing the reading and the rendering of dates.

use chrono::DateTime;
use chrono::Utc;
use vstd::prelude::*;

verus! {

/// The pattern of a date written as day, month and year.
pub const DAY_MONTH_YEAR: &'static str = "%d/%m/%Y";

/// The error that chrono's parsers return.
#[verifier::external_type_specification]
#[verifier::external_body]
pub struct ExParseError(chrono::ParseError);

/// Whether chrono can hold the instant that lies `seconds` whole seconds from
/// the Unix epoch and `nanos` nanoseconds into that second: whether
/// `DateTime::from_timestamp(seconds, nanos)` is `Some`.
pub uninterp spec fn representable(seconds: int, nanos: int) -> bool;

/// The instant that chrono reads from `text` as a `DateTime<Utc>`, given by
/// its `timestamp()` and its `timestamp_subsec_nanos()`; `None` where chrono
/// rejects the text.
pub uninterp spec fn parsed_instant(text: Seq<char>) -> Option<(int, int)>;

/// The text that chrono's `format` gives for the instant under `pattern`.
pub uninterp spec fn formatted(seconds: int, nanos: int, pattern: Seq<char>) -> Seq<char>;

/// Calls `DateTime::from_timestamp` and reports whether it gave a value. The
/// contract only names that answer.
#[verifier::external_body]
fn chrono_holds(seconds: i64, nanos: u32) -> (held: bool)
    ensures
        held == representable(seconds as int, nanos as int),
{
    DateTime::from_timestamp(seconds, nanos).is_some()
}

/// Calls `str::parse::<DateTime<Utc>>`, chrono's relaxed RFC 3339 reader
/// followed by the conversion to UTC, and hands back the two integers of the
/// result. The contract names that pair, and adds what chrono documents of
/// `from_timestamp`: it accepts the `timestamp()` and the
/// `timestamp_subsec_nanos()` of every `DateTime`.
#[verifier::external_body]
fn chrono_parse(text: &str) -> (read: Result<(i64, u32), chrono::ParseError>)
    ensures
        read is Ok <==> parsed_instant(text@) is Some,
        read matches Ok(pair) ==> parsed_instant(text@) == Some((pair.0 as int, pair.1 as int))
            && representable(pair.0 as int, pair.1 as int),
{
    match text.parse::<DateTime<Utc>>() {
        Ok(moment) => Ok((moment.timestamp(), moment.timestamp_subsec_nanos())),
        Err(error) => Err(error),
    }
}

/// Calls `DateTime::from_timestamp` and then `DateTime::format` with
/// `pattern`, and collects the text. The instant must be one chrono holds;
/// the pattern is held to the one this crate uses, which has no specifier
/// that chrono refuses to print.
#[verifier::external_body]
fn chrono_format(seconds: i64, nanos: u32, pattern: &str) -> (text: String)
    requires
        representable(seconds as int, nanos as int),
        pattern@ == DAY_MONTH_YEAR@,
    ensures
        text@ == formatted(seconds as int, nanos as int, pattern@),
{
    DateTime::from_timestamp(seconds, nanos).unwrap().format(pattern).to_string()
}

/// An instant as contracts see it.
pub struct Instant {
    /// Whole seconds since the Unix epoch.
    pub seconds: int,
    /// Nanoseconds into that second.
    pub nanos: int,
}

impl Instant {
    /// `self` lies strictly later than `other`.
    pub open spec fn after(self, other: Instant) -> bool {
        self.seconds > other.seconds || (self.seconds == other.seconds && self.nanos > other.nanos)
    }

    /// `self` lies no earlier than `other`.
    pub open spec fn at_or_after(self, other: Instant) -> bool {
        !other.after(self)
    }

    /// The date of this instant as day, month and year.
    pub open spec fn day_month_year(self) -> Seq<char> {
        formatted(self.seconds, self.nanos, DAY_MONTH_YEAR@)
    }
}

/// An instant that chrono can hold.
#[derive(Clone, Copy, Debug, PartialEq, Eq)]
pub struct Timestamp {
    seconds: i64,
    nanos: u32,
}

impl View for Timestamp {
    type V = Instant;

    closed spec fn view(&self) -> Instant {
        Instant { seconds: self.seconds as int, nanos: self.nanos as int }
    }
}

impl DeepView for Timestamp {
    type V = Instant;

    open spec fn deep_view(&self) -> Instant {
        self@
    }
}

impl Timestamp {
    #[verifier::type_invariant]
    spec fn held_by_chrono(self) -> bool {
        representable(self.seconds as int, self.nanos as int)
    }

    /// The instant `seconds` seconds from the Unix epoch and `nanos`
    /// nanoseconds on, where chrono can hold it.
    pub fn new(seconds: i64, nanos: u32) -> (made: Option<Timestamp>)
        ensures
            made is Some <==> representable(seconds as int, nanos as int),
            made matches Some(t) ==> t@ == (Instant { seconds: seconds as int, nanos: nanos as int }),
    {
        if chrono_holds(seconds, nanos) {
            Some(Timestamp { seconds, nanos })
        } else {
            None
        }
    }

    /// Reads a timestamp in the RFC 3339 form, with any offset, as chrono
    /// does.
    pub fn parse(text: &str) -> (read: Option<Timestamp>)
        ensures
            read is Some <==> parsed_instant(text@) is Some,
            read matches Some(t) ==> parsed_instant(text@) == Some((t@.seconds, t@.nanos)),
    {
        match chrono_parse(text) {
            Ok(pair) => Some(Timestamp { seconds: pair.0, nanos: pair.1 }),
            Err(_) => None,
        }
    }

    /// Whole seconds since the Unix epoch.
    pub fn seconds(&self) -> (s: i64)
        ensures
            s == self@.seconds,
    {
        self.seconds
    }

    /// Nanoseconds into the second.
    pub fn subsec_nanos(&self) -> (n: u32)
        ensures
            n == self@.nanos,
    {
        self.nanos
    }

    /// Whether `self` lies strictly later than `other`.
    pub fn is_after(&self, other: &Timestamp) -> (later: bool)
        ensures
            later == self@.after(other@),
    {
        self.seconds > other.seconds || (self.seconds == other.seconds && self.nanos > other.nanos)
    }

    /// The date written as day, month and year.
    pub fn day_month_year(&self) -> (text: String)
        ensures
            text@ == self@.day_month_year(),
    {
        proof {
            use_type_invariant(self);
        }
        chrono_format(self.seconds, self.nanos, DAY_MONTH_YEAR)
    }
}

} // verus!
