//! Points in time. Reading and writing them is the work of the crate `time`; the
//! tracker keeps of each what it orders and shows it by.

use vstd::prelude::*;
use time::format_description::well_known::Rfc3339;
use time::OffsetDateTime;

verus! {

/// A point in time, as a date-time with an offset from UTC.
#[derive(Debug, Eq)]
pub struct Timestamp {
    /// The nanoseconds since the Unix epoch. Points in time are ordered by them.
    pub unix_nanos: i128,
    /// The date, the time and the offset, written out for display.
    pub text: String,
}

/// A `Timestamp` with its text as a sequence of characters.
pub struct TimestampView {
    pub unix_nanos: int,
    pub text: Seq<char>,
}

impl View for Timestamp {
    type V = TimestampView;

    open spec fn view(&self) -> TimestampView {
        TimestampView { unix_nanos: self.unix_nanos as int, text: self.text@ }
    }
}

impl DeepView for Timestamp {
    type V = TimestampView;

    open spec fn deep_view(&self) -> TimestampView {
        self@
    }
}

/// Two points in time are equal where they are the same instant, whatever offset
/// each is written with.
impl PartialEq for Timestamp {
    fn eq(&self, other: &Self) -> (r: bool) {
        self.unix_nanos == other.unix_nanos
    }
}

impl vstd::std_specs::cmp::PartialEqSpecImpl for Timestamp {
    open spec fn obeys_eq_spec() -> bool {
        true
    }

    open spec fn eq_spec(&self, other: &Self) -> bool {
        self.unix_nanos == other.unix_nanos
    }
}

impl Clone for Timestamp {
    fn clone(&self) -> (r: Self)
        ensures
            r == *self,
    {
        Timestamp { unix_nanos: self.unix_nanos, text: self.text.clone() }
    }
}

/// The point in time that `text` denotes by RFC 3339, as the crate `time` reads it:
/// `None` where `text` is no such date-time.
pub uninterp spec fn rfc3339(text: Seq<char>) -> Option<TimestampView>;

/// `time::OffsetDateTime::parse` with the format `Rfc3339`. The result depends on
/// `text` alone. Of the date-time read, `unix_timestamp_nanos` gives the
/// nanoseconds since the epoch and `Display` the text.
#[verifier::external_body]
pub(crate) fn parse_rfc3339(text: &str) -> (r: Option<Timestamp>)
    ensures
        r.deep_view() == rfc3339(text@),
{
    match OffsetDateTime::parse(text, &Rfc3339) {
        Ok(t) => Some(Timestamp { unix_nanos: t.unix_timestamp_nanos(), text: t.to_string() }),
        Err(_) => None,
    }
}

impl Timestamp {
    /// The point in time `unix_nanos` nanoseconds after the Unix epoch, shown as `text`.
    pub fn new(unix_nanos: i128, text: String) -> (r: Self)
        ensures
            r@ == (TimestampView { unix_nanos: unix_nanos as int, text: text@ }),
    {
        Timestamp { unix_nanos, text }
    }

    /// The point in time that `text` denotes by RFC 3339.
    pub fn read(text: &str) -> (r: Self)
        requires
            rfc3339(text@) is Some,
        ensures
            Some(r@) == rfc3339(text@),
    {
        match parse_rfc3339(text) {
            Some(t) => t,
            None => Timestamp { unix_nanos: 0, text: String::new() },
        }
    }

    /// The point in time that `text` denotes by RFC 3339, `None` where it denotes
    /// none.
    pub fn try_read(text: &str) -> (r: Option<Self>)
        ensures
            r.deep_view() == rfc3339(text@),
    {
        match parse_rfc3339(text) {
            Some(_) => Some(Self::read(text)),
            None => None,
        }
    }

    /// Whether this point in time is earlier than `other`.
    pub fn before(&self, other: &Timestamp) -> (r: bool)
        ensures
            r == (self@.unix_nanos < other@.unix_nanos),
    {
        self.unix_nanos < other.unix_nanos
    }

    /// The date, the time and the offset, for display.
    pub fn to_text(&self) -> (r: String)
        ensures
            r@ == self@.text,
    {
        self.text.clone()
    }
}

} // verus!
