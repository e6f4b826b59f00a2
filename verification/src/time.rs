//! Instants, and their RFC 3339 form as the `chrono` crate reads and writes it.
use vstd::prelude::*;

verus! {

/// An instant of universal time: whole seconds since the epoch, and nanoseconds beyond them.
#[derive(Clone, Copy, Debug, PartialEq, Eq, Structural)]
pub struct Instant {
    pub seconds: i64,
    pub nanos: u32,
}

/// The instant that `text` names in RFC 3339, as seconds and nanoseconds.
pub uninterp spec fn rfc3339_instant(text: Seq<char>) -> Option<(i64, u32)>;

/// The RFC 3339 form of an instant, where the calendar reaches that far.
pub uninterp spec fn rfc3339_text(seconds: i64, nanos: u32) -> Option<Seq<char>>;

/// Reads an RFC 3339 date and time.
///
/// Calls `chrono::DateTime::parse_from_rfc3339`, whose answer is a function of the text, and takes
/// the instant that it names.
#[verifier::external_body]
fn parse_rfc3339(text: &str) -> (instant: Option<(i64, u32)>)
    ensures
        instant == rfc3339_instant(text@),
{
    match chrono::DateTime::parse_from_rfc3339(text) {
        Ok(date) => Some((date.timestamp(), date.timestamp_subsec_nanos())),
        Err(_) => None,
    }
}

/// Writes an instant in RFC 3339.
///
/// Calls `chrono::DateTime::from_timestamp`, which fails where the calendar does not reach, and
/// `to_rfc3339` in universal time; the text is a function of the instant.
#[verifier::external_body]
fn write_rfc3339(seconds: i64, nanos: u32) -> (text: Option<String>)
    ensures
        match text {
            Some(text) => rfc3339_text(seconds, nanos) == Some(text@),
            None => rfc3339_text(seconds, nanos) is None,
        },
{
    chrono::DateTime::<chrono::Utc>::from_timestamp(seconds, nanos).map(|date| date.to_rfc3339())
}

/// The instant that a pair of seconds and nanoseconds stands for.
pub open spec fn instant_of(parts: Option<(i64, u32)>) -> Option<Instant> {
    match parts {
        Some((seconds, nanos)) => Some(Instant { seconds, nanos }),
        None => None,
    }
}

impl Instant {
    /// The instant that the text names in RFC 3339.
    pub fn parse(text: &str) -> (instant: Option<Self>)
        ensures
            instant == instant_of(rfc3339_instant(text@)),
    {
        match parse_rfc3339(text) {
            Some((seconds, nanos)) => Some(Instant { seconds, nanos }),
            None => None,
        }
    }

    /// The RFC 3339 form of the instant.
    pub fn to_rfc3339(&self) -> (text: Option<String>)
        ensures
            match text {
                Some(text) => rfc3339_text(self.seconds, self.nanos) == Some(text@),
                None => rfc3339_text(self.seconds, self.nanos) is None,
            },
    {
        write_rfc3339(self.seconds, self.nanos)
    }
}

} // verus!
