//! Instants in UTC, as run records store them.
use vstd::prelude::*;

verus! {

/// How chrono displays the UTC instant `seconds` seconds and `nanos` nanoseconds after the
/// Unix epoch (`2024-01-02 03:04:05.123456789 UTC`), or `None` where chrono cannot
/// represent that instant.
pub uninterp spec fn utc_display(seconds: i64, nanos: u32) -> Option<Seq<char>>;

/// Calls `chrono::DateTime::<Utc>::from_timestamp` and displays the result. The contract
/// names chrono's result: it depends on the two numbers alone.
#[verifier::external_body]
fn utc_text(seconds: i64, nanos: u32) -> (r: Option<String>)
    ensures
        match utc_display(seconds, nanos) {
            Some(t) => r matches Some(s) && s@ == t,
            None => r is None,
        },
{
    match chrono::DateTime::from_timestamp(seconds, nanos) {
        Some(instant) => Some(instant.to_string()),
        None => None,
    }
}

/// A point in time in UTC: seconds since the Unix epoch and the nanoseconds within it.
/// Only instants that the calendar can represent are constructed.
#[derive(Debug, Clone, Copy, PartialEq, Eq)]
pub struct Timestamp {
    seconds: i64,
    nanos: u32,
}

impl Timestamp {
    #[verifier::type_invariant]
    closed spec fn representable(self) -> bool {
        utc_display(self.seconds, self.nanos) is Some
    }

    pub closed spec fn spec_seconds(&self) -> i64 {
        self.seconds
    }

    pub closed spec fn spec_nanos(&self) -> u32 {
        self.nanos
    }

    /// The instant `seconds` seconds and `nanos` nanoseconds after the Unix epoch, if the
    /// calendar can represent it.
    pub fn from_unix(seconds: i64, nanos: u32) -> (r: Option<Timestamp>)
        ensures
            r is Some <==> utc_display(seconds, nanos) is Some,
            r matches Some(t) ==> t.spec_seconds() == seconds && t.spec_nanos() == nanos,
    {
        match utc_text(seconds, nanos) {
            Some(_) => Some(Timestamp { seconds, nanos }),
            None => None,
        }
    }

    /// Seconds since the Unix epoch.
    pub fn seconds(&self) -> (r: i64)
        ensures
            r == self.spec_seconds(),
    {
        self.seconds
    }

    /// Nanoseconds within the second.
    pub fn nanos(&self) -> (r: u32)
        ensures
            r == self.spec_nanos(),
    {
        self.nanos
    }

    /// The instant as chrono displays it.
    pub fn display(&self) -> (r: String)
        ensures
            utc_display(self.spec_seconds(), self.spec_nanos()) == Some(r@),
    {
        proof {
            use_type_invariant(self);
        }
        match utc_text(self.seconds, self.nanos) {
            Some(s) => s,
            None => String::new(),
        }
    }
}

} // verus!
