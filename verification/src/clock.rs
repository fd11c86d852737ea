//! Instants as the platform reports them, rendered once into the RFC 3339
//! text the ledger records.

use vstd::prelude::*;

verus! {

/// The RFC 3339 text chrono renders for a UNIX instant (whole seconds and
/// a nanosecond part), or `None` for an instant chrono refuses: seconds out
/// of its range, or an invalid nanosecond part.
pub uninterp spec fn rfc3339_rendering(seconds: i64, nanos: u32) -> Option<Seq<char>>;

/// chrono's `DateTime::<Utc>::from_timestamp(seconds, nanos)` followed by
/// `DateTime::to_rfc3339` on the instant it builds. The contract claims
/// only that the outcome is the named rendering of these two arguments: a
/// fixed function of the instant, with no clock, locale or time zone read
/// (the offset is UTC's).
#[verifier::external_body]
fn render_rfc3339(seconds: i64, nanos: u32) -> (text: Option<String>)
    ensures
        match text {
            Some(t) => rfc3339_rendering(seconds, nanos) == Some(t@),
            None => rfc3339_rendering(seconds, nanos) is None,
        },
{
    match chrono::DateTime::from_timestamp(seconds, nanos) {
        Some(at) => Some(at.to_rfc3339()),
        None => None,
    }
}

/// When the platform says something happened: a UNIX instant, kept with
/// the RFC 3339 text the ledger records for it.
#[derive(Debug, Clone, PartialEq, Eq)]
pub struct Timestamp {
    seconds: i64,
    nanos: u32,
    rendered: String,
}

impl Timestamp {
    /// The instant's whole UNIX seconds.
    pub closed spec fn unix_seconds(&self) -> i64 {
        self.seconds
    }

    /// The instant's nanosecond part.
    pub closed spec fn unix_nanos(&self) -> u32 {
        self.nanos
    }

    /// The RFC 3339 text of the instant.
    pub closed spec fn text(&self) -> Seq<char> {
        self.rendered@
    }

    /// The well-formedness of a timestamp: its text is chrono's rendering
    /// of its instant.
    pub closed spec fn wf(&self) -> bool {
        rfc3339_rendering(self.seconds, self.nanos) == Some(self.rendered@)
    }

    /// The instant `seconds` past the UNIX epoch plus `nanos`, or `None`
    /// where chrono refuses the instant.
    pub fn from_unix(seconds: i64, nanos: u32) -> (at: Option<Timestamp>)
        ensures
            at is Some <==> rfc3339_rendering(seconds, nanos) is Some,
            at matches Some(t) ==> t.wf() && t.unix_seconds() == seconds && t.unix_nanos()
                == nanos,
    {
        match render_rfc3339(seconds, nanos) {
            Some(rendered) => Some(Timestamp { seconds, nanos, rendered }),
            None => None,
        }
    }

    /// The instant's whole UNIX seconds.
    pub fn seconds(&self) -> (s: i64)
        ensures
            s == self.unix_seconds(),
    {
        self.seconds
    }

    /// The instant's nanosecond part.
    pub fn nanos(&self) -> (n: u32)
        ensures
            n == self.unix_nanos(),
    {
        self.nanos
    }

    /// The RFC 3339 rendering of the instant, as the ledger records it.
    pub fn to_rfc3339(&self) -> (text: String)
        ensures
            text@ == self.text(),
            self.wf() ==> rfc3339_rendering(self.unix_seconds(), self.unix_nanos()) == Some(
                text@,
            ),
    {
        self.rendered.clone()
    }
}

} // verus!
