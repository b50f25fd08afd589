//! A plain representation of the UTC instants a field can hold: milliseconds
//! since the Unix epoch, kept within the years 0000 to 9999 so that the
//! RFC 3339 rendering written to disk (four-digit year, millisecond
//! precision, `Z` suffix) reads back to the same instant. The rendering and
//! the reading go through the `chrono` crate.

use vstd::prelude::*;

verus! {

/// Milliseconds from the Unix epoch back to 0000-01-01T00:00:00.000Z.
pub const TS_MIN_MILLIS: i64 = -62167219200000;

/// Milliseconds from the Unix epoch to 9999-12-31T23:59:59.999Z.
pub const TS_MAX_MILLIS: i64 = 253402300799999;

/// A UTC instant at millisecond precision, within the years 0000 to 9999.
#[derive(Debug, Clone, Copy, PartialEq, Eq, Structural)]
pub struct Ts {
    millis: i64,
}

/// The instant lies within the years 0000 to 9999.
pub open spec fn ts_wf(millis: i64) -> bool {
    TS_MIN_MILLIS <= millis <= TS_MAX_MILLIS
}

impl View for Ts {
    type V = i64;

    closed spec fn view(&self) -> i64 {
        self.millis
    }
}

impl Ts {
    #[verifier::type_invariant]
    pub open spec fn inv(self) -> bool {
        ts_wf(self@)
    }

    /// Builds an instant from epoch milliseconds; rejects instants outside
    /// the years 0000 to 9999, which the on-disk format cannot carry.
    pub fn new(millis: i64) -> (r: Option<Ts>)
        ensures
            r matches Some(t) ==> t@ == millis,
            r is Some <==> ts_wf(millis),
    {
        if TS_MIN_MILLIS <= millis && millis <= TS_MAX_MILLIS {
            Some(Ts { millis })
        } else {
            None
        }
    }

    /// Milliseconds since the Unix epoch.
    pub fn millis(&self) -> (r: i64)
        ensures
            r == self@,
    {
        self.millis
    }

    /// The RFC 3339 text of the instant, as it is stored on disk.
    pub fn to_text(&self) -> (r: String)
        ensures
            r@ == ts_text(self@),
            ts_of_text(r@) == Some(self@),
            forall|i: int| 0 <= i < r@.len() ==> r@[i] != '"',
    {
        proof {
            use_type_invariant(self);
        }
        ts_to_string(self.millis)
    }

    /// Parses RFC 3339 text back into an instant. Returns `None` both when
    /// `chrono` rejects the text and when the instant it reads lies outside
    /// the years 0000 to 9999.
    pub fn from_text(s: &str) -> (r: Option<Ts>)
        ensures
            match ts_of_text(s@) {
                Some(ms) => if ts_wf(ms) {
                    r matches Some(t) && t@ == ms
                } else {
                    r is None
                },
                None => r is None,
            },
    {
        match parse_ts(s) {
            Some(ms) => Ts::new(ms),
            None => None,
        }
    }
}

/// Two instants are equal exactly when their spec-level images are.
pub proof fn lemma_ts_eq_view(a: Ts, b: Ts)
    ensures
        (a == b) <==> (a@ == b@),
{
}

/// The RFC 3339 text (millisecond precision, `Z` suffix) that `chrono`
/// renders for the instant at the given epoch milliseconds.
pub uninterp spec fn ts_text(millis: i64) -> Seq<char>;

/// The epoch milliseconds that `chrono` reads from the given RFC 3339 text,
/// or `None` where it rejects the text.
pub uninterp spec fn ts_of_text(s: Seq<char>) -> Option<i64>;

/// Relies on `chrono`: `Utc.timestamp_millis_opt` is `Single` for every
/// instant within the years 0000 to 9999 (far inside chrono's range);
/// `to_rfc3339_opts(Millis, true)` renders digits, `-`, `T`, `:`, `.` and
/// `Z` -- no quote character -- with a four-digit year for these instants;
/// and `DateTime::parse_from_rfc3339` reads that rendering back to the same
/// millisecond instant.
#[verifier::external_body]
fn ts_to_string(millis: i64) -> (r: String)
    requires
        ts_wf(millis),
    ensures
        r@ == ts_text(millis),
        ts_of_text(r@) == Some(millis),
        forall|i: int| 0 <= i < r@.len() ==> r@[i] != '"',
{
    let dt = chrono::TimeZone::timestamp_millis_opt(&chrono::Utc, millis).unwrap();
    dt.to_rfc3339_opts(chrono::SecondsFormat::Millis, true)
}

/// Relies on `chrono::DateTime::parse_from_rfc3339` and `timestamp_millis`,
/// which depend on the text alone.
#[verifier::external_body]
fn parse_ts(s: &str) -> (r: Option<i64>)
    ensures
        r == ts_of_text(s@),
{
    match chrono::DateTime::parse_from_rfc3339(s) {
        Ok(dt) => Some(dt.timestamp_millis()),
        Err(_) => None,
    }
}

} // verus!
