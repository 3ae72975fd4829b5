//! Instants on the UTC time line, parsed and printed by `chrono`.

use vstd::prelude::*;

verus! {

/// Whether `chrono::DateTime::from_timestamp` has a UTC date and time for
/// the instant that lies `secs` whole seconds after the Unix epoch, with
/// `nanos` nanoseconds on top.
pub uninterp spec fn utc_instant_exists(secs: int, nanos: int) -> bool;

/// The text that `chrono` prints, by `Display`, for the UTC date and time
/// of the instant at `secs` seconds and `nanos` nanoseconds after the Unix
/// epoch.
pub uninterp spec fn utc_instant_text(secs: int, nanos: int) -> Seq<char>;

/// What `chrono::DateTime::parse_from_str` reads from `text` under
/// `format`, which has to name a time zone: the Unix seconds and the
/// nanoseconds of the instant, or nothing when `text` does not fit `format`.
pub uninterp spec fn zoned_reading(text: Seq<char>, format: Seq<char>) -> Option<(int, int)>;

/// What `chrono::TimeZone::datetime_from_str` reads on `chrono::Utc` from
/// `text` under `format`, taking a date and time without a zone as UTC: the
/// Unix seconds and the nanoseconds of the instant, or nothing when `text`
/// does not fit `format`.
pub uninterp spec fn utc_reading(text: Seq<char>, format: Seq<char>) -> Option<(int, int)>;

/// `chrono::format::ParseError`, with which `chrono` says that a text does
/// not fit a format. Nothing is read from it.
#[verifier::external_type_specification]
#[verifier::external_body]
pub struct ExParseError(chrono::format::ParseError);

/// `chrono::DateTime::from_timestamp`, asked only whether it finds a date
/// and time for the given seconds and nanoseconds.
#[verifier::external_body]
fn instant_exists(secs: i64, nanos: u32) -> (r: bool)
    ensures
        r == utc_instant_exists(secs as int, nanos as int),
{
    chrono::DateTime::from_timestamp(secs, nanos).is_some()
}

/// The `Display` text of the `chrono::DateTime<Utc>` that
/// `chrono::DateTime::from_timestamp` makes of an existing instant.
#[verifier::external_body]
fn instant_text(secs: i64, nanos: u32) -> (r: String)
    requires
        utc_instant_exists(secs as int, nanos as int),
    ensures
        r@ == utc_instant_text(secs as int, nanos as int),
{
    chrono::DateTime::from_timestamp(secs, nanos).unwrap().to_string()
}

/// `chrono::DateTime::parse_from_str`, with the result given as the Unix
/// seconds and the nanoseconds of the instant read.
#[verifier::external_body]
fn read_zoned(text: &str, format: &str) -> (r: Result<(i64, u32), chrono::format::ParseError>)
    ensures
        match r {
            Ok(at) => zoned_reading(text@, format@) == Some((at.0 as int, at.1 as int)),
            Err(_) => zoned_reading(text@, format@) is None,
        },
{
    chrono::DateTime::parse_from_str(text, format).map(
        |t| (t.timestamp(), t.timestamp_subsec_nanos()),
    )
}

/// `chrono::TimeZone::datetime_from_str` on `chrono::Utc`, with the result
/// given as the Unix seconds and the nanoseconds of the instant read.
#[verifier::external_body]
#[allow(deprecated)]
fn read_utc(text: &str, format: &str) -> (r: Result<(i64, u32), chrono::format::ParseError>)
    ensures
        match r {
            Ok(at) => utc_reading(text@, format@) == Some((at.0 as int, at.1 as int)),
            Err(_) => utc_reading(text@, format@) is None,
        },
{
    chrono::TimeZone::datetime_from_str(&chrono::Utc, text, format).map(
        |t| (t.timestamp(), t.timestamp_subsec_nanos()),
    )
}

/// The mathematical content of a [`Timestamp`].
pub struct Instant {
    pub secs: int,
    pub nanos: int,
}

/// An instant on the UTC time line: whole seconds since the Unix epoch and
/// the nanoseconds past that second. Every timestamp is one that `chrono`
/// has a date and time for.
#[derive(Clone, Copy, Debug, PartialEq, Eq)]
pub struct Timestamp {
    secs: i64,
    nanos: u32,
}

impl View for Timestamp {
    type V = Instant;

    closed spec fn view(&self) -> Instant {
        Instant { secs: self.secs as int, nanos: self.nanos as int }
    }
}

impl Timestamp {
    #[verifier::type_invariant]
    spec fn on_the_time_line(self) -> bool {
        utc_instant_exists(self.secs as int, self.nanos as int)
    }

    /// The timestamp at `secs` seconds and `nanos` nanoseconds after the
    /// Unix epoch, if there is such an instant.
    pub fn new(secs: i64, nanos: u32) -> (r: Option<Timestamp>)
        ensures
            r is Some <==> utc_instant_exists(secs as int, nanos as int),
            r matches Some(t) ==> t@ == (Instant { secs: secs as int, nanos: nanos as int }),
    {
        if instant_exists(secs, nanos) {
            Some(Timestamp { secs, nanos })
        } else {
            None
        }
    }

    /// Whole seconds since the Unix epoch.
    pub fn seconds(&self) -> (s: i64)
        ensures
            s == self@.secs,
    {
        self.secs
    }

    /// Nanoseconds past the last whole second.
    pub fn subsec_nanos(&self) -> (n: u32)
        ensures
            n == self@.nanos,
    {
        self.nanos
    }

    /// The timestamp as `chrono` prints it.
    pub fn to_text(&self) -> (s: String)
        ensures
            s@ == utc_instant_text(self@.secs, self@.nanos),
    {
        proof {
            use_type_invariant(self);
        }
        instant_text(self.secs, self.nanos)
    }

    /// Reads `text` under a `format` that names a time zone. There is no
    /// timestamp where `text` does not fit `format`, nor where what was
    /// read is no instant of the time line.
    pub fn read_zoned(text: &str, format: &str) -> (r: Option<Timestamp>)
        ensures
            match r {
                Some(t) => instant_read(zoned_reading(text@, format@)) == Some(t@),
                None => instant_read(zoned_reading(text@, format@)) is None,
            },
    {
        match read_zoned(text, format) {
            Ok(at) => Timestamp::new(at.0, at.1),
            Err(_) => None,
        }
    }

    /// Reads `text` under a `format` without a time zone, as UTC. There is
    /// no timestamp where `text` does not fit `format`, nor where what was
    /// read is no instant of the time line.
    pub fn read_utc(text: &str, format: &str) -> (r: Option<Timestamp>)
        ensures
            match r {
                Some(t) => instant_read(utc_reading(text@, format@)) == Some(t@),
                None => instant_read(utc_reading(text@, format@)) is None,
            },
    {
        match read_utc(text, format) {
            Ok(at) => Timestamp::new(at.0, at.1),
            Err(_) => None,
        }
    }
}

/// The instant that was read, where one was read and the time line has it.
pub open spec fn instant_read(read: Option<(int, int)>) -> Option<Instant> {
    match read {
        Some(at) => if utc_instant_exists(at.0, at.1) {
            Some(Instant { secs: at.0, nanos: at.1 })
        } else {
            None
        },
        None => None,
    }
}

} // verus!
