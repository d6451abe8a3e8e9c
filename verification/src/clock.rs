//! Points in time and how they are written.

use vstd::prelude::*;

verus! {

/// A point in time: seconds since 1970-01-01T00:00:00Z and nanoseconds past them.
#[derive(Debug, Clone, Copy, PartialEq, Eq, Structural)]
pub struct Timestamp {
    pub secs: i64,
    pub nanos: u32,
}

/// The last second of the year 9998; later clock readings are held at it.
pub const LAST_SECOND: i64 = 253_370_764_799;

/// How `chrono` writes the point `secs` seconds and `nanos` nanoseconds after
/// 1970-01-01T00:00:00Z.
pub uninterp spec fn rfc3339_text(secs: i64, nanos: u32) -> Seq<char>;

impl Timestamp {
    /// A point in the years 1970 to 9999.
    pub open spec fn wf(self) -> bool {
        0 <= self.secs <= LAST_SECOND + 31_536_000 && self.nanos < 1_000_000_000
    }

    /// The time as an RFC 3339 string.
    pub fn to_rfc3339(self) -> (r: String)
        requires
            self.wf(),
        ensures
            r@ == rfc3339_text(self.secs, self.nanos),
    {
        write_rfc3339(self.secs, self.nanos)
    }

    /// The point `secs` seconds later, of at most a year.
    pub fn after(self, secs: u32) -> (r: Timestamp)
        requires
            0 <= self.secs <= LAST_SECOND,
            self.nanos < 1_000_000_000,
            secs <= 31_536_000,
        ensures
            r.wf(),
            r.secs == self.secs + secs,
            r.nanos == self.nanos,
    {
        Timestamp { secs: self.secs + secs as i64, nanos: self.nanos }
    }

    /// What a clock that reads `secs` seconds and `nanos` nanoseconds is taken to show.
    pub open spec fn read_as(secs: i64, nanos: u32) -> Timestamp {
        Timestamp {
            secs: if secs < 0 {
                0
            } else if secs > LAST_SECOND {
                LAST_SECOND
            } else {
                secs
            },
            nanos: if nanos < 1_000_000_000 {
                nanos
            } else {
                999_999_999
            },
        }
    }

    /// The point that a clock shows, held between 1970 and the last whole second of
    /// 9998. A leap second's nanoseconds are held within their second.
    pub fn from_reading(secs: i64, nanos: u32) -> (r: Timestamp)
        ensures
            r == Timestamp::read_as(secs, nanos),
            r.wf(),
            r.secs <= LAST_SECOND,
    {
        Timestamp {
            secs: if secs < 0 {
                0
            } else if secs > LAST_SECOND {
                LAST_SECOND
            } else {
                secs
            },
            nanos: if nanos < 1_000_000_000 {
                nanos
            } else {
                999_999_999
            },
        }
    }

    /// The present, as [`Self::from_reading`] holds it. Which reading the machine's
    /// clock gave is left open.
    pub fn now() -> (r: Timestamp)
        ensures
            r.wf(),
            r.secs <= LAST_SECOND,
    {
        let (secs, nanos): (i64, u32) = read_clock();
        Timestamp::from_reading(secs, nanos)
    }
}

/// `chrono::Utc::now`, as seconds and nanoseconds of the system clock. Nothing is
/// said of the reading: it is the machine's.
#[verifier::external_body]
fn read_clock() -> (r: (i64, u32)) {
    let now = chrono::Utc::now();
    (now.timestamp(), now.timestamp_subsec_nanos())
}

/// `chrono::DateTime::to_rfc3339` on the UTC point in time `secs` seconds and
/// `nanos` nanoseconds after 1970-01-01T00:00:00Z: the text depends on these two
/// alone.
#[verifier::external_body]
fn write_rfc3339(secs: i64, nanos: u32) -> (r: String)
    requires
        0 <= secs <= 253_402_300_799,
        nanos < 1_000_000_000,
    ensures
        r@ == rfc3339_text(secs, nanos),
{
    chrono::DateTime::from_timestamp(secs, nanos).unwrap().to_rfc3339()
}

/// A clock that shows a time between 1970 and the end of 9998 is believed; one that shows an
/// earlier or a later time is taken to show the first or the last of these.
pub proof fn a_sensible_clock_is_believed(secs: i64, nanos: u32)
    ensures
        0 <= secs <= LAST_SECOND ==> Timestamp::read_as(secs, nanos).secs == secs,
        secs < 0 ==> Timestamp::read_as(secs, nanos).secs == 0,
        secs > LAST_SECOND ==> Timestamp::read_as(secs, nanos).secs == LAST_SECOND,
        nanos < 1_000_000_000 ==> Timestamp::read_as(secs, nanos).nanos == nanos,
        nanos >= 1_000_000_000 ==> Timestamp::read_as(secs, nanos).nanos == 999_999_999,
        Timestamp::read_as(secs, nanos).wf(),
{
}

} // verus!
