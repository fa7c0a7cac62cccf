//! Points in time as the catalog stores them, and their wire form.

use vstd::prelude::*;

verus! {

/// The Unix epoch itself: the first second that a timestamp may hold.
pub const MIN_SEC: i64 = 0;

/// Last second of the year 9999, counted from the Unix epoch.
pub const MAX_SEC: i64 = 253_402_300_799;

/// Nanoseconds in one second.
pub const NSEC_PER_SEC: i32 = 1_000_000_000;

/// Seconds and nanoseconds since the Unix epoch, in UTC.
#[derive(Clone, Copy, Debug, PartialEq, Eq, Structural)]
pub struct Timespec {
    pub sec: i64,
    pub nsec: i32,
}

/// The RFC 3339 text of the UTC instant `sec` seconds after the Unix epoch,
/// `2012-02-22T14:53:18Z` for one, as the `time` crate writes it for the
/// years 1970 to 9999.
pub uninterp spec fn rfc3339_utc(sec: int) -> Seq<char>;

impl Timespec {
    /// A timestamp is well formed when it lies in the years 1970 to 9999 and
    /// its nanoseconds stay below a second. No row of the registry is older
    /// than the epoch, and RFC 3339 writes no year beyond 9999.
    pub open spec fn wf(self) -> bool {
        &&& MIN_SEC <= self.sec <= MAX_SEC
        &&& 0 <= self.nsec < NSEC_PER_SEC
    }

    /// The wire form of a well-formed timestamp.
    pub open spec fn encoded(self) -> Seq<char> {
        rfc3339_utc(self.sec as int)
    }

    /// The timestamp with the given parts, or `None` where they are out of
    /// range.
    pub fn new(sec: i64, nsec: i32) -> (r: Option<Timespec>)
        ensures
            r is Some <==> (Timespec { sec, nsec }).wf(),
            r is Some ==> r->0 == (Timespec { sec, nsec }),
    {
        if MIN_SEC <= sec && sec <= MAX_SEC && 0 <= nsec && nsec < NSEC_PER_SEC {
            Some(Timespec { sec, nsec })
        } else {
            None
        }
    }

    /// The wire form of the timestamp.
    pub fn encode(&self) -> (r: String)
        requires
            self.wf(),
        ensures
            r@ == self.encoded(),
    {
        encode_time(*self)
    }
}

/// Calls `time::at_utc` on a `time::Timespec` made by `time::Timespec::new`,
/// and prints the result with `Tm::rfc3339`.
///
/// `Timespec::new` asserts that the nanoseconds are below one second.
/// `at_utc` breaks the seconds down in a way of the target's: with
/// `gmtime_r`, which fails where the year overflows a C `int`; with a Windows
/// file time, which has no instant before 1601 and whose year the crate
/// reduces by 1900 in 16 unsigned bits; or with a loop of the crate's own
/// that counts forward from 1970 only. From the epoch to the end of the year
/// 9999 all three succeed and agree, and the precondition admits no other
/// instant. In UTC the text is `%Y-%m-%dT%H:%M:%SZ`, with a year of four
/// digits in that span: it depends on the seconds alone, and the contract
/// gives it the name [`rfc3339_utc`].
#[verifier::external_body]
pub(crate) fn encode_time(t: Timespec) -> (r: String)
    requires
        t.wf(),
    ensures
        r@ == rfc3339_utc(t.sec as int),
{
    time::at_utc(time::Timespec::new(t.sec, t.nsec)).rfc3339().to_string()
}

} // verus!
