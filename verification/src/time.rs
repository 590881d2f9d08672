//! UTC timestamps as plain values: whole seconds since the Unix epoch and a
//! nanosecond fraction, limited to the range a `DateTime<Utc>` can hold.

use vstd::prelude::*;

verus! {

/// Earliest representable second (`-262143-01-01T00:00:00Z`).
pub const MIN_UNIX_SECS: i64 = -8334601315200;

/// Latest representable second (`+262142-12-31T23:59:59Z`).
pub const MAX_UNIX_SECS: i64 = 8210266876799;

pub const NANOS_PER_SEC: u32 = 1_000_000_000;

pub const SECS_PER_MINUTE: i64 = 60;

pub const SECS_PER_HOUR: i64 = 3600;

pub const SECS_PER_DAY: i64 = 86400;

/// A point in time, UTC.
#[derive(Clone, Copy, Debug, PartialEq, Eq, Structural)]
pub struct Timestamp {
    pub secs: i64,
    pub nanos: u32,
}

/// Whether a whole second lies within the representable range.
pub open spec fn secs_in_range(secs: int) -> bool {
    MIN_UNIX_SECS <= secs <= MAX_UNIX_SECS
}

impl Timestamp {
    pub open spec fn wf(self) -> bool {
        &&& secs_in_range(self.secs as int)
        &&& self.nanos < NANOS_PER_SEC
    }

    /// The instant as nanoseconds since the epoch.
    pub open spec fn total_nanos(self) -> int {
        self.secs * 1_000_000_000 + self.nanos
    }

    /// Builds a timestamp from epoch seconds and a nanosecond fraction, if it is
    /// representable.
    pub fn from_unix(secs: i64, nanos: u32) -> (r: Option<Timestamp>)
        ensures
            r is Some <==> (secs_in_range(secs as int) && nanos < NANOS_PER_SEC),
            r matches Some(t) ==> t.secs == secs && t.nanos == nanos && t.wf(),
    {
        if MIN_UNIX_SECS <= secs && secs <= MAX_UNIX_SECS && nanos < NANOS_PER_SEC {
            Some(Timestamp { secs, nanos })
        } else {
            None
        }
    }

    /// Strictly earlier than `other`.
    pub fn is_before(&self, other: &Timestamp) -> (r: bool)
        requires
            self.wf(),
            other.wf(),
        ensures
            r == (self.total_nanos() < other.total_nanos()),
    {
        self.secs < other.secs || (self.secs == other.secs && self.nanos < other.nanos)
    }

    /// Earlier than or equal to `other`.
    pub fn is_at_or_before(&self, other: &Timestamp) -> (r: bool)
        requires
            self.wf(),
            other.wf(),
        ensures
            r == (self.total_nanos() <= other.total_nanos()),
    {
        self.secs < other.secs || (self.secs == other.secs && self.nanos <= other.nanos)
    }

    /// This instant moved back by `secs` whole seconds.
    pub fn minus_secs(&self, secs: i64) -> (r: Timestamp)
        requires
            self.wf(),
            0 <= secs,
            secs_in_range(self.secs - secs),
        ensures
            r.wf(),
            r.secs == self.secs - secs,
            r.nanos == self.nanos,
            r.total_nanos() == self.total_nanos() - secs * 1_000_000_000,
    {
        Timestamp { secs: self.secs - secs, nanos: self.nanos }
    }

    /// This instant moved forward by `secs` whole seconds.
    pub fn plus_secs(&self, secs: i64) -> (r: Timestamp)
        requires
            self.wf(),
            0 <= secs,
            secs_in_range(self.secs + secs),
        ensures
            r.wf(),
            r.secs == self.secs + secs,
            r.nanos == self.nanos,
            r.total_nanos() == self.total_nanos() + secs * 1_000_000_000,
    {
        Timestamp { secs: self.secs + secs, nanos: self.nanos }
    }

    /// Signed nanoseconds elapsed from `earlier` to this instant.
    pub fn nanos_since(&self, earlier: &Timestamp) -> (r: i128)
        requires
            self.wf(),
            earlier.wf(),
        ensures
            r == self.total_nanos() - earlier.total_nanos(),
    {
        let a = self.secs as i128 * 1_000_000_000 + self.nanos as i128;
        let b = earlier.secs as i128 * 1_000_000_000 + earlier.nanos as i128;
        a - b
    }
}

/// Whole seconds of a signed nanosecond span, rounded toward zero.
pub open spec fn whole_secs(nanos: int) -> int {
    if nanos >= 0 {
        nanos / 1_000_000_000
    } else {
        -((-nanos) / 1_000_000_000)
    }
}

impl Timestamp {
    /// Whole seconds elapsed from `earlier` to this instant, rounded toward zero.
    pub fn whole_secs_since(&self, earlier: &Timestamp) -> (r: i64)
        requires
            self.wf(),
            earlier.wf(),
        ensures
            r == whole_secs(self.total_nanos() - earlier.total_nanos()),
    {
        let d = self.nanos_since(earlier);
        if d >= 0 {
            (d / 1_000_000_000) as i64
        } else {
            let m = -d;
            -((m / 1_000_000_000) as i64)
        }
    }
}

/// A sample older than this many seconds is stale.
pub const STALE_AFTER_SECS: i64 = 300;

/// Whether a sample taken at `fetched_at` is more than five minutes old at `now`.
pub fn is_stale(now: &Timestamp, fetched_at: &Timestamp) -> (r: bool)
    requires
        now.wf(),
        fetched_at.wf(),
    ensures
        r == (now.total_nanos() - fetched_at.total_nanos() > STALE_AFTER_SECS * 1_000_000_000),
{
    now.nanos_since(fetched_at) > 300_000_000_000
}

} // verus!
