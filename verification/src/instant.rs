//! Absolute instants with the UTC offset they were recorded under.

use vstd::prelude::*;

verus! {

/// Nanoseconds in one second.
pub const NANOS_PER_SECOND: u32 = 1_000_000_000;

/// Seconds in one day.
pub const SECONDS_PER_DAY: i64 = 86_400;

/// Unix time of `0000-01-01T00:00:00Z`, the first second of the calendar
/// years that a four-digit year can write.
pub const FIRST_CALENDAR_SECOND: i64 = -62_167_219_200;

/// Unix time of `9999-12-31T23:59:59Z`, the last second of those years.
pub const LAST_CALENDAR_SECOND: i64 = 253_402_300_799;

/// Earliest Unix time an `Instant` holds: `0000-01-03T00:00:00Z`. The two
/// days of margin keep the wall clock of every zone inside the four-digit
/// years.
pub const MIN_UNIX_SECONDS: i64 = FIRST_CALENDAR_SECOND + 2 * SECONDS_PER_DAY;

/// Latest Unix time an `Instant` holds: `9999-12-29T23:59:59Z`.
pub const MAX_UNIX_SECONDS: i64 = LAST_CALENDAR_SECOND - 2 * SECONDS_PER_DAY;

/// Largest offset from UTC, in seconds, that an `Instant` carries: 23:59.
pub const MAX_OFFSET_SECONDS: i32 = 86_340;

/// Whether three plain values describe an instant that the ledger can
/// store: a sub-second part below one second, a whole-minute offset of
/// less than a day, and a Unix time within the supported years.
pub open spec fn valid_parts(unix_seconds: int, nanosecond: int, offset_seconds: int) -> bool {
    &&& MIN_UNIX_SECONDS <= unix_seconds <= MAX_UNIX_SECONDS
    &&& 0 <= nanosecond < NANOS_PER_SECOND
    &&& -MAX_OFFSET_SECONDS <= offset_seconds <= MAX_OFFSET_SECONDS
    &&& offset_seconds % 60 == 0
}

/// Whole seconds from `start` to `end`, both given in nanoseconds since
/// the Unix epoch: rounded down, and zero where `end` lies before `start`.
pub open spec fn elapsed_between(start_nanos: int, end_nanos: int) -> int {
    if end_nanos <= start_nanos {
        0
    } else {
        (end_nanos - start_nanos) / (NANOS_PER_SECOND as int)
    }
}

/// A point in time: seconds and nanoseconds since the Unix epoch, together
/// with the offset from UTC under which it is written.
#[derive(Clone, Copy, Debug, PartialEq, Eq, Structural)]
pub struct Instant {
    unix_seconds: i64,
    nanosecond: u32,
    offset_seconds: i32,
}

impl Instant {
    /// Seconds since the Unix epoch, rounded down.
    pub closed spec fn spec_unix_seconds(&self) -> i64 {
        self.unix_seconds
    }

    /// Nanoseconds past the whole second.
    pub closed spec fn spec_nanosecond(&self) -> u32 {
        self.nanosecond
    }

    /// Offset from UTC in seconds, positive to the east.
    pub closed spec fn spec_offset_seconds(&self) -> i32 {
        self.offset_seconds
    }

    /// The instant's parts are within the supported range.
    pub open spec fn wf(&self) -> bool {
        valid_parts(
            self.unix_seconds() as int,
            self.nanosecond() as int,
            self.offset_seconds() as int,
        )
    }

    /// Nanoseconds since the Unix epoch.
    pub open spec fn nanos_since_epoch(&self) -> int {
        self.unix_seconds() * (NANOS_PER_SECOND as int) + self.nanosecond()
    }

    /// The instant with the given parts.
    pub closed spec fn from_parts(unix_seconds: i64, nanosecond: u32, offset_seconds: i32) -> Instant {
        Instant { unix_seconds, nanosecond, offset_seconds }
    }

    /// `from_parts` keeps each part as it was given.
    pub proof fn lemma_from_parts(unix_seconds: i64, nanosecond: u32, offset_seconds: i32)
        ensures
            Instant::from_parts(unix_seconds, nanosecond, offset_seconds).unix_seconds()
                == unix_seconds,
            Instant::from_parts(unix_seconds, nanosecond, offset_seconds).nanosecond()
                == nanosecond,
            Instant::from_parts(unix_seconds, nanosecond, offset_seconds).offset_seconds()
                == offset_seconds,
    {
    }

    /// Two instants with the same parts are the same instant.
    pub proof fn lemma_parts_determine(a: Instant, b: Instant)
        requires
            a.unix_seconds() == b.unix_seconds(),
            a.nanosecond() == b.nanosecond(),
            a.offset_seconds() == b.offset_seconds(),
        ensures
            a == b,
    {
    }

    /// Builds an instant from its parts, or `None` where they are out of
    /// range.
    pub fn new(unix_seconds: i64, nanosecond: u32, offset_seconds: i32) -> (r: Option<Instant>)
        ensures
            r == if valid_parts(unix_seconds as int, nanosecond as int, offset_seconds as int) {
                Some(Instant::from_parts(unix_seconds, nanosecond, offset_seconds))
            } else {
                None
            },
            r matches Some(t) ==> {
                &&& t.wf()
                &&& t.unix_seconds() == unix_seconds
                &&& t.nanosecond() == nanosecond
                &&& t.offset_seconds() == offset_seconds
            },
    {
        if unix_seconds < MIN_UNIX_SECONDS || unix_seconds > MAX_UNIX_SECONDS {
            return None;
        }
        if nanosecond >= NANOS_PER_SECOND {
            return None;
        }
        if offset_seconds < -MAX_OFFSET_SECONDS || offset_seconds > MAX_OFFSET_SECONDS {
            return None;
        }
        if offset_seconds % 60 != 0 {
            return None;
        }
        Some(Instant { unix_seconds, nanosecond, offset_seconds })
    }

    /// Whether the instant's parts are within the supported range.
    pub fn check(&self) -> (r: bool)
        ensures
            r == self.wf(),
    {
        MIN_UNIX_SECONDS <= self.unix_seconds && self.unix_seconds <= MAX_UNIX_SECONDS
            && self.nanosecond < NANOS_PER_SECOND && -MAX_OFFSET_SECONDS <= self.offset_seconds
            && self.offset_seconds <= MAX_OFFSET_SECONDS && self.offset_seconds % 60 == 0
    }

    /// Seconds since the Unix epoch, rounded down.
    #[verifier::when_used_as_spec(spec_unix_seconds)]
    pub fn unix_seconds(&self) -> (r: i64)
        ensures
            r == self.spec_unix_seconds(),
    {
        self.unix_seconds
    }

    /// Nanoseconds past the whole second.
    #[verifier::when_used_as_spec(spec_nanosecond)]
    pub fn nanosecond(&self) -> (r: u32)
        ensures
            r == self.spec_nanosecond(),
    {
        self.nanosecond
    }

    /// Offset from UTC in seconds, positive to the east.
    #[verifier::when_used_as_spec(spec_offset_seconds)]
    pub fn offset_seconds(&self) -> (r: i32)
        ensures
            r == self.spec_offset_seconds(),
    {
        self.offset_seconds
    }

    /// Whether `self` is strictly earlier than `other`, whatever offsets
    /// the two are written under.
    pub fn precedes(&self, other: &Instant) -> (r: bool)
        requires
            self.wf(),
            other.wf(),
        ensures
            r == (self.nanos_since_epoch() < other.nanos_since_epoch()),
    {
        proof {
            lemma_split_seconds(
                other.unix_seconds as int - self.unix_seconds as int,
                other.nanosecond as int - self.nanosecond as int,
            );
            assert(other.nanos_since_epoch() - self.nanos_since_epoch() == (other.unix_seconds
                - self.unix_seconds) * 1_000_000_000 + (other.nanosecond as int
                - self.nanosecond as int)) by (nonlinear_arith)
                requires
                    self.nanos_since_epoch() == self.unix_seconds * 1_000_000_000
                        + self.nanosecond,
                    other.nanos_since_epoch() == other.unix_seconds * 1_000_000_000
                        + other.nanosecond,
            ;
        }
        self.unix_seconds < other.unix_seconds || (self.unix_seconds == other.unix_seconds
            && self.nanosecond < other.nanosecond)
    }

    /// Whole seconds elapsed from `start` to `self`: rounded down, and zero
    /// where `self` lies before `start`, so a clock that stepped back never
    /// yields a negative span.
    pub fn seconds_since(&self, start: &Instant) -> (r: i64)
        requires
            self.wf(),
            start.wf(),
        ensures
            r == elapsed_between(start.nanos_since_epoch(), self.nanos_since_epoch()),
            r >= 0,
    {
        let whole: i64 = self.unix_seconds - start.unix_seconds;
        let seconds: i64 = if self.nanosecond < start.nanosecond {
            whole - 1
        } else {
            whole
        };
        proof {
            lemma_split_seconds(
                whole as int,
                self.nanosecond as int - start.nanosecond as int,
            );
            assert(self.nanos_since_epoch() - start.nanos_since_epoch() == whole
                * 1_000_000_000 + (self.nanosecond as int - start.nanosecond as int))
                by (nonlinear_arith)
                requires
                    whole == self.unix_seconds - start.unix_seconds,
                    self.nanos_since_epoch() == self.unix_seconds * 1_000_000_000
                        + self.nanosecond,
                    start.nanos_since_epoch() == start.unix_seconds * 1_000_000_000
                        + start.nanosecond,
            ;
        }
        if seconds < 0 {
            0
        } else {
            seconds
        }
    }
}

/// Dividing a span of `whole` seconds and `part` nanoseconds by a second
/// gives `whole`, or one less where `part` is negative.
pub proof fn lemma_split_seconds(whole: int, part: int)
    requires
        -1_000_000_000 < part < 1_000_000_000,
    ensures
        (whole * 1_000_000_000 + part) / 1_000_000_000 == if part < 0 {
            whole - 1
        } else {
            whole
        },
        whole * 1_000_000_000 + part <= 0 <==> (whole < 0 || (whole == 0 && part <= 0)),
{
    assert((whole * 1_000_000_000 + part) / 1_000_000_000 == if part < 0 {
        whole - 1
    } else {
        whole
    }) by (nonlinear_arith)
        requires
            -1_000_000_000 < part < 1_000_000_000,
    ;
    assert(whole * 1_000_000_000 + part <= 0 <==> (whole < 0 || (whole == 0 && part <= 0)))
        by (nonlinear_arith)
        requires
            -1_000_000_000 < part < 1_000_000_000,
    ;
}

} // verus!
