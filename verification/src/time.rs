use vstd::prelude::*;

verus! {

/// Nanoseconds in one second.
pub const NANOS_PER_SECOND: i64 = 1_000_000_000;

/// A moment in time with the UTC offset it was written in: whole seconds since
/// 1970-01-01T00:00:00Z, the nanoseconds past that second, and the offset east
/// of UTC in seconds.
#[derive(Clone, Copy, Debug)]
pub struct Timestamp {
    pub seconds: i64,
    pub nanos: u32,
    pub offset_seconds: i32,
}

/// Seconds since the epoch of the earliest moment that chrono's `DateTime`
/// holds (`DateTime::MIN_UTC`); the client sends it to say "not completed".
pub const MIN_UTC_SECONDS: i64 = -8_334_601_228_800;

impl Timestamp {
    /// Two timestamps name the same moment when their seconds and nanoseconds
    /// agree; the offset is only the way the moment is written.
    pub open spec fn same_instant(self, other: Timestamp) -> bool {
        self.seconds == other.seconds && self.nanos == other.nanos
    }

    /// Nanoseconds from `earlier` to `self` (negative when `earlier` is later).
    pub open spec fn nanos_since(self, earlier: Timestamp) -> int {
        (self.seconds - earlier.seconds) * NANOS_PER_SECOND + (self.nanos - earlier.nanos)
    }

    /// The earliest moment, written with a zero offset.
    pub open spec fn spec_min_utc() -> Timestamp {
        Timestamp { seconds: MIN_UTC_SECONDS, nanos: 0, offset_seconds: 0 }
    }

    /// The earliest representable moment, written with a zero offset.
    pub fn min_utc() -> (t: Timestamp)
        ensures
            t == Self::spec_min_utc(),
    {
        Timestamp { seconds: MIN_UTC_SECONDS, nanos: 0, offset_seconds: 0 }
    }

    /// Whether the two timestamps name the same moment.
    pub fn is_same_instant(&self, other: &Timestamp) -> (b: bool)
        ensures
            b == self.same_instant(*other),
    {
        self.seconds == other.seconds && self.nanos == other.nanos
    }

    /// Whether less than one second has passed from `earlier` to `self`.
    pub fn within_one_second_of(&self, earlier: &Timestamp) -> (b: bool)
        ensures
            b == (self.nanos_since(*earlier) < NANOS_PER_SECOND),
    {
        let ds: i128 = self.seconds as i128 - earlier.seconds as i128;
        let dn: i128 = self.nanos as i128 - earlier.nanos as i128;
        assert(-0x1_0000_0000_0000_0000i128 <= ds <= 0x1_0000_0000_0000_0000i128);
        assert(ds * 1_000_000_000 <= 0x1_0000_0000_0000_0000i128 * 1_000_000_000) by (nonlinear_arith)
            requires ds <= 0x1_0000_0000_0000_0000i128;
        assert(ds * 1_000_000_000 >= -0x1_0000_0000_0000_0000i128 * 1_000_000_000) by (nonlinear_arith)
            requires ds >= -0x1_0000_0000_0000_0000i128;
        ds * 1_000_000_000 + dn < 1_000_000_000
    }
}

/// The current moment in UTC (`chrono::Utc::now`), written with a zero offset.
/// What the clock says is not stated; that the offset is zero and the
/// nanoseconds stay below one second is what chrono's constructor guarantees
/// for the values it builds from the system clock.
#[verifier::external_body]
pub fn utc_now() -> (t: Timestamp)
    ensures
        t.offset_seconds == 0,
        t.nanos < 1_000_000_000,
{
    let now = chrono::Utc::now();
    Timestamp { seconds: now.timestamp(), nanos: now.timestamp_subsec_nanos(), offset_seconds: 0 }
}

/// The current moment in the machine's time zone (`chrono::Local::now`).
/// Neither the moment nor the offset is stated; the nanoseconds stay below one
/// second, as for `utc_now`.
#[verifier::external_body]
pub fn local_now() -> (t: Timestamp)
    ensures
        t.nanos < 1_000_000_000,
{
    let now = chrono::Local::now();
    Timestamp {
        seconds: now.timestamp(),
        nanos: now.timestamp_subsec_nanos(),
        offset_seconds: chrono::Offset::fix(now.offset()).local_minus_utc(),
    }
}

} // verus!
