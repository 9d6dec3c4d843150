//! Points in time and durations as nanosecond counts, and the two clocks of the system.

use vstd::prelude::*;

verus! {

pub const NANOS_PER_SECOND: u128 = 1_000_000_000;

/// The longest duration of std, and the bound of every time point and duration here.
pub const MAX_NANOS: u128 = 18_446_744_073_709_551_615_999_999_999;

/// The time from one point to another, nothing where the second comes first.
pub open spec fn elapsed(from: u128, to: u128) -> int {
    if to >= from {
        to - from
    } else {
        0
    }
}

pub fn elapsed_nanos(from: u128, to: u128) -> (nanos: u128)
    ensures
        nanos == elapsed(from, to),
{
    if to >= from {
        to - from
    } else {
        0
    }
}

/// A reading of the monotonic clock.
#[verifier::external_type_specification]
#[verifier::external_body]
pub struct ExInstant(std::time::Instant);

/// `Instant::now` of std. Nothing is claimed of the reading.
#[verifier::external_body]
pub(crate) fn monotonic_start() -> (start: std::time::Instant) {
    std::time::Instant::now()
}

/// `Instant::elapsed` of std, in nanoseconds. The contract claims only the range of a std
/// duration.
#[verifier::external_body]
pub(crate) fn nanos_since(start: &std::time::Instant) -> (nanos: u128)
    ensures
        nanos <= MAX_NANOS,
{
    start.elapsed().as_nanos()
}

/// `SystemTime::elapsed` of std, from the Unix epoch, in whole seconds; nothing where the system
/// clock stands before the epoch. No reading is promised.
#[verifier::external_body]
pub(crate) fn unix_seconds() -> (seconds: Option<u64>) {
    std::time::UNIX_EPOCH.elapsed().ok().map(|duration| duration.as_secs())
}

/// The wall clock was read, and this is what it showed.
pub closed spec fn wall_reading(seconds: Option<u64>) -> bool {
    call_ensures(unix_seconds, (), seconds)
}

/// Reads the wall clock.
pub(crate) fn read_wall() -> (seconds: Option<u64>)
    ensures
        wall_reading(seconds),
{
    unix_seconds()
}

/// What two clocks showed, reading by reading.
#[verifier::ext_equal]
pub struct ClockLog {
    pub monotonic: Seq<u128>,
    pub wall: Seq<Option<u64>>,
}

impl ClockLog {
    /// The log with one more reading of the monotonic clock.
    pub open spec fn monotonic_read(self, now: u128) -> ClockLog {
        ClockLog { monotonic: self.monotonic.push(now), wall: self.wall }
    }

    /// The log with one more reading of the wall clock.
    pub open spec fn wall_read(self, seconds: Option<u64>) -> ClockLog {
        ClockLog { monotonic: self.monotonic, wall: self.wall.push(seconds) }
    }
}

/// The monotonic clock since a start, and the wall clock, with everything that was read off them.
pub struct Clock {
    start: std::time::Instant,
    log: Ghost<ClockLog>,
}

impl View for Clock {
    type V = ClockLog;

    closed spec fn view(&self) -> ClockLog {
        self.log@
    }
}

impl Clock {
    /// Every entry of the log is what the clock showed when it was read.
    #[verifier::type_invariant]
    spec fn true_to_the_clocks(self) -> bool {
        &&& forall|i: int|
            0 <= i < self.log@.monotonic.len() ==> call_ensures(
                nanos_since,
                (&self.start,),
                #[trigger] self.log@.monotonic[i],
            )
        &&& forall|i: int|
            0 <= i < self.log@.wall.len() ==> wall_reading(#[trigger] self.log@.wall[i])
    }

    /// A clock that starts now and was not read yet.
    pub fn new() -> (clock: Self)
        ensures
            clock@.monotonic.len() == 0,
            clock@.wall.len() == 0,
    {
        Clock {
            start: monotonic_start(),
            log: Ghost(ClockLog { monotonic: Seq::empty(), wall: Seq::empty() }),
        }
    }

    /// The time since the start.
    pub fn now(&mut self) -> (now: u128)
        ensures
            now <= MAX_NANOS,
            final(self)@ == old(self)@.monotonic_read(now),
    {
        proof {
            use_type_invariant(&*self);
        }
        let now: u128 = nanos_since(&self.start);
        proof {
            self.log@ = self.log@.monotonic_read(now);
        }
        now
    }

    /// The seconds since the Unix epoch, where the wall clock stands behind it.
    pub fn unix_now(&mut self) -> (seconds: Option<u64>)
        ensures
            wall_reading(seconds),
            final(self)@ == old(self)@.wall_read(seconds),
    {
        proof {
            use_type_invariant(&*self);
        }
        let seconds = read_wall();
        proof {
            self.log@ = self.log@.wall_read(seconds);
        }
        seconds
    }
}

} // verus!
