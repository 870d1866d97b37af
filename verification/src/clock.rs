//! The hybrid logical clock.
use std::cmp::Ordering;
use std::time::{Duration, SystemTime, UNIX_EPOCH};
use vstd::prelude::*;

verus! {

/// The platform's wall-clock reading, `std::time::SystemTime`, carried
/// through unread.
#[verifier::external_type_specification]
#[verifier::external_body]
pub struct ExSystemTime(SystemTime);

/// `SystemTime::now` reads the machine's clock; nothing holds of every
/// reading.
pub assume_specification[ SystemTime::now ]() -> SystemTime
;

/// Calls `SystemTime::duration_since` with the UNIX epoch; `None` is a time before
/// the epoch. What comes out rests on the machine's clock, so nothing is claimed
/// of it.
#[verifier::external_body]
fn since_epoch(t: SystemTime) -> (r: Option<Duration>)
{
    t.duration_since(UNIX_EPOCH).ok()
}

/// `Duration::as_millis` gives the whole milliseconds of a duration. A duration is
/// carried through unread, so nothing is claimed of them.
pub assume_specification[ Duration::as_millis ](duration: &Duration) -> u128
;

/// `since` is what measuring from the UNIX epoch to `now` gave.
pub closed spec fn measured(now: SystemTime, since: Option<Duration>) -> bool {
    call_ensures(since_epoch, (now,), since)
}

/// Hybrid logical clock: wall-clock millis with a counter to break ties.
///
/// Of two conflicting gossip writes, the one with the larger clock wins.
#[derive(Clone, Copy, Debug, PartialEq, Eq, Ord, Structural)]
pub struct HybridLogicalClock {
    /// Milliseconds since UNIX epoch.
    pub wall_ms: u64,
    /// Monotonic counter incremented on each event the producing peer emits in
    /// the same millisecond.
    pub counter: u32,
}

/// `a` sorts before `b`: by wall clock, then by counter.
pub open spec fn clock_less(a: HybridLogicalClock, b: HybridLogicalClock) -> bool {
    a.wall_ms < b.wall_ms || (a.wall_ms == b.wall_ms && a.counter < b.counter)
}

/// The later of two clocks.
pub open spec fn clock_max(a: HybridLogicalClock, b: HybridLogicalClock) -> HybridLogicalClock {
    if clock_less(a, b) {
        b
    } else {
        a
    }
}

/// The clock for a reading of the wall clock: zero for a time before the
/// epoch, and the largest value for one past it.
pub open spec fn clock_of_reading(since_epoch_ms: Option<u128>) -> HybridLogicalClock {
    HybridLogicalClock {
        wall_ms: match since_epoch_ms {
            None => 0,
            Some(ms) => if ms > u64::MAX {
                u64::MAX
            } else {
                ms as u64
            },
        },
        counter: 0,
    }
}

/// The last clock there is.
pub open spec fn last_clock() -> HybridLogicalClock {
    HybridLogicalClock { wall_ms: u64::MAX, counter: u32::MAX }
}

/// What `bump_past` makes of a clock that has seen `other`: the clock right after
/// the later of the two. A full counter carries into the milliseconds. Nothing
/// comes after the last clock, which stays.
pub open spec fn clock_bumped(
    clock: HybridLogicalClock,
    other: HybridLogicalClock,
) -> HybridLogicalClock {
    let top = clock_max(clock, other);
    if top == last_clock() {
        top
    } else if top.counter == u32::MAX {
        HybridLogicalClock { wall_ms: (top.wall_ms + 1) as u64, counter: 0 }
    } else {
        HybridLogicalClock { wall_ms: top.wall_ms, counter: (top.counter + 1) as u32 }
    }
}

impl PartialOrd for HybridLogicalClock {
    fn partial_cmp(&self, other: &Self) -> (r: Option<Ordering>) {
        if self.wall_ms < other.wall_ms {
            Some(Ordering::Less)
        } else if self.wall_ms > other.wall_ms {
            Some(Ordering::Greater)
        } else if self.counter < other.counter {
            Some(Ordering::Less)
        } else if self.counter > other.counter {
            Some(Ordering::Greater)
        } else {
            Some(Ordering::Equal)
        }
    }
}

impl vstd::std_specs::cmp::PartialOrdSpecImpl for HybridLogicalClock {
    open spec fn obeys_partial_cmp_spec() -> bool {
        true
    }

    open spec fn partial_cmp_spec(&self, other: &Self) -> Option<Ordering> {
        if clock_less(*self, *other) {
            Some(Ordering::Less)
        } else if clock_less(*other, *self) {
            Some(Ordering::Greater)
        } else {
            Some(Ordering::Equal)
        }
    }
}

impl HybridLogicalClock {
    /// The clock for a reading of the wall clock, in milliseconds since the
    /// UNIX epoch; `None` is a time before it.
    #[must_use]
    pub fn from_reading(since_epoch_ms: Option<u128>) -> (r: Self)
        ensures
            r == clock_of_reading(since_epoch_ms),
    {
        let wall_ms: u64 = match since_epoch_ms {
            None => 0,
            Some(ms) => if ms > u64::MAX as u128 {
                u64::MAX
            } else {
                ms as u64
            },
        };
        HybridLogicalClock { wall_ms, counter: 0 }
    }

    /// Construct a clock for "now".
    ///
    /// On a machine with broken time synchronisation this may go backwards
    /// relative to the last call; the calling code keeps from regressing by
    /// storing the previous clock and bumping past it.
    #[must_use]
    pub fn now() -> (r: Self)
        ensures
            exists|now: SystemTime, since: Option<Duration>| #[trigger]
                call_ensures(SystemTime::now, (), now) && #[trigger] measured(now, since)
                    && match since {
                    Some(duration) => exists|ms: u128| #[trigger]
                        call_ensures(Duration::as_millis, (&duration,), ms) && r
                            == clock_of_reading(Some(ms)),
                    None => r == clock_of_reading(None),
                },
            exists|reading: Option<u128>| r == #[trigger] clock_of_reading(reading),
            r.counter == 0,
    {
        let now = SystemTime::now();
        let since = since_epoch(now);
        assert(measured(now, since));
        let reading = match since {
            Some(duration) => Some(duration.as_millis()),
            None => None,
        };
        Self::from_reading(reading)
    }

    /// Bump this clock past `other`, preserving monotonicity.
    ///
    /// A peer that has received an event stamped `other` calls this before it
    /// produces its own next event, so that the new event sorts after the one
    /// it observed.
    pub fn bump_past(&mut self, other: Self)
        ensures
            *final(self) == clock_bumped(*old(self), other),
    {
        if other > *self {
            *self = other;
        }
        if self.counter < u32::MAX {
            self.counter = self.counter + 1;
        } else if self.wall_ms < u64::MAX {
            self.wall_ms = self.wall_ms + 1;
            self.counter = 0;
        }
    }
}

/// Law: the clock for now shows the reading that was taken of the machine's clock:
/// as many milliseconds as the system time is past the UNIX epoch, up to the
/// largest number there is, or zero for a time before the epoch. It is the first
/// clock of its millisecond.
pub proof fn law_now_shows_the_machine_clock(r: HybridLogicalClock)
    requires
        call_ensures(HybridLogicalClock::now, (), r),
    ensures
        exists|now: SystemTime, since: Option<Duration>| #[trigger]
            call_ensures(SystemTime::now, (), now) && #[trigger] measured(now, since)
                && match since {
                Some(duration) => exists|ms: u128| #[trigger]
                    call_ensures(Duration::as_millis, (&duration,), ms) && (if ms <= u64::MAX {
                        r.wall_ms == ms
                    } else {
                        r.wall_ms == u64::MAX
                    }),
                None => r.wall_ms == 0,
            },
        r.counter == 0,
{
}

/// Law: a reading in milliseconds is shown as it is, up to the largest number there
/// is; a time before the epoch is shown as zero; and later readings never give
/// earlier clocks.
pub proof fn law_reading_is_shown(
    first: Option<u128>,
    a: HybridLogicalClock,
    second: Option<u128>,
    b: HybridLogicalClock,
)
    requires
        call_ensures(HybridLogicalClock::from_reading, (first,), a),
        call_ensures(HybridLogicalClock::from_reading, (second,), b),
    ensures
        first matches Some(ms) ==> a.wall_ms <= ms && (ms <= u64::MAX ==> a.wall_ms == ms),
        first matches Some(ms) ==> (ms > u64::MAX ==> a.wall_ms == u64::MAX),
        first is None ==> a.wall_ms == 0,
        a.counter == 0,
        first matches Some(x) ==> (second matches Some(y) ==> (x <= y ==> a.wall_ms <= b.wall_ms)),
{
}

/// Law: clocks are ordered by their milliseconds, and within one millisecond by
/// their counters.
pub proof fn law_order_is_by_time(a: HybridLogicalClock, b: HybridLogicalClock)
    ensures
        a.wall_ms < b.wall_ms ==> clock_less(a, b) && !clock_less(b, a),
        a.wall_ms == b.wall_ms && a.counter < b.counter ==> clock_less(a, b) && !clock_less(b, a),
        a == b ==> !clock_less(a, b),
{
}

/// Law: comparing two clocks tells which one is later, by the milliseconds first
/// and then by the counter.
pub proof fn law_comparison_tells_the_later(
    a: HybridLogicalClock,
    b: HybridLogicalClock,
    r: Option<Ordering>,
)
    requires
        call_ensures(HybridLogicalClock::partial_cmp, (&a, &b), r),
    ensures
        a.wall_ms < b.wall_ms ==> r == Some(Ordering::Less),
        a.wall_ms > b.wall_ms ==> r == Some(Ordering::Greater),
        a.wall_ms == b.wall_ms && a.counter < b.counter ==> r == Some(Ordering::Less),
        a.wall_ms == b.wall_ms && a.counter > b.counter ==> r == Some(Ordering::Greater),
        a == b ==> r == Some(Ordering::Equal),
{
}

/// Law: clocks count up one by one, milliseconds and counter taken as one number.
/// Bumping a clock past another gives the number right after the larger of the
/// two; only the largest number there is stays as it is.
pub proof fn law_bump_counts_one_up(clock: &mut HybridLogicalClock, other: HybridLogicalClock)
    requires
        call_ensures(HybridLogicalClock::bump_past, (clock, other), ()),
    ensures
        ({
            let before = old(clock).wall_ms * 0x1_0000_0000 + old(clock).counter;
            let seen = other.wall_ms * 0x1_0000_0000 + other.counter;
            let after = final(clock).wall_ms * 0x1_0000_0000 + final(clock).counter;
            let larger = if before < seen {
                seen
            } else {
                before
            };
            if larger < u64::MAX * 0x1_0000_0000 + u32::MAX {
                after == larger + 1
            } else {
                after == larger
            }
        }),
{
}

/// Law: a bumped clock sorts after both the clock it was and the clock it was
/// bumped past, unless one of the two is the last clock there is.
pub proof fn law_bump_advances(clock: HybridLogicalClock, other: HybridLogicalClock)
    requires
        clock != last_clock(),
        other != last_clock(),
    ensures
        clock_less(clock, clock_bumped(clock, other)),
        clock_less(other, clock_bumped(clock, other)),
{
}

/// Law: bumping never takes a clock back, not even the last one.
pub proof fn law_bump_monotone(clock: HybridLogicalClock, other: HybridLogicalClock)
    ensures
        !clock_less(clock_bumped(clock, other), clock),
        !clock_less(clock_bumped(clock, other), other),
{
}

/// Law: of two distinct clocks exactly one is later, so that every conflict
/// has one winner, the same for every peer.
pub proof fn law_one_winner(a: HybridLogicalClock, b: HybridLogicalClock)
    ensures
        !(clock_less(a, b) && clock_less(b, a)),
        a != b <==> clock_less(a, b) || clock_less(b, a),
        clock_max(a, b) == clock_max(b, a),
{
}

/// Law: later than later is later.
pub proof fn law_clock_transitive(
    a: HybridLogicalClock,
    b: HybridLogicalClock,
    c: HybridLogicalClock,
)
    requires
        clock_less(a, b),
        clock_less(b, c),
    ensures
        clock_less(a, c),
{
}

} // verus!
