//! Time as the scheduler sees it: a monotonic clock and a wall clock, both
//! counted in nanoseconds, and the clocks that produce their readings.

use vstd::prelude::*;
use std::rc::Rc;
use std::time::{Duration, Instant, SystemTime, SystemTimeError};
use vstd::cell::invcell::InvCell;
use vstd::predicate::Predicate;
use vstd::std_specs::ops::{AddSpecImpl, SubSpecImpl};
use crate::duration::{duration_nanos, sat_add, capped_nanos_of};

verus! {

/// A point on the monotonic clock, in nanoseconds since the clock's origin.
#[derive(Clone, Copy, Debug, PartialEq, Eq, Structural, PartialOrd, Ord, Hash)]
pub struct MonoInstant(pub u64);

/// A point on the wall clock, in nanoseconds since the Unix epoch.
#[derive(Clone, Copy, Debug, PartialEq, Eq, Structural, PartialOrd, Ord, Hash)]
pub struct WallInstant(pub u64);

impl MonoInstant {
    /// The origin of the monotonic clock.
    pub fn zero() -> (r: MonoInstant)
        ensures
            r.0 == 0,
    {
        MonoInstant(0)
    }

    pub fn as_nanos(&self) -> (n: u64)
        ensures
            n == self.0,
    {
        self.0
    }

    /// `self + d`, saturating at the end of the representable range.
    pub fn saturating_add(self, d: Duration) -> (r: MonoInstant)
        ensures
            r.0 == sat_add(self.0 as int, duration_nanos(d) as int),
    {
        let n = d.as_nanos();
        if n >= (u64::MAX - self.0) as u128 {
            MonoInstant(u64::MAX)
        } else {
            MonoInstant(self.0 + n as u64)
        }
    }

    /// `self - d`, saturating at the origin.
    pub fn saturating_sub(self, d: Duration) -> (r: MonoInstant)
        ensures
            r.0 == sat_add(self.0 as int, -duration_nanos(d)),
    {
        let n = d.as_nanos();
        if n >= self.0 as u128 {
            MonoInstant(0)
        } else {
            MonoInstant(self.0 - n as u64)
        }
    }

    /// The time elapsed from `earlier` to `self`, or `None` when `earlier` is later.
    pub fn checked_duration_since(&self, earlier: MonoInstant) -> (r: Option<Duration>)
        ensures
            r is Some <==> earlier.0 <= self.0,
            r matches Some(d) ==> duration_nanos(d) == self.0 - earlier.0,
    {
        if earlier.0 <= self.0 {
            Some(Duration::from_nanos(self.0 - earlier.0))
        } else {
            None
        }
    }

    /// The time elapsed from `earlier` to `self`, zero when `earlier` is later.
    pub fn saturating_duration_since(&self, earlier: MonoInstant) -> (r: Duration)
        ensures
            duration_nanos(r) == sat_add(self.0 as int, -earlier.0),
    {
        if earlier.0 <= self.0 {
            Duration::from_nanos(self.0 - earlier.0)
        } else {
            Duration::from_nanos(0)
        }
    }
}

impl core::ops::Add<Duration> for MonoInstant {
    type Output = MonoInstant;

    fn add(self, rhs: Duration) -> (r: MonoInstant) {
        self.saturating_add(rhs)
    }
}

impl AddSpecImpl<Duration> for MonoInstant {
    open spec fn obeys_add_spec() -> bool {
        true
    }

    open spec fn add_req(self, rhs: Duration) -> bool {
        true
    }

    open spec fn add_spec(self, rhs: Duration) -> MonoInstant {
        MonoInstant(sat_add(self.0 as int, duration_nanos(rhs) as int))
    }
}

impl core::ops::Sub<Duration> for MonoInstant {
    type Output = MonoInstant;

    fn sub(self, rhs: Duration) -> (r: MonoInstant) {
        self.saturating_sub(rhs)
    }
}

impl SubSpecImpl<Duration> for MonoInstant {
    open spec fn obeys_sub_spec() -> bool {
        true
    }

    open spec fn sub_req(self, rhs: Duration) -> bool {
        true
    }

    open spec fn sub_spec(self, rhs: Duration) -> MonoInstant {
        MonoInstant(sat_add(self.0 as int, -duration_nanos(rhs)))
    }
}

impl core::ops::Sub<MonoInstant> for MonoInstant {
    type Output = Duration;

    fn sub(self, rhs: MonoInstant) -> (r: Duration)
        ensures
            duration_nanos(r) == sat_add(self.0 as int, -rhs.0),
    {
        self.saturating_duration_since(rhs)
    }
}

impl SubSpecImpl<MonoInstant> for MonoInstant {
    open spec fn obeys_sub_spec() -> bool {
        false
    }

    open spec fn sub_req(self, rhs: MonoInstant) -> bool {
        true
    }

    open spec fn sub_spec(self, rhs: MonoInstant) -> Duration {
        vstd::pervasive::arbitrary()
    }
}

impl WallInstant {
    /// The Unix epoch.
    pub fn unix_epoch() -> (r: WallInstant)
        ensures
            r.0 == 0,
    {
        WallInstant(0)
    }

    pub fn as_nanos(&self) -> (n: u64)
        ensures
            n == self.0,
    {
        self.0
    }

    /// `self + d`, saturating at the end of the representable range.
    pub fn saturating_add(self, d: Duration) -> (r: WallInstant)
        ensures
            r.0 == sat_add(self.0 as int, duration_nanos(d) as int),
    {
        let n = d.as_nanos();
        if n >= (u64::MAX - self.0) as u128 {
            WallInstant(u64::MAX)
        } else {
            WallInstant(self.0 + n as u64)
        }
    }

    /// `self - d`, saturating at the epoch.
    pub fn saturating_sub(self, d: Duration) -> (r: WallInstant)
        ensures
            r.0 == sat_add(self.0 as int, -duration_nanos(d)),
    {
        let n = d.as_nanos();
        if n >= self.0 as u128 {
            WallInstant(0)
        } else {
            WallInstant(self.0 - n as u64)
        }
    }

    /// The wall time elapsed from `earlier` to `self`, or `None` when the wall
    /// clock reads earlier than `earlier` (for instance after a step back).
    pub fn checked_duration_since(&self, earlier: WallInstant) -> (r: Option<Duration>)
        ensures
            r is Some <==> earlier.0 <= self.0,
            r matches Some(d) ==> duration_nanos(d) == self.0 - earlier.0,
    {
        if earlier.0 <= self.0 {
            Some(Duration::from_nanos(self.0 - earlier.0))
        } else {
            None
        }
    }
}

impl core::ops::Add<Duration> for WallInstant {
    type Output = WallInstant;

    fn add(self, rhs: Duration) -> (r: WallInstant) {
        self.saturating_add(rhs)
    }
}

impl AddSpecImpl<Duration> for WallInstant {
    open spec fn obeys_add_spec() -> bool {
        true
    }

    open spec fn add_req(self, rhs: Duration) -> bool {
        true
    }

    open spec fn add_spec(self, rhs: Duration) -> WallInstant {
        WallInstant(sat_add(self.0 as int, duration_nanos(rhs) as int))
    }
}

impl core::ops::Sub<Duration> for WallInstant {
    type Output = WallInstant;

    fn sub(self, rhs: Duration) -> (r: WallInstant) {
        self.saturating_sub(rhs)
    }
}

impl SubSpecImpl<Duration> for WallInstant {
    open spec fn obeys_sub_spec() -> bool {
        true
    }

    open spec fn sub_req(self, rhs: Duration) -> bool {
        true
    }

    open spec fn sub_spec(self, rhs: Duration) -> WallInstant {
        WallInstant(sat_add(self.0 as int, -duration_nanos(rhs)))
    }
}

/// A source of time readings. The monotonic reading never runs backwards in
/// a real clock; the wall reading may jump in either direction.
pub trait Clock {
    fn monotonic_now(&self) -> MonoInstant;

    fn wall_now(&self) -> WallInstant;
}

impl<C: Clock> Clock for Rc<C> {
    fn monotonic_now(&self) -> MonoInstant {
        (**self).monotonic_now()
    }

    fn wall_now(&self) -> WallInstant {
        (**self).wall_now()
    }
}

/// The two readings of a simulated clock.
#[derive(Clone, Copy, Debug, PartialEq, Eq, Structural)]
pub struct SimTime {
    pub mono: u64,
    pub wall: u64,
}

impl SimTime {
    /// Both clocks moved forward by `d`, saturating.
    pub open spec fn advanced_by(self, d: int) -> SimTime {
        SimTime { mono: sat_add(self.mono as int, d), wall: sat_add(self.wall as int, d) }
    }

    /// The wall clock stepped by `delta`, saturating at the epoch; the
    /// monotonic clock is untouched.
    pub open spec fn wall_jumped_by(self, delta: int) -> SimTime {
        SimTime { mono: self.mono, wall: sat_add(self.wall as int, delta) }
    }

    pub fn advance(self, d: Duration) -> (r: SimTime)
        ensures
            r == self.advanced_by(duration_nanos(d) as int),
    {
        let m = MonoInstant(self.mono).saturating_add(d);
        let w = WallInstant(self.wall).saturating_add(d);
        SimTime { mono: m.0, wall: w.0 }
    }

    pub fn jump_wall(self, delta_nanos: i64) -> (r: SimTime)
        ensures
            r == self.wall_jumped_by(delta_nanos as int),
    {
        let wall = if delta_nanos >= 0 {
            let up = delta_nanos as u64;
            if up >= u64::MAX - self.wall {
                u64::MAX
            } else {
                self.wall + up
            }
        } else {
            let down: u64 = if delta_nanos == i64::MIN {
                0x8000_0000_0000_0000u64
            } else {
                (-delta_nanos) as u64
            };
            if down >= self.wall {
                0
            } else {
                self.wall - down
            }
        };
        SimTime { mono: self.mono, wall }
    }
}

/// The predicate of the simulated clock's cell: every reading is allowed.
pub struct AnySimTime;

impl Predicate<SimTime> for AnySimTime {
    open spec fn predicate(&self, v: SimTime) -> bool {
        true
    }
}

/// A deterministic clock for tests: it moves only when told to. Shared
/// through `Rc`, it can be advanced while a scheduler holds it.
pub struct SimClock {
    time: InvCell<SimTime, AnySimTime>,
}

impl SimClock {
    /// A simulated clock whose two readings start at zero.
    pub fn new() -> Self {
        SimClock { time: InvCell::new(SimTime { mono: 0, wall: 0 }, Ghost(AnySimTime)) }
    }

    /// Moves both clocks forward by `d`.
    pub fn advance(&self, d: Duration) {
        let t = self.time.get();
        self.time.set(t.advance(d));
    }

    /// Steps the wall clock by `delta_nanos` (an NTP correction, a suspend);
    /// the monotonic clock does not move.
    pub fn jump_wall_clock(&self, delta_nanos: i64) {
        let t = self.time.get();
        self.time.set(t.jump_wall(delta_nanos));
    }

    /// Both readings at once.
    pub fn now(&self) -> SimTime {
        self.time.get()
    }
}

impl Clock for SimClock {
    fn monotonic_now(&self) -> MonoInstant {
        MonoInstant(self.time.get().mono)
    }

    fn wall_now(&self) -> WallInstant {
        WallInstant(self.time.get().wall)
    }
}

#[verifier::external_type_specification]
#[verifier::external_body]
pub struct ExInstant(Instant);

#[verifier::external_type_specification]
#[verifier::external_body]
pub struct ExSystemTime(SystemTime);

#[verifier::external_type_specification]
#[verifier::external_body]
pub struct ExSystemTimeError(SystemTimeError);

/// `Instant::now`: the current reading of the operating system's monotonic
/// clock. Nothing is promised of it.
#[verifier::external_body]
fn instant_now() -> Instant {
    Instant::now()
}

/// `Instant::elapsed`: the time since `origin` on the monotonic clock. Its
/// value depends on when it is called; nothing is promised of it.
#[verifier::external_body]
fn instant_elapsed(origin: &Instant) -> Duration {
    origin.elapsed()
}

/// `SystemTime::now`: the current reading of the wall clock. Nothing is
/// promised of it.
#[verifier::external_body]
pub(crate) fn system_time_now() -> SystemTime {
    SystemTime::now()
}

/// `SystemTime::checked_add` on `UNIX_EPOCH`: the wall-clock point `d`
/// after the Unix epoch, or `None` when the platform's `SystemTime` cannot
/// represent it. `SystemTime` is opaque here: nothing is promised of the value.
#[verifier::external_body]
pub(crate) fn system_time_after_epoch(d: Duration) -> Option<SystemTime> {
    std::time::UNIX_EPOCH.checked_add(d)
}

/// `SystemTime::duration_since(UNIX_EPOCH)`: the wall time since the Unix
/// epoch, or an error when the wall clock reads before the epoch. Nothing is
/// promised of the value.
#[verifier::external_body]
pub(crate) fn since_unix_epoch(t: SystemTime) -> Result<Duration, SystemTimeError> {
    t.duration_since(std::time::UNIX_EPOCH)
}

/// The monotonic reading of a `RealClock` at the moment it is created:
/// 2^62 nanoseconds (about 146 years), far from zero, as an `Instant` stands
/// far from the origin of the operating system's clock. A window that
/// reaches back before the clock was created is thus not cut short.
pub const REAL_CLOCK_ORIGIN_NANOS: u64 = 0x4000_0000_0000_0000;

/// The operating system's clocks. The monotonic reading counts from
/// `REAL_CLOCK_ORIGIN_NANOS` at the moment the clock was created; the wall
/// reading from the Unix epoch.
pub struct RealClock {
    origin: Instant,
}

impl RealClock {
    pub fn new() -> Self {
        RealClock { origin: instant_now() }
    }
}

impl Clock for RealClock {
    fn monotonic_now(&self) -> MonoInstant {
        MonoInstant(REAL_CLOCK_ORIGIN_NANOS).saturating_add(instant_elapsed(&self.origin))
    }

    fn wall_now(&self) -> WallInstant {
        wall_clock_now()
    }
}

/// The operating system's wall clock, in nanoseconds since the Unix epoch:
/// the epoch itself when the clock reads before it, `u64::MAX` when it reads
/// past what 64 bits of nanoseconds hold.
pub fn wall_clock_now() -> WallInstant {
    match since_unix_epoch(system_time_now()) {
        Ok(d) => WallInstant(capped_nanos_of(d)),
        Err(_) => WallInstant(0),
    }
}

/// A pair of simultaneous readings of the two clocks, used to translate a
/// point on one clock into the corresponding point on the other.
#[derive(Clone, Copy, Debug, PartialEq, Eq, Structural)]
pub struct TimeReference {
    pub mono: MonoInstant,
    pub wall: WallInstant,
}

impl TimeReference {
    /// The wall point that corresponds to `mono`: `wall + (mono - self.mono)`,
    /// saturating at both ends of the range.
    pub open spec fn mono_to_wall_spec(self, mono: u64) -> u64 {
        sat_add(self.wall.0 as int, mono - self.mono.0)
    }

    /// The monotonic point that corresponds to `wall`: `mono + (wall - self.wall)`,
    /// saturating at both ends of the range.
    pub open spec fn wall_to_mono_spec(self, wall: u64) -> u64 {
        sat_add(self.mono.0 as int, wall - self.wall.0)
    }

    /// Reads both clocks of `clock`.
    pub fn capture<C: Clock>(clock: &C) -> (r: TimeReference)
    {
        let mono = clock.monotonic_now();
        let wall = clock.wall_now();
        TimeReference { mono, wall }
    }

    pub fn mono_to_wall(&self, mono: MonoInstant) -> (r: WallInstant)
        ensures
            r.0 == self.mono_to_wall_spec(mono.0),
    {
        if mono.0 >= self.mono.0 {
            let ahead = mono.0 - self.mono.0;
            if ahead >= u64::MAX - self.wall.0 {
                WallInstant(u64::MAX)
            } else {
                WallInstant(self.wall.0 + ahead)
            }
        } else {
            let behind = self.mono.0 - mono.0;
            if behind >= self.wall.0 {
                WallInstant(0)
            } else {
                WallInstant(self.wall.0 - behind)
            }
        }
    }

    pub fn wall_to_mono(&self, wall: WallInstant) -> (r: MonoInstant)
        ensures
            r.0 == self.wall_to_mono_spec(wall.0),
    {
        if wall.0 >= self.wall.0 {
            let ahead = wall.0 - self.wall.0;
            if ahead >= u64::MAX - self.mono.0 {
                MonoInstant(u64::MAX)
            } else {
                MonoInstant(self.mono.0 + ahead)
            }
        } else {
            let behind = self.wall.0 - wall.0;
            if behind >= self.mono.0 {
                MonoInstant(0)
            } else {
                MonoInstant(self.mono.0 - behind)
            }
        }
    }
}

/// Translating a monotonic point to the wall clock and back gives the point
/// again, as long as the wall point stays within the representable range.
pub proof fn lemma_mono_wall_round_trip(r: TimeReference, mono: u64)
    requires
        0 <= r.wall.0 + (mono - r.mono.0) <= u64::MAX,
    ensures
        r.wall_to_mono_spec(r.mono_to_wall_spec(mono)) == mono,
{
}

/// Translating a wall point to the monotonic clock and back gives the point
/// again, as long as the monotonic point stays within the representable range.
pub proof fn lemma_wall_mono_round_trip(r: TimeReference, wall: u64)
    requires
        0 <= r.mono.0 + (wall - r.wall.0) <= u64::MAX,
    ensures
        r.mono_to_wall_spec(r.wall_to_mono_spec(wall)) == wall,
{
}

/// Advancing a simulated clock twice moves it as far as advancing once by
/// the sum, while neither reading reaches the end of the range.
pub proof fn lemma_advance_cumulative(t: SimTime, a: nat, b: nat)
    requires
        t.wall + a + b <= u64::MAX,
        t.mono + a + b <= u64::MAX,
    ensures
        t.advanced_by(a as int).advanced_by(b as int) == t.advanced_by((a + b) as int),
{
}

/// A wall-clock jump never moves the monotonic clock.
pub proof fn lemma_wall_jump_keeps_mono(t: SimTime, delta: int)
    ensures
        t.wall_jumped_by(delta).mono == t.mono,
{
}

} // verus!
