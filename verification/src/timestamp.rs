//! Wall-clock instants, and their derivation from monotonic clock readings.
//!
//! Instants are UTC date-times of the `chrono` crate, held as whole seconds
//! since the Unix epoch and nanoseconds within the second. None of them lies
//! within a leap second: the clock never reports one, and arithmetic on other
//! instants never reaches one.

use crate::arith::{fits_i64, trunc_div};
use vstd::prelude::*;

verus! {

/// Seconds of the earliest instant, the start of year -262143.
pub const MIN_SECS: i64 = -8_334_601_228_800;

/// Seconds of the latest instant, the end of year 262142.
pub const MAX_SECS: i64 = 8_210_266_876_799;

/// Nanoseconds of `secs` seconds and `nanos` nanoseconds.
pub open spec fn total_ns(secs: int, nanos: int) -> int {
    secs * 1_000_000_000 + nanos
}

/// Whether an instant, in nanoseconds since the epoch, can be represented.
pub open spec fn is_instant(ns: int) -> bool {
    MIN_SECS * 1_000_000_000 <= ns < (MAX_SECS + 1) * 1_000_000_000
}

/// The instant `age` nanoseconds before `now`, if it can be represented.
pub open spec fn instant_before(now: int, age: int) -> Option<int> {
    if is_instant(now - age) {
        Some(now - age)
    } else {
        None
    }
}

/// Whole microseconds from `earlier` to `later`, rounded toward zero, if an
/// `i64` can hold them.
pub open spec fn micros_between(later: int, earlier: int) -> Option<i64> {
    let micros = trunc_div(later - earlier, 1000);
    if fits_i64(micros) {
        Some(micros as i64)
    } else {
        None
    }
}

/// The digit `n` as a character.
pub open spec fn digit(n: int) -> char {
    (n + 48) as char
}

/// Two decimal digits of `n`.
pub open spec fn two_digits(n: int) -> Seq<char> {
    seq![digit(n / 10), digit(n % 10)]
}

/// `HH:MM:SS.ffffff` of an instant, in UTC, cut to whole microseconds.
pub open spec fn time_of_day_text(ns: int) -> Seq<char> {
    let s = (ns / 1_000_000_000) % 86_400;
    let us = (ns % 1_000_000_000) / 1000;
    two_digits(s / 3600) + seq![':'] + two_digits((s / 60) % 60) + seq![':'] + two_digits(s % 60)
        + seq!['.'] + two_digits(us / 10_000) + two_digits((us / 100) % 100) + two_digits(us % 100)
}

/// Calls `chrono::Utc::now`, whose result rests on the system clock: a
/// representable instant, not before the epoch and outside any leap second.
/// The call panics where the system clock stands before the epoch or past the
/// latest instant.
#[verifier::external_body]
fn chrono_now() -> (r: (i64, u32))
    ensures
        0 <= r.0 <= MAX_SECS,
        r.1 < 1_000_000_000,
{
    let now = chrono::Utc::now();
    (now.timestamp(), now.timestamp_subsec_nanos())
}

/// Whether `ns` is an instant that a call of `chrono::Utc::now` gave.
pub closed spec fn is_clock_reading(ns: int) -> bool {
    exists|r: (i64, u32)|
        #[trigger] call_ensures(chrono_now, (), r) && ns == total_ns(r.0 as int, r.1 as int)
}

/// Calls `chrono::DateTime::checked_sub_signed` on a UTC date-time outside any
/// leap second, with a `chrono::Duration::nanoseconds`: the instant that many
/// nanoseconds earlier, or `None` where that instant cannot be represented.
#[verifier::external_body]
fn chrono_checked_sub(secs: i64, nanos: u32, ns: i64) -> (r: Option<(i64, u32)>)
    requires
        MIN_SECS <= secs <= MAX_SECS,
        nanos < 1_000_000_000,
    ensures
        r is Some <==> is_instant(total_ns(secs as int, nanos as int) - ns),
        r matches Some(t) ==> {
            &&& t.1 < 1_000_000_000
            &&& total_ns(t.0 as int, t.1 as int) == total_ns(secs as int, nanos as int) - ns
        },
{
    let t = chrono::DateTime::from_timestamp(secs, nanos).unwrap();
    match t.checked_sub_signed(chrono::Duration::nanoseconds(ns)) {
        Some(r) => Some((r.timestamp(), r.timestamp_subsec_nanos())),
        None => None,
    }
}

/// Calls `chrono::DateTime::signed_duration_since` on two UTC date-times
/// outside any leap second, and `chrono::Duration::num_microseconds` on the
/// duration: the whole microseconds from the second instant to the first,
/// rounded toward zero, or `None` where an `i64` cannot hold them.
#[verifier::external_body]
fn chrono_microseconds_since(secs: i64, nanos: u32, from_secs: i64, from_nanos: u32) -> (r: Option<
    i64,
>)
    requires
        MIN_SECS <= secs <= MAX_SECS,
        nanos < 1_000_000_000,
        MIN_SECS <= from_secs <= MAX_SECS,
        from_nanos < 1_000_000_000,
    ensures
        r == micros_between(
            total_ns(secs as int, nanos as int),
            total_ns(from_secs as int, from_nanos as int),
        ),
{
    let to = chrono::DateTime::from_timestamp(secs, nanos).unwrap();
    let from = chrono::DateTime::from_timestamp(from_secs, from_nanos).unwrap();
    to.signed_duration_since(from).num_microseconds()
}

/// Calls `chrono::DateTime::format` with `%H:%M:%S%.6f` on a UTC date-time
/// outside any leap second: hour, minute and second of the day in two digits
/// each, and the microseconds in six.
#[verifier::external_body]
fn chrono_format_time(secs: i64, nanos: u32) -> (s: String)
    requires
        MIN_SECS <= secs <= MAX_SECS,
        nanos < 1_000_000_000,
    ensures
        s@ == time_of_day_text(total_ns(secs as int, nanos as int)),
{
    chrono::DateTime::from_timestamp(secs, nanos).unwrap().format("%H:%M:%S%.6f").to_string()
}

/// An instant of the UTC wall clock. Its view is the number of nanoseconds
/// since the Unix epoch.
#[derive(Clone, Copy, Debug, PartialEq, Eq, Structural)]
pub struct Timestamp {
    secs: i64,
    nanos: u32,
}

impl View for Timestamp {
    type V = int;

    closed spec fn view(&self) -> int {
        total_ns(self.secs as int, self.nanos as int)
    }
}

/// The view of an optional instant.
pub open spec fn instant_of(t: Option<Timestamp>) -> Option<int> {
    match t {
        Some(t) => Some(t@),
        None => None,
    }
}

impl Timestamp {
    #[verifier::type_invariant]
    spec fn well_formed(self) -> bool {
        &&& MIN_SECS <= self.secs <= MAX_SECS
        &&& self.nanos < 1_000_000_000
    }

    /// The instant `nanos` nanoseconds after second `secs` since the epoch.
    pub fn new(secs: i64, nanos: u32) -> (r: Option<Timestamp>)
        ensures
            r is Some <==> MIN_SECS <= secs <= MAX_SECS && nanos < 1_000_000_000,
            r matches Some(t) ==> t@ == total_ns(secs as int, nanos as int),
            r matches Some(t) ==> t@ == secs * 1_000_000_000 + nanos,
    {
        if MIN_SECS <= secs && secs <= MAX_SECS && nanos < 1_000_000_000 {
            Some(Timestamp { secs, nanos })
        } else {
            None
        }
    }

    /// Whole seconds since the epoch, rounded down.
    pub fn secs(&self) -> (r: i64)
        ensures
            r == self@ / 1_000_000_000,
            is_instant(self@),
    {
        proof {
            use_type_invariant(self);
        }
        self.secs
    }

    /// Nanoseconds since the start of the second.
    pub fn nanos(&self) -> (r: u32)
        ensures
            r == self@ % 1_000_000_000,
            is_instant(self@),
    {
        proof {
            use_type_invariant(self);
        }
        self.nanos
    }

    /// The current time: a reading of the system clock, of which only the range
    /// is known.
    pub fn now() -> (t: Timestamp)
        ensures
            is_clock_reading(t@),
            0 <= t@,
            is_instant(t@),
    {
        let reading: (i64, u32) = chrono_now();
        proof {
            assert(call_ensures(chrono_now, (), reading));
        }
        Timestamp { secs: reading.0, nanos: reading.1 }
    }

    /// The instant `ns` nanoseconds earlier, or `None` where it cannot be
    /// represented.
    pub fn minus_nanoseconds(&self, ns: i64) -> (r: Option<Timestamp>)
        ensures
            is_instant(self@),
            instant_of(r) == instant_before(self@, ns as int),
            r matches Some(t) ==> t@ == self@ - ns,
    {
        proof {
            use_type_invariant(self);
        }
        match chrono_checked_sub(self.secs, self.nanos, ns) {
            Some((secs, nanos)) => Some(Timestamp { secs, nanos }),
            None => None,
        }
    }

    /// Whole microseconds since `earlier`, rounded toward zero, or `None`
    /// where they do not fit.
    pub fn microseconds_since(&self, earlier: &Timestamp) -> (r: Option<i64>)
        ensures
            is_instant(self@),
            is_instant(earlier@),
            r == micros_between(self@, earlier@),
            r matches Some(us) ==> {
                &&& self@ >= earlier@ ==> 1000 * us <= self@ - earlier@ < 1000 * us + 1000
                &&& self@ <= earlier@ ==> 1000 * us - 1000 < self@ - earlier@ <= 1000 * us
            },
    {
        proof {
            use_type_invariant(self);
            use_type_invariant(earlier);
        }
        chrono_microseconds_since(self.secs, self.nanos, earlier.secs, earlier.nanos)
    }

    /// `HH:MM:SS.ffffff` of this instant.
    pub fn time_of_day(&self) -> (s: String)
        ensures
            s@ == time_of_day_text(self@),
    {
        proof {
            use_type_invariant(self);
        }
        chrono_format_time(self.secs, self.nanos)
    }
}

/// A reading of the monotonic clock: whole seconds and nanoseconds.
#[derive(Clone, Copy, Debug, PartialEq, Eq, Structural)]
pub struct MonoTime {
    pub tv_sec: i64,
    pub tv_nsec: i64,
}

impl MonoTime {
    /// Nanoseconds from the clock's origin.
    pub open spec fn ns(self) -> int {
        total_ns(self.tv_sec as int, self.tv_nsec as int)
    }

    /// Nanoseconds from `mono_ns` to this reading, if `i64` arithmetic reaches
    /// them: seconds to nanoseconds, the reading as a whole, the difference.
    pub open spec fn age_of(self, mono_ns: i64) -> Option<i64> {
        if fits_i64(self.tv_sec * 1_000_000_000) && fits_i64(self.ns()) && fits_i64(
            self.ns() - mono_ns,
        ) {
            Some((self.ns() - mono_ns) as i64)
        } else {
            None
        }
    }

    /// Age, at this reading, of an event at `mono_ns`, in nanoseconds.
    pub fn age_ns(&self, mono_ns: i64) -> (r: Option<i64>)
        ensures
            r == self.age_of(mono_ns),
            r matches Some(age) ==> age == self.tv_sec * 1_000_000_000 + self.tv_nsec - mono_ns,
    {
        let whole: i64 = self.tv_sec.checked_mul(1_000_000_000)?;
        let now: i64 = whole.checked_add(self.tv_nsec)?;
        now.checked_sub(mono_ns)
    }

    /// Age, at this reading, of a SYNC pulse at `sync_ns`, in whole
    /// microseconds rounded toward zero.
    pub fn sync_age_us(&self, sync_ns: i64) -> (r: Option<i64>)
        ensures
            r == (match self.age_of(sync_ns) {
                Some(age) => Some(trunc_div(age as int, 1000) as i64),
                None => None,
            }),
            r matches Some(us) ==> us == trunc_div(self.ns() - sync_ns, 1000),
            r matches Some(us) ==> {
                let age = self.tv_sec * 1_000_000_000 + self.tv_nsec - sync_ns;
                &&& age >= 0 ==> 1000 * us <= age < 1000 * us + 1000
                &&& age <= 0 ==> 1000 * us - 1000 < age <= 1000 * us
            },
    {
        match self.age_ns(sync_ns) {
            Some(age) => Some(age / 1000),
            None => None,
        }
    }
}

/// The wall-clock instant of an event at `mono_ns`, where the two clocks read
/// `mono_now` and `now` at the same moment.
pub open spec fn wall_clock_of(mono_ns: i64, mono_now: MonoTime, now: int) -> Option<int> {
    match mono_now.age_of(mono_ns) {
        Some(age) => instant_before(now, age as int),
        None => None,
    }
}

/// Convert a `CLOCK_MONOTONIC` nanosecond timestamp to UTC, given readings of
/// both clocks at the same moment.
pub fn mono_ns_to_utc_at(mono_ns: i64, mono_now: &MonoTime, now: &Timestamp) -> (r: Option<
    Timestamp,
>)
    ensures
        instant_of(r) == wall_clock_of(mono_ns, *mono_now, now@),
        r matches Some(t) ==> t@ == now@ - (mono_now.tv_sec * 1_000_000_000 + mono_now.tv_nsec
            - mono_ns),
{
    match mono_now.age_ns(mono_ns) {
        Some(age) => now.minus_nanoseconds(age),
        None => None,
    }
}

/// Convert a `CLOCK_MONOTONIC` nanosecond timestamp to UTC, given a reading of
/// that clock. The wall clock is read here.
///
/// `None` where the arithmetic overflows or the instant cannot be represented;
/// an event that is not in the future, and whose age fits, always has one.
pub fn mono_ns_to_utc(mono_ns: i64, mono_now: &MonoTime) -> (r: Option<Timestamp>)
    ensures
        exists|now: int|
            0 <= now && is_instant(now) && #[trigger] is_clock_reading(now) && instant_of(r)
                == wall_clock_of(
                mono_ns,
                *mono_now,
                now,
            ),
        r matches Some(t) ==> exists|now: int|
            #[trigger] is_clock_reading(now) && t@ == now - (mono_now.tv_sec * 1_000_000_000
                + mono_now.tv_nsec - mono_ns),
        mono_now.age_of(mono_ns) is None ==> r is None,
        mono_now.age_of(mono_ns) matches Some(age) ==> age >= 0 ==> r is Some,
{
    let now: Timestamp = Timestamp::now();
    mono_ns_to_utc_at(mono_ns, mono_now, &now)
}

/// Events converted under the same clock readings keep their spacing.
pub proof fn law_spacing_is_kept(first: i64, second: i64, mono_now: MonoTime, now: int)
    requires
        wall_clock_of(first, mono_now, now) is Some,
        wall_clock_of(second, mono_now, now) is Some,
    ensures
        wall_clock_of(second, mono_now, now)->0 - wall_clock_of(first, mono_now, now)->0 == second
            - first,
{
}

/// An event of this very moment is given the wall clock's reading, and one
/// `age` nanoseconds old lies `age` before it.
pub proof fn law_age_is_kept(mono_ns: i64, mono_now: MonoTime, now: int)
    requires
        wall_clock_of(mono_ns, mono_now, now) is Some,
    ensures
        now - wall_clock_of(mono_ns, mono_now, now)->0 == mono_now.ns() - mono_ns,
        mono_now.ns() == mono_ns ==> wall_clock_of(mono_ns, mono_now, now)->0 == now,
{
}

/// The latency measured at the instant of conversion is the event's age in
/// whole microseconds: it never overflows.
pub proof fn law_latency_is_age(mono_ns: i64, mono_now: MonoTime, now: int)
    requires
        wall_clock_of(mono_ns, mono_now, now) is Some,
    ensures
        micros_between(now, wall_clock_of(mono_ns, mono_now, now)->0) == Some(
            trunc_div(mono_now.ns() - mono_ns, 1000) as i64,
        ),
{
}

/// An event at `mono_ns`, where the monotonic clock reads `tv_sec` seconds and
/// `tv_nsec` nanoseconds and the wall clock `now`, is given the instant that
/// lies before `now` by the whole of the reading less `mono_ns`. It has one
/// exactly where `i64` arithmetic reaches that age and a date-time can hold the
/// instant.
pub proof fn law_stamp_of_an_event(tv_sec: i64, tv_nsec: i64, mono_ns: i64, now: int)
    ensures
        ({
            let stamp = wall_clock_of(mono_ns, MonoTime { tv_sec, tv_nsec }, now);
            let whole = tv_sec * 1_000_000_000;
            let age = tv_sec * 1_000_000_000 + tv_nsec - mono_ns;
            let min = -9_223_372_036_854_775_808int;
            let max = 9_223_372_036_854_775_807int;
            &&& stamp matches Some(t) ==> t == now - age
            &&& stamp is Some <==> {
                &&& min <= whole <= max
                &&& min <= whole + tv_nsec <= max
                &&& min <= age <= max
                &&& -8_334_601_228_800_000_000_000 <= now - age
                &&& now - age < 8_210_266_876_800_000_000_000
            }
        }),
{
}

/// Of two readings of the monotonic clock, the later one puts an event further
/// back, by as much as it is later: seconds and nanoseconds both count.
pub proof fn law_later_reading_stamps_earlier(
    first: MonoTime,
    second: MonoTime,
    mono_ns: i64,
    now: int,
)
    requires
        wall_clock_of(mono_ns, first, now) is Some,
        wall_clock_of(mono_ns, second, now) is Some,
    ensures
        wall_clock_of(mono_ns, first, now)->0 - wall_clock_of(mono_ns, second, now)->0 == (
        second.tv_sec - first.tv_sec) * 1_000_000_000 + (second.tv_nsec - first.tv_nsec),
{
}

/// An age is the reading less the time of the event, wherever `i64` arithmetic
/// reaches it.
pub proof fn law_age_of_an_event(tv_sec: i64, tv_nsec: i64, mono_ns: i64)
    ensures
        ({
            let age = MonoTime { tv_sec, tv_nsec }.age_of(mono_ns);
            let whole = tv_sec * 1_000_000_000;
            let min = -9_223_372_036_854_775_808int;
            let max = 9_223_372_036_854_775_807int;
            &&& age matches Some(a) ==> a == tv_sec * 1_000_000_000 + tv_nsec - mono_ns
            &&& age is Some <==> {
                &&& min <= whole <= max
                &&& min <= whole + tv_nsec <= max
                &&& min <= whole + tv_nsec - mono_ns <= max
            }
            &&& MonoTime { tv_sec, tv_nsec }.ns() == tv_sec * 1_000_000_000 + tv_nsec
        }),
{
}

/// Whole microseconds leave less than a microsecond over, on the side of zero,
/// and are there exactly where 64 bits hold them.
pub proof fn law_whole_microseconds(later: int, earlier: int)
    ensures
        ({
            let d = later - earlier;
            let micros = micros_between(later, earlier);
            &&& micros matches Some(us) ==> {
                &&& d >= 0 ==> 1000 * us <= d < 1000 * us + 1000
                &&& d <= 0 ==> 1000 * us - 1000 < d <= 1000 * us
            }
            &&& micros is Some <==> -9_223_372_036_854_775_809_000 < d
                < 9_223_372_036_854_775_808_000
        }),
{
}

/// Moving an instant back moves it by exactly that much, within the years that
/// can be represented.
pub proof fn law_instants_move_by_the_age(now: int, age: int)
    ensures
        instant_before(now, age) matches Some(t) ==> t + age == now,
        instant_before(now, age) is Some <==> -8_334_601_228_800_000_000_000 <= now - age
            < 8_210_266_876_800_000_000_000,
        is_instant(now) <==> -8_334_601_228_800_000_000_000 <= now
            < 8_210_266_876_800_000_000_000,
{
}

/// Seconds and nanoseconds add up to nanoseconds, and an optional instant has
/// the view of the instant in it.
pub proof fn law_instant_views(secs: int, nanos: int, t: Timestamp)
    ensures
        total_ns(secs, nanos) == secs * 1_000_000_000 + nanos,
        instant_of(Some(t)) == Some(t@),
        instant_of(None) is None,
{
}

/// A clock reading is what a call of the clock gave, to the nanosecond.
proof fn law_clock_readings(ns: int)
    ensures
        is_clock_reading(ns) <==> exists|r: (i64, u32)|
            #[trigger] call_ensures(chrono_now, (), r) && ns == r.0 * 1_000_000_000 + r.1,
{
    if is_clock_reading(ns) {
        let r = choose|r: (i64, u32)|
            #[trigger] call_ensures(chrono_now, (), r) && ns == total_ns(r.0 as int, r.1 as int);
        assert(call_ensures(chrono_now, (), r) && ns == r.0 * 1_000_000_000 + r.1);
    }
}

/// The text of a time of day reads back as hour, minute, second and
/// microsecond of the day, each within its range.
pub proof fn law_time_of_day_reads_back(ns: int)
    ensures
        ({
            let t = time_of_day_text(ns);
            let d = |i: int| t[i] as int - 48;
            let hour = 10 * d(0) + d(1);
            let minute = 10 * d(3) + d(4);
            let second = 10 * d(6) + d(7);
            let micros = 100_000 * d(9) + 10_000 * d(10) + 1000 * d(11) + 100 * d(12) + 10 * d(13)
                + d(14);
            &&& t.len() == 15
            &&& t[2] == ':' && t[5] == ':' && t[8] == '.'
            &&& 0 <= d(0) <= 9 && 0 <= d(1) <= 9 && 0 <= d(3) <= 9 && 0 <= d(4) <= 9
            &&& 0 <= d(6) <= 9 && 0 <= d(7) <= 9 && 0 <= d(9) <= 9 && 0 <= d(10) <= 9
            &&& 0 <= d(11) <= 9 && 0 <= d(12) <= 9 && 0 <= d(13) <= 9 && 0 <= d(14) <= 9
            &&& 0 <= hour < 24 && 0 <= minute < 60 && 0 <= second < 60
            &&& 3600 * hour + 60 * minute + second == (ns / 1_000_000_000) % 86_400
            &&& 1000 * micros <= ns % 1_000_000_000 < 1000 * micros + 1000
        }),
{
}

} // verus!
