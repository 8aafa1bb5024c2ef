//! Account of the frames received: numbering, latency, and which of them are
//! saved.

use crate::timestamp::{is_clock_reading, is_instant, micros_between, time_of_day_text, Timestamp};
use vstd::prelude::*;

verus! {

/// Frames to skip while auto-exposure stabilises, unless set otherwise.
pub const DEFAULT_WARMUP_FRAMES: u64 = 100;

/// Whether all characters are decimal digits.
pub open spec fn all_digits(s: Seq<char>) -> bool {
    forall|i: int| 0 <= i < s.len() ==> '0' <= #[trigger] s[i] <= '9'
}

/// The number that a sequence of decimal digits denotes.
pub open spec fn decimal_value(s: Seq<char>) -> int
    decreases s.len(),
{
    if s.len() == 0 {
        0
    } else {
        decimal_value(s.drop_last()) * 10 + (s.last() as int - '0' as int)
    }
}

/// The `u64` that a text denotes: an optional plus sign and then one or more
/// decimal digits, of a value that fits.
pub open spec fn parsed_u64(s: Seq<char>) -> Option<u64> {
    let digits = if s.len() > 0 && s[0] == '+' {
        s.skip(1)
    } else {
        s
    };
    if digits.len() > 0 && all_digits(digits) && decimal_value(digits) <= u64::MAX {
        Some(decimal_value(digits) as u64)
    } else {
        None
    }
}

/// Calls `str::parse` for `u64`: the number that the text denotes in base ten,
/// after an optional plus sign, or an error where it holds anything else, no
/// digit, or a number that does not fit.
#[verifier::external_body]
fn std_parse_u64(s: &str) -> (r: Option<u64>)
    ensures
        r == parsed_u64(s@),
{
    s.parse::<u64>().ok()
}

/// Number of frames to skip, given the setting, if there is one: the default
/// stands in for a setting that is missing or is no number.
pub fn warmup_frames(setting: Option<&str>) -> (r: u64)
    ensures
        r == (match setting {
            Some(s) => match parsed_u64(s@) {
                Some(n) => n,
                None => DEFAULT_WARMUP_FRAMES,
            },
            None => DEFAULT_WARMUP_FRAMES,
        }),
{
    match setting {
        Some(s) => match std_parse_u64(s) {
            Some(n) => n,
            None => DEFAULT_WARMUP_FRAMES,
        },
        None => DEFAULT_WARMUP_FRAMES,
    }
}

/// The latency of a frame does not fit in an `i64` of microseconds.
#[derive(Clone, Copy, Debug, PartialEq, Eq, Structural)]
pub struct LatencyOverflow;

impl LatencyOverflow {
    /// What to tell the user.
    pub fn message(&self) -> (r: &'static str)
        ensures
            r@ == "latency overflow"@,
    {
        "latency overflow"
    }
}

/// What is to be told of a frame, and done with it.
pub struct FrameReport {
    /// Number of the frame, from one.
    pub frame_idx: u64,
    /// Time of day at which it was captured.
    pub time_of_day: String,
    /// Time from capture to receipt, in microseconds.
    pub latency_us: i64,
    /// The largest latency so far, in microseconds, never negative.
    pub max_latency_us: i64,
    /// The frame is the first stable one: save it as such.
    pub save_first: bool,
    /// The frame is stable: offer it as the latest.
    pub save_latest: bool,
}

/// The larger of two numbers.
pub open spec fn larger(a: i64, b: i64) -> i64 {
    if a < b {
        b
    } else {
        a
    }
}

/// Running account of the frames received.
pub struct FrameLog {
    warmup: u64,
    frames: u64,
    max_latency_us: i64,
}

impl FrameLog {
    /// Number of frames to skip.
    pub closed spec fn spec_warmup(self) -> u64 {
        self.warmup
    }

    /// Number of frames received.
    pub closed spec fn spec_frames(self) -> u64 {
        self.frames
    }

    /// The largest latency so far.
    pub closed spec fn spec_max_latency_us(self) -> i64 {
        self.max_latency_us
    }

    /// An account with no frame received.
    pub fn new(warmup: u64) -> (r: FrameLog)
        ensures
            r.spec_warmup() == warmup,
            r.spec_frames() == 0,
            r.spec_max_latency_us() == 0,
    {
        FrameLog { warmup, frames: 0, max_latency_us: 0 }
    }

    pub fn warmup(&self) -> (r: u64)
        ensures
            r == self.spec_warmup(),
    {
        self.warmup
    }

    pub fn frames(&self) -> (r: u64)
        ensures
            r == self.spec_frames(),
    {
        self.frames
    }

    pub fn max_latency_us(&self) -> (r: i64)
        ensures
            r == self.spec_max_latency_us(),
    {
        self.max_latency_us
    }

    /// What `record_at` does, of a frame captured at `captured` and received
    /// at `received`.
    pub open spec fn records(
        before: FrameLog,
        captured: int,
        received: int,
        after: FrameLog,
        r: Result<FrameReport, LatencyOverflow>,
    ) -> bool {
        match micros_between(received, captured) {
            Some(latency) => {
                &&& r matches Ok(report)
                &&& report.frame_idx == before.spec_frames() + 1
                &&& report.time_of_day@ == time_of_day_text(captured)
                &&& report.latency_us == latency
                &&& report.max_latency_us == larger(before.spec_max_latency_us(), latency)
                &&& report.save_first == (report.frame_idx == before.spec_warmup() + 1)
                &&& report.save_latest == (report.frame_idx > before.spec_warmup())
                &&& after.spec_warmup() == before.spec_warmup()
                &&& after.spec_frames() == report.frame_idx
                &&& after.spec_max_latency_us() == report.max_latency_us
            },
            None => r == Err::<FrameReport, _>(LatencyOverflow) && after == before,
        }
    }

    /// Records a frame captured at `frame_ts` and received at `now`. A latency
    /// that overflows is an error, and leaves the account as it was.
    pub fn record_at(&mut self, frame_ts: &Timestamp, now: &Timestamp) -> (r: Result<
        FrameReport,
        LatencyOverflow,
    >)
        requires
            old(self).spec_frames() < u64::MAX,
            old(self).spec_warmup() < u64::MAX,
        ensures
            FrameLog::records(*old(self), frame_ts@, now@, *final(self), r),
            is_instant(frame_ts@),
            r matches Ok(report) ==> {
                let d = now@ - frame_ts@;
                &&& d >= 0 ==> 1000 * report.latency_us <= d < 1000 * report.latency_us + 1000
                &&& d <= 0 ==> 1000 * report.latency_us - 1000 < d <= 1000 * report.latency_us
            },
    {
        let latency_us: i64 = match now.microseconds_since(frame_ts) {
            Some(us) => us,
            None => {
                return Err(LatencyOverflow);
            },
        };
        if latency_us > self.max_latency_us {
            self.max_latency_us = latency_us;
        }
        self.frames = self.frames + 1;
        Ok(
            FrameReport {
                frame_idx: self.frames,
                time_of_day: frame_ts.time_of_day(),
                latency_us,
                max_latency_us: self.max_latency_us,
                save_first: self.frames == self.warmup + 1,
                save_latest: self.frames > self.warmup,
            },
        )
    }

    /// Records a frame captured at `frame_ts` and received now. The wall clock
    /// is read here. A frame captured since the epoch cannot overflow.
    pub fn record(&mut self, frame_ts: &Timestamp) -> (r: Result<FrameReport, LatencyOverflow>)
        requires
            old(self).spec_frames() < u64::MAX,
            old(self).spec_warmup() < u64::MAX,
        ensures
            exists|now: int|
                0 <= now && is_instant(now) && #[trigger] is_clock_reading(now) && FrameLog::records(
                    *old(self),
                    frame_ts@,
                    now,
                    *final(self),
                    r,
                ),
            frame_ts@ >= 0 ==> r is Ok,
    {
        let now: Timestamp = Timestamp::now();
        self.record_at(frame_ts, &now)
    }
}

/// Whether `max` is the largest of zero and the latencies.
pub open spec fn is_max_latency(max: i64, latencies: Seq<i64>) -> bool {
    &&& max >= 0
    &&& forall|i: int| 0 <= i < latencies.len() ==> #[trigger] latencies[i] <= max
    &&& max == 0 || latencies.contains(max)
}

/// In a run without error, from an account with no frame received, frames are
/// numbered from one; exactly the frame after the warm-up is saved as the
/// first, that frame and all later ones are offered as the latest, and the
/// largest latency is that of the frames so far, or zero.
pub proof fn law_account_of_a_run(
    logs: Seq<FrameLog>,
    captured: Seq<int>,
    received: Seq<int>,
    reports: Seq<FrameReport>,
)
    requires
        logs.len() == reports.len() + 1,
        logs[0].spec_frames() == 0,
        logs[0].spec_max_latency_us() == 0,
        forall|i: int|
            0 <= i < reports.len() ==> FrameLog::records(
                logs[i],
                captured[i],
                received[i],
                logs[i + 1],
                Ok(#[trigger] reports[i]),
            ),
    ensures
        logs.last().spec_warmup() == logs[0].spec_warmup(),
        logs.last().spec_frames() == reports.len(),
        is_max_latency(
            logs.last().spec_max_latency_us(),
            reports.map_values(|r: FrameReport| r.latency_us),
        ),
        forall|i: int|
            0 <= i < reports.len() ==> {
                &&& (#[trigger] reports[i]).frame_idx == i + 1
                &&& reports[i].save_first <==> i == logs[0].spec_warmup()
                &&& reports[i].save_latest <==> i >= logs[0].spec_warmup()
            },
    decreases reports.len(),
{
    let latencies = reports.map_values(|r: FrameReport| r.latency_us);
    let n = reports.len() as int;
    if n > 0 {
        let earlier = reports.drop_last();
        assert forall|i: int| 0 <= i < earlier.len() implies FrameLog::records(
            logs.drop_last()[i],
            captured[i],
            received[i],
            logs.drop_last()[i + 1],
            Ok(#[trigger] earlier[i]),
        ) by {
            assert(earlier[i] == reports[i]);
        }
        law_account_of_a_run(logs.drop_last(), captured, received, earlier);
        let earlier_latencies = earlier.map_values(|r: FrameReport| r.latency_us);
        assert(latencies == earlier_latencies.push(reports[n - 1].latency_us));
        assert(FrameLog::records(
            logs[n - 1],
            captured[n - 1],
            received[n - 1],
            logs[n],
            Ok(reports[n - 1]),
        ));
        let before = logs[n - 1].spec_max_latency_us();
        assert(latencies[n - 1] == reports[n - 1].latency_us);
        if earlier_latencies.contains(before) {
            let k = choose|k: int| 0 <= k < earlier_latencies.len() && earlier_latencies[k] == before;
            assert(latencies[k] == before);
        }
        assert forall|i: int| 0 <= i < latencies.len() implies #[trigger] latencies[i]
            <= logs[n].spec_max_latency_us() by {
            if i < n - 1 {
                assert(latencies[i] == earlier_latencies[i]);
            }
        }
        assert forall|i: int| 0 <= i < n implies {
            &&& (#[trigger] reports[i]).frame_idx == i + 1
            &&& reports[i].save_first <==> i == logs[0].spec_warmup()
            &&& reports[i].save_latest <==> i >= logs[0].spec_warmup()
        } by {
            if i < n - 1 {
                assert(reports[i] == earlier[i]);
            }
        }
    }
}

/// What recording a frame does, on the instants: the latency is the whole
/// microseconds from capture to receipt, what is over lies on the side of zero,
/// and the largest latency is the larger of the one before and this one. It
/// fails exactly where 64 bits do not hold the latency.
pub proof fn law_report_of_a_frame(
    before: FrameLog,
    captured: int,
    received: int,
    after: FrameLog,
    r: Result<FrameReport, LatencyOverflow>,
)
    requires
        FrameLog::records(before, captured, received, after, r),
    ensures
        r is Ok <==> -9_223_372_036_854_775_809_000 < received - captured
            < 9_223_372_036_854_775_808_000,
        r is Err ==> after == before,
        r matches Ok(report) ==> {
            let d = received - captured;
            let us = report.latency_us;
            &&& d >= 0 ==> 1000 * us <= d < 1000 * us + 1000
            &&& d <= 0 ==> 1000 * us - 1000 < d <= 1000 * us
            &&& report.max_latency_us >= us
            &&& report.max_latency_us >= before.spec_max_latency_us()
            &&& report.max_latency_us == us || report.max_latency_us
                == before.spec_max_latency_us()
            &&& report.frame_idx == before.spec_frames() + 1
            &&& report.save_first <==> before.spec_frames() == before.spec_warmup()
            &&& report.save_latest <==> before.spec_frames() >= before.spec_warmup()
            &&& report.time_of_day@ == time_of_day_text(captured)
            &&& after.spec_warmup() == before.spec_warmup()
            &&& after.spec_frames() == before.spec_frames() + 1
            &&& after.spec_max_latency_us() == report.max_latency_us
        },
{
    crate::timestamp::law_whole_microseconds(received, captured);
}

/// A frame received later than another of the same capture has a latency that
/// is greater by as much, to the microsecond.
pub proof fn law_latency_follows_receipt(
    before: FrameLog,
    captured: int,
    received: int,
    later_by_us: int,
    after: FrameLog,
    after_later: FrameLog,
    report: FrameReport,
    report_later: FrameReport,
)
    requires
        received >= captured,
        later_by_us >= 0,
        FrameLog::records(before, captured, received, after, Ok(report)),
        FrameLog::records(
            before,
            captured,
            received + 1000 * later_by_us,
            after_later,
            Ok(report_later),
        ),
    ensures
        report_later.latency_us - report.latency_us == later_by_us,
{
    law_report_of_a_frame(before, captured, received, after, Ok(report));
    law_report_of_a_frame(
        before,
        captured,
        received + 1000 * later_by_us,
        after_later,
        Ok(report_later),
    );
}

/// The larger of two numbers is one of them, and less than neither.
pub proof fn law_larger(a: i64, b: i64)
    ensures
        larger(a, b) >= a,
        larger(a, b) >= b,
        larger(a, b) == a || larger(a, b) == b,
{
}

/// One more digit makes a number ten times as large, and adds the digit; a plus
/// sign in front changes nothing.
pub proof fn law_settings_are_decimal(s: Seq<char>, c: char)
    requires
        s.len() > 0,
        forall|i: int| 0 <= i < s.len() ==> '0' <= #[trigger] s[i] <= '9',
    ensures
        parsed_u64(seq!['+'] + s) == parsed_u64(s),
        s.len() == 1 ==> parsed_u64(s) == Some((s[0] as int - 48) as u64),
        '0' <= c <= '9' ==> (parsed_u64(s.push(c)) matches Some(n) ==> parsed_u64(s) matches Some(
            m,
        ) && n == 10 * m + (c as int - 48)),
        '0' <= c <= '9' ==> (parsed_u64(s) matches Some(m) ==> 10 * m + (c as int - 48)
            <= 18_446_744_073_709_551_615 ==> parsed_u64(s.push(c)) is Some),
        !('0' <= c <= '9') ==> parsed_u64(s.push(c)) is None,
{
    assert((seq!['+'] + s).skip(1) == s);
    assert(s.push(c).drop_last() == s);
    assert(s[0] != '+');
    assert(s.push(c)[0] == s[0]);
    reveal_with_fuel(decimal_value, 2);
    lemma_decimal_value_is_natural(s);
    if '0' <= c <= '9' {
        assert(all_digits(s.push(c)));
    } else {
        assert(s.push(c)[s.len() as int] == c);
    }
}

proof fn lemma_decimal_value_is_natural(s: Seq<char>)
    requires
        forall|i: int| 0 <= i < s.len() ==> '0' <= #[trigger] s[i] <= '9',
    ensures
        decimal_value(s) >= 0,
    decreases s.len(),
{
    if s.len() > 0 {
        assert('0' <= s[s.len() - 1] <= '9');
        assert forall|i: int| 0 <= i < s.drop_last().len() implies '0' <= #[trigger] s.drop_last()[i]
            <= '9' by {
            assert(s.drop_last()[i] == s[i]);
        }
        lemma_decimal_value_is_natural(s.drop_last());
    }
}

/// A text without a digit is no number, and neither is one that holds anything
/// but digits after an optional plus sign.
pub proof fn law_other_texts_are_no_numbers(s: Seq<char>, i: int)
    requires
        s.len() == 0 || s == seq!['+'] || (0 <= i < s.len() && !('0' <= s[i] <= '9') && !(i == 0
            && s[0] == '+')),
    ensures
        parsed_u64(s) is None,
{
    if s.len() > 0 && s[0] == '+' && 0 < i < s.len() {
        assert(s.skip(1)[i - 1] == s[i]);
    }
}

} // verus!
