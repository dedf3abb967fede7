//! Typed time contract shared by the composition timeline, media plans and
//! host decode requests.
//!
//! Durations and offsets travel as microseconds; frame positions as indices at
//! a rational frame rate. All conversions are exact integer arithmetic with
//! round-half-up to the nearest unit and saturation at the type's bounds.

use vstd::prelude::*;

verus! {

/// Largest value of a `u64`, as a mathematical integer.
pub open spec fn u64_max() -> int {
    0xffff_ffff_ffff_ffffint
}

/// Largest value of a `u32`, as a mathematical integer.
pub open spec fn u32_max() -> int {
    0xffff_ffffint
}

/// `n / d` rounded to the nearest integer, halves rounded up (`d > 0`, `n >= 0`).
pub open spec fn round_div(n: int, d: int) -> int {
    (2 * n + d) / (2 * d)
}

/// `v` saturated into `[0, hi]`.
pub open spec fn clamp_hi(v: int, hi: int) -> int {
    if v > hi { hi } else { v }
}

/// Zero-based composition or source frame index.
#[derive(Clone, Copy, Debug, PartialEq, Eq, Structural, PartialOrd, Ord, Hash)]
pub struct FrameIndex(pub u32);

/// Frame count (a duration expressed as a number of frames at a known rate).
#[derive(Clone, Copy, Debug, PartialEq, Eq, Structural, PartialOrd, Ord, Hash)]
pub struct FrameCount(pub u32);

/// Rational frame rate `num / den` frames per second.
#[derive(Clone, Copy, Debug, PartialEq, Eq, Structural, Hash)]
pub struct RationalFrameRate {
    pub num: u32,
    pub den: u32,
}

impl RationalFrameRate {
    /// Integer fps; zero falls back to 1 fps.
    pub fn integer(fps: u32) -> (r: Self)
        ensures
            r.num == (if fps == 0 { 1 } else { fps }),
            r.den == 1,
    {
        Self { num: if fps == 0 { 1 } else { fps }, den: 1 }
    }

    /// Build a rate; a zero numerator or denominator falls back to 1/1.
    pub fn new(num: u32, den: u32) -> (r: Self)
        ensures
            (num == 0 || den == 0) ==> r.num == 1 && r.den == 1,
            (num != 0 && den != 0) ==> r.num == num && r.den == den,
    {
        if num == 0 || den == 0 {
            Self { num: 1, den: 1 }
        } else {
            Self { num, den }
        }
    }

    /// Whole frames per second: `num / den` rounded to the nearest integer
    /// (halves up), never below 1. A zero denominator (only reachable by
    /// building the struct directly) gives `u32::MAX` for an infinite rate,
    /// and 0 for `0 / 0`, whose quotient is not a number.
    pub fn as_u32_fps(self) -> (r: u32)
        ensures
            self.den == 0 ==> r == (if self.num == 0 { 0 } else { u32::MAX }),
            self.den > 0 ==> r == (if round_div(self.num as int, self.den as int) < 1 {
                1
            } else {
                round_div(self.num as int, self.den as int)
            }),
    {
        if self.den == 0 {
            return if self.num == 0 {
                0
            } else {
                u32::MAX
            };
        }
        let n: u64 = self.num as u64;
        let d: u64 = self.den as u64;
        let q: u64 = (2 * n + d) / (2 * d);
        assert(q <= n) by (nonlinear_arith)
            requires
                d >= 1,
                q == (2 * n + d) / (2 * d),
        ;
        if q < 1 {
            1
        } else {
            q as u32
        }
    }
}

impl Default for RationalFrameRate {
    fn default() -> (r: Self)
        ensures
            r.num == 30 && r.den == 1,
    {
        Self::integer(30)
    }
}

/// Absolute media or composition timestamp in microseconds.
#[derive(Clone, Copy, Debug, PartialEq, Eq, Structural, PartialOrd, Ord, Hash)]
pub struct TimestampMicros(pub u64);

impl TimestampMicros {
    /// `self + duration`, saturating at `u64::MAX`.
    pub fn saturating_add(self, duration: DurationMicros) -> (r: Self)
        ensures
            r.0 == clamp_hi(self.0 + duration.0, u64_max()),
    {
        Self(self.0.saturating_add(duration.0))
    }

    /// `self - duration`, saturating at zero.
    pub fn saturating_sub(self, duration: DurationMicros) -> (r: Self)
        ensures
            r.0 == (if self.0 >= duration.0 { self.0 - duration.0 } else { 0 }),
    {
        Self(self.0.saturating_sub(duration.0))
    }
}

/// Non-negative duration in microseconds.
#[derive(Clone, Copy, Debug, PartialEq, Eq, Structural, PartialOrd, Ord, Hash)]
pub struct DurationMicros(pub u64);

impl DurationMicros {
    pub fn is_zero(self) -> (r: bool)
        ensures
            r == (self.0 == 0),
    {
        self.0 == 0
    }
}

/// Half-open timeline range: `[start, start + duration)` when `duration` is
/// `Some`; open-ended from `start` when `None`.
#[derive(Clone, Copy, Debug, PartialEq, Eq, Structural, Hash)]
pub struct DurationRange {
    pub start: TimestampMicros,
    pub duration: Option<DurationMicros>,
}

/// Whether timestamp `t` lies in the range that starts at `start` and lasts
/// `duration` (open-ended when `None`, empty when zero).
pub open spec fn range_contains(start: u64, duration: Option<DurationMicros>, t: u64) -> bool {
    &&& t >= start
    &&& match duration {
        Some(d) => t < clamp_hi(start + d.0, u64_max()),
        None => true,
    }
}

impl DurationRange {
    pub fn from_start(start: TimestampMicros) -> (r: Self)
        ensures
            r.start == start,
            r.duration is None,
    {
        Self { start, duration: None }
    }

    pub fn with_duration(start: TimestampMicros, duration: DurationMicros) -> (r: Self)
        ensures
            r.start == start,
            r.duration == Some(duration),
    {
        Self { start, duration: Some(duration) }
    }

    /// Exclusive end when a finite duration is set (saturating).
    pub fn end(self) -> (r: Option<TimestampMicros>)
        ensures
            match self.duration {
                Some(d) => r == Some(TimestampMicros(
                    clamp_hi(self.start.0 + d.0, u64_max()) as u64,
                )),
                None => r is None,
            },
    {
        match self.duration {
            Some(d) => Some(self.start.saturating_add(d)),
            None => None,
        }
    }

    /// Whether `t` falls inside this range.
    pub fn contains(self, t: TimestampMicros) -> (r: bool)
        ensures
            r == range_contains(self.start.0, self.duration, t.0),
    {
        if t.0 < self.start.0 {
            return false;
        }
        match self.duration {
            Some(d) => {
                if d.0 > 0 {
                    t.0 < self.start.0.saturating_add(d.0)
                } else {
                    false
                }
            },
            None => true,
        }
    }
}

/// Timestamp of composition frame `frame` at `rate`, in microseconds.
pub open spec fn frame_timestamp_spec(frame: u32, rate: RationalFrameRate) -> int {
    if rate.num == 0 {
        0
    } else {
        clamp_hi(
            round_div(frame as int * rate.den as int * 1_000_000, rate.num as int),
            u64_max(),
        )
    }
}

/// Nearest frame index of timestamp `micros` at `rate`, saturating at `u32::MAX`.
/// A zero denominator makes every positive time with a positive numerator
/// infinitely far, and everything else frame zero.
pub open spec fn timestamp_frame_spec(micros: u64, rate: RationalFrameRate) -> int {
    if rate.den == 0 {
        if rate.num > 0 && micros > 0 { u32_max() } else { 0 }
    } else {
        clamp_hi(
            round_div(micros as int * rate.num as int, rate.den as int * 1_000_000),
            u32_max(),
        )
    }
}

proof fn lemma_round_div_nonneg(n: int, d: int)
    requires
        n >= 0,
        d > 0,
    ensures
        round_div(n, d) >= 0,
{
    assert((2 * n + d) / (2 * d) >= 0) by (nonlinear_arith)
        requires
            n >= 0,
            d > 0,
    ;
}

/// Composition frame index → authoritative media/composition timestamp:
/// `frame * den / num` seconds, rounded to the nearest microsecond.
pub fn frames_to_timestamp_micros(frame: FrameIndex, rate: RationalFrameRate) -> (r:
    TimestampMicros)
    ensures
        r.0 == frame_timestamp_spec(frame.0, rate),
{
    if rate.num == 0 {
        return TimestampMicros(0);
    }
    let f: u128 = frame.0 as u128;
    let den: u128 = rate.den as u128;
    let num: u128 = rate.num as u128;
    assert(f * den <= 0xffff_ffff_ffff_ffff_ffff_ffff) by (nonlinear_arith)
        requires
            f <= 0xffff_ffff,
            den <= 0xffff_ffff,
    ;
    let fd: u128 = f * den;
    assert(fd * 1_000_000 <= 0xffff_ffff_ffff_ffff_ffff_ffff_ffff_ffff_ffff) by (
    nonlinear_arith)
        requires
            fd <= 0xffff_ffff_ffff_ffff_ffff_ffff,
    ;
    let n: u128 = fd * 1_000_000;
    let q: u128 = (2 * n + num) / (2 * num);
    proof {
        lemma_round_div_nonneg(n as int, num as int);
    }
    if q > 0xffff_ffff_ffff_ffff {
        TimestampMicros(0xffff_ffff_ffff_ffff)
    } else {
        TimestampMicros(q as u64)
    }
}

/// Timestamp → nearest frame index at `rate` (diagnostics only).
pub fn timestamp_micros_to_frame(time: TimestampMicros, rate: RationalFrameRate) -> (r:
    FrameIndex)
    ensures
        r.0 == timestamp_frame_spec(time.0, rate),
{
    if rate.den == 0 {
        if rate.num > 0 && time.0 > 0 {
            return FrameIndex(0xffff_ffff);
        }
        return FrameIndex(0);
    }
    let t: u128 = time.0 as u128;
    let num: u128 = rate.num as u128;
    let den: u128 = rate.den as u128;
    assert(t * num <= 0xffff_ffff_ffff_ffff_ffff_ffff) by (nonlinear_arith)
        requires
            t <= 0xffff_ffff_ffff_ffff,
            num <= 0xffff_ffff,
    ;
    let n: u128 = t * num;
    let d: u128 = den * 1_000_000;
    let q: u128 = (2 * n + d) / (2 * d);
    proof {
        lemma_round_div_nonneg(n as int, d as int);
    }
    if q > 0xffff_ffff {
        FrameIndex(0xffff_ffff)
    } else {
        FrameIndex(q as u32)
    }
}

/// Milliseconds (probe tags) → microseconds, saturating.
pub fn ms_to_duration_micros(ms: u64) -> (r: DurationMicros)
    ensures
        r.0 == clamp_hi(ms * 1000, u64_max()),
{
    if ms > 18_446_744_073_709_551 {
        DurationMicros(0xffff_ffff_ffff_ffff)
    } else {
        DurationMicros(ms * 1000)
    }
}

/// A frame's timestamp converts back to the same frame at any rate below a
/// million frames per second, as long as the timestamp does not saturate.
pub proof fn lemma_frame_timestamp_round_trip(frame: u32, rate: RationalFrameRate)
    requires
        rate.num > 0,
        rate.den > 0,
        rate.num < rate.den * 1_000_000,
        frame_timestamp_spec(frame, rate) < u64_max(),
    ensures
        timestamp_frame_spec(frame_timestamp_spec(frame, rate) as u64, rate) == frame,
{
    let f: int = frame as int;
    let nn: int = rate.num as int;
    let dd: int = rate.den as int * 1_000_000;
    let n: int = f * rate.den as int * 1_000_000;
    assert(n == f * dd) by (nonlinear_arith)
        requires
            n == f * rate.den as int * 1_000_000,
            dd == rate.den as int * 1_000_000,
    ;
    let t: int = (2 * n + nn) / (2 * nn);
    lemma_round_div_nonneg(n, nn);
    assert(frame_timestamp_spec(frame, rate) == t);
    assert(2 * nn * t <= 2 * n + nn && 2 * n + nn < 2 * nn * t + 2 * nn) by (nonlinear_arith)
        requires
            nn > 0,
            t == (2 * n + nn) / (2 * nn),
    ;
    let q: int = (2 * (t * nn) + dd) / (2 * dd);
    assert(t * nn == t as u64 as int * rate.num as int);
    assert(2 * f * dd <= 2 * (t * nn) + dd && 2 * (t * nn) + dd < 2 * f * dd + 2 * dd) by (
    nonlinear_arith)
        requires
            2 * nn * t <= 2 * n + nn,
            2 * n + nn < 2 * nn * t + 2 * nn,
            n == f * dd,
            nn < dd,
    ;
    assert(q == f) by (nonlinear_arith)
        requires
            q == (2 * (t * nn) + dd) / (2 * dd),
            2 * f * dd <= 2 * (t * nn) + dd,
            2 * (t * nn) + dd < 2 * f * dd + 2 * dd,
            dd > 0,
    ;
    assert(timestamp_frame_spec(t as u64, rate) == clamp_hi(q, u32_max()));
}

impl Default for FrameIndex {
    fn default() -> (r: Self)
        ensures
            r.0 == 0,
    {
        FrameIndex(0)
    }
}

impl Default for FrameCount {
    fn default() -> (r: Self)
        ensures
            r.0 == 0,
    {
        FrameCount(0)
    }
}

impl Default for TimestampMicros {
    fn default() -> (r: Self)
        ensures
            r.0 == 0,
    {
        TimestampMicros(0)
    }
}

impl Default for DurationMicros {
    fn default() -> (r: Self)
        ensures
            r.0 == 0,
    {
        DurationMicros(0)
    }
}

impl Default for DurationRange {
    /// The open-ended range from zero.
    fn default() -> (r: Self)
        ensures
            r.start.0 == 0,
            r.duration is None,
    {
        DurationRange { start: TimestampMicros(0), duration: None }
    }
}

} // verus!
