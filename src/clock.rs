//! Mapping of presentation timestamps to media time and wall-clock deadlines.
//!
//! Media time is kept exactly, as a count of ticks over a number of ticks per
//! second. Wall-clock instants and waits are integer microseconds, measured
//! from an arbitrary monotonic origin chosen by the caller.
use vstd::prelude::*;

verus! {

/// Microseconds in one second.
pub const MICROS_PER_SECOND: i64 = 1_000_000;

/// A stream's time base: one timestamp unit lasts `num / den` seconds.
#[derive(Clone, Copy, Debug, PartialEq, Eq)]
pub struct TimeBase {
    pub num: i32,
    pub den: i32,
}

impl TimeBase {
    pub open spec fn wf(&self) -> bool {
        self.num > 0 && self.den > 0
    }
}

/// Time, in whole microseconds rounded down, spanned by `pts` timestamp units
/// under the time base `num / den`.
pub open spec fn micros_of_pts(tb: TimeBase, pts: int) -> int {
    (pts * tb.num * MICROS_PER_SECOND) / (tb.den as int)
}

/// Bound on the tick count of a media time that timestamps can produce (2^95).
pub const TICK_BOUND: i128 = 0x8000_0000_0000_0000_0000_0000;

/// A media time of exactly `ticks / per_second` seconds.
#[derive(Clone, Copy, Debug, PartialEq, Eq)]
pub struct MediaTime {
    pub ticks: i128,
    pub per_second: i32,
}

impl MediaTime {
    pub open spec fn wf(&self) -> bool {
        &&& self.per_second > 0
        &&& -TICK_BOUND <= self.ticks <= TICK_BOUND
    }
}

/// The exact media time of timestamp `pts`: `pts * num / den` seconds.
pub open spec fn time_of_pts(tb: TimeBase, pts: i64) -> MediaTime {
    MediaTime { ticks: (pts * tb.num) as i128, per_second: tb.den }
}

/// The timestamp, rounded down, at which media time `t` is reached.
pub open spec fn pts_of_time(tb: TimeBase, t: MediaTime) -> int {
    (t.ticks * tb.den) / (t.per_second * tb.num)
}

/// Bound on the magnitude of intermediate products (2^120).
pub const PRODUCT_BOUND: i128 = 0x100_0000_0000_0000_0000_0000_0000_0000;

/// Floor division of `x` by a positive `d`, computed without signed division.
fn floor_div(x: i128, d: i128) -> (r: i128)
    requires
        d > 0,
        -0x7fff_ffff_ffff_ffff_ffff_ffff_ffff_ffff <= x,
    ensures
        r == x / d,
        x >= 0 ==> 0 <= r <= x,
        x < 0 ==> x <= r <= 0,
{
    if x >= 0 {
        let q = (x as u128) / (d as u128);
        proof {
            let xi: int = x as int;
            let di: int = d as int;
            assert(q as int == xi / di);
            vstd::arithmetic::div_mod::lemma_fundamental_div_mod(xi, di);
            vstd::arithmetic::div_mod::lemma_mod_pos_bound(xi, di);
            let qi: int = q as int;
            assert(qi <= xi) by (nonlinear_arith)
                requires
                    xi == di * qi + xi % di,
                    0 <= xi % di,
                    di >= 1,
                    qi >= 0,
            ;
        }
        q as i128
    } else {
        let m = ((-x) as u128 + (d as u128) - 1) / (d as u128);
        proof {
            let ax: int = -x;
            let di: int = d as int;
            assert(m as int == (ax + di - 1) / di);
            lemma_neg_floor(ax, di);
            vstd::arithmetic::div_mod::lemma_fundamental_div_mod(ax + di - 1, di);
            vstd::arithmetic::div_mod::lemma_mod_pos_bound(ax + di - 1, di);
            let mi: int = m as int;
            assert(mi <= ax) by (nonlinear_arith)
                requires
                    ax + di - 1 == di * mi + (ax + di - 1) % di,
                    0 <= (ax + di - 1) % di,
                    di >= 1,
                    ax >= 1,
            ;
        }
        -(m as i128)
    }
}

proof fn lemma_neg_floor(ax: int, d: int)
    requires
        ax > 0,
        d > 0,
    ensures
        (-ax) / d == -((ax + d - 1) / d),
{
    let q = (ax + d - 1) / d;
    let r = (ax + d - 1) % d;
    vstd::arithmetic::div_mod::lemma_fundamental_div_mod(ax + d - 1, d);
    vstd::arithmetic::div_mod::lemma_mod_pos_bound(ax + d - 1, d);
    assert(-ax == (-q) * d + (d - 1 - r)) by (nonlinear_arith)
        requires
            ax + d - 1 == d * q + r,
    ;
    vstd::arithmetic::div_mod::lemma_fundamental_div_mod_converse(-ax, d, -q, d - 1 - r);
}

/// Anchor of one contiguous playback segment: the timestamp `start_pts` is
/// shown at wall-clock instant `start_instant`.
#[derive(Clone, Copy, Debug, PartialEq, Eq)]
pub struct StreamClock {
    pub time_base: TimeBase,
    pub start_instant: u64,
    pub start_pts: i64,
}

/// Wall-clock deadline, in microseconds, at which `pts` is due under `clock`.
pub open spec fn deadline_of(clock: StreamClock, pts: int) -> int {
    clock.start_instant + micros_of_pts(clock.time_base, pts - clock.start_pts)
}

/// How long to wait at instant `now` before showing a frame with timestamp
/// `pts`: nothing when the frame is undated or already due.
pub open spec fn delay_of(clock: StreamClock, pts: Option<i64>, now: u64) -> Option<int> {
    match pts {
        None => None,
        Some(p) => if deadline_of(clock, p as int) > now {
            Some(deadline_of(clock, p as int) - now)
        } else {
            None
        },
    }
}

impl StreamClock {
    pub open spec fn wf(&self) -> bool {
        self.time_base.wf()
    }

    /// Anchors timestamp `start_pts` at instant `now`.
    pub fn new(time_base: TimeBase, start_pts: i64, now: u64) -> (r: Self)
        requires
            time_base.wf(),
        ensures
            r.wf(),
            r.time_base == time_base,
            r.start_pts == start_pts,
            r.start_instant == now,
    {
        StreamClock { time_base, start_instant: now, start_pts }
    }

    /// Exact media time of timestamp `pts` (progress value).
    pub fn convert_pts_to_time(&self, pts: i64) -> (r: MediaTime)
        requires
            self.wf(),
        ensures
            r == time_of_pts(self.time_base, pts),
            r.wf(),
    {
        proof {
            lemma_ticks_bounded(self.time_base, pts);
        }
        MediaTime { ticks: pts as i128 * self.time_base.num as i128, per_second: self.time_base.den }
    }

    /// The timestamp reached at media time `time`, rounded down.
    pub fn convert_time_to_pts(&self, time: MediaTime) -> (r: i128)
        requires
            self.wf(),
            time.wf(),
        ensures
            r == pts_of_time(self.time_base, time),
    {
        let num = self.time_base.num as i128;
        let den = self.time_base.den as i128;
        let per = time.per_second as i128;
        proof {
            let t: int = time.ticks as int;
            assert(-0x4000_0000_0000_0000_0000_0000_0000_0000 <= t * den <= 0x4000_0000_0000_0000_0000_0000_0000_0000)
                by (nonlinear_arith)
                requires
                    -TICK_BOUND <= t <= TICK_BOUND,
                    0 < den < 0x8000_0000,
            ;
            assert(0 < per * num < 0x4000_0000_0000_0000) by (nonlinear_arith)
                requires
                    0 < num < 0x8000_0000,
                    0 < per < 0x8000_0000,
            ;
        }
        floor_div(time.ticks * den, per * num)
    }

    /// Time to wait at instant `now` before showing a frame stamped `pts`;
    /// `None` means show it at once.
    pub fn convert_pts_to_instant(&self, pts: Option<i64>, now: u64) -> (r: Option<u128>)
        requires
            self.wf(),
        ensures
            match delay_of(*self, pts, now) {
                None => r.is_none(),
                Some(d) => r == Some(d as u128),
            },
    {
        match pts {
            None => None,
            Some(p) => {
                let offset = micros_for(self.time_base, p as i128 - self.start_pts as i128);
                let deadline = self.start_instant as i128 + offset;
                if deadline > now as i128 {
                    Some((deadline - now as i128) as u128)
                } else {
                    None
                }
            },
        }
    }
}

/// Media time in microseconds of a timestamp offset `pts`.
fn micros_for(tb: TimeBase, pts: i128) -> (r: i128)
    requires
        tb.wf(),
        -0x1_0000_0000_0000_0000 <= pts <= 0x1_0000_0000_0000_0000,
    ensures
        r == micros_of_pts(tb, pts as int),
        -PRODUCT_BOUND < r < PRODUCT_BOUND,
{
    let num = tb.num as i128;
    let den = tb.den as i128;
    proof {
        lemma_product_bounded(tb, pts as int);
    }
    let x = pts * num * 1_000_000;
    floor_div(x, den)
}

/// The scaled product behind the media time of a timestamp offset of at most
/// 2^64 units stays well inside the range of `i128`.
proof fn lemma_product_bounded(tb: TimeBase, pts: int)
    requires
        tb.wf(),
        -0x1_0000_0000_0000_0000 <= pts <= 0x1_0000_0000_0000_0000,
    ensures
        -PRODUCT_BOUND < pts * tb.num * MICROS_PER_SECOND < PRODUCT_BOUND,
{
    let n: int = tb.num as int;
    assert(-0x1_0000_0000_0000_0000_0000_0000 <= pts * n <= 0x1_0000_0000_0000_0000_0000_0000)
        by (nonlinear_arith)
        requires
            -0x1_0000_0000_0000_0000 <= pts <= 0x1_0000_0000_0000_0000,
            0 < n < 0x1_0000_0000,
    ;
    assert(-PRODUCT_BOUND < (pts * n) * 1_000_000 < PRODUCT_BOUND) by (nonlinear_arith)
        requires
            -0x1_0000_0000_0000_0000_0000_0000 <= pts * n <= 0x1_0000_0000_0000_0000_0000_0000,
    ;
}

/// The tick count of the media time of any timestamp fits its bound.
proof fn lemma_ticks_bounded(tb: TimeBase, pts: i64)
    requires
        tb.wf(),
    ensures
        -TICK_BOUND <= pts * tb.num <= TICK_BOUND,
{
    let p: int = pts as int;
    let n: int = tb.num as int;
    assert(-TICK_BOUND <= p * n <= TICK_BOUND) by (nonlinear_arith)
        requires
            -0x8000_0000_0000_0000 <= p < 0x8000_0000_0000_0000,
            0 < n < 0x8000_0000,
    ;
}

/// Within one playback segment, media time never decreases as the timestamp
/// grows: for `start_pts <= p1 <= p2`, the media time of `p1` is at most that
/// of `p2` (same ticks per second, no more ticks), and so is the time in whole
/// microseconds used for pacing.
pub proof fn lemma_elapsed_monotonic(tb: TimeBase, start_pts: i64, p1: i64, p2: i64)
    requires
        tb.wf(),
        start_pts <= p1 <= p2,
    ensures
        time_of_pts(tb, p1).per_second == time_of_pts(tb, p2).per_second,
        time_of_pts(tb, p1).ticks <= time_of_pts(tb, p2).ticks,
        micros_of_pts(tb, p1 as int) <= micros_of_pts(tb, p2 as int),
{
    lemma_ticks_bounded(tb, p1);
    lemma_ticks_bounded(tb, p2);
    let a: int = p1 as int;
    let b: int = p2 as int;
    let n: int = tb.num as int;
    assert(a * n <= b * n) by (nonlinear_arith)
        requires
            a <= b,
            n > 0,
    ;
    assert(a * n * MICROS_PER_SECOND <= b * n * MICROS_PER_SECOND) by (nonlinear_arith)
        requires
            a <= b,
            n > 0,
    ;
    vstd::arithmetic::div_mod::lemma_div_is_ordered(
        a * n * MICROS_PER_SECOND,
        b * n * MICROS_PER_SECOND,
        tb.den as int,
    );
}

/// Converting a timestamp to media time and back gives the timestamp again,
/// exactly, under every time base.
pub proof fn lemma_time_round_trip(tb: TimeBase, pts: i64)
    requires
        tb.wf(),
    ensures
        pts_of_time(tb, time_of_pts(tb, pts)) == pts,
{
    lemma_ticks_bounded(tb, pts);
    let p: int = pts as int;
    let n: int = tb.num as int;
    let d: int = tb.den as int;
    assert(d * n > 0) by (nonlinear_arith)
        requires
            n > 0,
            d > 0,
    ;
    assert((p * n) * d == (d * n) * p) by (nonlinear_arith);
    vstd::arithmetic::div_mod::lemma_div_multiples_vanish(p, d * n);
}

} // verus!
