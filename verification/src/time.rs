//! Frame timing: a fixed-size ring buffer of the most recent frame
//! durations with an incrementally maintained sum, giving a rolling
//! average frame time and an FPS estimate. All durations are whole
//! nanoseconds; the host reads its monotonic clock and hands the current
//! time in as a plain value.

use vstd::prelude::*;

verus! {

/// Number of frame durations the rolling window holds.
pub const FRAME_HISTORY_LEN: usize = 100;

/// Nanoseconds per second, for the FPS estimate.
pub const NANOS_PER_SEC: u64 = 1_000_000_000;

/// Sum of a sequence of durations.
pub open spec fn sum_of(s: Seq<u64>) -> int
    decreases s.len(),
{
    if s.len() == 0 {
        0
    } else {
        sum_of(s.drop_last()) + s.last()
    }
}

/// Every entry is between zero and the whole sum, and the sum of `n`
/// durations is at most `n` times the largest duration value.
proof fn lemma_sum_bounds(s: Seq<u64>)
    ensures
        0 <= sum_of(s) <= s.len() * (u64::MAX as int),
        forall|i: int| 0 <= i < s.len() ==> s[i] <= sum_of(s),
    decreases s.len(),
{
    if s.len() > 0 {
        lemma_sum_bounds(s.drop_last());
        assert((s.len() - 1) * (u64::MAX as int) + (u64::MAX as int) == s.len() * (
        u64::MAX as int)) by (nonlinear_arith);
        assert forall|i: int| 0 <= i < s.len() implies s[i] <= sum_of(s) by {
            if i < s.len() - 1 {
                assert(s.drop_last()[i] == s[i]);
            }
        }
    }
}

/// Replacing one entry changes the sum by exactly the difference.
proof fn lemma_sum_update(s: Seq<u64>, i: int, v: u64)
    requires
        0 <= i < s.len(),
    ensures
        sum_of(s.update(i, v)) == sum_of(s) - s[i] + v,
    decreases s.len(),
{
    if i == s.len() - 1 {
        assert(s.update(i, v).drop_last() =~= s.drop_last());
    } else {
        lemma_sum_update(s.drop_last(), i, v);
        assert(s.update(i, v).drop_last() =~= s.drop_last().update(i, v));
    }
}

/// The sum of a constant sequence.
proof fn lemma_sum_const(n: nat, d: u64)
    ensures
        sum_of(Seq::new(n, |i: int| d)) == n * d,
    decreases n,
{
    let s = Seq::new(n, |i: int| d);
    if n > 0 {
        lemma_sum_const((n - 1) as nat, d);
        assert(s.drop_last() =~= Seq::new((n - 1) as nat, |i: int| d));
        assert((n - 1) * d + d == n * d) by (nonlinear_arith)
            requires n >= 1;
    } else {
        assert(n * d == 0) by (nonlinear_arith)
            requires n == 0;
    }
}

/// `a - b`, clamped to zero when `b` is the later instant (a host
/// monotonic clock never runs backwards, but the model makes no such
/// assumption).
pub open spec fn sat_sub(a: int, b: int) -> int {
    if a >= b {
        a - b
    } else {
        0
    }
}

/// Mathematical model of the frame clock: construction instant, instant
/// of the previous tick, the last measured delta, the ring of recent
/// frame durations with its write cursor and running sum, and the elapsed
/// time as of the last tick. All times in whole nanoseconds.
pub ghost struct ClockView {
    pub start: int,
    pub last: int,
    pub delta: int,
    pub history: Seq<u64>,
    pub index: int,
    pub sum: int,
    pub elapsed: int,
}

impl ClockView {
    /// The clock invariant: a full-length ring, a cursor inside it, and a
    /// running sum that equals the sum of the ring.
    pub open spec fn wf(self) -> bool {
        &&& self.history.len() == FRAME_HISTORY_LEN
        &&& 0 <= self.index < FRAME_HISTORY_LEN
        &&& self.sum == sum_of(self.history)
    }

    /// The rolling average frame duration: the window sum divided by the
    /// window length (truncated). Zero-filled startup entries bias this
    /// downward until the ring has been written once; that transient is
    /// part of the design.
    pub open spec fn rolling_average(self) -> int {
        self.sum / (FRAME_HISTORY_LEN as int)
    }

    /// The FPS estimate: the reciprocal of the rolling average, guarded
    /// to zero when the average is zero.
    pub open spec fn fps_estimate(self) -> int {
        if self.rolling_average() == 0 {
            0
        } else {
            (NANOS_PER_SEC as int) / self.rolling_average()
        }
    }
}

/// The clock after one tick at instant `now`: the measured delta lands in
/// the ring at the cursor, the running sum is adjusted by what it
/// replaced, the cursor advances cyclically, and the elapsed time is
/// refreshed.
pub open spec fn ticked(m: ClockView, now: int) -> ClockView {
    let d = sat_sub(now, m.last);
    ClockView {
        start: m.start,
        last: now,
        delta: d,
        history: m.history.update(m.index, d as u64),
        index: if m.index + 1 == FRAME_HISTORY_LEN { 0int } else { m.index + 1 },
        sum: m.sum - m.history[m.index] + d,
        elapsed: sat_sub(now, m.start),
    }
}

/// Measures frame durations into a rolling window.
pub struct FrameClock {
    start_nanos: u64,
    last_nanos: u64,
    delta_nanos: u64,
    frame_times: Vec<u64>,
    frame_index: usize,
    frame_time_sum: u128,
    time_since_start_nanos: u64,
}

impl View for FrameClock {
    type V = ClockView;

    closed spec fn view(&self) -> ClockView {
        ClockView {
            start: self.start_nanos as int,
            last: self.last_nanos as int,
            delta: self.delta_nanos as int,
            history: self.frame_times@,
            index: self.frame_index as int,
            sum: self.frame_time_sum as int,
            elapsed: self.time_since_start_nanos as int,
        }
    }
}

impl FrameClock {
    /// A clock constructed at instant `start_nanos`: zero-filled ring,
    /// cursor at the front, nothing measured yet.
    pub fn new(start_nanos: u64) -> (c: FrameClock)
        ensures
            c@.wf(),
            c@.start == start_nanos,
            c@.last == start_nanos,
            c@.delta == 0,
            c@.history == Seq::new(FRAME_HISTORY_LEN as nat, |i: int| 0u64),
            c@.index == 0,
            c@.elapsed == 0,
    {
        let mut frame_times: Vec<u64> = Vec::new();
        while frame_times.len() < FRAME_HISTORY_LEN
            invariant
                frame_times@.len() <= FRAME_HISTORY_LEN,
                frame_times@ =~= Seq::new(frame_times@.len(), |i: int| 0u64),
            decreases FRAME_HISTORY_LEN - frame_times.len(),
        {
            frame_times.push(0);
        }
        proof {
            lemma_sum_const(FRAME_HISTORY_LEN as nat, 0);
            assert(FRAME_HISTORY_LEN * 0 == 0) by (nonlinear_arith);
        }
        FrameClock {
            start_nanos,
            last_nanos: start_nanos,
            delta_nanos: 0,
            frame_times,
            frame_index: 0,
            frame_time_sum: 0,
            time_since_start_nanos: 0,
        }
    }

    /// Record one frame boundary at instant `now_nanos` and return the
    /// measured frame duration. The host reads its monotonic clock and
    /// passes the instant in; a report earlier than the previous tick
    /// measures as zero.
    pub fn tick(&mut self, now_nanos: u64) -> (dt: u64)
        requires
            old(self)@.wf(),
        ensures
            final(self)@.wf(),
            final(self)@ == ticked(old(self)@, now_nanos as int),
            dt == final(self)@.delta,
    {
        proof {
            lemma_sum_bounds(self@.history);
        }
        let dt = if now_nanos >= self.last_nanos {
            now_nanos - self.last_nanos
        } else {
            0
        };
        let old_entry = self.frame_times[self.frame_index];
        self.frame_times.set(self.frame_index, dt);
        proof {
            lemma_sum_update(old(self)@.history, old(self)@.index, dt);
            assert(FRAME_HISTORY_LEN * (u64::MAX as int) < u128::MAX) by (nonlinear_arith);
        }
        self.frame_time_sum = self.frame_time_sum - (old_entry as u128) + (dt as u128);
        self.frame_index = if self.frame_index + 1 == FRAME_HISTORY_LEN {
            0
        } else {
            self.frame_index + 1
        };
        self.time_since_start_nanos = if now_nanos >= self.start_nanos {
            now_nanos - self.start_nanos
        } else {
            0
        };
        self.last_nanos = now_nanos;
        self.delta_nanos = dt;
        dt
    }

    /// The duration measured by the most recent tick, in nanoseconds.
    pub fn delta_time(&self) -> (r: u64)
        ensures
            r == self@.delta,
    {
        self.delta_nanos
    }

    /// The rolling average frame duration over the window, in nanoseconds
    /// (truncated).
    pub fn frame_time(&self) -> (r: u64)
        requires
            self@.wf(),
        ensures
            r == self@.rolling_average(),
    {
        proof {
            lemma_sum_bounds(self@.history);
            vstd::arithmetic::div_mod::lemma_div_pos_is_pos(self@.sum, FRAME_HISTORY_LEN as int);
            vstd::arithmetic::div_mod::lemma_div_is_ordered(
                self@.sum,
                FRAME_HISTORY_LEN * (u64::MAX as int),
                FRAME_HISTORY_LEN as int,
            );
            vstd::arithmetic::div_mod::lemma_div_multiples_vanish(
                u64::MAX as int,
                FRAME_HISTORY_LEN as int,
            );
        }
        (self.frame_time_sum / (FRAME_HISTORY_LEN as u128)) as u64
    }

    /// Frames per second estimated from the rolling average, guarded to
    /// zero while the average is zero (before any tick, or under a
    /// stalled clock).
    pub fn fps(&self) -> (r: u64)
        requires
            self@.wf(),
        ensures
            r == self@.fps_estimate(),
    {
        let avg = self.frame_time();
        if avg == 0 {
            0
        } else {
            NANOS_PER_SEC / avg
        }
    }

    /// Nanoseconds between construction and the most recent tick.
    pub fn time_since_start(&self) -> (r: u64)
        ensures
            r == self@.elapsed,
    {
        self.time_since_start_nanos
    }

    /// The instant of the most recent tick, in nanoseconds: the time at
    /// the start of the current frame.
    pub fn current_time(&self) -> (r: u64)
        ensures
            r == self@.last,
    {
        self.last_nanos
    }
}

/// The clock after `n` ticks fed a constant synthetic delta of `d`
/// nanoseconds: each tick happens exactly `d` nanoseconds after the
/// previous one.
pub open spec fn ticked_const(m: ClockView, d: u64, n: nat) -> ClockView
    decreases n,
{
    if n == 0 {
        m
    } else {
        let prev = ticked_const(m, d, (n - 1) as nat);
        ticked(prev, prev.last + d)
    }
}

/// Ring position `j` is among the first `k` written when writing starts
/// at `start` and wraps at `FRAME_HISTORY_LEN`.
spec fn written(j: int, start: int, k: nat) -> bool {
    (start <= j < start + k) || j < start + k - FRAME_HISTORY_LEN
}

/// After `n <= FRAME_HISTORY_LEN` constant-delta ticks, the `n` ring
/// positions from the cursor onward (cyclically) hold `d` and the rest
/// are untouched; the cursor has advanced `n` places.
proof fn lemma_ticked_const_fills(m: ClockView, d: u64, n: nat)
    requires
        m.wf(),
        n <= FRAME_HISTORY_LEN,
    ensures
        ({
            let f = ticked_const(m, d, n);
            &&& f.wf()
            &&& f.start == m.start
            &&& f.last == m.last + n * d
            &&& f.index == if m.index + n < FRAME_HISTORY_LEN {
                m.index + n
            } else {
                m.index + n - FRAME_HISTORY_LEN
            }
            &&& forall|j: int|
                0 <= j < FRAME_HISTORY_LEN ==> f.history[j] == (if written(j, m.index, n) {
                    d
                } else {
                    m.history[j]
                })
        }),
    decreases n,
{
    if n == 0 {
        assert(m.last + n * d == m.last) by (nonlinear_arith)
            requires n == 0;
    } else {
        lemma_ticked_const_fills(m, d, (n - 1) as nat);
        let prev = ticked_const(m, d, (n - 1) as nat);
        let f = ticked(prev, prev.last + d);
        lemma_sum_update(prev.history, prev.index, d);
        assert(m.last + (n - 1) * d + d == m.last + n * d) by (nonlinear_arith)
            requires n >= 1;
        assert forall|j: int| 0 <= j < FRAME_HISTORY_LEN implies f.history[j] == (if written(
            j,
            m.index,
            n,
        ) {
            d
        } else {
            m.history[j]
        }) by {
            assert(f.history[j] == if j == prev.index {
                d
            } else {
                prev.history[j]
            });
        }
    }
}

/// Law: feeding the clock a constant synthetic delta of `d` nanoseconds
/// for a full window of ticks drives the rolling average to exactly `d`,
/// and the FPS estimate to `NANOS_PER_SEC / d` (truncated) — or to the
/// guarded zero when `d` is zero.
pub proof fn lemma_rolling_average_converges(m: ClockView, d: u64)
    requires
        m.wf(),
    ensures
        ({
            let f = ticked_const(m, d, FRAME_HISTORY_LEN as nat);
            &&& f.wf()
            &&& f.rolling_average() == d
            &&& f.fps_estimate() == if d == 0 {
                0int
            } else {
                (NANOS_PER_SEC as int) / (d as int)
            }
        }),
{
    lemma_ticked_const_fills(m, d, FRAME_HISTORY_LEN as nat);
    let f = ticked_const(m, d, FRAME_HISTORY_LEN as nat);
    assert forall|j: int| 0 <= j < FRAME_HISTORY_LEN implies f.history[j] == d by {
        assert(written(j, m.index, FRAME_HISTORY_LEN as nat));
    }
    assert(f.history =~= Seq::new(FRAME_HISTORY_LEN as nat, |i: int| d));
    lemma_sum_const(FRAME_HISTORY_LEN as nat, d);
    assert(f.sum == (FRAME_HISTORY_LEN as int) * (d as int));
    vstd::arithmetic::div_mod::lemma_div_multiples_vanish(d as int, FRAME_HISTORY_LEN as int);
}

} // verus!
