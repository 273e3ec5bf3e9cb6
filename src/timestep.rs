//! The smoothed time step that drives the trajectory preview.
use vstd::prelude::*;
use vstd::arithmetic::power::pow;
use crate::fixed::{abs, lemma_tdiv, tdiv};
use crate::integrator::MAX_DT;

verus! {

/// The time step that smoothing starts from: one sixtieth of a second, in raw units.
pub const DEFAULT_DT: i64 = 167;

/// `0.8 * smoothed + 0.2 * raw`, written as a fifth of the way from `smoothed` to `raw`
/// with the remaining four fifths of the gap rounded toward zero.
pub open spec fn smooth(smoothed: int, raw: int) -> int {
    raw + tdiv(4 * (smoothed - raw), 5)
}

/// The smoothed value after `n` frames that each bring the same `raw` step.
pub open spec fn smoothed_after(smoothed: int, raw: int, n: nat) -> int
    decreases n,
{
    if n == 0 {
        smoothed
    } else {
        smooth(smoothed_after(smoothed, raw, (n - 1) as nat), raw)
    }
}

/// The exponentially smoothed frame time. It does not feed the live physics, which
/// uses each frame's own time.
#[derive(Clone, Copy, Debug, PartialEq, Eq)]
pub struct DeltaTime {
    pub time: i64,
}

/// One frame of smoothing keeps at most four fifths of the gap to the raw step, keeps its
/// sign, and closes a nonzero gap by at least one raw unit.
pub proof fn lemma_smooth_step(smoothed: int, raw: int)
    ensures
        5 * abs(smooth(smoothed, raw) - raw) <= 4 * abs(smoothed - raw),
        smoothed != raw ==> abs(smooth(smoothed, raw) - raw) < abs(smoothed - raw),
        smoothed >= raw ==> smooth(smoothed, raw) >= raw,
        smoothed <= raw ==> smooth(smoothed, raw) <= raw,
{
    lemma_tdiv(4 * (smoothed - raw), 5);
}

/// Feeding the same raw step again and again shrinks the gap geometrically, by a factor
/// of at least 0.8 a frame, and after as many frames as the first gap holds raw units the
/// smoothed value equals the raw step.
pub proof fn lemma_smoothing_converges(smoothed: int, raw: int, n: nat)
    ensures
        pow(5, n) * abs(smoothed_after(smoothed, raw, n) - raw) <= pow(4, n) * abs(smoothed - raw),
        abs(smoothed_after(smoothed, raw, n) - raw) <= if abs(smoothed - raw) >= n {
            abs(smoothed - raw) - n
        } else {
            0
        },
    decreases n,
{
    if n == 0 {
        assert(pow(5, 0) == 1 && pow(4, 0) == 1) by {
            vstd::arithmetic::power::lemma_pow0(5);
            vstd::arithmetic::power::lemma_pow0(4);
        }
    } else {
        let m = (n - 1) as nat;
        lemma_smoothing_converges(smoothed, raw, m);
        let prev = smoothed_after(smoothed, raw, m);
        lemma_smooth_step(prev, raw);
        let e = abs(prev - raw);
        let e2 = abs(smoothed_after(smoothed, raw, n) - raw);
        let e0 = abs(smoothed - raw);
        assert(pow(5, n) == 5 * pow(5, m) && pow(4, n) == 4 * pow(4, m)) by {
            vstd::arithmetic::power::lemma_pow_adds(5, 1, m);
            vstd::arithmetic::power::lemma_pow_adds(4, 1, m);
            vstd::arithmetic::power::lemma_pow1(5);
            vstd::arithmetic::power::lemma_pow1(4);
        }
        assert(pow(5, m) >= 0) by {
            vstd::arithmetic::power::lemma_pow_positive(5, m);
        }
        assert(pow(5, n) * e2 <= pow(4, n) * e0) by (nonlinear_arith)
            requires
                pow(5, n) == 5 * pow(5, m),
                pow(4, n) == 4 * pow(4, m),
                pow(5, m) >= 0,
                5 * e2 <= 4 * e,
                pow(5, m) * e <= pow(4, m) * e0,
        ;
    }
}

impl DeltaTime {
    /// Smoothing as it stands when a level is loaded.
    pub fn new() -> (r: DeltaTime)
        ensures
            r.time == DEFAULT_DT,
    {
        DeltaTime { time: DEFAULT_DT }
    }

    /// Takes one frame's raw time step into the smoothed value.
    pub fn update(&mut self, raw_dt: i64)
        requires
            0 <= old(self).time <= MAX_DT,
            0 <= raw_dt <= MAX_DT,
        ensures
            final(self).time == smooth(old(self).time as int, raw_dt as int),
            0 <= final(self).time <= MAX_DT,
    {
        proof {
            lemma_smooth_step(self.time as int, raw_dt as int);
        }
        self.time = raw_dt + 4 * (self.time - raw_dt) / 5;
    }
}

} // verus!
