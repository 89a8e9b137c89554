//! PID: Proportional-Integral-Derivative control.
//!
//! A discrete feedback controller over a bounded `i64` range.  The
//! controller's own output value is its feedback state: each `adjust`
//! drives `current` toward the target incrementally instead of snapping
//! to it, which smooths bitrate changes.  Weights are fixed-point
//! values in units of `1/WEIGHT_SCALE`.

use crate::arith::{clamp64, clip64, div_trunc, sat_add, sat_mul, sat_sub, tdiv};
use std::collections::VecDeque;
use vstd::prelude::*;

verus! {

/// Denominator shared by the three controller weights: a weight of `w`
/// scales its term by `w / WEIGHT_SCALE`.
pub const WEIGHT_SCALE: i64 = 100;

/// PID controller object over saturating `i64` arithmetic.
pub struct PIDController {
    /// The P term: the error of `current` against the passed target.
    pub proportion: i64,
    /// The I term: a window of the most recent proportion values,
    /// most-recent-first.
    pub integral: VecDeque<i64>,
    /// The fixed but adjustable size the window is renormalized to on
    /// every `adjust`.
    pub integral_size: usize,
    /// The D term: the current rate of change of the proportion term.
    pub derivative: i64,
    /// The previous D term, needed to compute the next derivative.
    pub derivative_previous: i64,
    /// The last output, always within `[min, max]`.
    pub current: i64,
    pub weight_proportion: i64,
    pub weight_integral: i64,
    pub weight_derivative: i64,
    /// Minimum value this controller can emit.
    pub min: i64,
    /// Maximum value this controller can emit.
    pub max: i64,
}

/// Sum of a window, accumulated left to right with saturation.
pub open spec fn sat_sum_spec(s: Seq<i64>) -> int
    decreases s.len(),
{
    if s.len() == 0 {
        0
    } else {
        clip64(sat_sum_spec(s.drop_last()) + s.last())
    }
}

/// The integral window after one `adjust` with new proportion `p`:
/// trimmed from the back to `size - 1` entries, zero-padded at the
/// back up to `size - 1` entries, then `p` pushed onto the front.
pub open spec fn window_after(w: Seq<i64>, size: int, p: i64) -> Seq<i64>
    recommends
        1 <= size,
{
    if w.len() > size - 1 {
        seq![p] + w.take(size - 1)
    } else {
        seq![p] + w + Seq::new((size - 1 - w.len()) as nat, |i: int| 0i64)
    }
}

/// The weighted sum of the three terms, scaled down by `WEIGHT_SCALE`.
pub open spec fn weighted_output(p: i64, mean: int, d: i64, wp: i64, wi: i64, wd: i64) -> int {
    tdiv(
        clip64(clip64(clip64(p * wp) + clip64(mean * wi)) + clip64(d * wd)),
        WEIGHT_SCALE as int,
    )
}

impl PIDController {
    /// Well-formedness: the output band is ordered, `current` sits in
    /// it, and the window size is positive and countable in `i64`.
    pub open spec fn wf(&self) -> bool {
        &&& self.min <= self.max
        &&& self.min <= self.current <= self.max
        &&& 1 <= self.integral_size
        &&& self.integral_size <= i64::MAX
    }

    /// The tuning constants and output band, which `adjust` never touches.
    pub open spec fn same_knobs(&self, other: &PIDController) -> bool {
        &&& self.integral_size == other.integral_size
        &&& self.weight_proportion == other.weight_proportion
        &&& self.weight_integral == other.weight_integral
        &&& self.weight_derivative == other.weight_derivative
        &&& self.min == other.min
        &&& self.max == other.max
    }

    /// The full state transition performed by one `adjust(value)` call.
    pub open spec fn adjust_rel(pre: PIDController, post: PIDController, value: i64) -> bool {
        let p = clip64(value - pre.current) as i64;
        let w = window_after(pre.integral@, pre.integral_size as int, p);
        let mean = tdiv(sat_sum_spec(w), pre.integral_size as int);
        let d = clip64(p - pre.derivative_previous) as i64;
        let out = weighted_output(
            p,
            mean,
            d,
            pre.weight_proportion,
            pre.weight_integral,
            pre.weight_derivative,
        );
        &&& pre.same_knobs(&post)
        &&& post.proportion == p
        &&& post.integral@ == w
        &&& post.derivative_previous == pre.derivative
        &&& post.derivative == d
        &&& post.current == clamp64(clip64(pre.current + out), pre.min as int, pre.max as int)
    }

    pub fn new(
        min: i64,
        max: i64,
        weight_proportion: i64,
        weight_integral: i64,
        weight_derivative: i64,
        integral_size: usize,
        start_at: i64,
        start_proportion: i64,
        start_derivative: i64,
    ) -> (c: PIDController)
        requires
            min <= max,
            min <= start_at <= max,
            1 <= integral_size,
            integral_size <= i64::MAX,
        ensures
            c.wf(),
            c.min == min,
            c.max == max,
            c.weight_proportion == weight_proportion,
            c.weight_integral == weight_integral,
            c.weight_derivative == weight_derivative,
            c.integral_size == integral_size,
            c.current == start_at,
            c.proportion == start_proportion,
            c.derivative == start_derivative,
            c.derivative_previous == start_derivative,
            c.integral@ == Seq::new(integral_size as nat, |i: int| 0i64),
    {
        let mut window: VecDeque<i64> = VecDeque::new();
        let mut filled: usize = 0;
        while filled < integral_size
            invariant
                filled <= integral_size,
                window@ =~= Seq::new(filled as nat, |i: int| 0i64),
            decreases integral_size - filled,
        {
            window.push_back(0);
            filled = filled + 1;
            proof {
                assert(window@ =~= Seq::new(filled as nat, |i: int| 0i64));
            }
        }
        PIDController {
            proportion: start_proportion,
            integral: window,
            integral_size,
            derivative: start_derivative,
            derivative_previous: start_derivative,
            current: start_at,
            weight_proportion,
            weight_integral,
            weight_derivative,
            min,
            max,
        }
    }

    /// One feedback step toward `value`; returns the new clamped output.
    ///
    /// The error term, window renormalization, derivative recurrence and
    /// weighted output follow `adjust_rel` exactly; `current` stays in
    /// `[min, max]` and the window leaves with exactly `integral_size`
    /// entries, whatever the window held on entry.
    #[verifier::loop_isolation(false)]
    pub fn adjust(&mut self, value: i64) -> (r: i64)
        requires
            old(self).wf(),
        ensures
            PIDController::adjust_rel(*old(self), *final(self), value),
            r == final(self).current,
            old(self).min <= r <= old(self).max,
            final(self).wf(),
            final(self).integral@.len() == final(self).integral_size,
    {
        // adjust proportion here
        let p = sat_sub(value, self.current);

        // adjust integral here, working on the window alone so that the
        // rest of the state stays untouched until the final writes
        let mut win: VecDeque<i64> = VecDeque::new();
        core::mem::swap(&mut self.integral, &mut win);
        let ghost w0 = win@;
        let keep: usize = self.integral_size - 1;
        // trim the back down to size - 1 entries
        while win.len() > keep
            invariant
                win@ == w0.take(win@.len() as int),
                win@.len() == w0.len() || keep <= win@.len() <= w0.len(),
            decreases win.len(),
        {
            let _ = win.pop_back();
        }
        proof {
            if w0.len() > keep {
                assert(win@.len() == keep);
            } else {
                assert(win@.len() == w0.len());
                assert(win@ =~= w0);
            }
        }
        // then zero-pad the back up to size - 1 entries
        let ghost w1 = win@;
        while win.len() < keep
            invariant
                w1.len() <= win@.len() <= keep,
                win@ == w1 + Seq::new((win@.len() - w1.len()) as nat, |i: int| 0i64),
            decreases keep - win.len(),
        {
            win.push_back(0);
            proof {
                assert(win@ =~= w1 + Seq::new((win@.len() - w1.len()) as nat, |i: int| 0i64));
            }
        }
        // finally the window is sized, push the new proportion in front
        win.push_front(p);
        proof {
            let size = self.integral_size as int;
            if w0.len() > size - 1 {
                assert(w1 =~= w0.take(size - 1));
                assert(win@ =~= seq![p] + w0.take(size - 1));
            } else {
                assert(w1 =~= w0);
                assert(win@ =~= seq![p] + w0 + Seq::new((size - 1 - w0.len()) as nat, |i: int| 0i64));
            }
            assert(win@ =~= window_after(w0, size, p));
        }

        // adjust derivative here
        let derivative_hold = self.derivative_previous;
        let d = sat_sub(p, derivative_hold);

        // calc result
        let total = sat_sum(&win);
        let n: i64 = win.len() as i64;
        let mean = div_trunc(total, n);
        let term_p = sat_mul(p, self.weight_proportion);
        let term_i = sat_mul(mean, self.weight_integral);
        let term_d = sat_mul(d, self.weight_derivative);
        let raw = sat_add(sat_add(term_p, term_i), term_d);
        let output = div_trunc(raw, WEIGHT_SCALE);

        // set current then clamp
        let mut next = sat_add(self.current, output);
        if next < self.min {
            next = self.min;
        }
        if next > self.max {
            next = self.max;
        }

        self.proportion = p;
        self.integral = win;
        self.derivative_previous = self.derivative;
        self.derivative = d;
        self.current = next;
        self.current
    }
}

fn sat_sum(w: &VecDeque<i64>) -> (r: i64)
    ensures
        r == sat_sum_spec(w@),
{
    let mut acc: i64 = 0;
    let mut i: usize = 0;
    while i < w.len()
        invariant
            i <= w@.len(),
            acc == sat_sum_spec(w@.take(i as int)),
        decreases w@.len() - i,
    {
        let next = sat_add(acc, w[i]);
        proof {
            assert(w@.take(i + 1 as int).drop_last() =~= w@.take(i as int));
            assert(w@.take(i + 1 as int).last() == w@[i as int]);
        }
        acc = next;
        i = i + 1;
    }
    proof {
        assert(w@.take(w@.len() as int) =~= w@);
    }
    acc
}

/// Law: one `adjust` step never leaves the output band — from any
/// well-formed state, the new `current` lies in `[min, max]` and the
/// state is well-formed again, so any run of `adjust` calls keeps
/// `current` inside `[min, max]`.
pub proof fn lemma_adjust_stays_in_band(pre: PIDController, post: PIDController, value: i64)
    requires
        pre.wf(),
        PIDController::adjust_rel(pre, post, value),
    ensures
        pre.min <= post.current <= pre.max,
        post.wf(),
{
}

/// Law: one `adjust` step leaves the integral window with exactly
/// `integral_size` entries, whatever length the window had before —
/// including after runtime changes to `integral_size`.
pub proof fn lemma_window_exact(pre: PIDController, post: PIDController, value: i64)
    requires
        pre.wf(),
        PIDController::adjust_rel(pre, post, value),
    ensures
        post.integral@.len() == post.integral_size,
{
}

} // verus!
