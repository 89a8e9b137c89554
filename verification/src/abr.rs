//! ABR: adaptive bitrate regulation.
//!
//! A lag-sense regulator keeps a bounded FIFO of frames that are
//! enqueued but not yet confirmed delivered; the FIFO's length is the
//! lag signal fed into a PID controller whose output band is the legal
//! bitrate range for the track.  A `Pipeline` holds one regulator for
//! the audio track and one for the video track.

use crate::arith::tdiv;
use crate::pid::PIDController;
use std::collections::VecDeque;
use vstd::prelude::*;

verus! {

// PID controllers' knobs, fixed system-wide, in units of
// `1 / pid::WEIGHT_SCALE`.
pub const LAG_SENSE_PROPORTION: i64 = 2;

pub const LAG_SENSE_INTEGRAL: i64 = 15;

pub const LAG_SENSE_DERIVATIVE: i64 = 1;

pub const LAG_SENSE_ENTRIES: usize = 4;

/// The FIFO contents after pushing one frame: appended at the back,
/// with the oldest entry evicted first when the FIFO is full.
pub open spec fn fifo_pushed(f: Seq<Seq<u8>>, cap: int, b: Seq<u8>) -> Seq<Seq<u8>>
    recommends
        1 <= cap,
{
    if f.len() < cap {
        f.push(b)
    } else {
        f.skip(1).push(b)
    }
}

/// The FIFO contents after pushing a run of frames in order.
pub open spec fn fifo_pushed_all(f: Seq<Seq<u8>>, cap: int, bs: Seq<Seq<u8>>) -> Seq<Seq<u8>>
    decreases bs.len(),
{
    if bs.len() == 0 {
        f
    } else {
        fifo_pushed_all(fifo_pushed(f, cap, bs[0]), cap, bs.skip(1))
    }
}

/// Law: a push beyond capacity evicts exactly the oldest element, and
/// the FIFO length never exceeds the capacity.
pub proof fn lemma_fifo_bounded(f: Seq<Seq<u8>>, cap: int, b: Seq<u8>)
    requires
        1 <= cap,
        f.len() <= cap,
    ensures
        fifo_pushed(f, cap, b).len() <= cap,
        f.len() < cap ==> fifo_pushed(f, cap, b) == f.push(b),
        f.len() == cap ==> fifo_pushed(f, cap, b) == f.skip(1).push(b),
{
}

/// Unrolling a run of pushes from its last element.
pub proof fn lemma_fifo_pushed_all_snoc(f: Seq<Seq<u8>>, cap: int, bs: Seq<Seq<u8>>, b: Seq<u8>)
    ensures
        fifo_pushed_all(f, cap, bs.push(b)) == fifo_pushed(fifo_pushed_all(f, cap, bs), cap, b),
    decreases bs.len(),
{
    if bs.len() == 0 {
        assert(bs.push(b)[0] == b);
        assert(bs.push(b).skip(1) =~= Seq::<Seq<u8>>::empty());
        assert(fifo_pushed_all(f, cap, bs.push(b)) == fifo_pushed_all(
            fifo_pushed(f, cap, b),
            cap,
            Seq::<Seq<u8>>::empty(),
        ));
        assert(fifo_pushed_all(f, cap, bs) == f);
    } else {
        assert(bs.push(b)[0] == bs[0]);
        assert(bs.push(b).skip(1) =~= bs.skip(1).push(b));
        lemma_fifo_pushed_all_snoc(fifo_pushed(f, cap, bs[0]), cap, bs.skip(1), b);
        assert(fifo_pushed_all(f, cap, bs.push(b)) == fifo_pushed_all(
            fifo_pushed(f, cap, bs[0]),
            cap,
            bs.skip(1).push(b),
        ));
    }
}

/// Law: any run of pushes keeps the FIFO length at or below capacity.
pub proof fn lemma_fifo_all_bounded(f: Seq<Seq<u8>>, cap: int, bs: Seq<Seq<u8>>)
    requires
        1 <= cap,
        f.len() <= cap,
    ensures
        fifo_pushed_all(f, cap, bs).len() <= cap,
    decreases bs.len(),
{
    if bs.len() > 0 {
        lemma_fifo_bounded(f, cap, bs[0]);
        lemma_fifo_all_bounded(fifo_pushed(f, cap, bs[0]), cap, bs.skip(1));
    }
}

/// Per-track bookkeeping: a bounded FIFO of pending frames plus one
/// feedback controller that converts queue depth into a bitrate.
pub struct LagSenseRegulator {
    pub controller: PIDController,
    pub fifo: VecDeque<Vec<u8>>,
    pub fifo_capacity: usize,
}

impl LagSenseRegulator {
    /// The frames pending in the FIFO, oldest first, as byte sequences.
    pub open spec fn frames(&self) -> Seq<Seq<u8>> {
        self.fifo.deep_view()
    }

    pub open spec fn wf(&self) -> bool {
        &&& self.controller.wf()
        &&& 1 <= self.fifo_capacity
        &&& self.fifo_capacity <= i64::MAX
        &&& self.fifo@.len() <= self.fifo_capacity
    }

    /// A freshly built regulator for a track with the given bitrate
    /// band and FIFO depth: empty FIFO, controller at the band's
    /// midpoint, system-wide tuning constants.
    pub open spec fn is_fresh(&self, min_rate: i64, max_rate: i64, cap: usize) -> bool {
        &&& self.wf()
        &&& self.frames() == Seq::<Seq<u8>>::empty()
        &&& self.fifo_capacity == cap
        &&& self.controller.min == min_rate
        &&& self.controller.max == max_rate
        &&& self.controller.current == min_rate + tdiv(max_rate - min_rate, 2)
        &&& self.controller.weight_proportion == LAG_SENSE_PROPORTION
        &&& self.controller.weight_integral == LAG_SENSE_INTEGRAL
        &&& self.controller.weight_derivative == LAG_SENSE_DERIVATIVE
        &&& self.controller.integral_size == LAG_SENSE_ENTRIES
        &&& self.controller.proportion == 0
        &&& self.controller.derivative == 0
        &&& self.controller.derivative_previous == 0
    }

    /// A regulator for one track: empty FIFO, controller spanning the
    /// track's bitrate band and starting at its midpoint, system-wide
    /// tuning constants.
    pub fn new(min_rate: i64, max_rate: i64, fifo_capacity: usize) -> (r: LagSenseRegulator)
        requires
            0 <= min_rate <= max_rate,
            1 <= fifo_capacity,
            fifo_capacity <= i64::MAX,
        ensures
            r.is_fresh(min_rate, max_rate, fifo_capacity),
    {
        proof {
            vstd::arithmetic::div_mod::lemma_div_nonincreasing(max_rate - min_rate, 2);
            vstd::arithmetic::div_mod::lemma_div_pos_is_pos(max_rate - min_rate, 2);
        }
        let half_span = crate::arith::div_trunc(max_rate - min_rate, 2);
        let median = min_rate + half_span;
        let r = LagSenseRegulator {
            controller: PIDController::new(
                min_rate,
                max_rate,
                LAG_SENSE_PROPORTION,
                LAG_SENSE_INTEGRAL,
                LAG_SENSE_DERIVATIVE,
                LAG_SENSE_ENTRIES,
                median,
                0,
                0,
            ),
            fifo: VecDeque::new(),
            fifo_capacity,
        };
        proof {
            assert(r.frames() =~= Seq::<Seq<u8>>::empty());
        }
        r
    }

    /// Enqueue a pending frame; at capacity the oldest frame is evicted
    /// so that memory stays bounded.
    pub fn push(&mut self, buf: Vec<u8>)
        requires
            old(self).wf(),
        ensures
            final(self).wf(),
            final(self).controller == old(self).controller,
            final(self).fifo_capacity == old(self).fifo_capacity,
            final(self).frames() == fifo_pushed(
                old(self).frames(),
                old(self).fifo_capacity as int,
                buf@,
            ),
            final(self).frames().len() <= final(self).fifo_capacity,
    {
        let ghost pre = self.fifo.deep_view();
        if self.fifo.len() >= self.fifo_capacity {
            let _ = self.fifo.pop_front();
            proof {
                assert(self.fifo.deep_view() =~= pre.skip(1));
            }
        }
        let ghost mid = self.fifo.deep_view();
        self.fifo.push_back(buf);
        proof {
            assert(self.fifo.deep_view() =~~= mid.push(buf@));
            assert(self.fifo.deep_view() =~= fifo_pushed(pre, self.fifo_capacity as int, buf@));
        }
    }

    /// Dequeue the oldest pending frame, if any; absence is not an
    /// error, it signals "not ready yet".
    pub fn pop(&mut self) -> (r: Option<Vec<u8>>)
        requires
            old(self).wf(),
        ensures
            final(self).wf(),
            final(self).controller == old(self).controller,
            final(self).fifo_capacity == old(self).fifo_capacity,
            old(self).frames().len() == 0 ==> r is None && final(self).frames() == old(
                self,
            ).frames(),
            old(self).frames().len() > 0 ==> (r matches Some(b) && b@ == old(self).frames()[0]
                && final(self).frames() == old(self).frames().skip(1)),
    {
        let ghost pre = self.fifo.deep_view();
        let r = self.fifo.pop_front();
        proof {
            if pre.len() > 0 {
                assert(self.fifo.deep_view() =~= pre.skip(1));
            } else {
                assert(self.fifo.deep_view() =~= pre);
            }
        }
        r
    }

    /// Release every pending frame, as session teardown does.
    pub fn clear(&mut self)
        requires
            old(self).wf(),
        ensures
            final(self).wf(),
            final(self).controller == old(self).controller,
            final(self).fifo_capacity == old(self).fifo_capacity,
            final(self).frames() == Seq::<Seq<u8>>::empty(),
    {
        self.fifo.clear();
        proof {
            assert(self.fifo.deep_view() =~= Seq::<Seq<u8>>::empty());
        }
    }

    /// Current queue depth, the lag signal.
    pub fn len(&self) -> (n: usize)
        ensures
            n == self.frames().len(),
    {
        self.fifo.len()
    }

    /// Feed the current queue depth into the controller and return the
    /// new clamped bitrate recommendation for the track.
    pub fn observe_and_recommend(&mut self) -> (rate: i64)
        requires
            old(self).wf(),
        ensures
            final(self).wf(),
            final(self).fifo == old(self).fifo,
            final(self).fifo_capacity == old(self).fifo_capacity,
            PIDController::adjust_rel(
                old(self).controller,
                final(self).controller,
                old(self).frames().len() as i64,
            ),
            rate == final(self).controller.current,
            old(self).controller.min <= rate <= old(self).controller.max,
    {
        let depth = self.fifo.len();
        self.controller.adjust(depth as i64)
    }
}

/// Per-session ABR state: one lag-sense regulator per media track.
pub struct Pipeline {
    pub lag_sense_audio: LagSenseRegulator,
    pub lag_sense_video: LagSenseRegulator,
}

impl Pipeline {
    pub open spec fn wf(&self) -> bool {
        &&& self.lag_sense_audio.wf()
        &&& self.lag_sense_video.wf()
    }

    /// Generate an ABR pipeline with independent rate bands and FIFO
    /// depths for the two tracks.
    pub fn new(
        audio_min_rate: i64,
        audio_max_rate: i64,
        video_min_rate: i64,
        video_max_rate: i64,
        audio_fifo_depth: usize,
        video_fifo_depth: usize,
    ) -> (p: Pipeline)
        requires
            0 <= audio_min_rate <= audio_max_rate,
            0 <= video_min_rate <= video_max_rate,
            1 <= audio_fifo_depth,
            audio_fifo_depth <= i64::MAX,
            1 <= video_fifo_depth,
            video_fifo_depth <= i64::MAX,
        ensures
            p.wf(),
            p.lag_sense_audio.is_fresh(audio_min_rate, audio_max_rate, audio_fifo_depth),
            p.lag_sense_video.is_fresh(video_min_rate, video_max_rate, video_fifo_depth),
    {
        Pipeline {
            lag_sense_audio: LagSenseRegulator::new(audio_min_rate, audio_max_rate, audio_fifo_depth),
            lag_sense_video: LagSenseRegulator::new(video_min_rate, video_max_rate, video_fifo_depth),
        }
    }
}

} // verus!
