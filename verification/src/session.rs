//! Session: the unit of ABR state bound to one call identifier.
//!
//! A session is created on a session-creation command, owns one
//! lag-sense regulator per track while it is `Active`, and becomes
//! `Halted` on a teardown command.  `Halted` is terminal: the pending
//! frames are released and no further track command is accepted.

use crate::abr::Pipeline;
use vstd::prelude::*;

verus! {

#[derive(PartialEq, Eq, Structural, Clone, Copy, Debug)]
pub enum SessionState {
    Active,
    Halted,
}

pub struct Session {
    pub ident: i64,
    pub state: SessionState,
    pub pipe: Pipeline,
}

impl Session {
    pub open spec fn wf(&self) -> bool {
        self.pipe.wf()
    }

    /// How a halted session relates to its former self: same identity
    /// and tuning, pending frames released, state terminal.
    pub open spec fn halted_from(post: Session, pre: Session) -> bool {
        &&& post.ident == pre.ident
        &&& post.state == SessionState::Halted
        &&& post.pipe.lag_sense_audio.controller == pre.pipe.lag_sense_audio.controller
        &&& post.pipe.lag_sense_audio.fifo_capacity == pre.pipe.lag_sense_audio.fifo_capacity
        &&& post.pipe.lag_sense_audio.frames() == Seq::<Seq<u8>>::empty()
        &&& post.pipe.lag_sense_video.controller == pre.pipe.lag_sense_video.controller
        &&& post.pipe.lag_sense_video.fifo_capacity == pre.pipe.lag_sense_video.fifo_capacity
        &&& post.pipe.lag_sense_video.frames() == Seq::<Seq<u8>>::empty()
    }

    pub fn new(
        ident: i64,
        audio_min_rate: i64,
        audio_max_rate: i64,
        video_min_rate: i64,
        video_max_rate: i64,
        audio_fifo_depth: usize,
        video_fifo_depth: usize,
    ) -> (s: Session)
        requires
            0 <= audio_min_rate <= audio_max_rate,
            0 <= video_min_rate <= video_max_rate,
            1 <= audio_fifo_depth,
            audio_fifo_depth <= i64::MAX,
            1 <= video_fifo_depth,
            video_fifo_depth <= i64::MAX,
        ensures
            s.wf(),
            s.ident == ident,
            s.state == SessionState::Active,
            s.pipe.lag_sense_audio.is_fresh(audio_min_rate, audio_max_rate, audio_fifo_depth),
            s.pipe.lag_sense_video.is_fresh(video_min_rate, video_max_rate, video_fifo_depth),
    {
        Session {
            ident,
            state: SessionState::Active,
            pipe: Pipeline::new(
                audio_min_rate,
                audio_max_rate,
                video_min_rate,
                video_max_rate,
                audio_fifo_depth,
                video_fifo_depth,
            ),
        }
    }

    pub fn is_active(&self) -> (r: bool)
        ensures
            r == (self.state == SessionState::Active),
    {
        self.state == SessionState::Active
    }

    /// Tear the session down: release the pending frames and enter the
    /// terminal `Halted` state.
    pub fn halt(&mut self)
        requires
            old(self).wf(),
        ensures
            final(self).wf(),
            Session::halted_from(*final(self), *old(self)),
    {
        self.state = SessionState::Halted;
        self.pipe.lag_sense_audio.clear();
        self.pipe.lag_sense_video.clear();
    }
}

} // verus!
