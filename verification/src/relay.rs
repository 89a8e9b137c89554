//! Transport/dispatch runloop state: maps command codes to actions
//! against the addressed session, or to process-wide liveness and
//! shutdown actions, and produces exactly one reply per request.
//!
//! The caller owns the byte channel: it decodes one request, feeds it
//! to `dispatch`, and acts on the outcome — write the reply and go on,
//! write the reply and shut down, or terminate at once without a reply
//! when the stream cannot be trusted any more.

use crate::abr::{fifo_pushed_all, LagSenseRegulator, Pipeline};
use crate::frame::{be64, get_u32, push_be64, u32_of_be, AVFrame};
use crate::pid::PIDController;
use crate::session::{Session, SessionState};
use vstd::prelude::*;

verus! {

// The closed command-code space, shared by requests and the synthetic
// replies the runloop generates.
pub const HALT: u8 = 0x01;

pub const HUNG_UP: u8 = 0x02;

pub const AUDIO_ABR_QUALITY: u8 = 0x03;

pub const VIDEO_ABR_QUALITY: u8 = 0x04;

pub const AUDIO_FRAME_SEND: u8 = 0x05;

pub const VIDEO_FRAME_SEND: u8 = 0x06;

pub const AUDIO_FRAME_RECV: u8 = 0x07;

pub const VIDEO_FRAME_RECV: u8 = 0x08;

pub const PICK_UP: u8 = 0x09;

pub const PING: u8 = 0x80;

pub const PONG: u8 = 0x81;

/// Reply code flagging a recoverable session error.
pub const FAULT: u8 = 0xFF;

/// What the runloop must do after handling one request.
#[derive(Debug)]
pub enum Outcome {
    /// Write the reply and accept the next request.
    Reply(AVFrame),
    /// Write the reply, then leave the runloop: graceful shutdown.
    HaltReply(AVFrame),
    /// Unrecognized command: terminate without a reply, the stream
    /// cannot be trusted to resynchronize.
    Fatal,
}

/// The request codes the runloop accepts.
pub open spec fn recognized(c: u8) -> bool {
    ||| c == HALT
    ||| c == HUNG_UP
    ||| c == AUDIO_ABR_QUALITY
    ||| c == VIDEO_ABR_QUALITY
    ||| c == AUDIO_FRAME_SEND
    ||| c == VIDEO_FRAME_SEND
    ||| c == AUDIO_FRAME_RECV
    ||| c == VIDEO_FRAME_RECV
    ||| c == PICK_UP
    ||| c == PING
}

/// The buffer list carried by an acknowledgement: one empty buffer.
pub open spec fn blank() -> Seq<Seq<u8>> {
    seq![Seq::<u8>::empty()]
}

pub open spec fn reply_with(out: Outcome, cmd: u8, ident: i64, bufs: Seq<Seq<u8>>) -> bool {
    out matches Outcome::Reply(r) && r.command == cmd && r.ident == ident && r.frame.deep_view()
        == bufs
}

/// An error-flagged reply carrying the request's identifier.
pub open spec fn fault_reply(out: Outcome, ident: i64) -> bool {
    reply_with(out, FAULT, ident, Seq::<Seq<u8>>::empty())
}

pub open spec fn has_session(s: Seq<Session>, ident: i64) -> bool {
    exists|j: int| 0 <= j < s.len() && (#[trigger] s[j]).ident == ident
}

pub open spec fn active_session(s: Seq<Session>, ident: i64) -> bool {
    exists|j: int|
        0 <= j < s.len() && (#[trigger] s[j]).ident == ident && s[j].state == SessionState::Active
}

/// A well-formed session-creation payload: one 24-byte buffer holding,
/// big-endian, the audio rate band, the video rate band, and the two
/// FIFO depths, each band ordered and each depth positive.
pub open spec fn setup_ok(f: Seq<Seq<u8>>) -> bool {
    &&& f.len() == 1
    &&& f[0].len() == 24
    &&& u32_of_be(f[0].subrange(0, 4)) <= u32_of_be(f[0].subrange(4, 8))
    &&& u32_of_be(f[0].subrange(8, 12)) <= u32_of_be(f[0].subrange(12, 16))
    &&& u32_of_be(f[0].subrange(16, 20)) >= 1
    &&& u32_of_be(f[0].subrange(20, 24)) >= 1
}

/// The session a well-formed creation request asks for.
pub open spec fn setup_session(s: Session, msg: AVFrame) -> bool {
    let f = msg.frame.deep_view()[0];
    &&& s.ident == msg.ident
    &&& s.state == SessionState::Active
    &&& s.pipe.lag_sense_audio.is_fresh(
        u32_of_be(f.subrange(0, 4)) as i64,
        u32_of_be(f.subrange(4, 8)) as i64,
        u32_of_be(f.subrange(16, 20)) as usize,
    )
    &&& s.pipe.lag_sense_video.is_fresh(
        u32_of_be(f.subrange(8, 12)) as i64,
        u32_of_be(f.subrange(12, 16)) as i64,
        u32_of_be(f.subrange(20, 24)) as usize,
    )
}

/// Session creation: rejected when the identifier is taken or the
/// payload malformed, otherwise a fresh `Active` session is appended.
pub open spec fn pick_up_rel(pre: Seq<Session>, msg: AVFrame, post: Seq<Session>, out: Outcome) -> bool {
    if has_session(pre, msg.ident) || !setup_ok(msg.frame.deep_view()) {
        post == pre && fault_reply(out, msg.ident)
    } else {
        &&& post.len() == pre.len() + 1
        &&& post.take(pre.len() as int) == pre
        &&& setup_session(post.last(), msg)
        &&& reply_with(out, PICK_UP, msg.ident, blank())
    }
}

/// Session teardown at index `i`.
pub open spec fn hang_up_at(pre: Seq<Session>, msg: AVFrame, post: Seq<Session>, out: Outcome, i: int) -> bool {
    &&& 0 <= i < pre.len()
    &&& pre[i].ident == msg.ident
    &&& pre[i].state == SessionState::Active
    &&& post.len() == pre.len()
    &&& (forall|j: int| 0 <= j < pre.len() && j != i ==> post[j] == pre[j])
    &&& Session::halted_from(post[i], pre[i])
    &&& reply_with(out, HUNG_UP, msg.ident, blank())
}

pub open spec fn hang_up_rel(pre: Seq<Session>, msg: AVFrame, post: Seq<Session>, out: Outcome) -> bool {
    if active_session(pre, msg.ident) {
        exists|i: int| #[trigger] hang_up_at(pre, msg, post, out, i)
    } else {
        post == pre && fault_reply(out, msg.ident)
    }
}

/// A frame-send command: every buffer of the request is pushed into
/// the track's FIFO in order, evicting oldest entries at capacity, and
/// an acknowledgement echoes the command.
pub open spec fn send_step(pre: LagSenseRegulator, post: LagSenseRegulator, msg: AVFrame, out: Outcome) -> bool {
    &&& post.controller == pre.controller
    &&& post.fifo_capacity == pre.fifo_capacity
    &&& post.frames() == fifo_pushed_all(
        pre.frames(),
        pre.fifo_capacity as int,
        msg.frame.deep_view(),
    )
    &&& reply_with(out, msg.command, msg.ident, blank())
}

/// A frame-receive command: the oldest pending frame, if any, leaves
/// the track's FIFO and rides on the reply; an empty reply signals
/// "not ready yet".
pub open spec fn recv_step(pre: LagSenseRegulator, post: LagSenseRegulator, msg: AVFrame, out: Outcome) -> bool {
    &&& post.controller == pre.controller
    &&& post.fifo_capacity == pre.fifo_capacity
    &&& if pre.frames().len() > 0 {
        post.frames() == pre.frames().skip(1) && reply_with(
            out,
            msg.command,
            msg.ident,
            seq![pre.frames()[0]],
        )
    } else {
        post.frames() == pre.frames() && reply_with(
            out,
            msg.command,
            msg.ident,
            Seq::<Seq<u8>>::empty(),
        )
    }
}

/// An ABR-quality command: the track's queue depth is fed through the
/// controller, and the new clamped bitrate rides on the reply as eight
/// big-endian bytes.
pub open spec fn quality_step(pre: LagSenseRegulator, post: LagSenseRegulator, msg: AVFrame, out: Outcome) -> bool {
    &&& post.fifo == pre.fifo
    &&& post.fifo_capacity == pre.fifo_capacity
    &&& PIDController::adjust_rel(pre.controller, post.controller, pre.frames().len() as i64)
    &&& reply_with(out, msg.command, msg.ident, seq![be64(post.controller.current as u64)])
}

/// Which track a session-addressed command changes, and how.
pub open spec fn track_step(pre: Pipeline, post: Pipeline, msg: AVFrame, out: Outcome) -> bool {
    if msg.command == AUDIO_FRAME_SEND {
        post.lag_sense_video == pre.lag_sense_video && send_step(
            pre.lag_sense_audio,
            post.lag_sense_audio,
            msg,
            out,
        )
    } else if msg.command == VIDEO_FRAME_SEND {
        post.lag_sense_audio == pre.lag_sense_audio && send_step(
            pre.lag_sense_video,
            post.lag_sense_video,
            msg,
            out,
        )
    } else if msg.command == AUDIO_FRAME_RECV {
        post.lag_sense_video == pre.lag_sense_video && recv_step(
            pre.lag_sense_audio,
            post.lag_sense_audio,
            msg,
            out,
        )
    } else if msg.command == VIDEO_FRAME_RECV {
        post.lag_sense_audio == pre.lag_sense_audio && recv_step(
            pre.lag_sense_video,
            post.lag_sense_video,
            msg,
            out,
        )
    } else if msg.command == AUDIO_ABR_QUALITY {
        post.lag_sense_video == pre.lag_sense_video && quality_step(
            pre.lag_sense_audio,
            post.lag_sense_audio,
            msg,
            out,
        )
    } else if msg.command == VIDEO_ABR_QUALITY {
        post.lag_sense_audio == pre.lag_sense_audio && quality_step(
            pre.lag_sense_video,
            post.lag_sense_video,
            msg,
            out,
        )
    } else {
        false
    }
}

/// A session-addressed track command applied at index `i`.
pub open spec fn track_at(pre: Seq<Session>, msg: AVFrame, post: Seq<Session>, out: Outcome, i: int) -> bool {
    &&& 0 <= i < pre.len()
    &&& pre[i].ident == msg.ident
    &&& pre[i].state == SessionState::Active
    &&& post.len() == pre.len()
    &&& (forall|j: int| 0 <= j < pre.len() && j != i ==> post[j] == pre[j])
    &&& post[i].ident == pre[i].ident
    &&& post[i].state == pre[i].state
    &&& track_step(pre[i].pipe, post[i].pipe, msg, out)
}

/// A track command against a missing or halted session is a session
/// error, answered with a fault reply; against an active session it
/// acts on the addressed track.
pub open spec fn track_rel(pre: Seq<Session>, msg: AVFrame, post: Seq<Session>, out: Outcome) -> bool {
    if active_session(pre, msg.ident) {
        exists|i: int| #[trigger] track_at(pre, msg, post, out, i)
    } else {
        post == pre && fault_reply(out, msg.ident)
    }
}

/// The whole protocol step: one request in, one outcome out.
pub open spec fn dispatch_rel(pre: Seq<Session>, msg: AVFrame, post: Seq<Session>, out: Outcome) -> bool {
    if msg.command == PING {
        post == pre && reply_with(out, PONG, msg.ident, blank())
    } else if msg.command == HALT {
        post == pre && (out matches Outcome::HaltReply(r) && r.command == HUNG_UP && r.ident
            == msg.ident && r.frame.deep_view() == blank())
    } else if !recognized(msg.command) {
        post == pre && out is Fatal
    } else if msg.command == PICK_UP {
        pick_up_rel(pre, msg, post, out)
    } else if msg.command == HUNG_UP {
        hang_up_rel(pre, msg, post, out)
    } else {
        track_rel(pre, msg, post, out)
    }
}

/// Law: a liveness probe is answered with an acknowledgement echoing
/// its identifier whatever the session table holds — no session lookup
/// is involved — and the table is untouched.
pub proof fn lemma_probe_needs_no_session(pre: Seq<Session>, msg: AVFrame, post: Seq<Session>, out: Outcome)
    requires
        msg.command == PING,
        dispatch_rel(pre, msg, post, out),
    ensures
        post == pre,
        reply_with(out, PONG, msg.ident, blank()),
{
}

/// Law: an unrecognized command byte yields the fatal outcome — no
/// reply of any kind — and leaves the session table untouched.
pub proof fn lemma_unrecognized_is_fatal(pre: Seq<Session>, msg: AVFrame, post: Seq<Session>, out: Outcome)
    requires
        !recognized(msg.command),
        dispatch_rel(pre, msg, post, out),
    ensures
        post == pre,
        out is Fatal,
{
}

/// The runloop's session table.
pub struct Relay {
    pub sessions: Vec<Session>,
}

impl Relay {
    /// Every session is well-formed and identifiers are unique, so a
    /// request addresses at most one session.
    pub open spec fn wf(&self) -> bool {
        &&& (forall|i: int|
            0 <= i < self.sessions@.len() ==> (#[trigger] self.sessions@[i]).wf())
        &&& (forall|i: int, j: int|
            0 <= i < j < self.sessions@.len() ==> self.sessions@[i].ident
                != self.sessions@[j].ident)
    }

    pub fn new() -> (r: Relay)
        ensures
            r.wf(),
            r.sessions@.len() == 0,
    {
        Relay { sessions: Vec::new() }
    }

    /// The index of the session addressed by `ident`, if any.
    fn find_session(&self, ident: i64) -> (r: Option<usize>)
        ensures
            match r {
                Some(i) => i < self.sessions@.len() && self.sessions@[i as int].ident == ident,
                None => forall|j: int|
                    0 <= j < self.sessions@.len() ==> (#[trigger] self.sessions@[j]).ident
                        != ident,
            },
    {
        let mut i: usize = 0;
        while i < self.sessions.len()
            invariant
                i <= self.sessions@.len(),
                forall|j: int|
                    0 <= j < i ==> (#[trigger] self.sessions@[j]).ident != ident,
            decreases self.sessions@.len() - i,
        {
            if self.sessions[i].ident == ident {
                return Some(i);
            }
            i = i + 1;
        }
        None
    }

    /// Decode nothing, route everything: match the command code and
    /// produce the session action and the single reply, or the fatal
    /// outcome for a code outside the closed set.
    pub fn dispatch(&mut self, msg: &AVFrame) -> (out: Outcome)
        requires
            old(self).wf(),
        ensures
            final(self).wf(),
            dispatch_rel(old(self).sessions@, *msg, final(self).sessions@, out),
    {
        if msg.command == PING {
            Outcome::Reply(blank_frame(PONG, msg.ident))
        } else if msg.command == HALT {
            Outcome::HaltReply(blank_frame(HUNG_UP, msg.ident))
        } else if msg.command == PICK_UP {
            self.do_pick_up(msg)
        } else if msg.command == HUNG_UP {
            self.do_hang_up(msg)
        } else if msg.command == AUDIO_ABR_QUALITY || msg.command == VIDEO_ABR_QUALITY
            || msg.command == AUDIO_FRAME_SEND || msg.command == VIDEO_FRAME_SEND || msg.command
            == AUDIO_FRAME_RECV || msg.command == VIDEO_FRAME_RECV {
            self.do_track(msg)
        } else {
            Outcome::Fatal
        }
    }

    fn do_pick_up(&mut self, msg: &AVFrame) -> (out: Outcome)
        requires
            old(self).wf(),
            msg.command == PICK_UP,
        ensures
            final(self).wf(),
            pick_up_rel(old(self).sessions@, *msg, final(self).sessions@, out),
    {
        let ghost pre = self.sessions@;
        match self.find_session(msg.ident) {
            Some(i) => {
                proof {
                    assert(pre[i as int].ident == msg.ident);
                    assert(has_session(pre, msg.ident));
                }
                Outcome::Reply(empty_frame(FAULT, msg.ident))
            },
            None => {
                if msg.frame.len() != 1 {
                    return Outcome::Reply(empty_frame(FAULT, msg.ident));
                }
                let cfg = &msg.frame[0];
                proof {
                    assert(msg.frame.deep_view()[0] =~= cfg@);
                }
                if cfg.len() != 24 {
                    return Outcome::Reply(empty_frame(FAULT, msg.ident));
                }
                let audio_min = get_u32(cfg, 0);
                let audio_max = get_u32(cfg, 4);
                let video_min = get_u32(cfg, 8);
                let video_max = get_u32(cfg, 12);
                let audio_depth = get_u32(cfg, 16);
                let video_depth = get_u32(cfg, 20);
                proof {
                    assert(cfg@.subrange(0, 4) =~= cfg@.subrange(0 as int, 0 as int + 4));
                    assert(cfg@.subrange(4, 8) =~= cfg@.subrange(4 as int, 4 as int + 4));
                    assert(cfg@.subrange(8, 12) =~= cfg@.subrange(8 as int, 8 as int + 4));
                    assert(cfg@.subrange(12, 16) =~= cfg@.subrange(12 as int, 12 as int + 4));
                    assert(cfg@.subrange(16, 20) =~= cfg@.subrange(16 as int, 16 as int + 4));
                    assert(cfg@.subrange(20, 24) =~= cfg@.subrange(20 as int, 20 as int + 4));
                }
                if audio_min > audio_max || video_min > video_max || audio_depth == 0
                    || video_depth == 0 {
                    return Outcome::Reply(empty_frame(FAULT, msg.ident));
                }
                let s = Session::new(
                    msg.ident,
                    audio_min as i64,
                    audio_max as i64,
                    video_min as i64,
                    video_max as i64,
                    audio_depth as usize,
                    video_depth as usize,
                );
                self.sessions.push(s);
                proof {
                    assert(self.sessions@.take(pre.len() as int) =~= pre);
                    assert(setup_session(self.sessions@.last(), *msg));
                }
                Outcome::Reply(blank_frame(PICK_UP, msg.ident))
            },
        }
    }

    fn do_hang_up(&mut self, msg: &AVFrame) -> (out: Outcome)
        requires
            old(self).wf(),
            msg.command == HUNG_UP,
        ensures
            final(self).wf(),
            hang_up_rel(old(self).sessions@, *msg, final(self).sessions@, out),
    {
        let ghost pre = self.sessions@;
        match self.find_session(msg.ident) {
            None => Outcome::Reply(empty_frame(FAULT, msg.ident)),
            Some(i) => {
                let mut s = self.sessions.remove(i);
                if !s.is_active() {
                    self.sessions.insert(i, s);
                    proof {
                        assert(self.sessions@ =~= pre);
                        assert forall|j: int|
                            0 <= j < pre.len() && (#[trigger] pre[j]).ident == msg.ident implies j
                            == i by {
                            if j < i {
                                assert(pre[j].ident != pre[i as int].ident);
                            } else if j > i {
                                assert(pre[i as int].ident != pre[j].ident);
                            }
                        }
                        assert(!active_session(pre, msg.ident));
                    }
                    Outcome::Reply(empty_frame(FAULT, msg.ident))
                } else {
                    s.halt();
                    let ghost s2 = s;
                    self.sessions.insert(i, s);
                    let out = Outcome::Reply(blank_frame(HUNG_UP, msg.ident));
                    proof {
                        assert(self.sessions@ =~= pre.update(i as int, s2));
                        assert(hang_up_at(pre, *msg, self.sessions@, out, i as int));
                    }
                    out
                }
            },
        }
    }

    fn do_track(&mut self, msg: &AVFrame) -> (out: Outcome)
        requires
            old(self).wf(),
            msg.command == AUDIO_ABR_QUALITY || msg.command == VIDEO_ABR_QUALITY || msg.command
                == AUDIO_FRAME_SEND || msg.command == VIDEO_FRAME_SEND || msg.command
                == AUDIO_FRAME_RECV || msg.command == VIDEO_FRAME_RECV,
        ensures
            final(self).wf(),
            track_rel(old(self).sessions@, *msg, final(self).sessions@, out),
    {
        let ghost pre = self.sessions@;
        match self.find_session(msg.ident) {
            None => Outcome::Reply(empty_frame(FAULT, msg.ident)),
            Some(i) => {
                let mut s = self.sessions.remove(i);
                if !s.is_active() {
                    self.sessions.insert(i, s);
                    proof {
                        assert(self.sessions@ =~= pre);
                        assert forall|j: int|
                            0 <= j < pre.len() && (#[trigger] pre[j]).ident == msg.ident implies j
                            == i by {
                            if j < i {
                                assert(pre[j].ident != pre[i as int].ident);
                            } else if j > i {
                                assert(pre[i as int].ident != pre[j].ident);
                            }
                        }
                        assert(!active_session(pre, msg.ident));
                    }
                    return Outcome::Reply(empty_frame(FAULT, msg.ident));
                }
                let out = track_act(&mut s, msg);
                let ghost s2 = s;
                self.sessions.insert(i, s);
                proof {
                    assert(self.sessions@ =~= pre.update(i as int, s2));
                    assert(track_at(pre, *msg, self.sessions@, out, i as int));
                }
                out
            },
        }
    }
}

/// Apply one track command to an active session and build its reply.
fn track_act(s: &mut Session, msg: &AVFrame) -> (out: Outcome)
    requires
        old(s).wf(),
        old(s).state == SessionState::Active,
        msg.command == AUDIO_ABR_QUALITY || msg.command == VIDEO_ABR_QUALITY || msg.command
            == AUDIO_FRAME_SEND || msg.command == VIDEO_FRAME_SEND || msg.command
            == AUDIO_FRAME_RECV || msg.command == VIDEO_FRAME_RECV,
    ensures
        final(s).wf(),
        final(s).ident == old(s).ident,
        final(s).state == old(s).state,
        track_step(old(s).pipe, final(s).pipe, *msg, out),
{
    if msg.command == AUDIO_FRAME_SEND {
        push_all(&mut s.pipe.lag_sense_audio, msg);
        Outcome::Reply(blank_frame(msg.command, msg.ident))
    } else if msg.command == VIDEO_FRAME_SEND {
        push_all(&mut s.pipe.lag_sense_video, msg);
        Outcome::Reply(blank_frame(msg.command, msg.ident))
    } else if msg.command == AUDIO_FRAME_RECV {
        match s.pipe.lag_sense_audio.pop() {
            Some(b) => Outcome::Reply(buf_frame(msg.command, msg.ident, b)),
            None => Outcome::Reply(empty_frame(msg.command, msg.ident)),
        }
    } else if msg.command == VIDEO_FRAME_RECV {
        match s.pipe.lag_sense_video.pop() {
            Some(b) => Outcome::Reply(buf_frame(msg.command, msg.ident, b)),
            None => Outcome::Reply(empty_frame(msg.command, msg.ident)),
        }
    } else if msg.command == AUDIO_ABR_QUALITY {
        let rate = s.pipe.lag_sense_audio.observe_and_recommend();
        Outcome::Reply(rate_frame(msg.command, msg.ident, rate))
    } else {
        let rate = s.pipe.lag_sense_video.observe_and_recommend();
        Outcome::Reply(rate_frame(msg.command, msg.ident, rate))
    }
}

/// Push every buffer of the request into one track's FIFO, in order.
fn push_all(reg: &mut LagSenseRegulator, msg: &AVFrame)
    requires
        old(reg).wf(),
    ensures
        final(reg).wf(),
        final(reg).controller == old(reg).controller,
        final(reg).fifo_capacity == old(reg).fifo_capacity,
        final(reg).frames() == fifo_pushed_all(
            old(reg).frames(),
            old(reg).fifo_capacity as int,
            msg.frame.deep_view(),
        ),
{
    let ghost f0 = reg.frames();
    let ghost c0 = reg.controller;
    let ghost bufs = msg.frame.deep_view();
    let ghost cap = reg.fifo_capacity as int;
    proof {
        assert(bufs.take(0) =~= Seq::<Seq<u8>>::empty());
    }
    let mut k: usize = 0;
    while k < msg.frame.len()
        invariant
            k <= msg.frame@.len(),
            reg.wf(),
            reg.controller == c0,
            cap == reg.fifo_capacity as int,
            bufs == msg.frame.deep_view(),
            reg.frames() == fifo_pushed_all(f0, cap, bufs.take(k as int)),
        decreases msg.frame@.len() - k,
    {
        let buf = clone_bytes(&msg.frame[k]);
        let ghost before = reg.frames();
        reg.push(buf);
        proof {
            assert(bufs[k as int] =~= msg.frame@[k as int]@);
            crate::abr::lemma_fifo_pushed_all_snoc(f0, cap, bufs.take(k as int), bufs[k as int]);
            assert(bufs.take(k + 1 as int) =~= bufs.take(k as int).push(bufs[k as int]));
        }
        k = k + 1;
    }
    proof {
        assert(bufs.take(bufs.len() as int) =~= bufs);
    }
}

/// A byte-for-byte copy of one buffer.
fn clone_bytes(b: &Vec<u8>) -> (r: Vec<u8>)
    ensures
        r@ == b@,
{
    let mut r: Vec<u8> = Vec::new();
    let mut i: usize = 0;
    while i < b.len()
        invariant
            i <= b@.len(),
            r@ == b@.take(i as int),
        decreases b@.len() - i,
    {
        let byte = b[i];
        r.push(byte);
        proof {
            assert(b@.take(i + 1 as int) =~= b@.take(i as int).push(byte));
        }
        i = i + 1;
    }
    proof {
        assert(b@.take(b@.len() as int) =~= b@);
    }
    r
}

/// An acknowledgement frame carrying one empty buffer.
fn blank_frame(cmd: u8, ident: i64) -> (r: AVFrame)
    ensures
        r.command == cmd,
        r.ident == ident,
        r.frame.deep_view() == blank(),
{
    let mut f: Vec<Vec<u8>> = Vec::new();
    f.push(Vec::new());
    let r = AVFrame { command: cmd, ident, frame: f };
    proof {
        assert(r.frame.deep_view() =~~= blank());
    }
    r
}

/// A reply with no buffers at all.
fn empty_frame(cmd: u8, ident: i64) -> (r: AVFrame)
    ensures
        r.command == cmd,
        r.ident == ident,
        r.frame.deep_view() == Seq::<Seq<u8>>::empty(),
{
    let r = AVFrame { command: cmd, ident, frame: Vec::new() };
    proof {
        assert(r.frame.deep_view() =~~= Seq::<Seq<u8>>::empty());
    }
    r
}

/// A reply carrying one buffer.
fn buf_frame(cmd: u8, ident: i64, buf: Vec<u8>) -> (r: AVFrame)
    ensures
        r.command == cmd,
        r.ident == ident,
        r.frame.deep_view() == seq![buf@],
{
    let ghost bv = buf@;
    let mut f: Vec<Vec<u8>> = Vec::new();
    f.push(buf);
    let r = AVFrame { command: cmd, ident, frame: f };
    proof {
        assert(r.frame.deep_view() =~~= seq![bv]);
    }
    r
}

/// A reply carrying one bitrate as eight big-endian bytes.
fn rate_frame(cmd: u8, ident: i64, rate: i64) -> (r: AVFrame)
    ensures
        r.command == cmd,
        r.ident == ident,
        r.frame.deep_view() == seq![be64(rate as u64)],
{
    let mut b: Vec<u8> = Vec::new();
    push_be64(&mut b, #[verifier::truncate] (rate as u64));
    proof {
        assert(b@ =~= be64(rate as u64));
    }
    buf_frame(cmd, ident, b)
}

} // verus!
