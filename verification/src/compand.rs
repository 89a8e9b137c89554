//! Compander: compressor/expander bookkeeping.
//!
//! The engine-facing queue and rate state for a codec pipeline: the
//! target bitrate, the frame geometry, and the FIFO of frames awaiting
//! (re)processing.  The codec work itself is the external engine's
//! concern and happens outside the library; this type tracks what the
//! relay's logic reads and decides on — the backlog and the rate.

use std::collections::VecDeque;
use vstd::prelude::*;

verus! {

pub const DEFAULT_BITRATE: u32 = 512;

/// Processing deadline handed to the codec, in microseconds; 25 ms is
/// acceptable for a live stream.
pub const DEADLINE_USECS: u64 = 25_000;

pub struct Compander {
    pub bitrate: u32,
    pub w: u32,
    pub h: u32,
    pub fifo: VecDeque<Vec<u8>>,
}

impl Compander {
    /// The frames awaiting reprocessing, oldest first.
    pub open spec fn pending(&self) -> Seq<Seq<u8>> {
        self.fifo.deep_view()
    }

    pub fn new(w: u32, h: u32) -> (c: Compander)
        ensures
            c.bitrate == DEFAULT_BITRATE,
            c.w == w,
            c.h == h,
            c.pending() == Seq::<Seq<u8>>::empty(),
    {
        let c = Compander { bitrate: DEFAULT_BITRATE, w, h, fifo: VecDeque::new() };
        proof {
            assert(c.pending() =~= Seq::<Seq<u8>>::empty());
        }
        c
    }

    /// Retarget the encoder; the live rate changes on success.
    pub fn set_bitrate(&mut self, rate: u32)
        ensures
            final(self).bitrate == rate,
            final(self).w == old(self).w,
            final(self).h == old(self).h,
            final(self).pending() == old(self).pending(),
    {
        self.bitrate = rate;
    }

    pub fn get_bitrate(&self) -> (r: u32)
        ensures
            r == self.bitrate,
    {
        self.bitrate
    }

    /// Enqueue raw input for reprocessing.
    pub fn push(&mut self, frame: Vec<u8>)
        ensures
            final(self).bitrate == old(self).bitrate,
            final(self).w == old(self).w,
            final(self).h == old(self).h,
            final(self).pending() == old(self).pending().push(frame@),
    {
        let ghost pre = self.fifo.deep_view();
        self.fifo.push_back(frame);
        proof {
            assert(self.fifo.deep_view() =~~= pre.push(frame@));
        }
    }

    /// Dequeue the oldest frame awaiting reprocessing; absence is not
    /// an error, it signals "not ready yet".
    pub fn pop(&mut self) -> (r: Option<Vec<u8>>)
        ensures
            final(self).bitrate == old(self).bitrate,
            final(self).w == old(self).w,
            final(self).h == old(self).h,
            old(self).pending().len() == 0 ==> r is None && final(self).pending() == old(
                self,
            ).pending(),
            old(self).pending().len() > 0 ==> (r matches Some(b) && b@ == old(self).pending()[0]
                && final(self).pending() == old(self).pending().skip(1)),
    {
        let ghost pre = self.fifo.deep_view();
        let r = self.fifo.pop_front();
        proof {
            if pre.len() > 0 {
                assert(self.fifo.deep_view() =~= pre.skip(1));
            } else {
                assert(self.fifo.deep_view() =~= pre);
            }
        }
        r
    }

    /// Report on congestion: the current backlog depth.
    pub fn len(&self) -> (n: usize)
        ensures
            n == self.pending().len(),
    {
        self.fifo.len()
    }
}

} // verus!
