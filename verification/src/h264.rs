//! The frame record exchanged with the H.264 engine boundary, held as
//! plain buffers: up to three planes of picture data plus one packed
//! buffer, with a flag saying whether the payload is already encoded.

use vstd::prelude::*;

verus! {

/// Number of picture planes a call frame carries slots for.
pub const CALLS_FRAME_PLANES: usize = 3;

#[allow(non_camel_case_types)]
pub struct turnx_h264_calls_frame {
    pub is_encoded: bool,
    pub n_items: i32,
    pub data: Vec<Vec<u8>>,
    pub buf: Vec<u8>,
}

impl turnx_h264_calls_frame {
    /// Exactly three plane slots, of which the first `n_items` are in
    /// use.
    pub open spec fn wf(&self) -> bool {
        &&& self.data@.len() == CALLS_FRAME_PLANES
        &&& 0 <= self.n_items <= CALLS_FRAME_PLANES
    }

    /// Build a call frame from its planes.
    pub fn new(is_encoded: bool, n_items: i32, data: Vec<Vec<u8>>, buf: Vec<u8>) -> (r:
        turnx_h264_calls_frame)
        requires
            data@.len() == CALLS_FRAME_PLANES,
            0 <= n_items <= CALLS_FRAME_PLANES,
        ensures
            r.wf(),
            r.is_encoded == is_encoded,
            r.n_items == n_items,
            r.data == data,
            r.buf == buf,
    {
        turnx_h264_calls_frame { is_encoded, n_items, data, buf }
    }

    /// How many plane buffers are in use.
    pub fn used_planes(&self) -> (r: usize)
        requires
            self.wf(),
        ensures
            r == self.n_items,
    {
        self.n_items as usize
    }
}

} // verus!
