//! Adaptive-bitrate control core for a media relay.
//!
//! The crate covers the two algorithmic pieces of the relay: the framed
//! command-dispatch state machine that turns host messages into typed
//! session actions, and the lag-sensing feedback controller that retunes
//! encode bitrate from queue-depth measurements.  Transport I/O, timing
//! supervision and the codec engines themselves live outside the library
//! and talk to it through plain values.

pub mod abr;
pub mod arith;
pub mod compand;
pub mod frame;
pub mod h264;
pub mod relay;
pub mod session;
pub mod pid;
