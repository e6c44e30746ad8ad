//! Sample bookkeeping of a three-microphone MVDR beamformer: the block
//! buffers that the analytic filter writes into, and the window of analytic
//! samples, straddling block boundaries, over which the covariance matrix is
//! estimated.
//!
//! The library never looks at a sample's value: every function is generic
//! over the sample type, and what it proves is where each sample goes.

pub mod buffer;
pub mod window;
