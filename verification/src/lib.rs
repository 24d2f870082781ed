//! A stereo hard clipper with DC-offset injection and drive-dependent gain
//! compensation, in fixed-point arithmetic.
//!
//! Every sample and every control value is an `i64` that counts millionths:
//! [`fixed::ONE`] stands for `1.0`. For each sample of a buffer the processor
//! takes the five control values in effect at that sample, a *frame*, and
//! computes, for each channel on its own,
//!
//! ```text
//! driven  = input * drive + dc * dc_amount
//! clipped = driven limited to [-1, 1]
//! output  = clipped * out_gain * 0.01 / sqrt(drive)
//! ```
//!
//! * [`model`] declares the five controls, their ranges and their defaults;
//! * [`automation`] resolves the frames of a buffer from the values the host
//!   has set;
//! * [`buffer`] holds stereo sample buffers;
//! * [`clipper`] computes the output, sample by sample and buffer by buffer;
//! * [`laws`] states what holds of the output on every input;
//! * [`fixed`] holds the arithmetic the others share.
//!
//! The processor takes its frames from any source: [`automation`] is one, a
//! host with an automation engine of its own is another.

pub mod fixed;
pub mod model;
pub mod automation;
pub mod buffer;
pub mod clipper;
pub mod laws;
