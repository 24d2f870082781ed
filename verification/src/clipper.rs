//! The sample processor: one input sample and the five control values in
//! effect give one output sample.
//!
//! In numbers, for the channel `c`:
//!
//! ```text
//! driven  = input * drive + dc_c * dc_amount
//! clipped = driven limited to [-1, 1]
//! output  = clipped * out_gain * 0.01 / sqrt(drive)
//! ```
//!
//! In fixed point the two products of the first line are exact, at scale
//! `ONE * ONE`, and so is the limiting. The square root of the drive is
//! rounded down to a multiple of a millionth, and the one division that
//! gives the output rounds toward zero.
//!
//! A drive below [`DRIVE_FLOOR`] acts as `DRIVE_FLOOR`, so the division is
//! always defined and the output never exceeds [`OUTPUT_LIMIT`] in size.

use vstd::prelude::*;
use crate::buffer::{Channel, Stereo, StereoBuffer};
use crate::fixed::{clamp, clamp_spec, div_toward_zero, isqrt, sqrt_floor, ONE, ONE_SQUARED};
use crate::fixed::{lemma_sqrt_floor_monotone, lemma_sqrt_floor_of_square};
use crate::model::{controls_of, Controls, Param, ZaDClipperModel};

verus! {

/// The smallest drive the processor works with, `0.0001`: a smaller drive is
/// raised to it.
pub const DRIVE_FLOOR: i64 = 100;

/// No output sample is larger in size than this, `100.0`.
pub const OUTPUT_LIMIT: i64 = 100_000_000;

/// The drive the processor works with: the control value, but no less than
/// `DRIVE_FLOOR`.
pub open spec fn effective_drive(c: Controls) -> int {
    if c.drive < DRIVE_FLOOR {
        DRIVE_FLOOR as int
    } else {
        c.drive
    }
}

/// The DC offset of a channel.
pub open spec fn dc_offset(c: Controls, channel: Channel) -> int {
    match channel {
        Channel::Left => c.dc_left,
        Channel::Right => c.dc_right,
    }
}

/// The input times the drive, plus the DC offset times the DC amount, at
/// scale `ONE * ONE`.
pub open spec fn driven(c: Controls, channel: Channel, input: int) -> int {
    input * effective_drive(c) + dc_offset(c, channel) * c.dc_amount
}

/// The driven signal limited to the interval from `-1.0` to `1.0`, at scale
/// `ONE * ONE`.
pub open spec fn clipped(c: Controls, channel: Channel, input: int) -> int {
    clamp_spec(driven(c, channel, input), -ONE_SQUARED, ONE_SQUARED as int)
}

/// The square root of the drive, rounded down, at scale `ONE`.
pub open spec fn drive_root(c: Controls) -> int {
    sqrt_floor((effective_drive(c) * ONE) as nat) as int
}

/// The output sample: the clipped signal times the output gain, taken as a
/// percentage, divided by the square root of the drive, rounded toward zero.
pub open spec fn output_sample(c: Controls, channel: Channel, input: int) -> int {
    div_toward_zero(clipped(c, channel, input) * c.out_gain, 100 * ONE * drive_root(c))
}

/// The square root of a drive in range lies between `0.01` and `4.9`.
pub proof fn lemma_drive_root_bounds(c: Controls)
    requires
        c.in_range(),
    ensures
        10_000 <= drive_root(c) <= 4_900_000,
{
    let d = effective_drive(c);
    assert(100 * ONE == 10_000 * 10_000);
    assert(24_010_000 * ONE == 4_900_000 * 4_900_000);
    lemma_sqrt_floor_of_square(10_000);
    lemma_sqrt_floor_of_square(4_900_000);
    lemma_sqrt_floor_monotone((100 * ONE) as nat, (d * ONE) as nat);
    lemma_sqrt_floor_monotone((d * ONE) as nat, (24_010_000 * ONE) as nat);
}

/// The drive of `frame`, but no less than `DRIVE_FLOOR`.
fn effective_drive_of(frame: &ZaDClipperModel) -> (d: i64)
    ensures
        d == effective_drive(frame@),
        DRIVE_FLOOR <= d <= 24_000_000,
        frame@.in_range(),
{
    let drive: i64 = frame.get(Param::Drive);
    if drive < DRIVE_FLOOR {
        DRIVE_FLOOR
    } else {
        drive
    }
}

/// The square root of the drive of `frame`, rounded down, at scale `ONE`.
fn drive_root_of(frame: &ZaDClipperModel) -> (root: u64)
    ensures
        root == drive_root(frame@),
        10_000 <= root <= 4_900_000,
{
    let d: i64 = effective_drive_of(frame);
    proof {
        lemma_drive_root_bounds(frame@);
    }
    isqrt((d * ONE) as u64)
}

/// One output sample from the control values, the input sample and the
/// square root of the drive.
fn shape(frame: &ZaDClipperModel, channel: Channel, input: i64, root: u64) -> (out: i64)
    requires
        root == drive_root(frame@),
    ensures
        out == output_sample(frame@, channel, input as int),
        -OUTPUT_LIMIT <= out <= OUTPUT_LIMIT,
{
    let d: i64 = effective_drive_of(frame);
    let dc: i64 = match channel {
        Channel::Left => frame.get(Param::DcLeft),
        Channel::Right => frame.get(Param::DcRight),
    };
    let amount: i64 = frame.get(Param::DcAmount);
    let gain: i64 = frame.get(Param::OutGain);
    proof {
        lemma_drive_root_bounds(frame@);
    }
    assert(-0x8000_0000_0000_0000 * 24_000_000 <= input * d <= 0x8000_0000_0000_0000 * 24_000_000)
        by (nonlinear_arith)
        requires
            -0x8000_0000_0000_0000 <= input <= 0x8000_0000_0000_0000,
            0 <= d <= 24_000_000,
    ;
    assert(-1_000_000 * 1_000_000 <= dc * amount <= 1_000_000 * 1_000_000) by (nonlinear_arith)
        requires
            -1_000_000 <= dc <= 1_000_000,
            0 <= amount <= 1_000_000,
    ;
    let driven: i128 = (input as i128) * (d as i128) + (dc as i128) * (amount as i128);
    let clipped: i128 = clamp(driven, -ONE_SQUARED, ONE_SQUARED);
    let size: u128 = if clipped < 0 {
        (-clipped) as u128
    } else {
        clipped as u128
    };
    assert(0 <= size * gain <= 1_000_000_000_000 * 100_000_000) by (nonlinear_arith)
        requires
            0 <= size <= 1_000_000_000_000,
            0 <= gain <= 100_000_000,
    ;
    let numerator: u128 = size * (gain as u128);
    let percent: u128 = 100 * (ONE as u128);
    assert(percent * root == 100 * ONE * drive_root(frame@)) by (nonlinear_arith)
        requires
            percent == 100 * ONE,
            root == drive_root(frame@),
    ;
    assert(1_000_000_000_000 <= percent * root <= 490_000_000_000_000) by (nonlinear_arith)
        requires
            percent == 100_000_000,
            10_000 <= root <= 4_900_000,
    ;
    let denominator: u128 = percent * (root as u128);
    let quotient: u128 = numerator / denominator;
    assert(quotient <= 100_000_000) by (nonlinear_arith)
        requires
            quotient == numerator / denominator,
            0 <= numerator <= 100_000_000_000_000_000_000,
            denominator >= 1_000_000_000_000,
    ;
    assert(clipped * gain == if clipped < 0 {
        -(size * gain)
    } else {
        size * gain
    }) by (nonlinear_arith)
        requires
            size == if clipped < 0 {
                -clipped
            } else {
                clipped as int
            },
    ;
    if clipped < 0 {
        -(quotient as i64)
    } else {
        quotient as i64
    }
}

/// The output of one channel: sample by sample, the output sample for the
/// input sample under the frame at the same index.
pub open spec fn processed_channel(frames: Seq<Controls>, channel: Channel, input: Seq<int>) -> Seq<
    int,
> {
    Seq::new(input.len(), |i: int| output_sample(frames[i], channel, input[i]))
}

/// The output buffer for an input buffer: each channel processed on its own,
/// the left one with the left DC offset and the right one with the right.
pub open spec fn processed(frames: Seq<Controls>, input: Stereo) -> Stereo {
    Stereo {
        left: processed_channel(frames, Channel::Left, input.left),
        right: processed_channel(frames, Channel::Right, input.right),
    }
}

/// The output sample of one channel for one input sample, under the control
/// values of `frame`.
pub fn process_sample(frame: &ZaDClipperModel, channel: Channel, input: i64) -> (out: i64)
    ensures
        out == output_sample(frame@, channel, input as int),
        -OUTPUT_LIMIT <= out <= OUTPUT_LIMIT,
{
    let root: u64 = drive_root_of(frame);
    shape(frame, channel, input, root)
}

/// The processor. It keeps nothing from one buffer to the next.
#[derive(Clone, Copy, Debug, PartialEq, Eq)]
pub struct ZaDClipper {}

impl ZaDClipper {
    /// A processor for the given sample rate, in hertz, and initial control
    /// values. Neither has any bearing on what the processor computes.
    pub fn new(_sample_rate: u32, _model: &ZaDClipperModel) -> (r: Self)
        ensures
            r == (ZaDClipper {  }),
    {
        ZaDClipper {  }
    }

    /// Processes one buffer: writes to every index of `output` the output
    /// samples for the input samples at that index, under the frame at that
    /// index.
    pub fn process(
        &mut self,
        frames: &[ZaDClipperModel],
        input: &StereoBuffer,
        output: &mut StereoBuffer,
    )
        requires
            input.well_formed(),
            old(output).well_formed(),
            frames@.len() == input@.len(),
            old(output)@.len() == input@.len(),
        ensures
            *final(self) == *old(self),
            final(output).well_formed(),
            final(output)@.len() == input@.len(),
            final(output)@ == processed(controls_of(frames@), input@),
            forall|i: int|
                0 <= i < input@.len() ==> -OUTPUT_LIMIT <= #[trigger] final(output)@.left[i]
                    <= OUTPUT_LIMIT,
            forall|i: int|
                0 <= i < input@.len() ==> -OUTPUT_LIMIT <= #[trigger] final(output)@.right[i]
                    <= OUTPUT_LIMIT,
    {
        let n: usize = input.len();
        let mut i: usize = 0;
        while i < n
            invariant
                i <= n,
                n == input@.len(),
                frames@.len() == n,
                input.well_formed(),
                output.well_formed(),
                output@.len() == n,
                forall|j: int|
                    0 <= j < i ==> output@.left[j] == output_sample(
                        frames@[j]@,
                        Channel::Left,
                        input@.left[j],
                    ),
                forall|j: int|
                    0 <= j < i ==> output@.right[j] == output_sample(
                        frames@[j]@,
                        Channel::Right,
                        input@.right[j],
                    ),
                forall|j: int|
                    0 <= j < i ==> -OUTPUT_LIMIT <= #[trigger] output@.left[j] <= OUTPUT_LIMIT,
                forall|j: int|
                    0 <= j < i ==> -OUTPUT_LIMIT <= #[trigger] output@.right[j] <= OUTPUT_LIMIT,
            decreases n - i,
        {
            let frame: &ZaDClipperModel = &frames[i];
            let root: u64 = drive_root_of(frame);
            let left: i64 = shape(frame, Channel::Left, input.sample(Channel::Left, i), root);
            let right: i64 = shape(frame, Channel::Right, input.sample(Channel::Right, i), root);
            output.set_sample(Channel::Left, i, left);
            output.set_sample(Channel::Right, i, right);
            i += 1;
        }
        assert(output@.left =~= processed(controls_of(frames@), input@).left);
        assert(output@.right =~= processed(controls_of(frames@), input@).right);
    }
}

} // verus!
