//! What holds of the sample processor on every input.

use vstd::prelude::*;
use vstd::math::abs;
use vstd::arithmetic::div_mod::{
    lemma_div_is_ordered,
    lemma_div_is_ordered_by_denominator,
    lemma_div_multiples_vanish_quotient,
    lemma_div_of0,
    lemma_div_pos_is_pos,
};
use crate::buffer::{Channel, Stereo};
use crate::clipper::{
    clipped,
    driven,
    drive_root,
    effective_drive,
    lemma_drive_root_bounds,
    output_sample,
    processed,
    DRIVE_FLOOR,
    OUTPUT_LIMIT,
};
use crate::fixed::{
    clamp_spec,
    div_toward_zero,
    lemma_sqrt_floor_monotone,
    lemma_sqrt_floor_of_square,
    ONE,
    ONE_SQUARED,
};
use crate::model::{Controls, Param};

verus! {

/// The size of an output sample: the size of the clipped signal times the
/// output gain, divided by a hundred times the square root of the drive,
/// rounded down.
pub open spec fn output_size(c: Controls, channel: Channel, input: int) -> int {
    abs(clipped(c, channel, input)) * c.out_gain / (100 * ONE * drive_root(c))
}

/// An output sample has the sign of the clipped signal and the size
/// `output_size`.
pub proof fn lemma_output_size(c: Controls, channel: Channel, input: int)
    requires
        c.in_range(),
    ensures
        abs(output_sample(c, channel, input)) == output_size(c, channel, input),
        clipped(c, channel, input) >= 0 ==> output_sample(c, channel, input) >= 0,
        clipped(c, channel, input) <= 0 ==> output_sample(c, channel, input) <= 0,
{
    let k = clipped(c, channel, input);
    let g = c.out_gain;
    let den = 100 * ONE * drive_root(c);
    lemma_drive_root_bounds(c);
    assert(den > 0) by (nonlinear_arith)
        requires
            den == 100 * ONE * drive_root(c),
            drive_root(c) >= 10_000,
            ONE == 1_000_000,
    ;
    assert(abs(k) * g >= 0) by (nonlinear_arith)
        requires
            g >= 0,
    ;
    lemma_div_pos_is_pos(abs(k) * g, den);
    lemma_div_of0(den);
    if k >= 0 {
        assert(k * g == abs(k) * g);
        if k == 0 {
            assert(k * g == 0);
        }
    } else {
        assert(k * g == -(abs(k) * g)) by (nonlinear_arith)
            requires
                abs(k) == -k,
        ;
        if abs(k) * g == 0 {
            assert(k * g == 0);
        }
    }
}

/// Whatever the drive, zero included, and whatever the input, no output
/// sample is larger in size than `OUTPUT_LIMIT`; and a drive below
/// `DRIVE_FLOOR` gives the output that `DRIVE_FLOOR` gives.
pub proof fn lemma_output_bounded(c: Controls, channel: Channel, input: int)
    requires
        c.in_range(),
    ensures
        -OUTPUT_LIMIT <= output_sample(c, channel, input) <= OUTPUT_LIMIT,
        c.drive <= DRIVE_FLOOR ==> output_sample(c, channel, input) == output_sample(
            c.with(Param::Drive, DRIVE_FLOOR as int),
            channel,
            input,
        ),
{
    let k = clipped(c, channel, input);
    let g = c.out_gain;
    let den = 100 * ONE * drive_root(c);
    let n = abs(k) * g;
    lemma_output_size(c, channel, input);
    lemma_drive_root_bounds(c);
    assert(den >= 1_000_000_000_000) by (nonlinear_arith)
        requires
            den == 100 * ONE * drive_root(c),
            drive_root(c) >= 10_000,
            ONE == 1_000_000,
    ;
    assert(0 <= n <= 100_000_000_000_000_000_000) by (nonlinear_arith)
        requires
            n == abs(k) * g,
            0 <= abs(k) <= 1_000_000_000_000,
            0 <= g <= 100_000_000,
    ;
    lemma_div_is_ordered_by_denominator(n, 1_000_000_000_000, den);
    lemma_div_is_ordered(n, 100_000_000_000_000_000_000, 1_000_000_000_000);
    if c.drive <= DRIVE_FLOOR {
        let floored = c.with(Param::Drive, DRIVE_FLOOR as int);
        assert(effective_drive(floored) == effective_drive(c));
    }
}

/// With a drive of `1.0`, no DC offset and an output gain of `1.0`, the
/// output is the hundredth part of the input limited to the interval from
/// `-1.0` to `1.0`.
pub proof fn lemma_unity(c: Controls, channel: Channel, input: int)
    requires
        c.in_range(),
        c.drive == ONE,
        c.dc_left == 0,
        c.dc_right == 0,
        c.out_gain == ONE,
    ensures
        output_sample(c, channel, input) == div_toward_zero(
            clamp_spec(input, -ONE, ONE as int),
            100,
        ),
{
    let limited = clamp_spec(input, -ONE, ONE as int);
    assert(1_000_000nat * 1_000_000nat == 1_000_000_000_000nat);
    lemma_sqrt_floor_of_square(1_000_000);
    assert(drive_root(c) == ONE);
    assert(driven(c, channel, input) == input * ONE);
    assert(clipped(c, channel, input) == limited * ONE);
    assert(clipped(c, channel, input) * c.out_gain == limited * 1_000_000_000_000)
        by (nonlinear_arith)
        requires
            clipped(c, channel, input) == limited * 1_000_000,
            c.out_gain == 1_000_000,
    ;
    assert(100 * ONE * drive_root(c) == 1_000_000_000_000 * 100) by (nonlinear_arith)
        requires
            drive_root(c) == 1_000_000,
            ONE == 1_000_000,
    ;
    if limited >= 0 {
        lemma_div_multiples_vanish_quotient(1_000_000_000_000, limited, 100);
    } else {
        lemma_div_multiples_vanish_quotient(1_000_000_000_000, -limited, 100);
    }
}

/// Once the driven signal has reached the upper limit, a larger input gives
/// the same output; once it has reached the lower limit, a smaller input
/// gives the same output.
pub proof fn lemma_saturation(c: Controls, channel: Channel, input: int, further: int)
    requires
        c.in_range(),
    ensures
        driven(c, channel, input) >= ONE_SQUARED && further >= input ==> output_sample(
            c,
            channel,
            further,
        ) == output_sample(c, channel, input),
        driven(c, channel, input) <= -ONE_SQUARED && further <= input ==> output_sample(
            c,
            channel,
            further,
        ) == output_sample(c, channel, input),
{
    let d = effective_drive(c);
    if further >= input {
        assert(further * d >= input * d) by (nonlinear_arith)
            requires
                further >= input,
                d >= 0,
        ;
    } else {
        assert(further * d <= input * d) by (nonlinear_arith)
            requires
                further <= input,
                d >= 0,
        ;
    }
}

/// With a drive of `1.0` or more, the gain compensation never raises the
/// level: the output is no larger in size than the clipped signal times the
/// output gain alone.
pub proof fn lemma_compensation_bounded(c: Controls, channel: Channel, input: int)
    requires
        c.in_range(),
        c.drive >= ONE,
    ensures
        abs(output_sample(c, channel, input)) <= abs(clipped(c, channel, input)) * c.out_gain / (100
            * ONE * ONE),
{
    let n = abs(clipped(c, channel, input)) * c.out_gain;
    lemma_output_size(c, channel, input);
    assert(1_000_000nat * 1_000_000nat == 1_000_000_000_000nat);
    lemma_sqrt_floor_of_square(1_000_000);
    assert(c.drive * ONE >= ONE * ONE) by (nonlinear_arith)
        requires
            c.drive >= ONE,
            ONE > 0,
    ;
    lemma_sqrt_floor_monotone((ONE * ONE) as nat, (c.drive * ONE) as nat);
    assert(drive_root(c) >= ONE);
    assert(100 * ONE * drive_root(c) >= 100 * ONE * ONE >= 1) by (nonlinear_arith)
        requires
            drive_root(c) >= ONE,
            ONE == 1_000_000,
    ;
    assert(n >= 0) by (nonlinear_arith)
        requires
            n == abs(clipped(c, channel, input)) * c.out_gain,
            c.out_gain >= 0,
    ;
    lemma_div_is_ordered_by_denominator(n, 100 * ONE * ONE, 100 * ONE * drive_root(c));
}

/// A signal that clips stays clipped, on the same side, when the drive
/// alone is raised: at the upper limit for an input that is not negative, at
/// the lower limit for one that is not positive.
pub proof fn lemma_clipping_persists(
    lower: Controls,
    higher: Controls,
    channel: Channel,
    input: int,
)
    requires
        lower.in_range(),
        higher.in_range(),
        lower.drive <= higher.drive,
        higher == lower.with(Param::Drive, higher.drive),
    ensures
        input >= 0 && driven(lower, channel, input) >= ONE_SQUARED ==> clipped(
            higher,
            channel,
            input,
        ) == clipped(lower, channel, input) == ONE_SQUARED,
        input <= 0 && driven(lower, channel, input) <= -ONE_SQUARED ==> clipped(
            higher,
            channel,
            input,
        ) == clipped(lower, channel, input) == -ONE_SQUARED,
{
    let dl = effective_drive(lower);
    let dh = effective_drive(higher);
    if input >= 0 {
        assert(input * dl <= input * dh) by (nonlinear_arith)
            requires
                input >= 0,
                dl <= dh,
        ;
    } else {
        assert(input * dl >= input * dh) by (nonlinear_arith)
            requires
                input <= 0,
                dl <= dh,
        ;
    }
}

/// Where two sets of control values differ in the drive alone and give the
/// same clipped signal, as they do while the signal clips, the larger drive
/// gives an output that is no larger in size.
pub proof fn lemma_compensation_monotone(
    lower: Controls,
    higher: Controls,
    channel: Channel,
    input: int,
)
    requires
        lower.in_range(),
        higher.in_range(),
        lower.drive <= higher.drive,
        higher == lower.with(Param::Drive, higher.drive),
        clipped(lower, channel, input) == clipped(higher, channel, input),
    ensures
        abs(output_sample(higher, channel, input)) <= abs(output_sample(lower, channel, input)),
{
    let n = abs(clipped(lower, channel, input)) * lower.out_gain;
    lemma_output_size(lower, channel, input);
    lemma_output_size(higher, channel, input);
    lemma_drive_root_bounds(lower);
    let dl = effective_drive(lower);
    let dh = effective_drive(higher);
    assert(0 <= dl * ONE <= dh * ONE) by (nonlinear_arith)
        requires
            0 <= dl <= dh,
            ONE > 0,
    ;
    lemma_sqrt_floor_monotone((dl * ONE) as nat, (dh * ONE) as nat);
    assert(1 <= 100 * ONE * drive_root(lower) <= 100 * ONE * drive_root(higher))
        by (nonlinear_arith)
        requires
            10_000 <= drive_root(lower) <= drive_root(higher),
            ONE == 1_000_000,
    ;
    assert(n >= 0) by (nonlinear_arith)
        requires
            n == abs(clipped(lower, channel, input)) * lower.out_gain,
            lower.out_gain >= 0,
    ;
    lemma_div_is_ordered_by_denominator(
        n,
        100 * ONE * drive_root(lower),
        100 * ONE * drive_root(higher),
    );
}

/// Processing a buffer gives what processing its first `n` samples and the
/// rest as two buffers gives, each under its own frames: nothing is carried
/// from one buffer to the next.
pub proof fn lemma_process_split(frames: Seq<Controls>, input: Stereo, n: int)
    requires
        input.well_formed(),
        frames.len() == input.len(),
        0 <= n <= input.len(),
    ensures
        processed(frames, input) == processed(frames.take(n), input.take(n)).concat(
            processed(frames.skip(n), input.skip(n)),
        ),
{
    let whole = processed(frames, input);
    let parts = processed(frames.take(n), input.take(n)).concat(
        processed(frames.skip(n), input.skip(n)),
    );
    assert(whole.left =~= parts.left);
    assert(whole.right =~= parts.right);
}

} // verus!
