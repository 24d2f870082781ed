//! Automation: the control values in effect at every sample of a buffer.
//!
//! The host sets targets; over the next buffer each control moves from the
//! value it had at the end of the last buffer to its target on a straight
//! line, and reaches the target at the last sample of the buffer.

use vstd::prelude::*;
use vstd::arithmetic::div_mod::{lemma_div_is_ordered, lemma_div_multiples_vanish};
use crate::model::{controls_of, Controls, Param, ZaDClipperModel};

verus! {

/// The value of a ramp from `from` to `to` after `step` of `steps` steps. The
/// distance covered is rounded down, so the ramp never overshoots.
pub open spec fn ramp_value(from: int, to: int, step: int, steps: int) -> int
    recommends
        0 <= step <= steps,
        0 < steps,
{
    if to >= from {
        from + (to - from) * step / steps
    } else {
        from - (from - to) * step / steps
    }
}

/// Every control after `step` of `steps` steps on its ramp from `from` to
/// `to`.
pub open spec fn ramp(from: Controls, to: Controls, step: int, steps: int) -> Controls {
    Controls {
        dc_left: ramp_value(from.dc_left, to.dc_left, step, steps),
        dc_right: ramp_value(from.dc_right, to.dc_right, step, steps),
        dc_amount: ramp_value(from.dc_amount, to.dc_amount, step, steps),
        drive: ramp_value(from.drive, to.drive, step, steps),
        out_gain: ramp_value(from.out_gain, to.out_gain, step, steps),
    }
}

/// The frames of a buffer of `len` samples: the frame at index `i` is step
/// `i + 1` of `len` on the ramp from `from` to `to`.
pub open spec fn resolved(from: Controls, to: Controls, len: nat) -> Seq<Controls> {
    Seq::new(len, |i: int| ramp(from, to, i + 1, len as int))
}

/// The distance a ramp has covered lies between nothing and all of it, grows
/// with the step, and is all of it at the last step.
proof fn lemma_covered(distance: int, step: int, later: int, steps: int)
    requires
        0 <= distance,
        0 <= step <= later <= steps,
        0 < steps,
    ensures
        0 <= distance * step / steps <= distance * later / steps <= distance,
        distance * 0 / steps == 0,
        distance * steps / steps == distance,
{
    assert(0 <= distance * step <= distance * later <= distance * steps) by (nonlinear_arith)
        requires
            0 <= distance,
            0 <= step <= later <= steps,
    ;
    assert(distance * steps == steps * distance) by (nonlinear_arith);
    assert(distance * 0 == 0);
    lemma_div_multiples_vanish(distance, steps);
    lemma_div_multiples_vanish(0, steps);
    lemma_div_is_ordered(0, distance * step, steps);
    lemma_div_is_ordered(distance * step, distance * later, steps);
    lemma_div_is_ordered(distance * later, distance * steps, steps);
}

/// A ramp starts at `from`, ends at `to`, and in between moves toward `to`
/// without ever turning back or leaving the interval between the two.
pub proof fn lemma_ramp_value(from: int, to: int, step: int, later: int, steps: int)
    requires
        0 <= step <= later <= steps,
        0 < steps,
    ensures
        ramp_value(from, to, 0, steps) == from,
        ramp_value(from, to, steps, steps) == to,
        from <= to ==> from <= ramp_value(from, to, step, steps) <= ramp_value(
            from,
            to,
            later,
            steps,
        ) <= to,
        from >= to ==> from >= ramp_value(from, to, step, steps) >= ramp_value(
            from,
            to,
            later,
            steps,
        ) >= to,
{
    if to >= from {
        lemma_covered(to - from, step, later, steps);
    } else {
        lemma_covered(from - to, step, later, steps);
    }
}

/// A ramp between two sets of control values in range stays in range, starts
/// at `from` and ends at `to`.
pub proof fn lemma_ramp(from: Controls, to: Controls, step: int, steps: int)
    requires
        from.in_range(),
        to.in_range(),
        0 <= step <= steps,
        0 < steps,
    ensures
        ramp(from, to, step, steps).in_range(),
        ramp(from, to, 0, steps) == from,
        ramp(from, to, steps, steps) == to,
{
    lemma_ramp_value(from.dc_left, to.dc_left, step, step, steps);
    lemma_ramp_value(from.dc_right, to.dc_right, step, step, steps);
    lemma_ramp_value(from.dc_amount, to.dc_amount, step, step, steps);
    lemma_ramp_value(from.drive, to.drive, step, step, steps);
    lemma_ramp_value(from.out_gain, to.out_gain, step, step, steps);
}

/// The value of a ramp between two values of one control.
fn ramp_step(from: i64, to: i64, step: usize, steps: usize) -> (r: i64)
    requires
        -100_000_000 <= from <= 100_000_000,
        -100_000_000 <= to <= 100_000_000,
        0 < step <= steps,
    ensures
        r == ramp_value(from as int, to as int, step as int, steps as int),
{
    if to >= from {
        let distance: u128 = (to - from) as u128;
        proof {
            lemma_covered(distance as int, step as int, step as int, steps as int);
        }
        assert(distance * step <= 200_000_000 * 0xFFFF_FFFF_FFFF_FFFF) by (nonlinear_arith)
            requires
                0 <= distance <= 200_000_000,
                0 <= step <= 0xFFFF_FFFF_FFFF_FFFF,
        ;
        let covered: u128 = distance * (step as u128) / (steps as u128);
        from + (covered as i64)
    } else {
        let distance: u128 = (from - to) as u128;
        proof {
            lemma_covered(distance as int, step as int, step as int, steps as int);
        }
        assert(distance * step <= 200_000_000 * 0xFFFF_FFFF_FFFF_FFFF) by (nonlinear_arith)
            requires
                0 <= distance <= 200_000_000,
                0 <= step <= 0xFFFF_FFFF_FFFF_FFFF,
        ;
        let covered: u128 = distance * (step as u128) / (steps as u128);
        from - (covered as i64)
    }
}

/// Every control after `step` of `steps` steps on its ramp from `from` to
/// `to`.
fn ramp_frame(from: &ZaDClipperModel, to: &ZaDClipperModel, step: usize, steps: usize) -> (r:
    ZaDClipperModel)
    requires
        0 < step <= steps,
    ensures
        r@ == ramp(from@, to@, step as int, steps as int),
{
    let dc_left: i64 = ramp_step(from.get(Param::DcLeft), to.get(Param::DcLeft), step, steps);
    let dc_right: i64 = ramp_step(from.get(Param::DcRight), to.get(Param::DcRight), step, steps);
    let dc_amount: i64 = ramp_step(
        from.get(Param::DcAmount),
        to.get(Param::DcAmount),
        step,
        steps,
    );
    let drive: i64 = ramp_step(from.get(Param::Drive), to.get(Param::Drive), step, steps);
    let out_gain: i64 = ramp_step(from.get(Param::OutGain), to.get(Param::OutGain), step, steps);
    proof {
        lemma_ramp(from@, to@, step as int, steps as int);
    }
    ZaDClipperModel::new(dc_left, dc_right, dc_amount, drive, out_gain).unwrap()
}

/// What an [`Automation`] holds: the control values in effect at the end of
/// the last buffer, and the values the host has asked for.
pub struct Pending {
    pub current: Controls,
    pub target: Controls,
}

/// The automation of the five controls.
#[derive(Clone, Copy, Debug, PartialEq, Eq)]
pub struct Automation {
    current: ZaDClipperModel,
    target: ZaDClipperModel,
}

impl View for Automation {
    type V = Pending;

    closed spec fn view(&self) -> Pending {
        Pending { current: self.current@, target: self.target@ }
    }
}

impl Automation {
    /// An automation at rest at the values of `initial`.
    pub fn new(initial: ZaDClipperModel) -> (r: Self)
        ensures
            r@ == (Pending { current: initial@, target: initial@ }),
    {
        Automation { current: initial, target: initial }
    }

    /// The control values in effect at the end of the last buffer.
    pub fn current(&self) -> (r: ZaDClipperModel)
        ensures
            r@ == self@.current,
    {
        self.current
    }

    /// The control values the host has asked for.
    pub fn target(&self) -> (r: ZaDClipperModel)
        ensures
            r@ == self@.target,
    {
        self.target
    }

    /// Asks for `value` as the new value of `param`. A value outside the
    /// range of `param` is turned down and changes nothing.
    pub fn set(&mut self, param: Param, value: i64) -> (accepted: bool)
        ensures
            accepted == param.admits(value as int),
            final(self)@.current == old(self)@.current,
            accepted ==> final(self)@.target == old(self)@.target.with(param, value as int),
            !accepted ==> final(self)@.target == old(self)@.target,
    {
        match self.target.with(param, value) {
            Some(target) => {
                self.target = target;
                true
            },
            None => false,
        }
    }

    /// Fills `frames` with the control values in effect at each sample of
    /// the next buffer, which is as long as `frames`. The last frame holds
    /// the targets, and so does the automation afterwards.
    pub fn resolve(&mut self, frames: &mut Vec<ZaDClipperModel>)
        ensures
            final(frames)@.len() == old(frames)@.len(),
            controls_of(final(frames)@) == resolved(
                old(self)@.current,
                old(self)@.target,
                old(frames)@.len(),
            ),
            old(frames)@.len() > 0 ==> final(frames)@.last()@ == old(self)@.target,
            final(self)@.target == old(self)@.target,
            old(frames)@.len() == 0 ==> final(self)@.current == old(self)@.current,
            old(frames)@.len() > 0 ==> final(self)@.current == old(self)@.target,
    {
        let from: ZaDClipperModel = self.current;
        let to: ZaDClipperModel = self.target;
        let len: usize = frames.len();
        let mut i: usize = 0;
        while i < len
            invariant
                i <= len,
                frames@.len() == len,
                forall|j: int| 0 <= j < i ==> frames@[j]@ == ramp(from@, to@, j + 1, len as int),
            decreases len - i,
        {
            let frame: ZaDClipperModel = ramp_frame(&from, &to, i + 1, len);
            frames.set(i, frame);
            i += 1;
        }
        if len > 0 {
            self.current = to;
            proof {
                use_type_invariant(&from);
                use_type_invariant(&to);
                lemma_ramp(from@, to@, len as int, len as int);
            }
        }
        assert(controls_of(frames@) =~= resolved(from@, to@, len as nat));
    }
}

} // verus!
