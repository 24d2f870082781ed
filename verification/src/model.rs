//! The parameter model: five control values, each with a declared range and a
//! default.

use vstd::prelude::*;
use crate::fixed::clamp_spec;

verus! {

/// Lower end of the range of both DC offsets: `-1.0`.
pub const DC_MIN: i64 = -1_000_000;

/// Upper end of the range of both DC offsets: `1.0`.
pub const DC_MAX: i64 = 1_000_000;

/// Lower end of the range of the DC amount: `0.0`.
pub const DC_AMOUNT_MIN: i64 = 0;

/// Upper end of the range of the DC amount: `1.0`.
pub const DC_AMOUNT_MAX: i64 = 1_000_000;

/// Lower end of the range of the drive: `0.0`.
pub const DRIVE_MIN: i64 = 0;

/// Upper end of the range of the drive: `24.0`.
pub const DRIVE_MAX: i64 = 24_000_000;

/// Lower end of the range of the output gain: `0.0` percent.
pub const OUT_GAIN_MIN: i64 = 0;

/// Upper end of the range of the output gain: `100.0` percent.
pub const OUT_GAIN_MAX: i64 = 100_000_000;

/// The name of a control parameter.
#[derive(Clone, Copy, Debug, PartialEq, Eq)]
pub enum Param {
    /// DC bias injected into the left channel.
    DcLeft,
    /// DC bias injected into the right channel.
    DcRight,
    /// How much of the DC bias is mixed in.
    DcAmount,
    /// Gain applied to the dry signal before clipping.
    Drive,
    /// Output level after clipping, in percent.
    OutGain,
}

impl Param {
    /// The smallest value the parameter may take.
    pub open spec fn min_spec(self) -> int {
        match self {
            Param::DcLeft => DC_MIN as int,
            Param::DcRight => DC_MIN as int,
            Param::DcAmount => DC_AMOUNT_MIN as int,
            Param::Drive => DRIVE_MIN as int,
            Param::OutGain => OUT_GAIN_MIN as int,
        }
    }

    /// The largest value the parameter may take.
    pub open spec fn max_spec(self) -> int {
        match self {
            Param::DcLeft => DC_MAX as int,
            Param::DcRight => DC_MAX as int,
            Param::DcAmount => DC_AMOUNT_MAX as int,
            Param::Drive => DRIVE_MAX as int,
            Param::OutGain => OUT_GAIN_MAX as int,
        }
    }

    /// The value the parameter has before anything sets it.
    pub open spec fn default_spec(self) -> int {
        match self {
            Param::DcLeft => 0,
            Param::DcRight => 0,
            Param::DcAmount => 1_000_000,
            Param::Drive => 1_000_000,
            Param::OutGain => 1_000_000,
        }
    }

    /// `value` lies in the parameter's range.
    pub open spec fn admits(self, value: int) -> bool {
        self.min_spec() <= value <= self.max_spec()
    }

    /// The smallest value the parameter may take.
    pub fn min(self) -> (r: i64)
        ensures
            r == self.min_spec(),
    {
        match self {
            Param::DcLeft => DC_MIN,
            Param::DcRight => DC_MIN,
            Param::DcAmount => DC_AMOUNT_MIN,
            Param::Drive => DRIVE_MIN,
            Param::OutGain => OUT_GAIN_MIN,
        }
    }

    /// The largest value the parameter may take.
    pub fn max(self) -> (r: i64)
        ensures
            r == self.max_spec(),
    {
        match self {
            Param::DcLeft => DC_MAX,
            Param::DcRight => DC_MAX,
            Param::DcAmount => DC_AMOUNT_MAX,
            Param::Drive => DRIVE_MAX,
            Param::OutGain => OUT_GAIN_MAX,
        }
    }

    /// The value the parameter has before anything sets it.
    pub fn default_value(self) -> (r: i64)
        ensures
            r == self.default_spec(),
            self.admits(r as int),
    {
        match self {
            Param::DcLeft => 0,
            Param::DcRight => 0,
            Param::DcAmount => 1_000_000,
            Param::Drive => 1_000_000,
            Param::OutGain => 1_000_000,
        }
    }

    /// Whether `value` lies in the parameter's range.
    pub fn accepts(self, value: i64) -> (b: bool)
        ensures
            b == self.admits(value as int),
    {
        self.min() <= value && value <= self.max()
    }

    /// `value` limited to the parameter's range: the nearest value that the
    /// parameter may take.
    pub fn limit(self, value: i64) -> (r: i64)
        ensures
            r == clamp_spec(value as int, self.min_spec(), self.max_spec()),
            self.admits(r as int),
            self.admits(value as int) ==> r == value,
    {
        if value < self.min() {
            self.min()
        } else if value > self.max() {
            self.max()
        } else {
            value
        }
    }
}

/// The five control values as mathematical integers: what a
/// [`ZaDClipperModel`] holds.
pub struct Controls {
    pub dc_left: int,
    pub dc_right: int,
    pub dc_amount: int,
    pub drive: int,
    pub out_gain: int,
}

impl Controls {
    /// The value of one parameter.
    pub open spec fn get(self, param: Param) -> int {
        match param {
            Param::DcLeft => self.dc_left,
            Param::DcRight => self.dc_right,
            Param::DcAmount => self.dc_amount,
            Param::Drive => self.drive,
            Param::OutGain => self.out_gain,
        }
    }

    /// These values with one parameter replaced.
    pub open spec fn with(self, param: Param, value: int) -> Controls {
        match param {
            Param::DcLeft => Controls { dc_left: value, ..self },
            Param::DcRight => Controls { dc_right: value, ..self },
            Param::DcAmount => Controls { dc_amount: value, ..self },
            Param::Drive => Controls { drive: value, ..self },
            Param::OutGain => Controls { out_gain: value, ..self },
        }
    }

    /// Every value lies in the range of its parameter.
    pub open spec fn in_range(self) -> bool {
        &&& Param::DcLeft.admits(self.dc_left)
        &&& Param::DcRight.admits(self.dc_right)
        &&& Param::DcAmount.admits(self.dc_amount)
        &&& Param::Drive.admits(self.drive)
        &&& Param::OutGain.admits(self.out_gain)
    }

    /// The values a model starts with.
    pub open spec fn defaults() -> Controls {
        Controls {
            dc_left: Param::DcLeft.default_spec(),
            dc_right: Param::DcRight.default_spec(),
            dc_amount: Param::DcAmount.default_spec(),
            drive: Param::Drive.default_spec(),
            out_gain: Param::OutGain.default_spec(),
        }
    }
}

/// The five control values in effect at one instant. Every value of this type
/// holds each control inside its declared range.
#[derive(Clone, Copy, Debug, PartialEq, Eq)]
pub struct ZaDClipperModel {
    dc_left: i64,
    dc_right: i64,
    dc_amount: i64,
    drive: i64,
    out_gain: i64,
}

impl View for ZaDClipperModel {
    type V = Controls;

    closed spec fn view(&self) -> Controls {
        Controls {
            dc_left: self.dc_left as int,
            dc_right: self.dc_right as int,
            dc_amount: self.dc_amount as int,
            drive: self.drive as int,
            out_gain: self.out_gain as int,
        }
    }
}

impl ZaDClipperModel {
    /// The invariant of the type: every control lies in its range.
    #[verifier::type_invariant]
    pub open spec fn well_formed(self) -> bool {
        self@.in_range()
    }

    /// A model with the given values, or `None` where one of them lies
    /// outside the range of its parameter.
    pub fn new(dc_left: i64, dc_right: i64, dc_amount: i64, drive: i64, out_gain: i64) -> (r:
        Option<Self>)
        ensures
            r.is_some() == (Controls {
                dc_left: dc_left as int,
                dc_right: dc_right as int,
                dc_amount: dc_amount as int,
                drive: drive as int,
                out_gain: out_gain as int,
            }).in_range(),
            r matches Some(m) ==> m@ == (Controls {
                dc_left: dc_left as int,
                dc_right: dc_right as int,
                dc_amount: dc_amount as int,
                drive: drive as int,
                out_gain: out_gain as int,
            }),
    {
        if Param::DcLeft.accepts(dc_left) && Param::DcRight.accepts(dc_right)
            && Param::DcAmount.accepts(dc_amount) && Param::Drive.accepts(drive)
            && Param::OutGain.accepts(out_gain) {
            Some(ZaDClipperModel { dc_left, dc_right, dc_amount, drive, out_gain })
        } else {
            None
        }
    }

    /// The value of one parameter.
    pub fn get(&self, param: Param) -> (r: i64)
        ensures
            r == self@.get(param),
            param.admits(r as int),
            self@.in_range(),
    {
        proof {
            use_type_invariant(self);
        }
        match param {
            Param::DcLeft => self.dc_left,
            Param::DcRight => self.dc_right,
            Param::DcAmount => self.dc_amount,
            Param::Drive => self.drive,
            Param::OutGain => self.out_gain,
        }
    }

    /// This model with one parameter replaced, or `None` where `value` lies
    /// outside the range of `param`.
    pub fn with(self, param: Param, value: i64) -> (r: Option<Self>)
        ensures
            r.is_some() == param.admits(value as int),
            r matches Some(m) ==> m@ == self@.with(param, value as int),
    {
        proof {
            use_type_invariant(self);
        }
        if !param.accepts(value) {
            return None;
        }
        match param {
            Param::DcLeft => Some(ZaDClipperModel { dc_left: value, ..self }),
            Param::DcRight => Some(ZaDClipperModel { dc_right: value, ..self }),
            Param::DcAmount => Some(ZaDClipperModel { dc_amount: value, ..self }),
            Param::Drive => Some(ZaDClipperModel { drive: value, ..self }),
            Param::OutGain => Some(ZaDClipperModel { out_gain: value, ..self }),
        }
    }
}

/// The control values of each frame of a sequence.
pub open spec fn controls_of(frames: Seq<ZaDClipperModel>) -> Seq<Controls> {
    Seq::new(frames.len(), |i: int| frames[i]@)
}

impl Default for ZaDClipperModel {
    /// No DC offset, full DC amount, a drive of `1.0` and an output gain of
    /// `1.0`.
    fn default() -> (r: Self)
        ensures
            r@ == Controls::defaults(),
    {
        ZaDClipperModel {
            dc_left: 0,
            dc_right: 0,
            dc_amount: 1_000_000,
            drive: 1_000_000,
            out_gain: 1_000_000,
        }
    }
}

} // verus!
