//! Stereo audio buffers: two sequences of samples of one length.

use vstd::prelude::*;

verus! {

/// One of the two channels.
#[derive(Clone, Copy, Debug, PartialEq, Eq)]
pub enum Channel {
    Left,
    Right,
}

/// The samples of a stereo buffer as mathematical integers: what a
/// [`StereoBuffer`] holds.
pub struct Stereo {
    pub left: Seq<int>,
    pub right: Seq<int>,
}

impl Stereo {
    /// Both channels have the same number of samples.
    pub open spec fn well_formed(self) -> bool {
        self.left.len() == self.right.len()
    }

    /// The number of samples in each channel.
    pub open spec fn len(self) -> nat {
        self.left.len()
    }

    /// The samples of one channel.
    pub open spec fn channel(self, channel: Channel) -> Seq<int> {
        match channel {
            Channel::Left => self.left,
            Channel::Right => self.right,
        }
    }

    /// These samples with one of them replaced.
    pub open spec fn update(self, channel: Channel, index: int, value: int) -> Stereo {
        match channel {
            Channel::Left => Stereo { left: self.left.update(index, value), ..self },
            Channel::Right => Stereo { right: self.right.update(index, value), ..self },
        }
    }

    /// The first `n` samples of each channel.
    pub open spec fn take(self, n: int) -> Stereo {
        Stereo { left: self.left.take(n), right: self.right.take(n) }
    }

    /// What is left of each channel after its first `n` samples.
    pub open spec fn skip(self, n: int) -> Stereo {
        Stereo { left: self.left.skip(n), right: self.right.skip(n) }
    }

    /// These samples followed, channel by channel, by those of `other`.
    pub open spec fn concat(self, other: Stereo) -> Stereo {
        Stereo { left: self.left + other.left, right: self.right + other.right }
    }
}

/// The samples of a vector as mathematical integers.
pub open spec fn samples(v: Seq<i64>) -> Seq<int> {
    Seq::new(v.len(), |i: int| v[i] as int)
}

/// A stereo audio buffer: as many samples in the left channel as in the right.
#[derive(Debug, PartialEq, Eq)]
pub struct StereoBuffer {
    left: Vec<i64>,
    right: Vec<i64>,
}

impl View for StereoBuffer {
    type V = Stereo;

    closed spec fn view(&self) -> Stereo {
        Stereo { left: samples(self.left@), right: samples(self.right@) }
    }
}

impl StereoBuffer {
    /// Both channels have the same length. Every buffer that this module
    /// hands out is well formed.
    pub open spec fn well_formed(self) -> bool {
        self@.well_formed()
    }

    /// A buffer of the two channels given, or `None` where their lengths
    /// differ.
    pub fn new(left: Vec<i64>, right: Vec<i64>) -> (r: Option<Self>)
        ensures
            r.is_some() == (left@.len() == right@.len()),
            r matches Some(b) ==> b.well_formed() && b@ == (Stereo {
                left: samples(left@),
                right: samples(right@),
            }),
    {
        if left.len() == right.len() {
            Some(StereoBuffer { left, right })
        } else {
            None
        }
    }

    /// A buffer of `len` samples in each channel, all of them zero.
    pub fn silent(len: usize) -> (r: Self)
        ensures
            r.well_formed(),
            r@.len() == len,
            forall|i: int| 0 <= i < len ==> r@.left[i] == 0 && r@.right[i] == 0,
    {
        let mut left: Vec<i64> = Vec::with_capacity(len);
        let mut right: Vec<i64> = Vec::with_capacity(len);
        let mut i: usize = 0;
        while i < len
            invariant
                i <= len,
                left@.len() == i,
                right@.len() == i,
                forall|j: int| 0 <= j < i ==> left@[j] == 0 && right@[j] == 0,
            decreases len - i,
        {
            left.push(0);
            right.push(0);
            i += 1;
        }
        StereoBuffer { left, right }
    }

    /// The number of samples in each channel.
    pub fn len(&self) -> (n: usize)
        ensures
            n == self@.len(),
    {
        self.left.len()
    }

    /// The sample of `channel` at `index`.
    pub fn sample(&self, channel: Channel, index: usize) -> (value: i64)
        requires
            self.well_formed(),
            index < self@.len(),
        ensures
            value == self@.channel(channel)[index as int],
    {
        match channel {
            Channel::Left => self.left[index],
            Channel::Right => self.right[index],
        }
    }

    /// Replaces the sample of `channel` at `index` by `value`.
    pub fn set_sample(&mut self, channel: Channel, index: usize, value: i64)
        requires
            old(self).well_formed(),
            index < old(self)@.len(),
        ensures
            final(self).well_formed(),
            final(self)@ == old(self)@.update(channel, index as int, value as int),
    {
        match channel {
            Channel::Left => {
                self.left.set(index, value);
                assert(samples(self.left@) =~= samples(old(self).left@).update(
                    index as int,
                    value as int,
                ));
            },
            Channel::Right => {
                self.right.set(index, value);
                assert(samples(self.right@) =~= samples(old(self).right@).update(
                    index as int,
                    value as int,
                ));
            },
        }
    }

    /// The samples of `channel`, in order.
    pub fn channel(&self, channel: Channel) -> (v: &Vec<i64>)
        ensures
            samples(v@) == self@.channel(channel),
    {
        match channel {
            Channel::Left => &self.left,
            Channel::Right => &self.right,
        }
    }
}

} // verus!
