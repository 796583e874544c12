//! Sample rates and positions in time.

use vstd::prelude::*;

verus! {

/// The largest position or duration, in the arithmetic of the model.
pub open spec fn max_position() -> nat {
    usize::MAX as nat
}

/// `floor(n * mul / div)`, held down to the largest representable position.
pub open spec fn scaled(n: nat, mul: nat, div: nat) -> nat
    recommends
        div > 0,
{
    let exact = (n * mul) / div;
    if exact > max_position() {
        max_position()
    } else {
        exact
    }
}

/// A sample rate in Hz: a positive number of frames per second.
#[derive(Clone, Copy, Debug, PartialEq, Eq, Structural)]
pub struct Rate {
    value: u32,
}

impl Rate {
    /// The rate as a number of frames per second.
    pub closed spec fn hz(&self) -> nat {
        self.value as nat
    }

    /// A rate is positive.
    pub open spec fn wf(&self) -> bool {
        self.hz() > 0
    }

    /// The millisecond in which frame `pos` falls.
    pub open spec fn pos_to_time_ms(&self, pos: nat) -> nat {
        scaled(pos, 1000, self.hz())
    }

    /// The first frame that lies at or before `time_ms` milliseconds.
    pub open spec fn time_ms_to_pos(&self, time_ms: nat) -> nat {
        scaled(time_ms, self.hz(), 1000)
    }

    pub fn new(value: u32) -> (rate: Rate)
        requires
            value > 0,
        ensures
            rate.wf(),
            rate.hz() == value,
    {
        Rate { value }
    }

    pub fn value(&self) -> (value: u32)
        ensures
            value == self.hz(),
    {
        self.value
    }

    pub fn convert_pos_to_time_ms(&self, pos: usize) -> (time_ms: usize)
        requires
            self.wf(),
        ensures
            time_ms == self.pos_to_time_ms(pos as nat),
    {
        scale(pos, 1000, self.value)
    }

    pub fn convert_time_ms_to_pos(&self, time_ms: usize) -> (pos: usize)
        requires
            self.wf(),
        ensures
            pos == self.time_ms_to_pos(time_ms as nat),
    {
        scale(time_ms, self.value, 1000)
    }
}

/// A position in a waveform, with the rate at which it is to be read.
#[derive(Clone, Copy, Debug, PartialEq, Eq, Structural)]
pub struct MusicTime {
    pos: usize,
    rate: Rate,
}

impl MusicTime {
    /// The position, in frames.
    pub closed spec fn frame(&self) -> nat {
        self.pos as nat
    }

    /// The rate at which the position is read.
    pub closed spec fn clock(&self) -> Rate {
        self.rate
    }

    /// The rate is a valid one.
    pub open spec fn wf(&self) -> bool {
        self.clock().wf()
    }

    pub fn from_pos(pos: usize, rate: &Rate) -> (time: MusicTime)
        ensures
            time.frame() == pos,
            time.clock() == *rate,
    {
        MusicTime { pos, rate: *rate }
    }

    pub fn from_time_ms(time: usize, rate: &Rate) -> (out: MusicTime)
        requires
            rate.wf(),
        ensures
            out.frame() == rate.time_ms_to_pos(time as nat),
            out.clock() == *rate,
    {
        MusicTime { pos: rate.convert_time_ms_to_pos(time), rate: *rate }
    }

    pub fn pos(&self) -> (pos: usize)
        ensures
            pos == self.frame(),
    {
        self.pos
    }

    pub fn rate(&self) -> (rate: &Rate)
        ensures
            *rate == self.clock(),
    {
        &self.rate
    }

    pub fn time_ms(&self) -> (time_ms: usize)
        requires
            self.wf(),
        ensures
            time_ms == self.clock().pos_to_time_ms(self.frame()),
    {
        self.rate.convert_pos_to_time_ms(self.pos)
    }
}

/// Computes `floor(n * mul / div)` without overflow, saturating at the
/// largest `usize`.
fn scale(n: usize, mul: u32, div: u32) -> (out: usize)
    requires
        div > 0,
    ensures
        out == scaled(n as nat, mul as nat, div as nat),
{
    let wide: u128 = n as u128;
    assert(wide * (mul as u128) <= 0xffff_ffff_ffff_ffff * 0xffff_ffff) by (nonlinear_arith)
        requires
            wide <= 0xffff_ffff_ffff_ffff,
            mul <= 0xffff_ffff,
    ;
    let exact: u128 = wide * (mul as u128) / (div as u128);
    if exact > usize::MAX as u128 {
        usize::MAX
    } else {
        exact as usize
    }
}

} // verus!
