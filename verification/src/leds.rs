//! Four LEDs that show the low four bits of a number.

use vstd::prelude::*;
use crate::led_pins::{Led, LedStatus};

verus! {

/// The level of the LED that shows bit `i` of `n`: high where the bit is
/// set.
pub open spec fn level_of_bit(n: u8, i: u8) -> LedStatus {
    if n & (1u8 << i) != 0 {
        LedStatus::HIGH
    } else {
        LedStatus::LOW
    }
}

/// Four LEDs, `_0` for the lowest bit.
pub struct LEDs<L: Led> {
    /// The LED of bit 0.
    pub _0: L,
    /// The LED of bit 1.
    pub _1: L,
    /// The LED of bit 2.
    pub _2: L,
    /// The LED of bit 3.
    pub _3: L,
}

impl<L: Led> LEDs<L> {
    /// The four LEDs as they are.
    pub fn new(_0: L, _1: L, _2: L, _3: L) -> (leds: Self)
        ensures
            leds._0 == _0,
            leds._1 == _1,
            leds._2 == _2,
            leds._3 == _3,
    {
        LEDs { _0, _1, _2, _3 }
    }

    /// Shows the low four bits of `n`: each LED goes high where its bit is
    /// set and low where it is not.
    pub fn light(&mut self, n: u8)
        ensures
            final(self)._0.status() == level_of_bit(n, 0),
            final(self)._1.status() == level_of_bit(n, 1),
            final(self)._2.status() == level_of_bit(n, 2),
            final(self)._3.status() == level_of_bit(n, 3),
    {
        self._0.set_status(level_for(n, 0));
        self._1.set_status(level_for(n, 1));
        self._2.set_status(level_for(n, 2));
        self._3.set_status(level_for(n, 3));
    }
}

/// The level of the LED that shows bit `i` of `n`.
fn level_for(n: u8, i: u8) -> (level: LedStatus)
    requires
        i < 8,
    ensures
        level == level_of_bit(n, i),
{
    if n & (1u8 << i) != 0 {
        LedStatus::HIGH
    } else {
        LedStatus::LOW
    }
}

} // verus!
