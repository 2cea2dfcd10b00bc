use vstd::prelude::*;
use crate::port::{PortWrite, port_write};

verus! {

/// Frequency of the PIT input clock in Hz.
pub const PIT_BASE_HZ: u32 = 1_193_182;

/// Rate of timer interrupts programmed into PIT channel 0, in Hz.
pub const FREQUENCY_HZ: u32 = 100;

/// PIT command port.
pub const PIT_COMMAND: u16 = 0x43;
/// PIT channel 0 data port.
pub const PIT_CHANNEL0: u16 = 0x40;
/// Channel 0, low byte then high byte, square-wave mode, binary counting.
pub const PIT_MODE: u8 = 0x36;

/// The reload value that divides the PIT clock down to the tick rate.
pub open spec fn pit_divisor() -> int {
    PIT_BASE_HZ as int / FREQUENCY_HZ as int
}

/// The writes that program channel 0: the mode, then the divisor's low and high bytes.
pub open spec fn init_program() -> Seq<PortWrite> {
    seq![port_write(0x43, 0x36), port_write(0x40, 0x9b), port_write(0x40, 0x2e)]
}

/// The port writes that program PIT channel 0 for `FREQUENCY_HZ` interrupts per second.
pub fn init() -> (writes: Vec<PortWrite>)
    ensures
        writes@ == init_program(),
        pit_divisor() == 11931,
        0x9b + 0x2e * 256 == pit_divisor(),
{
    let divisor: u16 = (PIT_BASE_HZ / FREQUENCY_HZ) as u16;
    assert(divisor == 11931);
    let low: u8 = (divisor & 0xff) as u8;
    let high: u8 = (divisor >> 8) as u8;
    assert(low == 0x9b && high == 0x2e) by (bit_vector)
        requires
            divisor == 11931,
            low == (divisor & 0xff) as u8,
            high == (divisor >> 8) as u8,
    ;
    let mut writes: Vec<PortWrite> = Vec::new();
    writes.push(PortWrite::new(PIT_COMMAND, PIT_MODE));
    writes.push(PortWrite::new(PIT_CHANNEL0, low));
    writes.push(PortWrite::new(PIT_CHANNEL0, high));
    assert(writes@ =~= init_program());
    writes
}

/// Whether `count` ticks have passed since `start`, at tick count `now`; the
/// difference is taken modulo 2^64, so a wrapped counter still counts forward.
pub fn wait_over(start: u64, now: u64, count: u64) -> (over: bool)
    ensures
        over == ((now as int - start as int) % 0x1_0000_0000_0000_0000 >= count),
{
    let elapsed: u64 = now.wrapping_sub(start);
    elapsed >= count
}

/// The number of timer interrupts seen since boot.
pub struct Timer {
    ticks: u64,
}

impl Timer {
    /// The tick count, as a mathematical value.
    pub closed spec fn count(&self) -> nat {
        self.ticks as nat
    }

    /// A counter that has seen no tick.
    pub fn new() -> (t: Timer)
        ensures
            t.count() == 0,
    {
        Timer { ticks: 0 }
    }

    /// Records one timer interrupt and returns the new tick count.
    pub fn tick(&mut self) -> (n: u64)
        requires
            old(self).count() < u64::MAX,
        ensures
            final(self).count() == old(self).count() + 1,
            n == final(self).count(),
    {
        self.ticks = self.ticks + 1;
        self.ticks
    }

    /// The current tick count.
    pub fn ticks(&self) -> (n: u64)
        ensures
            n == self.count(),
    {
        self.ticks
    }
}

/// The programmed timer interrupt rate in Hz.
pub fn frequency_hz() -> (hz: u32)
    ensures
        hz == FREQUENCY_HZ,
{
    FREQUENCY_HZ
}

} // verus!
