//! The two cascaded 8259A programmable interrupt controllers.

use vstd::prelude::*;
use crate::port::{PortWrite, port_write};

verus! {

pub const PIC1_COMMAND: u16 = 0x20;
pub const PIC1_DATA: u16 = 0x21;
pub const PIC2_COMMAND: u16 = 0xa0;
pub const PIC2_DATA: u16 = 0xa1;
/// End-of-interrupt command.
pub const PIC_EOI: u8 = 0x20;
/// Initialisation command word 1: start initialisation.
pub const ICW1_INIT: u8 = 0x10;
/// Initialisation command word 1: a fourth word follows.
pub const ICW1_ICW4: u8 = 0x01;
/// Initialisation command word 4: 8086 mode.
pub const ICW4_8086: u8 = 0x01;
/// An unused port whose write gives the controllers time to settle.
pub const IO_WAIT_PORT: u16 = 0x80;

/// Interrupt vector of IRQ 0.
pub const PIC1_OFFSET: u8 = 32;
/// Interrupt vector of IRQ 8.
pub const PIC2_OFFSET: u8 = 40;

/// The pause between two initialisation words.
pub open spec fn io_wait_write() -> PortWrite {
    port_write(0x80, 0)
}

/// The writes that remap IRQ 0..7 to vectors 32..39 and IRQ 8..15 to 40..47,
/// wire the slave to line 2 of the master, select 8086 mode, and then leave only
/// IRQ 0 (the timer) unmasked.
pub open spec fn init_program() -> Seq<PortWrite> {
    seq![
        port_write(0x20, 0x11),
        io_wait_write(),
        port_write(0xa0, 0x11),
        io_wait_write(),
        port_write(0x21, 32),
        io_wait_write(),
        port_write(0xa1, 40),
        io_wait_write(),
        port_write(0x21, 4),
        io_wait_write(),
        port_write(0xa1, 2),
        io_wait_write(),
        port_write(0x21, 0x01),
        io_wait_write(),
        port_write(0xa1, 0x01),
        io_wait_write(),
        port_write(0x21, 0xfe),
        port_write(0xa1, 0xff),
    ]
}

/// The writes that acknowledge interrupt line `irq`: the slave too for lines 8
/// and above, then the master.
pub open spec fn end_of_interrupt_program(irq: u8) -> Seq<PortWrite> {
    if irq >= 8 {
        seq![port_write(0xa0, 0x20), port_write(0x20, 0x20)]
    } else {
        seq![port_write(0x20, 0x20)]
    }
}

fn io_wait() -> (w: PortWrite)
    ensures
        w == io_wait_write(),
{
    PortWrite::new(IO_WAIT_PORT, 0)
}

/// The port writes that initialise both controllers, in order.
pub fn init() -> (writes: Vec<PortWrite>)
    ensures
        writes@ == init_program(),
{
    let mut w: Vec<PortWrite> = Vec::new();
    assert(ICW1_INIT | ICW1_ICW4 == 0x11) by (bit_vector);
    w.push(PortWrite::new(PIC1_COMMAND, ICW1_INIT | ICW1_ICW4));
    w.push(io_wait());
    w.push(PortWrite::new(PIC2_COMMAND, ICW1_INIT | ICW1_ICW4));
    w.push(io_wait());
    w.push(PortWrite::new(PIC1_DATA, PIC1_OFFSET));
    w.push(io_wait());
    w.push(PortWrite::new(PIC2_DATA, PIC2_OFFSET));
    w.push(io_wait());
    w.push(PortWrite::new(PIC1_DATA, 4));
    w.push(io_wait());
    w.push(PortWrite::new(PIC2_DATA, 2));
    w.push(io_wait());
    w.push(PortWrite::new(PIC1_DATA, ICW4_8086));
    w.push(io_wait());
    w.push(PortWrite::new(PIC2_DATA, ICW4_8086));
    w.push(io_wait());
    // Keep IRQ0 (PIT) enabled and mask all other legacy IRQ lines for now.
    w.push(PortWrite::new(PIC1_DATA, 0xfe));
    w.push(PortWrite::new(PIC2_DATA, 0xff));
    assert(w@ =~= init_program());
    w
}

/// The port writes that signal the end of interrupt line `irq`.
pub fn end_of_interrupt(irq: u8) -> (writes: Vec<PortWrite>)
    ensures
        writes@ == end_of_interrupt_program(irq),
{
    let mut w: Vec<PortWrite> = Vec::new();
    if irq >= 8 {
        w.push(PortWrite::new(PIC2_COMMAND, PIC_EOI));
    }
    w.push(PortWrite::new(PIC1_COMMAND, PIC_EOI));
    assert(w@ =~= end_of_interrupt_program(irq));
    w
}

/// The end of interrupt always reaches the master controller, last; the slave is
/// acknowledged first exactly for the lines it serves, 8 to 15.
pub proof fn lemma_end_of_interrupt_lines(irq: u8)
    requires
        irq < 16,
    ensures
        8 <= irq ==> end_of_interrupt_program(irq) == seq![
            port_write(0xa0, 0x20),
            port_write(0x20, 0x20),
        ],
        irq < 8 ==> end_of_interrupt_program(irq) == seq![port_write(0x20, 0x20)],
        end_of_interrupt_program(irq).last() == port_write(0x20, 0x20),
        end_of_interrupt_program(irq).contains(port_write(0xa0, 0x20)) <==> 8 <= irq,
{
    let p = end_of_interrupt_program(irq);
    if 8 <= irq {
        assert(p[0] == port_write(0xa0, 0x20));
    } else {
        assert(p.len() == 1);
        assert(port_write(0x20, 0x20) != port_write(0xa0, 0x20));
    }
}

} // verus!
