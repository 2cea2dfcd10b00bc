//! The COM1 16550 UART: its initialisation and the bytes sent for a text.

use vstd::prelude::*;
use vstd::string::StringSliceAdditionalSpecFns;
use crate::port::{PortWrite, port_write};

verus! {

/// Base I/O port of the first serial port.
pub const COM1: u16 = 0x3f8;

/// Line status bit that is set when the transmitter can take another byte.
pub const TRANSMIT_EMPTY: u8 = 0x20;

/// The register writes that set COM1 to 38400 baud, 8 data bits, no parity, one
/// stop bit, with FIFOs enabled and interrupts off.
pub open spec fn init_program() -> Seq<PortWrite> {
    seq![
        port_write(0x3f9, 0x00),
        port_write(0x3fb, 0x80),
        port_write(0x3f8, 0x03),
        port_write(0x3f9, 0x00),
        port_write(0x3fb, 0x03),
        port_write(0x3fa, 0xc7),
        port_write(0x3fc, 0x0b),
    ]
}

/// The register writes that initialise COM1, in the order they must be made.
pub fn init() -> (writes: Vec<PortWrite>)
    ensures
        writes@ == init_program(),
{
    let mut writes: Vec<PortWrite> = Vec::new();
    writes.push(PortWrite::new(COM1 + 1, 0x00));  // Disable interrupts.
    writes.push(PortWrite::new(COM1 + 3, 0x80));  // Enable DLAB.
    writes.push(PortWrite::new(COM1, 0x03));  // Divisor low byte: 38,400 baud.
    writes.push(PortWrite::new(COM1 + 1, 0x00));  // Divisor high byte.
    writes.push(PortWrite::new(COM1 + 3, 0x03));  // 8 bits, no parity, one stop bit.
    writes.push(PortWrite::new(COM1 + 2, 0xc7));  // Enable FIFO and clear queues.
    writes.push(PortWrite::new(COM1 + 4, 0x0b));  // IRQs enabled, RTS/DSR set.
    assert(writes@ =~= init_program());
    writes
}

/// Whether the transmitter can take a byte, given the line status register.
pub fn transmit_ready(line_status: u8) -> (ready: bool)
    ensures
        ready == (line_status & TRANSMIT_EMPTY != 0),
{
    line_status & TRANSMIT_EMPTY != 0
}

/// The bytes sent for `text`: each newline goes out as a carriage return
/// followed by the newline, every other byte as itself.
pub open spec fn wire_bytes(text: Seq<u8>) -> Seq<u8>
    decreases text.len(),
{
    if text.len() == 0 {
        Seq::empty()
    } else {
        wire_bytes(text.drop_last()) + if text.last() == 10 {
            seq![13u8, 10u8]
        } else {
            seq![text.last()]
        }
    }
}

/// The bytes to send to COM1, one after another, for `text`.
pub fn write_fmt(text: &str) -> (out: Vec<u8>)
    ensures
        out@ == wire_bytes(text.spec_bytes()),
{
    let bytes = text.as_bytes();
    let mut out: Vec<u8> = Vec::new();
    let mut i: usize = 0;
    while i < bytes.len()
        invariant
            bytes@ == text.spec_bytes(),
            i <= bytes@.len(),
            out@ == wire_bytes(bytes@.take(i as int)),
        decreases bytes@.len() - i,
    {
        let byte: u8 = bytes[i];
        assert(bytes@.take(i as int + 1).drop_last() =~= bytes@.take(i as int));
        if byte == 10u8 {
            out.push(13u8);
        }
        out.push(byte);
        i = i + 1;
        assert(out@ =~= wire_bytes(bytes@.take(i as int)));
    }
    assert(bytes@.take(i as int) =~= bytes@);
    out
}

/// The number of newlines in `text`.
pub open spec fn newline_count(text: Seq<u8>) -> nat
    decreases text.len(),
{
    if text.len() == 0 {
        0
    } else {
        newline_count(text.drop_last()) + if text.last() == 10 {
            1nat
        } else {
            0nat
        }
    }
}

/// On the wire every newline directly follows a carriage return, one byte is
/// added per newline of the text, and a text without newlines goes out unchanged.
pub proof fn lemma_wire_bytes(text: Seq<u8>)
    ensures
        forall|k: int|
            0 <= k < wire_bytes(text).len() && #[trigger] wire_bytes(text)[k] == 10 ==> k > 0
                && wire_bytes(text)[k - 1] == 13,
        wire_bytes(text).len() == text.len() + newline_count(text),
        newline_count(text) == 0 ==> wire_bytes(text) == text,
    decreases text.len(),
{
    if text.len() > 0 {
        let front = text.drop_last();
        lemma_wire_bytes(front);
        let w = wire_bytes(text);
        let wf = wire_bytes(front);
        assert forall|k: int| 0 <= k < w.len() && #[trigger] w[k] == 10 implies k > 0 && w[k - 1]
            == 13 by {
            if k < wf.len() {
                assert(w[k] == wf[k]);
                assert(w[k - 1] == wf[k - 1]);
            }
        }
        if newline_count(text) == 0 {
            assert(w =~= text);
        }
    }
}

} // verus!
