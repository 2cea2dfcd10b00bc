use vstd::prelude::*;

verus! {

/// One byte written to an x86 I/O port with `out dx, al`.
#[derive(Clone, Copy, Debug, PartialEq, Eq)]
pub struct PortWrite {
    pub port: u16,
    pub value: u8,
}

/// The write of `value` to `port`.
pub open spec fn port_write(port: u16, value: u8) -> PortWrite {
    PortWrite { port, value }
}

impl PortWrite {
    /// A write of `value` to `port`.
    pub fn new(port: u16, value: u8) -> (w: PortWrite)
        ensures
            w == port_write(port, value),
    {
        PortWrite { port, value }
    }
}

} // verus!
