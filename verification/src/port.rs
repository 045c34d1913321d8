use vstd::prelude::*;

verus! {

/// A byte to be written to an I/O port.
#[derive(Clone, Copy, Debug, PartialEq, Eq, Structural)]
pub struct PortWrite {
    pub port: u16,
    pub value: u8,
}

/// The write of `value` to `port`.
pub open spec fn port_write(port: u16, value: u8) -> PortWrite {
    PortWrite { port, value }
}

impl PortWrite {
    /// The write of `value` to `port`.
    pub fn new(port: u16, value: u8) -> (w: PortWrite)
        ensures
            w == port_write(port, value),
    {
        PortWrite { port, value }
    }
}

} // verus!
