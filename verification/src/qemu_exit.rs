use vstd::prelude::*;
use crate::port::{PortWrite, port_write};

verus! {

/// The port of QEMU's `isa-debug-exit` device.
pub const QEMU_EXIT_PORT: u16 = 0xf4;
/// The code that ends QEMU as a success.
pub const QEMU_EXIT_SUCCESS: u8 = 0x10;
/// The code that ends QEMU as a failure.
pub const QEMU_EXIT_FAILURE: u8 = 0x11;

/// Power control through QEMU's exit device.
pub struct QemuExit {
    port: u16,
}

impl QemuExit {
    pub closed spec fn spec_port(&self) -> u16 {
        self.port
    }

    /// The exit device at its usual port.
    pub fn new() -> (q: QemuExit)
        ensures
            q.spec_port() == QEMU_EXIT_PORT,
    {
        QemuExit { port: QEMU_EXIT_PORT }
    }

    /// The name of the device.
    pub fn device_name(&self) -> (name: &'static str)
        ensures
            name@ == "Power/QemuExit"@,
    {
        "Power/QemuExit"
    }

    /// The write that shuts the machine down.
    pub fn shutdown(&self) -> (w: PortWrite)
        ensures
            w == port_write(self.spec_port(), QEMU_EXIT_SUCCESS),
    {
        PortWrite::new(self.port, QEMU_EXIT_SUCCESS)
    }

    /// The write that reboots the machine; QEMU reports it as a failure.
    pub fn reboot(&self) -> (w: PortWrite)
        ensures
            w == port_write(self.spec_port(), QEMU_EXIT_FAILURE),
    {
        PortWrite::new(self.port, QEMU_EXIT_FAILURE)
    }
}

} // verus!
