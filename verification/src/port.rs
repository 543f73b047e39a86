//! Port-mapped I/O expressed as data.

use vstd::prelude::*;

verus! {

/// One byte to be written to one I/O port.
#[derive(Clone, Copy, Debug, PartialEq, Eq, Structural)]
pub struct PortWrite {
    pub port: u16,
    pub value: u8,
}

/// Port whose writes have no effect other than taking one bus cycle; used to
/// give slow devices time to settle.
pub const IO_DELAY_PORT: u16 = 0x80;

impl PortWrite {
    /// Builds the write of `value` to `port`.
    pub fn new(port: u16, value: u8) -> (w: Self)
        ensures
            w == (PortWrite { port, value }),
    {
        PortWrite { port, value }
    }

    /// The settling write that follows a command to a slow device.
    pub fn io_wait() -> (w: Self)
        ensures
            w == (PortWrite { port: IO_DELAY_PORT, value: 0 }),
    {
        PortWrite { port: IO_DELAY_PORT, value: 0 }
    }
}

} // verus!
