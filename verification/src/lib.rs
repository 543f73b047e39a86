//! Verified model of the interrupt-handling core of a bare-metal x86-64 kernel.
//!
//! The library holds every decision the kernel makes around interrupts: the
//! layout of the descriptor table, the register save and restore discipline of
//! the entry stubs, the command sequences sent to the interrupt controller and
//! the interval timer, the routing of vectors, and the text of the fault
//! reports. It never touches hardware. Port accesses are returned as values
//! for the caller to perform, and diagnostic text is appended to a byte queue
//! that the caller drains.
//!
//! * `port`: a port write as a value.
//! * `endian`: numbers as bytes in memory order.
//! * `serial`: the diagnostic channel and its number formats.
//! * `loggers`: levelled log lines on the channel.
//! * `idt`: gate descriptors, the table, the table pointer, their bytes.
//! * `trampoline`: entry stubs, landing sequence, and the frame they build.
//! * `pic`: driver and register model of the interrupt controller.
//! * `timer`: driver and register model of the interval timer, uptime.
//! * `interrupts`: the dispatcher, its routing table and fault reports.
//! * `panic`: the report of a kernel panic.
//! * `boot`: the checks of the boot sequence and the timer self-test.
//! * `vga`: the text console.
//! * `framebuffer`: pixels, rectangles and lines on a linear framebuffer,
//!   and the boot information block that describes it.

pub mod port;
pub mod endian;
pub mod serial;
pub mod loggers;
pub mod idt;
pub mod trampoline;
pub mod pic;
pub mod timer;
pub mod interrupts;
pub mod panic;
pub mod boot;
pub mod vga;
pub mod framebuffer;
