//! The dispatcher: the single entry point behind every trampoline. It
//! classifies the vector, does the work of the vector, says which
//! acknowledgments the interrupt controller is owed, and owns the tick
//! counter.

use vstd::prelude::*;
use vstd::string::*;
use crate::idt::{Idt, IdtEntry};
use crate::pic::{
    Controller, eoi_script, lemma_eoi_ends_service, lemma_remapped_vectors, remapped, send_eoi,
};
use crate::port::PortWrite;
use crate::serial::{
    SerialPort, decimal_text, hex_halves_text, hex_text, lemma_append, lemma_append_3,
    lemma_append_4, lemma_append_7, lemma_append_9, lemma_append_nothing,
};

verus! {

/// The machine state captured when a vector fires, in the order in which it
/// lies in memory from the top of the stack.
#[derive(Clone, Copy, Debug, PartialEq, Eq, Structural)]
pub struct InterruptFrame {
    // Saved by the landing sequence; the last one pushed comes first.
    pub r15: u64,
    pub r14: u64,
    pub r13: u64,
    pub r12: u64,
    pub r11: u64,
    pub r10: u64,
    pub r9: u64,
    pub r8: u64,
    pub rdi: u64,
    pub rsi: u64,
    pub rbp: u64,
    pub rdx: u64,
    pub rcx: u64,
    pub rbx: u64,
    pub rax: u64,
    // Pushed by the entry stub.
    pub int_no: u64,
    pub err_code: u64,
    // Pushed by the processor.
    pub rip: u64,
    pub cs: u64,
    pub rflags: u64,
    pub rsp: u64,
    pub ss: u64,
}

/// Vector of the timer interrupt (line 0).
pub const TIMER_VECTOR: u64 = 32;
/// Vector of the keyboard interrupt (line 1).
pub const KEYBOARD_VECTOR: u64 = 33;
/// Vector of the system-call trap.
pub const SYSCALL_VECTOR: u64 = 128;
/// Vector of the general-protection fault.
pub const GENERAL_PROTECTION_VECTOR: u64 = 13;
/// Vector of the page fault.
pub const PAGE_FAULT_VECTOR: u64 = 14;
/// Port from which the keyboard handler reads one scancode.
pub const KEYBOARD_DATA_PORT: u16 = 0x60;
/// What an unknown system call leaves in the register that held the call
/// number: all ones, which is no valid result of a known call.
pub const SYSCALL_UNKNOWN: u64 = 0xFFFF_FFFF_FFFF_FFFF;
/// Call number of the write call.
pub const SYSCALL_WRITE: u64 = 0;
/// Call number of the exit call.
pub const SYSCALL_EXIT: u64 = 1;

/// The class of a vector number, which decides the action taken.
#[derive(Clone, Copy, Debug, PartialEq, Eq, Structural)]
pub enum Route {
    /// 0-31: an exception raised by the processor. Fatal.
    Exception,
    /// 32: the timer.
    Timer,
    /// 33: the keyboard.
    Keyboard,
    /// 34-47: another line of the interrupt controller.
    Hardware,
    /// 48-127: no meaning assigned.
    Reserved,
    /// 128: the system-call trap.
    SystemCall,
    /// 129-255: software or spurious interrupts.
    Software,
    /// Above 255: not a vector. Fatal.
    Invalid,
    /// The trampoline handed over no frame at all. Fatal.
    NoFrame,
}

/// What the caller has to read from the machine before a vector is handled.
#[derive(Clone, Copy, Debug, PartialEq, Eq, Structural)]
pub enum InputSource {
    /// Nothing.
    Nothing,
    /// One byte from the keyboard data port.
    KeyboardData,
    /// The fault-address register.
    FaultAddress,
}

/// What the caller read from the machine for this occurrence.
#[derive(Clone, Copy, Debug, PartialEq, Eq, Structural)]
pub enum DeviceInput {
    /// Nothing was read.
    Nothing,
    /// The byte read from the keyboard data port.
    Scancode(u8),
    /// The content of the fault-address register.
    FaultAddress(u64),
}

/// The three facts that the fault code of a page fault carries.
#[derive(Clone, Copy, Debug, PartialEq, Eq, Structural)]
pub struct PageFaultCause {
    /// The page was present and the access violated its protection;
    /// otherwise the page was not present.
    pub protection: bool,
    /// The access was a write; otherwise a read.
    pub write: bool,
    /// The access came from user mode; otherwise from supervisor mode.
    pub user: bool,
}

/// What the caller must do after the dispatcher returns.
#[derive(Debug)]
pub struct Outcome {
    /// The class the vector fell in.
    pub route: Route,
    /// The acknowledgment writes owed to the interrupt controller, in order.
    pub acks: Vec<PortWrite>,
    /// The condition is fatal: interrupts are to be disabled and the
    /// processor halted for good, instead of returning from the interrupt.
    pub halt: bool,
}

/// The single owner of the state that interrupt handling shares: the tick
/// counter, which only the timer vector moves, and the descriptor table,
/// which nothing changes once the dispatcher holds it.
pub struct Dispatcher {
    ticks: u64,
    table: Idt,
}

// ---------------------------------------------------------------------------
// What the dispatcher decides
// ---------------------------------------------------------------------------

/// The class of vector number `int_no`.
pub open spec fn route_of(int_no: u64) -> Route {
    if int_no <= 31 {
        Route::Exception
    } else if int_no == 32 {
        Route::Timer
    } else if int_no == 33 {
        Route::Keyboard
    } else if int_no <= 47 {
        Route::Hardware
    } else if int_no <= 127 {
        Route::Reserved
    } else if int_no == 128 {
        Route::SystemCall
    } else if int_no <= 255 {
        Route::Software
    } else {
        Route::Invalid
    }
}

/// Whether an occurrence of this class ends in the halt.
pub open spec fn is_fatal(route: Route) -> bool {
    route == Route::Exception || route == Route::Invalid || route == Route::NoFrame
}

/// The acknowledgments owed for vector `int_no`: those of its controller
/// line for the sixteen hardware vectors, none for any other.
pub open spec fn acks_for(int_no: u64) -> Seq<PortWrite> {
    if 32 <= int_no <= 47 {
        eoi_script((int_no - 32) as u8)
    } else {
        Seq::empty()
    }
}

/// The tick counter after vector `int_no` was handled.
pub open spec fn ticks_after(ticks: u64, int_no: u64) -> int {
    if int_no == TIMER_VECTOR {
        ticks + 1
    } else {
        ticks as int
    }
}

/// The call-number register after a system call was handled: untouched for
/// a known call, the error sentinel for any other.
pub open spec fn syscall_result(number: u64) -> u64 {
    if number == SYSCALL_WRITE || number == SYSCALL_EXIT {
        number
    } else {
        SYSCALL_UNKNOWN
    }
}

/// The frame after vector `frame.int_no` was handled: only a system call
/// changes it, and only the call-number register.
pub open spec fn frame_after(frame: InterruptFrame) -> InterruptFrame {
    if frame.int_no == SYSCALL_VECTOR {
        InterruptFrame { rax: syscall_result(frame.rax), ..frame }
    } else {
        frame
    }
}

/// What must be read from the machine before vector `int_no` is handled.
pub open spec fn input_for(int_no: u64) -> InputSource {
    if int_no == KEYBOARD_VECTOR {
        InputSource::KeyboardData
    } else if int_no == PAGE_FAULT_VECTOR {
        InputSource::FaultAddress
    } else {
        InputSource::Nothing
    }
}

/// The breakdown of the fault code of a page fault.
pub open spec fn page_fault_cause(err_code: u64) -> PageFaultCause {
    PageFaultCause {
        protection: err_code & 1 != 0,
        write: err_code & 2 != 0,
        user: err_code & 4 != 0,
    }
}

// ---------------------------------------------------------------------------
// What the dispatcher prints
// ---------------------------------------------------------------------------

/// The low 32 bits of `value`, which is what the channel prints of a 64-bit
/// count.
pub open spec fn low32(value: u64) -> nat {
    (value % 0x1_0000_0000) as nat
}

/// Whether the occurrence is traced: the first few of each kind are.
pub open spec fn trace_enabled(int_no: u64, ticks: u64) -> bool {
    (int_no != TIMER_VECTOR && ticks < 5) || (int_no == TIMER_VECTOR && ticks < 3)
}

/// The trace line of an occurrence.
pub open spec fn trace_text(int_no: u64, err_code: u64) -> Seq<u8> {
    "[64-INT:".spec_bytes() + decimal_text(low32(int_no)) + if err_code != 0 {
        " ERR:0x".spec_bytes() + hex_text(low32(err_code))
    } else {
        Seq::empty()
    } + "] ".spec_bytes()
}

/// The name printed after the number of exception `int_no`.
pub open spec fn exception_label(int_no: u64) -> Seq<u8> {
    if int_no == 0 {
        " (Divide by Zero)".spec_bytes()
    } else if int_no == 1 {
        " (Debug)".spec_bytes()
    } else if int_no == 2 {
        " (Non-Maskable Interrupt)".spec_bytes()
    } else if int_no == 3 {
        " (Breakpoint)".spec_bytes()
    } else if int_no == 4 {
        " (Overflow)".spec_bytes()
    } else if int_no == 5 {
        " (Bound Range Exceeded)".spec_bytes()
    } else if int_no == 6 {
        " (Invalid Opcode)".spec_bytes()
    } else if int_no == 7 {
        " (Device Not Available)".spec_bytes()
    } else if int_no == 8 {
        " (Double Fault)".spec_bytes()
    } else if int_no == 9 {
        " (Coprocessor Segment Overrun)".spec_bytes()
    } else if int_no == 10 {
        " (Invalid TSS)".spec_bytes()
    } else if int_no == 11 {
        " (Segment Not Present)".spec_bytes()
    } else if int_no == 12 {
        " (Stack Segment Fault)".spec_bytes()
    } else if int_no == 13 {
        " (General Protection Fault)".spec_bytes()
    } else if int_no == 14 {
        " (Page Fault)".spec_bytes()
    } else if int_no == 15 {
        " (Reserved)".spec_bytes()
    } else if int_no == 16 {
        " (x87 FPU Error)".spec_bytes()
    } else if int_no == 17 {
        " (Alignment Check)".spec_bytes()
    } else if int_no == 18 {
        " (Machine Check)".spec_bytes()
    } else if int_no == 19 {
        " (SIMD Floating-Point Exception)".spec_bytes()
    } else if int_no == 20 {
        " (Virtualization Exception)".spec_bytes()
    } else if int_no == 21 {
        " (Control Protection Exception)".spec_bytes()
    } else {
        " (Reserved/Unknown)".spec_bytes()
    }
}

/// A line made of a label, a 64-bit value in two halves, and a line end.
pub open spec fn labeled_line(label: Seq<u8>, value: u64) -> Seq<u8> {
    label + hex_halves_text(value) + "\n".spec_bytes()
}

/// The words that spell out the cause of a page fault.
pub open spec fn cause_text(cause: PageFaultCause) -> Seq<u8> {
    (if cause.protection {
        "Protection ".spec_bytes()
    } else {
        "Non-present ".spec_bytes()
    }) + (if cause.write {
        "Write ".spec_bytes()
    } else {
        "Read ".spec_bytes()
    }) + (if cause.user {
        "User ".spec_bytes()
    } else {
        "Supervisor ".spec_bytes()
    })
}

/// The part of the fault report that is particular to the vector: for a
/// page fault the faulting address, where it was read, and the cause; for a
/// general-protection fault with a fault code, the code as a selector.
pub open spec fn detail_text(int_no: u64, err_code: u64, fault_address: Option<u64>) -> Seq<u8> {
    if int_no == PAGE_FAULT_VECTOR {
        (match fault_address {
            Some(a) => labeled_line("Page Fault Address: 0x".spec_bytes(), a),
            None => Seq::empty(),
        }) + "Fault Type: ".spec_bytes() + cause_text(page_fault_cause(err_code))
            + "\n".spec_bytes()
    } else if int_no == GENERAL_PROTECTION_VECTOR && err_code != 0 {
        "Selector: 0x".spec_bytes() + hex_text(low32(err_code)) + "\n".spec_bytes()
    } else {
        Seq::empty()
    }
}

/// The register snapshot of the fault report.
pub open spec fn snapshot_text(frame: InterruptFrame) -> Seq<u8> {
    labeled_line("RIP: 0x".spec_bytes(), frame.rip) + labeled_line(
        "RSP: 0x".spec_bytes(),
        frame.rsp,
    ) + labeled_line("RBP: 0x".spec_bytes(), frame.rbp) + labeled_line(
        "RAX: 0x".spec_bytes(),
        frame.rax,
    ) + "CS: 0x".spec_bytes() + hex_text(low32(frame.cs)) + labeled_line(
        " RFLAGS: 0x".spec_bytes(),
        frame.rflags,
    )
}

/// The whole report of a processor exception.
pub open spec fn exception_text(
    int_no: u64,
    err_code: u64,
    frame: InterruptFrame,
    fault_address: Option<u64>,
) -> Seq<u8> {
    "\n=== 64-BIT CPU EXCEPTION ===\n".spec_bytes() + "Exception #".spec_bytes() + decimal_text(
        low32(int_no),
    ) + exception_label(int_no) + "\n".spec_bytes() + labeled_line(
        "Error Code: 0x".spec_bytes(),
        err_code,
    ) + snapshot_text(frame) + detail_text(int_no, err_code, fault_address)
        + "=== SYSTEM HALTED ===\n".spec_bytes()
}

/// The heartbeat of the timer: printed for the first ten ticks and then for
/// every hundredth.
pub open spec fn timer_text(ticks: u64) -> Seq<u8> {
    if ticks <= 10 || ticks % 100 == 0 {
        "T64:".spec_bytes() + decimal_text(low32(ticks)) + " ".spec_bytes()
    } else {
        Seq::empty()
    }
}

/// The name printed for the few keys the handler knows.
pub open spec fn key_label(scancode: u8) -> Seq<u8> {
    if scancode == 0x1E {
        "(A) ".spec_bytes()
    } else if scancode == 0x30 {
        "(B) ".spec_bytes()
    } else if scancode == 0x2E {
        "(C) ".spec_bytes()
    } else if scancode == 0x01 {
        "(ESC) ".spec_bytes()
    } else if scancode == 0x1C {
        "(ENTER) ".spec_bytes()
    } else {
        Seq::empty()
    }
}

/// What the keyboard handler prints for one scancode.
pub open spec fn keyboard_text(scancode: u8) -> Seq<u8> {
    "K64:0x".spec_bytes() + hex_text(scancode as nat) + " ".spec_bytes() + key_label(scancode)
}

/// What is printed for a hardware vector other than timer and keyboard.
pub open spec fn hardware_text(int_no: u64) -> Seq<u8> {
    "HW-IRQ:".spec_bytes() + decimal_text(low32((int_no - 32) as u64)) + " ".spec_bytes()
}

/// The warning for a vector without assigned meaning.
pub open spec fn reserved_text(int_no: u64) -> Seq<u8> {
    "WARN: Reserved interrupt ".spec_bytes() + decimal_text(low32(int_no)) + "\n".spec_bytes()
}

/// What is printed for a software or spurious vector.
pub open spec fn software_text(int_no: u64) -> Seq<u8> {
    "SW-INT:".spec_bytes() + decimal_text(low32(int_no)) + " ".spec_bytes()
}

/// What is printed for a system call.
pub open spec fn syscall_text(number: u64) -> Seq<u8> {
    "SYSCALL:".spec_bytes() + decimal_text(low32(number)) + " ".spec_bytes() + if number
        == SYSCALL_WRITE {
        "(write) ".spec_bytes()
    } else if number == SYSCALL_EXIT {
        "(exit) ".spec_bytes()
    } else {
        "(unknown) ".spec_bytes()
    }
}

/// The report of a vector number that is no vector.
pub open spec fn invalid_text(int_no: u64) -> Seq<u8> {
    "FATAL: Invalid 64-bit interrupt number: ".spec_bytes() + decimal_text(low32(int_no))
        + "\n".spec_bytes()
}

/// The report of a missing frame.
pub open spec fn null_frame_text() -> Seq<u8> {
    "ERROR: Null interrupt frame!\n".spec_bytes()
}

/// The scancode among the input, if that is what was read.
pub open spec fn scancode_of(input: DeviceInput) -> Option<u8> {
    match input {
        DeviceInput::Scancode(s) => Some(s),
        _ => None,
    }
}

/// The fault address among the input, if that is what was read.
pub open spec fn fault_address_of(input: DeviceInput) -> Option<u64> {
    match input {
        DeviceInput::FaultAddress(a) => Some(a),
        _ => None,
    }
}

/// What the work of the vector itself prints, after the trace line. `ticks`
/// is the counter before the occurrence.
pub open spec fn route_text(ticks: u64, frame: InterruptFrame, input: DeviceInput) -> Seq<u8> {
    match route_of(frame.int_no) {
        Route::Exception => exception_text(
            frame.int_no,
            frame.err_code,
            frame,
            fault_address_of(input),
        ),
        Route::Timer => timer_text((ticks + 1) as u64),
        Route::Keyboard => match scancode_of(input) {
            Some(s) => keyboard_text(s),
            None => Seq::empty(),
        },
        Route::Hardware => hardware_text(frame.int_no),
        Route::Reserved => reserved_text(frame.int_no),
        Route::SystemCall => syscall_text(frame.rax),
        Route::Software => software_text(frame.int_no),
        Route::Invalid | Route::NoFrame => invalid_text(frame.int_no),
    }
}

/// Everything one call of the dispatcher prints.
pub open spec fn dispatch_text(ticks: u64, frame: Option<InterruptFrame>, input: DeviceInput)
    -> Seq<u8> {
    match frame {
        None => null_frame_text(),
        Some(f) => if route_of(f.int_no) == Route::Invalid {
            invalid_text(f.int_no)
        } else {
            (if trace_enabled(f.int_no, ticks) {
                trace_text(f.int_no, f.err_code)
            } else {
                Seq::empty()
            }) + route_text(ticks, f, input)
        },
    }
}

// ---------------------------------------------------------------------------
// The dispatcher
// ---------------------------------------------------------------------------

/// Classifies a vector number.
pub fn classify(int_no: u64) -> (route: Route)
    ensures
        route == route_of(int_no),
{
    if int_no <= 31 {
        Route::Exception
    } else if int_no == 32 {
        Route::Timer
    } else if int_no == 33 {
        Route::Keyboard
    } else if int_no <= 47 {
        Route::Hardware
    } else if int_no <= 127 {
        Route::Reserved
    } else if int_no == 128 {
        Route::SystemCall
    } else if int_no <= 255 {
        Route::Software
    } else {
        Route::Invalid
    }
}

/// Says what the caller has to read from the machine before it hands vector
/// `int_no` to the dispatcher.
pub fn input_needed(int_no: u64) -> (source: InputSource)
    ensures
        source == input_for(int_no),
{
    if int_no == KEYBOARD_VECTOR {
        InputSource::KeyboardData
    } else if int_no == PAGE_FAULT_VECTOR {
        InputSource::FaultAddress
    } else {
        InputSource::Nothing
    }
}

/// Breaks the fault code of a page fault down.
pub fn decode_page_fault(err_code: u64) -> (cause: PageFaultCause)
    ensures
        cause == page_fault_cause(err_code),
{
    PageFaultCause {
        protection: err_code & 1 != 0,
        write: err_code & 2 != 0,
        user: err_code & 4 != 0,
    }
}

/// The name printed after the number of exception `int_no`.
pub fn exception_name(int_no: u64) -> (name: &'static str)
    ensures
        name.spec_bytes() == exception_label(int_no),
{
    if int_no == 0 {
        " (Divide by Zero)"
    } else if int_no == 1 {
        " (Debug)"
    } else if int_no == 2 {
        " (Non-Maskable Interrupt)"
    } else if int_no == 3 {
        " (Breakpoint)"
    } else if int_no == 4 {
        " (Overflow)"
    } else if int_no == 5 {
        " (Bound Range Exceeded)"
    } else if int_no == 6 {
        " (Invalid Opcode)"
    } else if int_no == 7 {
        " (Device Not Available)"
    } else if int_no == 8 {
        " (Double Fault)"
    } else if int_no == 9 {
        " (Coprocessor Segment Overrun)"
    } else if int_no == 10 {
        " (Invalid TSS)"
    } else if int_no == 11 {
        " (Segment Not Present)"
    } else if int_no == 12 {
        " (Stack Segment Fault)"
    } else if int_no == 13 {
        " (General Protection Fault)"
    } else if int_no == 14 {
        " (Page Fault)"
    } else if int_no == 15 {
        " (Reserved)"
    } else if int_no == 16 {
        " (x87 FPU Error)"
    } else if int_no == 17 {
        " (Alignment Check)"
    } else if int_no == 18 {
        " (Machine Check)"
    } else if int_no == 19 {
        " (SIMD Floating-Point Exception)"
    } else if int_no == 20 {
        " (Virtualization Exception)"
    } else if int_no == 21 {
        " (Control Protection Exception)"
    } else {
        " (Reserved/Unknown)"
    }
}

/// Writes `label`, `value` in two halves, and a line end.
fn write_labeled_line(serial: &mut SerialPort, label: &str, value: u64)
    ensures
        final(serial)@ == old(serial)@ + labeled_line(label.spec_bytes(), value),
        final(serial).base_port() == old(serial).base_port(),
{
    serial.write_str(label);
    serial.write_hex_halves(value);
    serial.write_str("\n");
    proof {
        lemma_append_3(
            old(serial)@,
            label.spec_bytes(),
            hex_halves_text(value),
            "\n".spec_bytes(),
        );
    }
}

/// Writes the low 32 bits of `value` in decimal.
fn write_low32_decimal(serial: &mut SerialPort, value: u64)
    ensures
        final(serial)@ == old(serial)@ + decimal_text(low32(value)),
        final(serial).base_port() == old(serial).base_port(),
{
    serial.write_decimal((value % 0x1_0000_0000) as u32);
}

/// Writes the low 32 bits of `value` in hexadecimal.
fn write_low32_hex(serial: &mut SerialPort, value: u64)
    ensures
        final(serial)@ == old(serial)@ + hex_text(low32(value)),
        final(serial).base_port() == old(serial).base_port(),
{
    serial.write_hex((value % 0x1_0000_0000) as u32);
}

/// Writes the three words that spell out the cause of a page fault.
fn write_cause(serial: &mut SerialPort, cause: PageFaultCause)
    ensures
        final(serial)@ == old(serial)@ + cause_text(cause),
        final(serial).base_port() == old(serial).base_port(),
{
    if cause.protection {
        serial.write_str("Protection ");
    } else {
        serial.write_str("Non-present ");
    }
    if cause.write {
        serial.write_str("Write ");
    } else {
        serial.write_str("Read ");
    }
    if cause.user {
        serial.write_str("User ");
    } else {
        serial.write_str("Supervisor ");
    }
    proof {
        lemma_append_3(
            old(serial)@,
            if cause.protection {
                "Protection ".spec_bytes()
            } else {
                "Non-present ".spec_bytes()
            },
            if cause.write {
                "Write ".spec_bytes()
            } else {
                "Read ".spec_bytes()
            },
            if cause.user {
                "User ".spec_bytes()
            } else {
                "Supervisor ".spec_bytes()
            },
        );
    }
}

/// Writes the part of the fault report that is particular to the vector.
fn write_detail(serial: &mut SerialPort, int_no: u64, err_code: u64, fault_address: Option<u64>)
    ensures
        final(serial)@ == old(serial)@ + detail_text(int_no, err_code, fault_address),
        final(serial).base_port() == old(serial).base_port(),
{
    if int_no == PAGE_FAULT_VECTOR {
        match fault_address {
            Some(a) => {
                write_labeled_line(serial, "Page Fault Address: 0x", a);
            },
            None => {
                proof {
                    lemma_append_nothing(old(serial)@);
                }
            },
        }
        serial.write_str("Fault Type: ");
        write_cause(serial, decode_page_fault(err_code));
        serial.write_str("\n");
        proof {
            lemma_append_4(
                old(serial)@,
                match fault_address {
                    Some(a) => labeled_line("Page Fault Address: 0x".spec_bytes(), a),
                    None => Seq::empty(),
                },
                "Fault Type: ".spec_bytes(),
                cause_text(page_fault_cause(err_code)),
                "\n".spec_bytes(),
            );
        }
    } else if int_no == GENERAL_PROTECTION_VECTOR && err_code != 0 {
        serial.write_str("Selector: 0x");
        write_low32_hex(serial, err_code);
        serial.write_str("\n");
        proof {
            lemma_append_3(
                old(serial)@,
                "Selector: 0x".spec_bytes(),
                hex_text(low32(err_code)),
                "\n".spec_bytes(),
            );
        }
    } else {
        proof {
            lemma_append_nothing(old(serial)@);
        }
    }
}

/// Writes the register snapshot of the fault report.
fn write_snapshot(serial: &mut SerialPort, frame: &InterruptFrame)
    ensures
        final(serial)@ == old(serial)@ + snapshot_text(*frame),
        final(serial).base_port() == old(serial).base_port(),
{
    write_labeled_line(serial, "RIP: 0x", frame.rip);
    write_labeled_line(serial, "RSP: 0x", frame.rsp);
    write_labeled_line(serial, "RBP: 0x", frame.rbp);
    write_labeled_line(serial, "RAX: 0x", frame.rax);
    serial.write_str("CS: 0x");
    write_low32_hex(serial, frame.cs);
    write_labeled_line(serial, " RFLAGS: 0x", frame.rflags);
    proof {
        lemma_append_7(
            old(serial)@,
            labeled_line("RIP: 0x".spec_bytes(), frame.rip),
            labeled_line("RSP: 0x".spec_bytes(), frame.rsp),
            labeled_line("RBP: 0x".spec_bytes(), frame.rbp),
            labeled_line("RAX: 0x".spec_bytes(), frame.rax),
            "CS: 0x".spec_bytes(),
            hex_text(low32(frame.cs)),
            labeled_line(" RFLAGS: 0x".spec_bytes(), frame.rflags),
        );
    }
}

/// Writes the report of a processor exception: its number and name, the
/// fault code, the register snapshot, and what is particular to the vector.
/// The caller halts afterwards; every processor exception is fatal.
pub fn handle_cpu_exception_64(
    int_no: u64,
    err_code: u64,
    frame: &InterruptFrame,
    fault_address: Option<u64>,
    serial: &mut SerialPort,
)
    ensures
        final(serial)@ == old(serial)@ + exception_text(int_no, err_code, *frame, fault_address),
        final(serial).base_port() == old(serial).base_port(),
{
    serial.write_str("\n=== 64-BIT CPU EXCEPTION ===\n");
    serial.write_str("Exception #");
    write_low32_decimal(serial, int_no);
    serial.write_str(exception_name(int_no));
    serial.write_str("\n");
    write_labeled_line(serial, "Error Code: 0x", err_code);
    write_snapshot(serial, frame);
    write_detail(serial, int_no, err_code, fault_address);
    serial.write_str("=== SYSTEM HALTED ===\n");
    proof {
        lemma_append_9(
            old(serial)@,
            "\n=== 64-BIT CPU EXCEPTION ===\n".spec_bytes(),
            "Exception #".spec_bytes(),
            decimal_text(low32(int_no)),
            exception_label(int_no),
            "\n".spec_bytes(),
            labeled_line("Error Code: 0x".spec_bytes(), err_code),
            snapshot_text(*frame),
            detail_text(int_no, err_code, fault_address),
            "=== SYSTEM HALTED ===\n".spec_bytes(),
        );
    }
}

/// The keyboard handler: reports the scancode that was read.
pub fn handle_keyboard_interrupt(scancode: u8, serial: &mut SerialPort)
    ensures
        final(serial)@ == old(serial)@ + keyboard_text(scancode),
        final(serial).base_port() == old(serial).base_port(),
{
    serial.write_str("K64:0x");
    serial.write_hex(scancode as u32);
    serial.write_str(" ");
    if scancode == 0x1E {
        serial.write_str("(A) ");
    } else if scancode == 0x30 {
        serial.write_str("(B) ");
    } else if scancode == 0x2E {
        serial.write_str("(C) ");
    } else if scancode == 0x01 {
        serial.write_str("(ESC) ");
    } else if scancode == 0x1C {
        serial.write_str("(ENTER) ");
    } else {
        proof {
            lemma_append_nothing(serial@);
        }
    }
    proof {
        lemma_append_4(
            old(serial)@,
            "K64:0x".spec_bytes(),
            hex_text(scancode as nat),
            " ".spec_bytes(),
            key_label(scancode),
        );
    }
}

/// The handler of the hardware vectors 34 to 47: reports the line.
pub fn handle_hardware_irq(int_no: u64, serial: &mut SerialPort)
    requires
        32 <= int_no,
    ensures
        final(serial)@ == old(serial)@ + hardware_text(int_no),
        final(serial).base_port() == old(serial).base_port(),
{
    let irq_num: u64 = int_no - 32;
    serial.write_str("HW-IRQ:");
    write_low32_decimal(serial, irq_num);
    serial.write_str(" ");
    proof {
        lemma_append_3(
            old(serial)@,
            "HW-IRQ:".spec_bytes(),
            decimal_text(low32((int_no - 32) as u64)),
            " ".spec_bytes(),
        );
    }
}

/// The system-call trap: reads the call number from the frame's `rax`,
/// reports the call, and for an unknown number stores the error sentinel in
/// `rax`. Nothing else of the frame changes.
pub fn handle_system_call(frame: &mut InterruptFrame, serial: &mut SerialPort)
    ensures
        *final(frame) == (InterruptFrame { rax: syscall_result(old(frame).rax), ..*old(frame) }),
        final(serial)@ == old(serial)@ + syscall_text(old(frame).rax),
        final(serial).base_port() == old(serial).base_port(),
{
    let syscall_num: u64 = frame.rax;
    serial.write_str("SYSCALL:");
    write_low32_decimal(serial, syscall_num);
    serial.write_str(" ");
    if syscall_num == SYSCALL_WRITE {
        serial.write_str("(write) ");
    } else if syscall_num == SYSCALL_EXIT {
        serial.write_str("(exit) ");
    } else {
        serial.write_str("(unknown) ");
        frame.rax = SYSCALL_UNKNOWN;
    }
    proof {
        lemma_append_4(
            old(serial)@,
            "SYSCALL:".spec_bytes(),
            decimal_text(low32(syscall_num)),
            " ".spec_bytes(),
            if syscall_num == SYSCALL_WRITE {
                "(write) ".spec_bytes()
            } else if syscall_num == SYSCALL_EXIT {
                "(exit) ".spec_bytes()
            } else {
                "(unknown) ".spec_bytes()
            },
        );
    }
}

/// Writes the trace line of an occurrence.
fn write_trace(serial: &mut SerialPort, int_no: u64, err_code: u64)
    ensures
        final(serial)@ == old(serial)@ + trace_text(int_no, err_code),
        final(serial).base_port() == old(serial).base_port(),
{
    serial.write_str("[64-INT:");
    write_low32_decimal(serial, int_no);
    let ghost numbered = serial@;
    if err_code != 0 {
        serial.write_str(" ERR:0x");
        write_low32_hex(serial, err_code);
        proof {
            lemma_append(numbered, " ERR:0x".spec_bytes(), hex_text(low32(err_code)));
        }
    } else {
        proof {
            lemma_append_nothing(numbered);
        }
    }
    serial.write_str("] ");
    proof {
        lemma_append_4(
            old(serial)@,
            "[64-INT:".spec_bytes(),
            decimal_text(low32(int_no)),
            if err_code != 0 {
                " ERR:0x".spec_bytes() + hex_text(low32(err_code))
            } else {
                Seq::empty()
            },
            "] ".spec_bytes(),
        );
    }
}

/// Writes `before`, the low 32 bits of `value` in decimal, and `after`.
fn write_numbered(serial: &mut SerialPort, before: &str, value: u64, after: &str)
    ensures
        final(serial)@ == old(serial)@ + (before.spec_bytes() + decimal_text(low32(value))
            + after.spec_bytes()),
        final(serial).base_port() == old(serial).base_port(),
{
    serial.write_str(before);
    write_low32_decimal(serial, value);
    serial.write_str(after);
    proof {
        lemma_append_3(
            old(serial)@,
            before.spec_bytes(),
            decimal_text(low32(value)),
            after.spec_bytes(),
        );
    }
}

impl Dispatcher {
    /// The table in charge has a descriptor for every vector.
    #[verifier::type_invariant]
    spec fn holds_full_table(&self) -> bool {
        self.table.wf()
    }

    /// The number of timer ticks observed so far.
    pub closed spec fn ticks(&self) -> u64 {
        self.ticks
    }

    /// The descriptors of the table in use, indexed by vector.
    pub closed spec fn descriptors(&self) -> Seq<IdtEntry> {
        self.table@
    }

    /// A dispatcher that has seen no tick and takes charge of `table`.
    pub fn new(table: Idt) -> (d: Self)
        requires
            table.wf(),
        ensures
            d.ticks() == 0,
            d.descriptors() == table@,
    {
        Dispatcher { ticks: 0, table }
    }

    /// The descriptor table in use.
    pub fn table(&self) -> (table: &Idt)
        ensures
            table.wf(),
            table@ == self.descriptors(),
    {
        proof {
            use_type_invariant(self);
        }
        &self.table
    }
}

/// The number of timer ticks observed so far.
pub fn get_timer_ticks(dispatcher: &Dispatcher) -> (ticks: u64)
    ensures
        ticks == dispatcher.ticks(),
{
    dispatcher.ticks
}

/// The timer handler: counts one tick and prints the heartbeat.
pub fn handle_timer_interrupt(dispatcher: &mut Dispatcher, serial: &mut SerialPort)
    requires
        old(dispatcher).ticks() < u64::MAX,
    ensures
        final(dispatcher).ticks() == old(dispatcher).ticks() + 1,
        final(dispatcher).descriptors() == old(dispatcher).descriptors(),
        final(serial)@ == old(serial)@ + timer_text(final(dispatcher).ticks()),
        final(serial).base_port() == old(serial).base_port(),
{
    proof {
        use_type_invariant(&*dispatcher);
    }
    dispatcher.ticks = dispatcher.ticks + 1;
    if dispatcher.ticks <= 10 || dispatcher.ticks % 100 == 0 {
        write_numbered(serial, "T64:", dispatcher.ticks, " ");
    } else {
        proof {
            lemma_append_nothing(old(serial)@);
        }
    }
}

/// The single entry point behind every trampoline. `frame` is the frame
/// the trampoline built, or nothing if it handed over a null pointer;
/// `input` is what `input_needed` asked the caller to read.
///
/// A missing frame and a vector number above 255 are fatal, and so is
/// every processor exception: a report is written and the outcome says
/// halt. Any other vector is handled, the acknowledgments its controller
/// line is owed are returned, and the interrupted code may resume.
pub fn isr_common_handler(
    dispatcher: &mut Dispatcher,
    frame: Option<&mut InterruptFrame>,
    input: DeviceInput,
    serial: &mut SerialPort,
) -> (outcome: Outcome)
    requires
        frame matches Some(f) ==> f.int_no == TIMER_VECTOR ==> old(dispatcher).ticks() < u64::MAX,
    ensures
        final(serial).base_port() == old(serial).base_port(),
        final(dispatcher).descriptors() == old(dispatcher).descriptors(),
        match frame {
            None => {
                &&& outcome.halt
                &&& outcome.route == Route::NoFrame
                &&& outcome.acks@ == Seq::<PortWrite>::empty()
                &&& final(dispatcher).ticks() == old(dispatcher).ticks()
                &&& final(serial)@ == old(serial)@ + dispatch_text(
                    old(dispatcher).ticks(),
                    None,
                    input,
                )
            },
            Some(f) => {
                &&& outcome.route == route_of(f.int_no)
                &&& outcome.halt == is_fatal(route_of(f.int_no))
                &&& outcome.acks@ == acks_for(f.int_no)
                &&& final(dispatcher).ticks() == ticks_after(old(dispatcher).ticks(), f.int_no)
                &&& *final(f) == frame_after(*f)
                &&& final(serial)@ == old(serial)@ + dispatch_text(
                    old(dispatcher).ticks(),
                    Some(*f),
                    input,
                )
            },
        },
{
    let frame = match frame {
        Some(f) => f,
        None => {
            serial.write_str("ERROR: Null interrupt frame!\n");
            return Outcome { route: Route::NoFrame, acks: Vec::new(), halt: true };
        },
    };
    let ghost entry = *frame;
    let int_no: u64 = frame.int_no;
    let err_code: u64 = frame.err_code;
    let route = classify(int_no);
    if int_no > 255 {
        write_numbered(serial, "FATAL: Invalid 64-bit interrupt number: ", int_no, "\n");
        return Outcome { route, acks: Vec::new(), halt: true };
    }
    if (int_no != TIMER_VECTOR && dispatcher.ticks < 5) || (int_no == TIMER_VECTOR && dispatcher.ticks < 3) {
        write_trace(serial, int_no, err_code);
    } else {
        proof {
            lemma_append_nothing(old(serial)@);
        }
    }
    let ghost traced = serial@;
    let ghost trace = if trace_enabled(int_no, old(dispatcher).ticks()) {
        trace_text(int_no, err_code)
    } else {
        Seq::empty()
    };
    assert(traced == old(serial)@ + trace);
    let mut acks: Vec<PortWrite> = Vec::new();
    let mut halt: bool = false;
    match route {
        Route::Exception => {
            let fault_address = match input {
                DeviceInput::FaultAddress(a) => Some(a),
                _ => None,
            };
            handle_cpu_exception_64(int_no, err_code, frame, fault_address, serial);
            halt = true;
        },
        Route::Timer => {
            handle_timer_interrupt(dispatcher, serial);
            acks = send_eoi(0);
        },
        Route::Keyboard => {
            match input {
                DeviceInput::Scancode(s) => {
                    handle_keyboard_interrupt(s, serial);
                },
                _ => {
                    proof {
                        lemma_append_nothing(traced);
                    }
                },
            }
            acks = send_eoi(1);
        },
        Route::Hardware => {
            handle_hardware_irq(int_no, serial);
            acks = send_eoi((int_no - 32) as u8);
        },
        Route::Reserved => {
            write_numbered(serial, "WARN: Reserved interrupt ", int_no, "\n");
        },
        Route::SystemCall => {
            handle_system_call(frame, serial);
        },
        Route::Software => {
            write_numbered(serial, "SW-INT:", int_no, " ");
        },
        Route::Invalid | Route::NoFrame => {},
    }
    proof {
        assert(serial@ == traced + route_text(old(dispatcher).ticks(), entry, input));
        lemma_append(old(serial)@, trace, route_text(old(dispatcher).ticks(), entry, input));
    }
    Outcome { route, acks, halt }
}

/// The timer vector counts exactly one tick, owes the acknowledgment of
/// line 0 and nothing else, and never ends in the halt; no other vector
/// moves the counter, and none moves it back.
pub proof fn lemma_timer_vector_counts_once(ticks: u64, int_no: u64)
    ensures
        ticks_after(ticks, TIMER_VECTOR) == ticks + 1,
        !is_fatal(route_of(TIMER_VECTOR)),
        acks_for(TIMER_VECTOR) == eoi_script(0),
        int_no != TIMER_VECTOR ==> ticks_after(ticks, int_no) == ticks,
        ticks_after(ticks, int_no) >= ticks,
{
}

/// Every vector number falls in exactly one class; the processor exceptions
/// and the numbers that are no vector are the fatal ones; a vector is owed
/// an acknowledgment exactly when it belongs to the interrupt controller,
/// and then the subordinate chip is acknowledged exactly for the vectors
/// from 40 on.
pub proof fn lemma_routing_table(int_no: u64)
    ensures
        is_fatal(route_of(int_no)) <==> (int_no <= 31 || int_no > 255),
        acks_for(int_no).len() > 0 <==> 32 <= int_no <= 47,
        acks_for(int_no).len() == 2 <==> 40 <= int_no <= 47,
        48 <= int_no <= 127 ==> route_of(int_no) == Route::Reserved && acks_for(int_no).len() == 0,
        frame_after_keeps_all_but_rax(int_no),
{
}

/// The dispatcher acknowledges what the controller delivered. On the
/// remapped controller, with nothing in service, line `line` arrives as
/// vector 32 plus `line`, and the acknowledgments that the dispatcher
/// returns for that vector end the service of the line on both chips.
pub proof fn lemma_acks_end_service(c: Controller, line: u8)
    requires
        line < 16,
        c.idle(),
        remapped(c),
    ensures
        c.vector_of(line) == 32 + line,
        c.deliver(line).after_all(acks_for(c.vector_of(line) as u64)) == c,
{
    lemma_remapped_vectors(c, line);
    lemma_eoi_ends_service(c, line);
}

/// Handling a vector changes nothing of the frame but, for the system call,
/// the call-number register.
pub open spec fn frame_after_keeps_all_but_rax(int_no: u64) -> bool {
    forall|f: InterruptFrame|
        f.int_no == int_no ==> #[trigger] frame_after(f) == (InterruptFrame {
            rax: frame_after(f).rax,
            ..f
        })
}

/// Lowest address at which an entry stub of the kernel can lie: one megabyte.
pub const LOWEST_HANDLER: u64 = 0x10_0000;
/// First address of the upper half of the address space.
pub const UPPER_HALF: u64 = 0x8000_0000_0000_0000;

/// Whether `address` is one at which an entry stub can lie.
pub open spec fn plausible_handler(address: u64) -> bool {
    LOWEST_HANDLER <= address < UPPER_HALF
}

/// The line that shows the address of the stub of vector `vector`, where
/// `stubs` holds one.
pub open spec fn handler_line(stubs: Seq<u64>, vector: int, label: Seq<u8>) -> Seq<u8> {
    if 0 <= vector < stubs.len() {
        "  ".spec_bytes() + label + " at: 0x".spec_bytes() + hex_halves_text(stubs[vector])
            + "\n".spec_bytes()
    } else {
        Seq::empty()
    }
}

/// Whether the stubs are accepted: the first one must lie at a plausible
/// address.
pub open spec fn handlers_plausible(stubs: Seq<u64>) -> bool {
    stubs.len() > 0 && plausible_handler(stubs[0])
}

/// What `verify_handlers` prints.
pub open spec fn handlers_text(stubs: Seq<u64>) -> Seq<u8> {
    "Verifying 64-bit ISR addresses:\n".spec_bytes() + handler_line(
        stubs,
        0,
        "isr0 (Divide by Zero)".spec_bytes(),
    ) + handler_line(stubs, 3, "isr3 (Breakpoint)".spec_bytes()) + handler_line(
        stubs,
        13,
        "isr13 (GPF)".spec_bytes(),
    ) + handler_line(stubs, 14, "isr14 (Page Fault)".spec_bytes()) + handler_line(
        stubs,
        32,
        "isr32 (Timer)".spec_bytes(),
    ) + handler_line(stubs, 33, "isr33 (Keyboard)".spec_bytes()) + if handlers_plausible(stubs) {
        "  64-bit ISR addresses look valid\n".spec_bytes()
    } else {
        "  WARNING: 64-bit ISR addresses may be invalid!\n".spec_bytes()
    }
}

/// Writes the line that shows the stub of `vector`, where `stubs` holds one.
fn write_handler_line(serial: &mut SerialPort, stubs: &Vec<u64>, vector: usize, label: &str)
    ensures
        final(serial)@ == old(serial)@ + handler_line(stubs@, vector as int, label.spec_bytes()),
        final(serial).base_port() == old(serial).base_port(),
{
    if vector < stubs.len() {
        serial.write_str("  ");
        serial.write_str(label);
        serial.write_str(" at: 0x");
        serial.write_hex_halves(stubs[vector]);
        serial.write_str("\n");
    }
    assert(serial@ =~= old(serial)@ + handler_line(stubs@, vector as int, label.spec_bytes()));
}

/// Shows the addresses of the entry stubs of the key vectors, `stubs[v]`
/// being that of vector `v`, and judges whether the stubs lie where kernel
/// code can lie.
pub fn verify_handlers(stubs: &Vec<u64>, serial: &mut SerialPort) -> (valid: bool)
    ensures
        valid == handlers_plausible(stubs@),
        final(serial)@ == old(serial)@ + handlers_text(stubs@),
        final(serial).base_port() == old(serial).base_port(),
{
    let ghost start = serial@;
    let ghost t0 = "Verifying 64-bit ISR addresses:\n".spec_bytes();
    let ghost t1 = t0 + handler_line(stubs@, 0, "isr0 (Divide by Zero)".spec_bytes());
    let ghost t2 = t1 + handler_line(stubs@, 3, "isr3 (Breakpoint)".spec_bytes());
    let ghost t3 = t2 + handler_line(stubs@, 13, "isr13 (GPF)".spec_bytes());
    let ghost t4 = t3 + handler_line(stubs@, 14, "isr14 (Page Fault)".spec_bytes());
    let ghost t5 = t4 + handler_line(stubs@, 32, "isr32 (Timer)".spec_bytes());
    let ghost t6 = t5 + handler_line(stubs@, 33, "isr33 (Keyboard)".spec_bytes());
    serial.write_str("Verifying 64-bit ISR addresses:\n");
    write_handler_line(serial, stubs, 0, "isr0 (Divide by Zero)");
    proof {
        lemma_append(start, t0, handler_line(stubs@, 0, "isr0 (Divide by Zero)".spec_bytes()));
    }
    write_handler_line(serial, stubs, 3, "isr3 (Breakpoint)");
    proof {
        lemma_append(start, t1, handler_line(stubs@, 3, "isr3 (Breakpoint)".spec_bytes()));
    }
    write_handler_line(serial, stubs, 13, "isr13 (GPF)");
    proof {
        lemma_append(start, t2, handler_line(stubs@, 13, "isr13 (GPF)".spec_bytes()));
    }
    write_handler_line(serial, stubs, 14, "isr14 (Page Fault)");
    proof {
        lemma_append(start, t3, handler_line(stubs@, 14, "isr14 (Page Fault)".spec_bytes()));
    }
    write_handler_line(serial, stubs, 32, "isr32 (Timer)");
    proof {
        lemma_append(start, t4, handler_line(stubs@, 32, "isr32 (Timer)".spec_bytes()));
    }
    write_handler_line(serial, stubs, 33, "isr33 (Keyboard)");
    proof {
        lemma_append(start, t5, handler_line(stubs@, 33, "isr33 (Keyboard)".spec_bytes()));
    }
    assert(serial@ == start + t6);
    let valid = stubs.len() > 0 && LOWEST_HANDLER <= stubs[0] && stubs[0] < UPPER_HALF;
    if valid {
        serial.write_str("  64-bit ISR addresses look valid\n");
        proof {
            lemma_append(start, t6, "  64-bit ISR addresses look valid\n".spec_bytes());
        }
    } else {
        serial.write_str("  WARNING: 64-bit ISR addresses may be invalid!\n");
        proof {
            lemma_append(start, t6, "  WARNING: 64-bit ISR addresses may be invalid!\n".spec_bytes());
        }
    }
    valid
}

} // verus!
