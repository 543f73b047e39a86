//! The report of a kernel panic: what is written to the diagnostic channel
//! before the processor is halted for good.

use vstd::prelude::*;
use vstd::string::*;
use crate::loggers::{LogLevel, Logger, log_line};
use crate::serial::{
    SerialPort, decimal_text, hex_fixed, lemma_append, lemma_append_3, lemma_append_4,
    lemma_append_5, lemma_append_7, lemma_append_8, lemma_append_9, lemma_append_nothing,
};

verus! {

/// Where a panic was raised.
#[derive(Clone, Copy, Debug)]
pub struct PanicLocation<'a> {
    pub file: &'a str,
    pub line: u32,
    pub column: u32,
}

/// The registers shown in a panic report, as they were captured.
#[derive(Clone, Copy, Debug, PartialEq, Eq, Structural)]
pub struct RegisterSnapshot {
    pub rax: u64,
    pub rbx: u64,
    pub rcx: u64,
    pub rdx: u64,
    pub rsp: u64,
    pub rbp: u64,
    pub rsi: u64,
    pub rdi: u64,
}

/// A line of the register dump: two registers, each with all sixteen digits.
pub open spec fn register_pair(
    first: Seq<u8>,
    first_value: u64,
    second: Seq<u8>,
    second_value: u64,
) -> Seq<u8> {
    first + hex_fixed(first_value as nat, 16) + second + hex_fixed(second_value as nat, 16)
        + "\n".spec_bytes()
}

/// The register dump.
pub open spec fn register_dump_text(regs: RegisterSnapshot) -> Seq<u8> {
    "\nRegister Dump:\n".spec_bytes() + register_pair(
        "  RAX: 0x".spec_bytes(),
        regs.rax,
        "  RBX: 0x".spec_bytes(),
        regs.rbx,
    ) + register_pair("  RCX: 0x".spec_bytes(), regs.rcx, "  RDX: 0x".spec_bytes(), regs.rdx)
        + register_pair("  RSP: 0x".spec_bytes(), regs.rsp, "  RBP: 0x".spec_bytes(), regs.rbp)
        + register_pair("  RSI: 0x".spec_bytes(), regs.rsi, "  RDI: 0x".spec_bytes(), regs.rdi)
}

/// The lines that say where the panic was raised.
pub open spec fn location_text(location: Option<PanicLocation>) -> Seq<u8> {
    match location {
        Some(l) => "Panic Location:\n".spec_bytes() + "  File: ".spec_bytes()
            + l.file.spec_bytes() + "\n  Line: ".spec_bytes() + decimal_text(l.line as nat)
            + "\n  Column: ".spec_bytes() + decimal_text(l.column as nat) + "\n".spec_bytes(),
        None => "Panic Location: Unknown\n".spec_bytes(),
    }
}

/// The report up to and including the label of the message.
pub open spec fn panic_head_text(location: Option<PanicLocation>) -> Seq<u8> {
    "\n".spec_bytes() + "=====================================\n".spec_bytes()
        + "       KERNEL PANIC OCCURRED!       \n".spec_bytes()
        + "=====================================\n".spec_bytes() + log_line(
        LogLevel::Error,
        "KERNEL PANIC - SYSTEM HALTING".spec_bytes(),
    ) + location_text(location) + "Panic Message: ".spec_bytes()
}

/// The line that shows the payload, where there is one.
pub open spec fn payload_text(payload: Option<&str>) -> Seq<u8> {
    match payload {
        Some(p) => "Payload: ".spec_bytes() + p.spec_bytes() + "\n".spec_bytes(),
        None => Seq::empty(),
    }
}

/// The lines that state the condition the system is left in.
pub open spec fn system_state_text() -> Seq<u8> {
    "\nSystem State:\n".spec_bytes() + "  Interrupts: DISABLED\n".spec_bytes()
        + "  CPU: HALTED\n".spec_bytes() + "  System: UNRECOVERABLE\n".spec_bytes()
        + "\n".spec_bytes() + "=====================================\n".spec_bytes()
        + "System has been halted for safety.\n".spec_bytes() + "Restart required.\n".spec_bytes()
        + "=====================================\n".spec_bytes()
}

/// The report from the end of the message on.
pub open spec fn panic_tail_text(payload: Option<&str>, regs: RegisterSnapshot) -> Seq<u8> {
    "\n".spec_bytes() + payload_text(payload) + register_dump_text(regs) + system_state_text()
        + log_line(
        LogLevel::Error,
        "System halted due to kernel panic - restart required".spec_bytes(),
    )
}

/// The whole report of a panic with the given message.
pub open spec fn panic_text(
    location: Option<PanicLocation>,
    message: Seq<u8>,
    payload: Option<&str>,
    regs: RegisterSnapshot,
) -> Seq<u8> {
    panic_head_text(location) + message + panic_tail_text(payload, regs)
}

/// The line that tags a kernel-internal failure with its subsystem.
pub open spec fn failure_tag_text(subsystem: Seq<u8>, reason: Seq<u8>) -> Seq<u8> {
    "KERNEL PANIC in ".spec_bytes() + subsystem + ": ".spec_bytes() + reason + "\n".spec_bytes()
}

/// The panic message of a failure in `subsystem` for `reason`.
pub open spec fn failure_message(subsystem: Seq<u8>, reason: Seq<u8>) -> Seq<u8> {
    "Kernel subsystem failure: ".spec_bytes() + subsystem + ": ".spec_bytes() + reason
}

/// The panic message of a failure in `subsystem` whose reason was formatted
/// by the caller.
pub open spec fn formatted_failure_message(subsystem: Seq<u8>) -> Seq<u8> {
    "Kernel subsystem failure in ".spec_bytes() + subsystem
}

/// Writes all sixteen hexadecimal digits of `value`.
pub fn print_hex64(value: u64, serial: &mut SerialPort)
    ensures
        final(serial)@ == old(serial)@ + hex_fixed(value as nat, 16),
        final(serial).base_port() == old(serial).base_port(),
{
    serial.write_hex64(value);
}

/// Writes one line of the register dump.
fn write_register_pair(
    serial: &mut SerialPort,
    first: &str,
    first_value: u64,
    second: &str,
    second_value: u64,
)
    ensures
        final(serial)@ == old(serial)@ + register_pair(
            first.spec_bytes(),
            first_value,
            second.spec_bytes(),
            second_value,
        ),
        final(serial).base_port() == old(serial).base_port(),
{
    serial.write_str(first);
    print_hex64(first_value, serial);
    serial.write_str(second);
    print_hex64(second_value, serial);
    serial.write_str("\n");
    proof {
        lemma_append_5(
            old(serial)@,
            first.spec_bytes(),
            hex_fixed(first_value as nat, 16),
            second.spec_bytes(),
            hex_fixed(second_value as nat, 16),
            "\n".spec_bytes(),
        );
    }
}

/// Writes the register dump of a panic report.
pub fn print_register_dump(regs: &RegisterSnapshot, serial: &mut SerialPort)
    ensures
        final(serial)@ == old(serial)@ + register_dump_text(*regs),
        final(serial).base_port() == old(serial).base_port(),
{
    serial.write_str("\nRegister Dump:\n");
    write_register_pair(serial, "  RAX: 0x", regs.rax, "  RBX: 0x", regs.rbx);
    write_register_pair(serial, "  RCX: 0x", regs.rcx, "  RDX: 0x", regs.rdx);
    write_register_pair(serial, "  RSP: 0x", regs.rsp, "  RBP: 0x", regs.rbp);
    write_register_pair(serial, "  RSI: 0x", regs.rsi, "  RDI: 0x", regs.rdi);
    proof {
        lemma_append_5(
            old(serial)@,
            "\nRegister Dump:\n".spec_bytes(),
            register_pair("  RAX: 0x".spec_bytes(), regs.rax, "  RBX: 0x".spec_bytes(), regs.rbx),
            register_pair("  RCX: 0x".spec_bytes(), regs.rcx, "  RDX: 0x".spec_bytes(), regs.rdx),
            register_pair("  RSP: 0x".spec_bytes(), regs.rsp, "  RBP: 0x".spec_bytes(), regs.rbp),
            register_pair("  RSI: 0x".spec_bytes(), regs.rsi, "  RDI: 0x".spec_bytes(), regs.rdi),
        );
    }
}

/// Writes where the panic was raised.
fn write_location(serial: &mut SerialPort, location: Option<PanicLocation>)
    ensures
        final(serial)@ == old(serial)@ + location_text(location),
        final(serial).base_port() == old(serial).base_port(),
{
    match location {
        Some(l) => {
            serial.write_str("Panic Location:\n");
            serial.write_str("  File: ");
            serial.write_str(l.file);
            serial.write_str("\n  Line: ");
            serial.write_decimal(l.line);
            serial.write_str("\n  Column: ");
            serial.write_decimal(l.column);
            serial.write_str("\n");
            proof {
                lemma_append_8(
                    old(serial)@,
                    "Panic Location:\n".spec_bytes(),
                    "  File: ".spec_bytes(),
                    l.file.spec_bytes(),
                    "\n  Line: ".spec_bytes(),
                    decimal_text(l.line as nat),
                    "\n  Column: ".spec_bytes(),
                    decimal_text(l.column as nat),
                    "\n".spec_bytes(),
                );
            }
        },
        None => {
            serial.write_str("Panic Location: Unknown\n");
        },
    }
}

/// Writes the report up to and including the label of the message.
fn write_panic_head(serial: &mut SerialPort, logger: &Logger, location: Option<PanicLocation>)
    ensures
        final(serial)@ == old(serial)@ + panic_head_text(location),
        final(serial).base_port() == old(serial).base_port(),
{
    serial.write_str("\n");
    serial.write_str("=====================================\n");
    serial.write_str("       KERNEL PANIC OCCURRED!       \n");
    serial.write_str("=====================================\n");
    logger.error("KERNEL PANIC - SYSTEM HALTING", serial);
    write_location(serial, location);
    serial.write_str("Panic Message: ");
    proof {
        lemma_append_7(
            old(serial)@,
            "\n".spec_bytes(),
            "=====================================\n".spec_bytes(),
            "       KERNEL PANIC OCCURRED!       \n".spec_bytes(),
            "=====================================\n".spec_bytes(),
            log_line(LogLevel::Error, "KERNEL PANIC - SYSTEM HALTING".spec_bytes()),
            location_text(location),
            "Panic Message: ".spec_bytes(),
        );
    }
}

/// Writes the lines that state the condition the system is left in.
fn write_system_state(serial: &mut SerialPort)
    ensures
        final(serial)@ == old(serial)@ + system_state_text(),
        final(serial).base_port() == old(serial).base_port(),
{
    serial.write_str("\nSystem State:\n");
    serial.write_str("  Interrupts: DISABLED\n");
    serial.write_str("  CPU: HALTED\n");
    serial.write_str("  System: UNRECOVERABLE\n");
    serial.write_str("\n");
    serial.write_str("=====================================\n");
    serial.write_str("System has been halted for safety.\n");
    serial.write_str("Restart required.\n");
    serial.write_str("=====================================\n");
    proof {
        lemma_append_9(
            old(serial)@,
            "\nSystem State:\n".spec_bytes(),
            "  Interrupts: DISABLED\n".spec_bytes(),
            "  CPU: HALTED\n".spec_bytes(),
            "  System: UNRECOVERABLE\n".spec_bytes(),
            "\n".spec_bytes(),
            "=====================================\n".spec_bytes(),
            "System has been halted for safety.\n".spec_bytes(),
            "Restart required.\n".spec_bytes(),
            "=====================================\n".spec_bytes(),
        );
    }
}

/// Writes the line that shows the payload, where there is one.
fn write_payload(serial: &mut SerialPort, payload: Option<&str>)
    ensures
        final(serial)@ == old(serial)@ + payload_text(payload),
        final(serial).base_port() == old(serial).base_port(),
{
    match payload {
        Some(p) => {
            serial.write_str("Payload: ");
            serial.write_str(p);
            serial.write_str("\n");
            proof {
                lemma_append_3(
                    old(serial)@,
                    "Payload: ".spec_bytes(),
                    p.spec_bytes(),
                    "\n".spec_bytes(),
                );
            }
        },
        None => {
            proof {
                lemma_append_nothing(old(serial)@);
            }
        },
    }
}

/// Writes the report from the end of the message on.
fn write_panic_tail(
    serial: &mut SerialPort,
    logger: &Logger,
    payload: Option<&str>,
    regs: &RegisterSnapshot,
)
    ensures
        final(serial)@ == old(serial)@ + panic_tail_text(payload, *regs),
        final(serial).base_port() == old(serial).base_port(),
{
    serial.write_str("\n");
    write_payload(serial, payload);
    print_register_dump(regs, serial);
    write_system_state(serial);
    logger.error("System halted due to kernel panic - restart required", serial);
    proof {
        lemma_append_5(
            old(serial)@,
            "\n".spec_bytes(),
            payload_text(payload),
            register_dump_text(*regs),
            system_state_text(),
            log_line(
                LogLevel::Error,
                "System halted due to kernel panic - restart required".spec_bytes(),
            ),
        );
    }
}

/// Writes the report of a panic: the banner, where it was raised, the
/// message, the payload where there is one, the register dump and the system
/// state. The caller has disabled interrupts and halts the processor
/// afterwards.
pub fn panic_handler(
    location: Option<PanicLocation>,
    message: &str,
    payload: Option<&str>,
    regs: &RegisterSnapshot,
    logger: &Logger,
    serial: &mut SerialPort,
)
    ensures
        final(serial)@ == old(serial)@ + panic_text(location, message.spec_bytes(), payload, *regs),
        final(serial).base_port() == old(serial).base_port(),
{
    write_panic_head(serial, logger, location);
    serial.write_str(message);
    write_panic_tail(serial, logger, payload, regs);
    proof {
        lemma_append_3(
            old(serial)@,
            panic_head_text(location),
            message.spec_bytes(),
            panic_tail_text(payload, *regs),
        );
    }
}

/// Writes the line that tags a failure with its subsystem.
fn write_failure_tag(serial: &mut SerialPort, subsystem: &str, reason: &str)
    ensures
        final(serial)@ == old(serial)@ + failure_tag_text(
            subsystem.spec_bytes(),
            reason.spec_bytes(),
        ),
        final(serial).base_port() == old(serial).base_port(),
{
    serial.write_str("KERNEL PANIC in ");
    serial.write_str(subsystem);
    serial.write_str(": ");
    serial.write_str(reason);
    serial.write_str("\n");
    proof {
        lemma_append_5(
            old(serial)@,
            "KERNEL PANIC in ".spec_bytes(),
            subsystem.spec_bytes(),
            ": ".spec_bytes(),
            reason.spec_bytes(),
            "\n".spec_bytes(),
        );
    }
}

/// Writes the panic message of a failure in `subsystem` for `reason`.
fn write_failure_message(serial: &mut SerialPort, subsystem: &str, reason: &str)
    ensures
        final(serial)@ == old(serial)@ + failure_message(
            subsystem.spec_bytes(),
            reason.spec_bytes(),
        ),
        final(serial).base_port() == old(serial).base_port(),
{
    serial.write_str("Kernel subsystem failure: ");
    serial.write_str(subsystem);
    serial.write_str(": ");
    serial.write_str(reason);
    proof {
        lemma_append_4(
            old(serial)@,
            "Kernel subsystem failure: ".spec_bytes(),
            subsystem.spec_bytes(),
            ": ".spec_bytes(),
            reason.spec_bytes(),
        );
    }
}

/// Writes the panic message of a failure whose reason was formatted by the
/// caller.
fn write_formatted_failure_message(serial: &mut SerialPort, subsystem: &str)
    ensures
        final(serial)@ == old(serial)@ + formatted_failure_message(subsystem.spec_bytes()),
        final(serial).base_port() == old(serial).base_port(),
{
    serial.write_str("Kernel subsystem failure in ");
    serial.write_str(subsystem);
    proof {
        lemma_append(
            old(serial)@,
            "Kernel subsystem failure in ".spec_bytes(),
            subsystem.spec_bytes(),
        );
    }
}

/// Reports the failure of a kernel invariant: a line that names the
/// subsystem and the reason, then the panic report with the same two in its
/// message. The caller halts the processor afterwards.
pub fn kernel_panic(
    subsystem: &str,
    reason: &str,
    location: Option<PanicLocation>,
    regs: &RegisterSnapshot,
    logger: &Logger,
    serial: &mut SerialPort,
)
    ensures
        final(serial)@ == old(serial)@ + failure_tag_text(
            subsystem.spec_bytes(),
            reason.spec_bytes(),
        ) + panic_text(
            location,
            failure_message(subsystem.spec_bytes(), reason.spec_bytes()),
            None,
            *regs,
        ),
        final(serial).base_port() == old(serial).base_port(),
{
    write_failure_tag(serial, subsystem, reason);
    let ghost tagged = serial@;
    write_panic_head(serial, logger, location);
    write_failure_message(serial, subsystem, reason);
    write_panic_tail(serial, logger, None, regs);
    proof {
        lemma_append_3(
            tagged,
            panic_head_text(location),
            failure_message(subsystem.spec_bytes(), reason.spec_bytes()),
            panic_tail_text(None, *regs),
        );
    }
}

/// Reports the failure of a kernel invariant whose reason the caller has
/// already formatted as text. The caller halts the processor afterwards.
pub fn kernel_panic_fmt(
    subsystem: &str,
    formatted: &str,
    location: Option<PanicLocation>,
    regs: &RegisterSnapshot,
    logger: &Logger,
    serial: &mut SerialPort,
)
    ensures
        final(serial)@ == old(serial)@ + failure_tag_text(
            subsystem.spec_bytes(),
            formatted.spec_bytes(),
        ) + panic_text(location, formatted_failure_message(subsystem.spec_bytes()), None, *regs),
        final(serial).base_port() == old(serial).base_port(),
{
    write_failure_tag(serial, subsystem, formatted);
    let ghost tagged = serial@;
    write_panic_head(serial, logger, location);
    write_formatted_failure_message(serial, subsystem);
    write_panic_tail(serial, logger, None, regs);
    proof {
        lemma_append_3(
            tagged,
            panic_head_text(location),
            formatted_failure_message(subsystem.spec_bytes()),
            panic_tail_text(None, *regs),
        );
    }
}

} // verus!
