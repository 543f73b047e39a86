use interrupt_core::loggers::Logger;
use interrupt_core::panic::{
    kernel_panic, kernel_panic_fmt, panic_handler, print_hex64, print_register_dump,
    PanicLocation, RegisterSnapshot,
};
use interrupt_core::serial::SerialPort;

fn text(serial: &mut SerialPort) -> String {
    String::from_utf8(serial.take()).unwrap()
}

fn snapshot() -> RegisterSnapshot {
    RegisterSnapshot {
        rax: 0x1,
        rbx: 0xFFFF_FFFF_FFFF_FFFF,
        rcx: 0,
        rdx: 0xDEAD_BEEF,
        rsp: 0xFFFF_8000_0000_7FF0,
        rbp: 0xFFFF_8000_0000_8000,
        rsi: 0x1234_5678_9ABC_DEF0,
        rdi: 0x10,
    }
}

const DUMP: &str = "\nRegister Dump:\n\
\x20 RAX: 0x0000000000000001  RBX: 0xFFFFFFFFFFFFFFFF\n\
\x20 RCX: 0x0000000000000000  RDX: 0x00000000DEADBEEF\n\
\x20 RSP: 0xFFFF800000007FF0  RBP: 0xFFFF800000008000\n\
\x20 RSI: 0x123456789ABCDEF0  RDI: 0x0000000000000010\n";

const STATE: &str = "\nSystem State:\n\
\x20 Interrupts: DISABLED\n\
\x20 CPU: HALTED\n\
\x20 System: UNRECOVERABLE\n\
\n\
=====================================\n\
System has been halted for safety.\n\
Restart required.\n\
=====================================\n\
[ERROR] System halted due to kernel panic - restart required\n";

const BANNER: &str = "\n\
=====================================\n\
\x20      KERNEL PANIC OCCURRED!       \n\
=====================================\n\
[ERROR] KERNEL PANIC - SYSTEM HALTING\n";

#[test]
fn print_hex64_pads_to_sixteen_digits() {
    let mut serial = SerialPort::new(0x3F8);
    print_hex64(0, &mut serial);
    serial.write_byte(b' ');
    print_hex64(0xABC, &mut serial);
    serial.write_byte(b' ');
    print_hex64(u64::MAX, &mut serial);
    assert_eq!(text(&mut serial), "0000000000000000 0000000000000ABC FFFFFFFFFFFFFFFF");
}

#[test]
fn register_dump_shows_eight_registers_in_pairs() {
    let mut serial = SerialPort::new(0x3F8);
    print_register_dump(&snapshot(), &mut serial);
    assert_eq!(text(&mut serial), DUMP);
}

#[test]
fn panic_report_with_location_and_payload() {
    let mut serial = SerialPort::new(0x3F8);
    let location = PanicLocation { file: "src/kernel/idt.rs", line: 42, column: 9 };
    panic_handler(
        Some(location),
        "index out of bounds",
        Some("extra"),
        &snapshot(),
        &Logger::new(),
        &mut serial,
    );
    let expected = format!(
        "{}Panic Location:\n  File: src/kernel/idt.rs\n  Line: 42\n  Column: 9\n\
         Panic Message: index out of bounds\nPayload: extra\n{}{}",
        BANNER, DUMP, STATE
    );
    assert_eq!(text(&mut serial), expected);
}

#[test]
fn panic_report_without_location_or_payload() {
    let mut serial = SerialPort::new(0x3F8);
    panic_handler(None, "boom", None, &snapshot(), &Logger::new(), &mut serial);
    let expected = format!(
        "{}Panic Location: Unknown\nPanic Message: boom\n{}{}",
        BANNER, DUMP, STATE
    );
    assert_eq!(text(&mut serial), expected);
}

#[test]
fn kernel_panic_tags_subsystem_and_reason_then_reports() {
    let mut serial = SerialPort::new(0x3F8);
    kernel_panic("timer", "no ticks", None, &snapshot(), &Logger::new(), &mut serial);
    let expected = format!(
        "KERNEL PANIC in timer: no ticks\n\
         {}Panic Location: Unknown\n\
         Panic Message: Kernel subsystem failure: timer: no ticks\n{}{}",
        BANNER, DUMP, STATE
    );
    assert_eq!(text(&mut serial), expected);
}

#[test]
fn kernel_panic_fmt_prints_the_formatted_reason_in_the_tag_only() {
    let mut serial = SerialPort::new(0x3F8);
    let location = PanicLocation { file: "main.rs", line: 7, column: 1 };
    let formatted = format!("divisor {} too large", 66287);
    kernel_panic_fmt(
        "assertion",
        &formatted,
        Some(location),
        &snapshot(),
        &Logger::new(),
        &mut serial,
    );
    let expected = format!(
        "KERNEL PANIC in assertion: divisor 66287 too large\n\
         {}Panic Location:\n  File: main.rs\n  Line: 7\n  Column: 1\n\
         Panic Message: Kernel subsystem failure in assertion\n{}{}",
        BANNER, DUMP, STATE
    );
    assert_eq!(text(&mut serial), expected);
}
