use interrupt_core::idt::Idt;
use interrupt_core::interrupts::{
    classify, decode_page_fault, exception_name, get_timer_ticks, handle_cpu_exception_64,
    handle_hardware_irq, handle_keyboard_interrupt, handle_system_call, handle_timer_interrupt,
    input_needed, isr_common_handler, verify_handlers, DeviceInput, Dispatcher, InputSource,
    InterruptFrame, PageFaultCause, Route,
};
use interrupt_core::pic::{init as pic_init, Controller};
use interrupt_core::port::PortWrite;
use interrupt_core::serial::SerialPort;

fn frame(int_no: u64, err_code: u64) -> InterruptFrame {
    InterruptFrame {
        r15: 15, r14: 14, r13: 13, r12: 12, r11: 11, r10: 10, r9: 9, r8: 8,
        rdi: 0xD1, rsi: 0x51, rbp: 0, rdx: 0xD, rcx: 0xC, rbx: 0xB,
        rax: 0x1_0000_0002,
        int_no,
        err_code,
        rip: 0xFFFF_FFFF_8000_1234,
        cs: 0x08,
        rflags: 0x202,
        rsp: 0x7FF0,
        ss: 0x10,
    }
}

/// A dispatcher in charge of a table whose gates all lead to one stub.
fn fresh() -> Dispatcher {
    Dispatcher::new(Idt::build(&Vec::new(), 0x20_0000, 0x08, 0x8E).unwrap())
}

fn text(serial: &mut SerialPort) -> String {
    String::from_utf8(serial.take()).unwrap()
}

/// A dispatcher that has seen `ticks` ticks, with the channel emptied.
fn dispatcher_after(ticks: u64, serial: &mut SerialPort) -> Dispatcher {
    let mut dispatcher = fresh();
    for _ in 0..ticks {
        let mut f = frame(32, 0);
        isr_common_handler(&mut dispatcher, Some(&mut f), DeviceInput::Nothing, serial);
    }
    serial.take();
    dispatcher
}

const MASTER_ACK: PortWrite = PortWrite { port: 0x20, value: 0x20 };
const SLAVE_ACK: PortWrite = PortWrite { port: 0xA0, value: 0x20 };

#[test]
fn classify_follows_the_routing_table() {
    for v in 0..=300u64 {
        let expected = match v {
            0..=31 => Route::Exception,
            32 => Route::Timer,
            33 => Route::Keyboard,
            34..=47 => Route::Hardware,
            48..=127 => Route::Reserved,
            128 => Route::SystemCall,
            129..=255 => Route::Software,
            _ => Route::Invalid,
        };
        assert_eq!(classify(v), expected, "vector {}", v);
    }
    assert_eq!(classify(u64::MAX), Route::Invalid);
}

#[test]
fn input_needed_only_for_keyboard_and_page_fault() {
    for v in 0..=300u64 {
        let expected = match v {
            33 => InputSource::KeyboardData,
            14 => InputSource::FaultAddress,
            _ => InputSource::Nothing,
        };
        assert_eq!(input_needed(v), expected);
    }
}

#[test]
fn timer_vector_counts_exactly_one_tick_per_invocation() {
    let mut serial = SerialPort::new(0x3F8);
    let mut dispatcher = fresh();
    assert_eq!(get_timer_ticks(&dispatcher), 0);
    for n in 1..=250u64 {
        let mut f = frame(32, 0);
        let before = f;
        let outcome = isr_common_handler(&mut dispatcher, Some(&mut f), DeviceInput::Nothing, &mut serial);
        assert_eq!(get_timer_ticks(&dispatcher), n);
        assert_eq!(outcome.route, Route::Timer);
        assert!(!outcome.halt);
        assert_eq!(outcome.acks, vec![MASTER_ACK]);
        assert_eq!(f, before);
    }
}

#[test]
fn timer_prints_trace_for_three_ticks_and_heartbeat_for_ten_then_every_hundredth() {
    let mut serial = SerialPort::new(0x3F8);
    let mut dispatcher = fresh();
    let mut lines = Vec::new();
    for _ in 0..200 {
        let mut f = frame(32, 0);
        isr_common_handler(&mut dispatcher, Some(&mut f), DeviceInput::Nothing, &mut serial);
        lines.push(text(&mut serial));
    }
    assert_eq!(lines[0], "[64-INT:32] T64:1 ");
    assert_eq!(lines[1], "[64-INT:32] T64:2 ");
    assert_eq!(lines[2], "[64-INT:32] T64:3 ");
    assert_eq!(lines[3], "T64:4 ");
    assert_eq!(lines[9], "T64:10 ");
    assert_eq!(lines[10], "");
    assert_eq!(lines[98], "");
    assert_eq!(lines[99], "T64:100 ");
    assert_eq!(lines[100], "");
    assert_eq!(lines[199], "T64:200 ");
}

#[test]
fn other_vectors_do_not_move_the_tick_counter() {
    let mut serial = SerialPort::new(0x3F8);
    let mut dispatcher = dispatcher_after(7, &mut serial);
    for v in [0u64, 13, 14, 31, 33, 34, 47, 48, 127, 128, 129, 255, 256, 1000] {
        let mut f = frame(v, 0);
        isr_common_handler(&mut dispatcher, Some(&mut f), DeviceInput::Nothing, &mut serial);
        assert_eq!(get_timer_ticks(&dispatcher), 7, "vector {}", v);
    }
}

#[test]
fn every_processor_exception_is_fatal_and_unacknowledged() {
    let mut serial = SerialPort::new(0x3F8);
    let mut dispatcher = fresh();
    for v in 0..=31u64 {
        let mut f = frame(v, 0);
        let before = f;
        let outcome = isr_common_handler(&mut dispatcher, Some(&mut f), DeviceInput::Nothing, &mut serial);
        assert!(outcome.halt, "vector {}", v);
        assert_eq!(outcome.route, Route::Exception);
        assert!(outcome.acks.is_empty());
        assert_eq!(f, before);
        let report = text(&mut serial);
        assert!(report.contains(&format!("Exception #{}", v)));
        assert!(report.ends_with("=== SYSTEM HALTED ===\n"));
    }
}

#[test]
fn exception_report_is_the_structured_text() {
    let mut serial = SerialPort::new(0x3F8);
    handle_cpu_exception_64(0, 0, &frame(0, 0), None, &mut serial);
    assert_eq!(
        text(&mut serial),
        "\n=== 64-BIT CPU EXCEPTION ===\n\
         Exception #0 (Divide by Zero)\n\
         Error Code: 0x0x00x0\n\
         RIP: 0x0xFFFFFFFF0x80001234\n\
         RSP: 0x0x00x7FF0\n\
         RBP: 0x0x00x0\n\
         RAX: 0x0x10x2\n\
         CS: 0x0x8 RFLAGS: 0x0x00x202\n\
         === SYSTEM HALTED ===\n"
    );
}

#[test]
fn dispatcher_traces_early_exceptions_with_their_fault_code() {
    let mut serial = SerialPort::new(0x3F8);
    let mut dispatcher = fresh();
    let mut f = frame(13, 0x10);
    isr_common_handler(&mut dispatcher, Some(&mut f), DeviceInput::Nothing, &mut serial);
    let report = text(&mut serial);
    assert!(report.starts_with("[64-INT:13 ERR:0x0x10] \n=== 64-BIT CPU EXCEPTION ===\n"));

    let mut later = dispatcher_after(5, &mut serial);
    let mut f = frame(13, 0x10);
    isr_common_handler(&mut later, Some(&mut f), DeviceInput::Nothing, &mut serial);
    assert!(text(&mut serial).starts_with("\n=== 64-BIT CPU EXCEPTION ===\n"));
}

#[test]
fn page_fault_code_six_decodes_to_write_user_non_present() {
    assert_eq!(
        decode_page_fault(0b110),
        PageFaultCause { protection: false, write: true, user: true }
    );
    let mut serial = SerialPort::new(0x3F8);
    handle_cpu_exception_64(14, 0b110, &frame(14, 0b110), Some(0xDEAD_BEEF), &mut serial);
    let report = text(&mut serial);
    assert!(report.contains("Exception #14 (Page Fault)\n"));
    assert!(report.contains("Error Code: 0x0x00x6\n"));
    assert!(report.contains(
        "Page Fault Address: 0x0x00xDEADBEEF\nFault Type: Non-present Write User \n=== SYSTEM HALTED ===\n"
    ));
}

#[test]
fn page_fault_codes_decode_bit_by_bit() {
    for code in 0..8u64 {
        let cause = decode_page_fault(code);
        assert_eq!(cause.protection, code & 1 != 0);
        assert_eq!(cause.write, code & 2 != 0);
        assert_eq!(cause.user, code & 4 != 0);
    }
    assert_eq!(
        decode_page_fault(0b001),
        PageFaultCause { protection: true, write: false, user: false }
    );
    let mut serial = SerialPort::new(0x3F8);
    handle_cpu_exception_64(14, 0b001, &frame(14, 1), Some(0), &mut serial);
    assert!(text(&mut serial).contains("Fault Type: Protection Read Supervisor \n"));
}

#[test]
fn page_fault_through_the_dispatcher_uses_the_address_that_was_read() {
    let mut serial = SerialPort::new(0x3F8);
    let mut dispatcher = dispatcher_after(5, &mut serial);
    let mut f = frame(14, 0b110);
    let outcome = isr_common_handler(&mut dispatcher, Some(&mut f),
        DeviceInput::FaultAddress(0xFFFF_8000_0000_0ABC),
        &mut serial,
    );
    assert!(outcome.halt);
    assert!(text(&mut serial).contains("Page Fault Address: 0x0xFFFF80000xABC\n"));

    let mut f = frame(14, 0b110);
    isr_common_handler(&mut dispatcher, Some(&mut f), DeviceInput::Nothing, &mut serial);
    let report = text(&mut serial);
    assert!(!report.contains("Page Fault Address"));
    assert!(report.contains("Fault Type: Non-present Write User \n"));
}

#[test]
fn general_protection_fault_shows_a_non_zero_code_as_selector() {
    let mut serial = SerialPort::new(0x3F8);
    handle_cpu_exception_64(13, 0x28, &frame(13, 0x28), None, &mut serial);
    let report = text(&mut serial);
    assert!(report.contains("Exception #13 (General Protection Fault)\n"));
    assert!(report.contains("Selector: 0x0x28\n=== SYSTEM HALTED ===\n"));

    handle_cpu_exception_64(13, 0, &frame(13, 0), None, &mut serial);
    assert!(!text(&mut serial).contains("Selector"));

    handle_cpu_exception_64(12, 0x28, &frame(12, 0x28), None, &mut serial);
    assert!(!text(&mut serial).contains("Selector"));
}

#[test]
fn exception_names_match_the_vector() {
    assert_eq!(exception_name(0), " (Divide by Zero)");
    assert_eq!(exception_name(3), " (Breakpoint)");
    assert_eq!(exception_name(8), " (Double Fault)");
    assert_eq!(exception_name(13), " (General Protection Fault)");
    assert_eq!(exception_name(14), " (Page Fault)");
    assert_eq!(exception_name(19), " (SIMD Floating-Point Exception)");
    assert_eq!(exception_name(21), " (Control Protection Exception)");
    assert_eq!(exception_name(22), " (Reserved/Unknown)");
    assert_eq!(exception_name(31), " (Reserved/Unknown)");
}

#[test]
fn keyboard_vector_reports_the_scancode_and_acknowledges_line_one() {
    let mut serial = SerialPort::new(0x3F8);
    let mut dispatcher = dispatcher_after(5, &mut serial);
    let mut f = frame(33, 0);
    let outcome =
        isr_common_handler(&mut dispatcher, Some(&mut f), DeviceInput::Scancode(0x1E), &mut serial);
    assert_eq!(outcome.route, Route::Keyboard);
    assert!(!outcome.halt);
    assert_eq!(outcome.acks, vec![MASTER_ACK]);
    assert_eq!(text(&mut serial), "K64:0x0x1E (A) ");
}

#[test]
fn keyboard_vector_without_a_scancode_still_acknowledges() {
    let mut serial = SerialPort::new(0x3F8);
    let mut dispatcher = dispatcher_after(5, &mut serial);
    let mut f = frame(33, 0);
    let outcome = isr_common_handler(&mut dispatcher, Some(&mut f), DeviceInput::Nothing, &mut serial);
    assert_eq!(outcome.acks, vec![MASTER_ACK]);
    assert_eq!(text(&mut serial), "");
}

#[test]
fn keyboard_handler_names_the_keys_it_knows() {
    let mut serial = SerialPort::new(0x3F8);
    for (code, expected) in [
        (0x1Eu8, "K64:0x0x1E (A) "),
        (0x30, "K64:0x0x30 (B) "),
        (0x2E, "K64:0x0x2E (C) "),
        (0x01, "K64:0x0x1 (ESC) "),
        (0x1C, "K64:0x0x1C (ENTER) "),
        (0x9E, "K64:0x0x9E "),
        (0x00, "K64:0x0x0 "),
    ] {
        handle_keyboard_interrupt(code, &mut serial);
        assert_eq!(text(&mut serial), expected);
    }
}

#[test]
fn hardware_vectors_acknowledge_their_own_line() {
    let mut serial = SerialPort::new(0x3F8);
    let mut dispatcher = dispatcher_after(5, &mut serial);
    for v in 34..=47u64 {
        let mut f = frame(v, 0);
        let before = f;
        let outcome = isr_common_handler(&mut dispatcher, Some(&mut f), DeviceInput::Nothing, &mut serial);
        assert_eq!(outcome.route, Route::Hardware);
        assert!(!outcome.halt);
        if v >= 40 {
            assert_eq!(outcome.acks, vec![SLAVE_ACK, MASTER_ACK], "vector {}", v);
        } else {
            assert_eq!(outcome.acks, vec![MASTER_ACK], "vector {}", v);
        }
        assert_eq!(text(&mut serial), format!("HW-IRQ:{} ", v - 32));
        assert_eq!(f, before);
    }
}

#[test]
fn hardware_handler_prints_the_line_number() {
    let mut serial = SerialPort::new(0x3F8);
    handle_hardware_irq(44, &mut serial);
    assert_eq!(text(&mut serial), "HW-IRQ:12 ");
}

#[test]
fn reserved_vectors_warn_and_are_not_acknowledged() {
    let mut serial = SerialPort::new(0x3F8);
    let mut dispatcher = dispatcher_after(5, &mut serial);
    for v in [48u64, 50, 100, 127] {
        let mut f = frame(v, 0);
        let outcome = isr_common_handler(&mut dispatcher, Some(&mut f), DeviceInput::Nothing, &mut serial);
        assert_eq!(outcome.route, Route::Reserved);
        assert!(!outcome.halt);
        assert!(outcome.acks.is_empty());
        assert_eq!(text(&mut serial), format!("WARN: Reserved interrupt {}\n", v));
    }
    let mut fresh = fresh();
    let mut f = frame(50, 0);
    isr_common_handler(&mut fresh, Some(&mut f), DeviceInput::Nothing, &mut serial);
    assert_eq!(text(&mut serial), "[64-INT:50] WARN: Reserved interrupt 50\n");
}

#[test]
fn software_vectors_are_logged_and_not_acknowledged() {
    let mut serial = SerialPort::new(0x3F8);
    let mut dispatcher = dispatcher_after(5, &mut serial);
    for v in [129u64, 200, 255] {
        let mut f = frame(v, 0);
        let outcome = isr_common_handler(&mut dispatcher, Some(&mut f), DeviceInput::Nothing, &mut serial);
        assert_eq!(outcome.route, Route::Software);
        assert!(!outcome.halt);
        assert!(outcome.acks.is_empty());
        assert_eq!(text(&mut serial), format!("SW-INT:{} ", v));
    }
}

#[test]
fn system_call_keeps_known_numbers_and_marks_unknown_ones() {
    let mut serial = SerialPort::new(0x3F8);
    let mut dispatcher = dispatcher_after(5, &mut serial);
    for (number, expected_rax, line) in [
        (0u64, 0u64, "SYSCALL:0 (write) "),
        (1, 1, "SYSCALL:1 (exit) "),
        (2, u64::MAX, "SYSCALL:2 (unknown) "),
        (77, u64::MAX, "SYSCALL:77 (unknown) "),
        (u64::MAX, u64::MAX, "SYSCALL:4294967295 (unknown) "),
    ] {
        let mut f = frame(128, 0);
        f.rax = number;
        let mut expected = f;
        expected.rax = expected_rax;
        let outcome = isr_common_handler(&mut dispatcher, Some(&mut f), DeviceInput::Nothing, &mut serial);
        assert_eq!(outcome.route, Route::SystemCall);
        assert!(!outcome.halt);
        assert!(outcome.acks.is_empty());
        assert_eq!(f, expected);
        assert_eq!(text(&mut serial), line);
    }
}

#[test]
fn handle_system_call_changes_only_rax() {
    let mut serial = SerialPort::new(0x3F8);
    let mut f = frame(128, 0);
    f.rax = 9;
    let mut expected = f;
    expected.rax = u64::MAX;
    handle_system_call(&mut f, &mut serial);
    assert_eq!(f, expected);
}

#[test]
fn vector_numbers_above_255_are_fatal() {
    let mut serial = SerialPort::new(0x3F8);
    let mut dispatcher = fresh();
    let mut f = frame(256, 0);
    let outcome = isr_common_handler(&mut dispatcher, Some(&mut f), DeviceInput::Nothing, &mut serial);
    assert!(outcome.halt);
    assert_eq!(outcome.route, Route::Invalid);
    assert!(outcome.acks.is_empty());
    assert_eq!(text(&mut serial), "FATAL: Invalid 64-bit interrupt number: 256\n");

    let mut f = frame(0x1_0000_0005, 0);
    let outcome = isr_common_handler(&mut dispatcher, Some(&mut f), DeviceInput::Nothing, &mut serial);
    assert!(outcome.halt);
    assert_eq!(text(&mut serial), "FATAL: Invalid 64-bit interrupt number: 5\n");
}

#[test]
fn missing_frame_is_fatal() {
    let mut serial = SerialPort::new(0x3F8);
    let mut dispatcher = dispatcher_after(4, &mut serial);
    let outcome = isr_common_handler(&mut dispatcher, None, DeviceInput::Nothing, &mut serial);
    assert!(outcome.halt);
    assert_eq!(outcome.route, Route::NoFrame);
    assert!(outcome.acks.is_empty());
    assert_eq!(get_timer_ticks(&dispatcher), 4);
    assert_eq!(text(&mut serial), "ERROR: Null interrupt frame!\n");
}

#[test]
fn verify_handlers_lists_key_stubs_and_judges_the_first() {
    let mut serial = SerialPort::new(0x3F8);
    let stubs: Vec<u64> = (0..48).map(|v| 0x20_0000u64 + 16 * v).collect();
    assert!(verify_handlers(&stubs, &mut serial));
    assert_eq!(
        text(&mut serial),
        "Verifying 64-bit ISR addresses:\n\
         \x20 isr0 (Divide by Zero) at: 0x0x00x200000\n\
         \x20 isr3 (Breakpoint) at: 0x0x00x200030\n\
         \x20 isr13 (GPF) at: 0x0x00x2000D0\n\
         \x20 isr14 (Page Fault) at: 0x0x00x2000E0\n\
         \x20 isr32 (Timer) at: 0x0x00x200200\n\
         \x20 isr33 (Keyboard) at: 0x0x00x200210\n\
         \x20 64-bit ISR addresses look valid\n"
    );
}

#[test]
fn verify_handlers_warns_about_implausible_or_missing_stubs() {
    let mut serial = SerialPort::new(0x3F8);
    assert!(!verify_handlers(&vec![0xF_FFFF], &mut serial));
    assert_eq!(
        text(&mut serial),
        "Verifying 64-bit ISR addresses:\n\
         \x20 isr0 (Divide by Zero) at: 0x0x00xFFFFF\n\
         \x20 WARNING: 64-bit ISR addresses may be invalid!\n"
    );
    assert!(!verify_handlers(&vec![0x8000_0000_0000_0000], &mut serial));
    serial.take();
    assert!(verify_handlers(&vec![0x10_0000], &mut serial));
    serial.take();
    assert!(verify_handlers(&vec![0x7FFF_FFFF_FFFF_FFFF], &mut serial));
    serial.take();
    assert!(!verify_handlers(&Vec::new(), &mut serial));
    assert_eq!(
        text(&mut serial),
        "Verifying 64-bit ISR addresses:\n\
         \x20 WARNING: 64-bit ISR addresses may be invalid!\n"
    );
}

#[test]
fn dispatcher_keeps_the_table_it_was_given() {
    let mut serial = SerialPort::new(0x3F8);
    let stubs: Vec<u64> = (0..48).map(|v| 0x20_0000u64 + 16 * v).collect();
    let table = Idt::build(&stubs, 0x20_1000, 0x28, 0x8E).unwrap();
    let image = table.to_bytes();
    let mut dispatcher = Dispatcher::new(table);
    for v in [0u64, 14, 32, 33, 40, 50, 128, 200, 256] {
        let mut f = frame(v, 0);
        isr_common_handler(&mut dispatcher, Some(&mut f), DeviceInput::Scancode(1), &mut serial);
    }
    isr_common_handler(&mut dispatcher, None, DeviceInput::Nothing, &mut serial);
    assert_eq!(dispatcher.table().to_bytes(), image);
    assert_eq!(dispatcher.table().entry(32).handler(), stubs[32]);
    assert_eq!(dispatcher.table().entry(48).handler(), 0x20_1000);
}

#[test]
fn dispatcher_acknowledges_every_line_the_controller_delivers() {
    let mut serial = SerialPort::new(0x3F8);
    let mut controller = Controller::new();
    controller.apply(&pic_init(0, 0, &mut serial));
    controller.write(PortWrite { port: 0x21, value: 0 });
    controller.write(PortWrite { port: 0xA1, value: 0 });
    let idle = controller;
    let mut dispatcher = dispatcher_after(5, &mut serial);
    for line in 0..16u8 {
        let vector = controller.raise(line).unwrap();
        assert_eq!(vector, 32 + line);
        let mut f = frame(vector as u64, 0);
        let outcome =
            isr_common_handler(&mut dispatcher, Some(&mut f), DeviceInput::Scancode(0x1E), &mut serial);
        assert!(!outcome.halt);
        controller.apply(&outcome.acks);
        assert_eq!(controller, idle, "line {}", line);
    }
}

#[test]
fn timer_handler_counts_and_prints_the_heartbeat() {
    let mut serial = SerialPort::new(0x3F8);
    let mut dispatcher = fresh();
    handle_timer_interrupt(&mut dispatcher, &mut serial);
    assert_eq!(get_timer_ticks(&dispatcher), 1);
    assert_eq!(text(&mut serial), "T64:1 ");
    for _ in 0..10 {
        handle_timer_interrupt(&mut dispatcher, &mut serial);
    }
    assert_eq!(get_timer_ticks(&dispatcher), 11);
    assert_eq!(text(&mut serial), "T64:2 T64:3 T64:4 T64:5 T64:6 T64:7 T64:8 T64:9 T64:10 ");
}
