use interrupt_core::boot::{
    check_stack_in_main_loop_64bit, check_system_tables_64bit, is_corrupt,
    verify_idt_entries_64bit, SelfTest, SelfTestStatus, StackCheck,
};
use interrupt_core::idt::{init as idt_init, DescriptorTablePointer};
use interrupt_core::interrupts::{isr_common_handler, DeviceInput, Dispatcher, InterruptFrame};
use interrupt_core::pic::{init as pic_init, unmask_irq, Controller};
use interrupt_core::serial::SerialPort;
use interrupt_core::timer::{get_ticks, get_uptime_ms, init as timer_init, Pit};

fn text(serial: &mut SerialPort) -> String {
    String::from_utf8(serial.take()).unwrap()
}

fn timer_frame() -> InterruptFrame {
    InterruptFrame {
        r15: 0, r14: 0, r13: 0, r12: 0, r11: 0, r10: 0, r9: 0, r8: 0, rdi: 0, rsi: 0, rbp: 0,
        rdx: 0, rcx: 0, rbx: 0, rax: 0, int_no: 32, err_code: 0, rip: 0x20_0000, cs: 8,
        rflags: 0x202, rsp: 0x7FF0, ss: 0x10,
    }
}

#[test]
fn stack_check_runs_once_in_ten_million_iterations() {
    let mut serial = SerialPort::new(0x3F8);
    assert_eq!(check_stack_in_main_loop_64bit(1, 0, &mut serial), StackCheck::Skipped);
    assert_eq!(check_stack_in_main_loop_64bit(9_999_999, 0, &mut serial), StackCheck::Skipped);
    assert_eq!(text(&mut serial), "");
    assert_eq!(check_stack_in_main_loop_64bit(0, 0x20_0000, &mut serial), StackCheck::Valid);
    assert_eq!(text(&mut serial), "64-bit Main loop RSP: 0x0x00x200000 OK\n");
    assert_eq!(
        check_stack_in_main_loop_64bit(20_000_000, 0xFFFF_8000_0000_7FF0, &mut serial),
        StackCheck::Valid
    );
    assert_eq!(text(&mut serial), "64-bit Main loop RSP: 0x0xFFFF80000x7FF0 OK\n");
}

#[test]
fn stack_check_names_what_is_wrong() {
    let mut serial = SerialPort::new(0x3F8);
    assert_eq!(check_stack_in_main_loop_64bit(0, 0, &mut serial), StackCheck::Null);
    assert_eq!(
        text(&mut serial),
        "64-bit Main loop RSP: 0x0x00x0 **NULL**\n\
         64-BIT STACK CORRUPTION DETECTED!\n\
         RSP: 0x0x00x0\n"
    );
    assert_eq!(
        check_stack_in_main_loop_64bit(10_000_000, 0xF_FFF0, &mut serial),
        StackCheck::TooLow
    );
    assert_eq!(
        text(&mut serial),
        "64-bit Main loop RSP: 0x0x00xFFFF0 **TOO_LOW**\n\
         64-BIT STACK CORRUPTION DETECTED!\n\
         RSP: 0x0x00xFFFF0\n"
    );
    assert_eq!(
        check_stack_in_main_loop_64bit(0, 0x20_0008, &mut serial),
        StackCheck::Misaligned
    );
    assert_eq!(
        text(&mut serial),
        "64-bit Main loop RSP: 0x0x00x200008 **MISALIGNED**\n\
         64-BIT STACK CORRUPTION DETECTED!\n\
         RSP: 0x0x00x200008\n"
    );
}

#[test]
fn only_the_three_faults_count_as_corruption() {
    assert!(is_corrupt(StackCheck::Null));
    assert!(is_corrupt(StackCheck::TooLow));
    assert!(is_corrupt(StackCheck::Misaligned));
    assert!(!is_corrupt(StackCheck::Valid));
    assert!(!is_corrupt(StackCheck::Skipped));
}

#[test]
fn system_tables_report_shows_gdt_and_code_segment() {
    let mut serial = SerialPort::new(0x3F8);
    let gdt = DescriptorTablePointer { limit: 0x37, base: 0xFFFF_FFFF_8000_9000 }.to_bytes();
    check_system_tables_64bit(&gdt, 0x28, &mut serial);
    assert_eq!(
        text(&mut serial),
        "\n=== 64-BIT SYSTEM TABLE CHECK ===\n\
         64-bit GDT Base: 0x0xFFFFFFFF0x80009000, Limit: 0x0x37\n\
         64-bit CS: 0x0x28\n\
         ===================\n"
    );
    check_system_tables_64bit(&[1, 2, 3], 0x08, &mut serial);
    assert_eq!(
        text(&mut serial),
        "\n=== 64-BIT SYSTEM TABLE CHECK ===\n\
         64-bit CS: 0x0x8\n\
         ===================\n"
    );
}

#[test]
fn idt_verification_accepts_a_full_table_at_a_real_address() {
    let mut serial = SerialPort::new(0x3F8);
    let loaded = DescriptorTablePointer::for_table(0x20_3000).to_bytes();
    assert!(verify_idt_entries_64bit(&loaded, &mut serial));
    assert_eq!(
        text(&mut serial),
        "  64-bit IDT Base: 0x0x00x203000, Limit: 0x0xFFF\n\
         \x20 \u{2713} 64-bit IDT appears loaded correctly\n"
    );
}

#[test]
fn idt_verification_warns_about_anything_else() {
    let mut serial = SerialPort::new(0x3F8);
    let null = DescriptorTablePointer::for_table(0).to_bytes();
    assert!(!verify_idt_entries_64bit(&null, &mut serial));
    assert_eq!(
        text(&mut serial),
        "  64-bit IDT Base: 0x0x00x0, Limit: 0x0xFFF\n\
         \x20 WARNING: 64-bit IDT may not be loaded correctly!\n"
    );
    let short = DescriptorTablePointer { limit: 0x7FF, base: 0x20_3000 }.to_bytes();
    assert!(!verify_idt_entries_64bit(&short, &mut serial));
    serial.take();
    assert!(!verify_idt_entries_64bit(&[0u8; 4], &mut serial));
    assert_eq!(text(&mut serial), "  WARNING: 64-bit IDT may not be loaded correctly!\n");
}

#[test]
fn self_test_passes_when_the_counter_has_advanced_by_ten() {
    let mut serial = SerialPort::new(0x3F8);
    let mut test = SelfTest::begin(5, &mut serial);
    assert_eq!(test.target, 15);
    assert_eq!(
        text(&mut serial),
        "  Testing 64-bit timer interrupts...\n  Initial ticks: 5\n"
    );
    assert_eq!(test.poll(5, &mut serial), SelfTestStatus::Pending);
    assert_eq!(test.poll(14, &mut serial), SelfTestStatus::Pending);
    assert_eq!(text(&mut serial), "");
    assert_eq!(test.poll(15, &mut serial), SelfTestStatus::Passed { ticks: 15 });
    assert_eq!(
        text(&mut serial),
        "  \u{2713} 64-bit timer interrupts working! Final ticks: 15\n"
    );
    assert_eq!(test.polls, 2);
    assert_eq!(test.poll(40, &mut serial), SelfTestStatus::Passed { ticks: 40 });
}

#[test]
fn self_test_times_out_after_a_million_polls_instead_of_hanging() {
    let mut serial = SerialPort::new(0x3F8);
    let mut test = SelfTest::begin(0, &mut serial);
    serial.take();
    let mut polls: u64 = 0;
    let status = loop {
        polls += 1;
        let status = test.poll(9, &mut serial);
        if status != SelfTestStatus::Pending {
            break status;
        }
        assert!(polls <= 1_000_000);
    };
    assert_eq!(status, SelfTestStatus::TimedOut);
    assert_eq!(polls, 1_000_001);
    assert_eq!(text(&mut serial), "  TIMEOUT: No 64-bit timer interrupts received\n");
    assert_eq!(test.poll(9, &mut serial), SelfTestStatus::TimedOut);
    assert_eq!(test.poll(10, &mut serial), SelfTestStatus::Passed { ticks: 10 });
}

#[test]
fn boot_sequence_reaches_ten_ticks_within_the_bound() {
    let mut serial = SerialPort::new(0x3F8);

    // Table built.
    let stubs: Vec<u64> = (0..48).map(|v| 0x20_0000u64 + 16 * v).collect();
    let (table, pointer) = idt_init(&stubs, 0x20_1000, 0x28, 0x30_0000, &mut serial).unwrap();
    assert!(verify_idt_entries_64bit(&pointer.to_bytes(), &mut serial));
    assert_eq!(table.entry(32).handler(), stubs[32]);
    assert_eq!(table.to_bytes().len(), 4096);

    // Controller initialised, timer programmed at 100 Hz.
    let mut controller = Controller::new();
    controller.apply(&pic_init(0, 0, &mut serial));
    let (timer, script) = timer_init(100, &mut serial).unwrap();
    let mut pit = Pit::new();
    pit.apply(&script);
    assert!(pit.counting);
    assert_eq!(pit.reload, 11931);

    // Interrupts enabled: line 0 is opened and the timer starts to fire.
    let mask = controller.read_mask(false);
    controller.write(unmask_irq(0, mask, &mut serial));
    assert_eq!(controller.read_mask(false), 0xFE);

    let mut dispatcher = Dispatcher::new(table);
    let mut test = SelfTest::begin(get_ticks(&dispatcher), &mut serial);
    let mut iterations = 0u32;
    let status = loop {
        iterations += 1;
        let status = test.poll(get_ticks(&dispatcher), &mut serial);
        if status != SelfTestStatus::Pending {
            break status;
        }
        // One firing of the timer between two polls.
        let mut frame = timer_frame();
        let outcome =
            isr_common_handler(&mut dispatcher, Some(&mut frame), DeviceInput::Nothing, &mut serial);
        assert!(!outcome.halt);
    };
    assert_eq!(status, SelfTestStatus::Passed { ticks: 10 });
    assert!(get_ticks(&dispatcher) >= 10);
    assert!(iterations <= 1_000_001);
    assert_eq!(get_uptime_ms(&timer, get_ticks(&dispatcher)), 100);
}
