//! The checks of the boot sequence: the system tables as the processor
//! reports them, the stack pointer of the main loop, and the self-test that
//! waits for the first timer ticks.

use vstd::prelude::*;
use vstd::string::*;
use crate::idt::DescriptorTablePointer;
use crate::serial::{
    SerialPort, decimal_text, hex_halves_text, hex_text, lemma_append, lemma_append_3,
    lemma_append_4, lemma_append_5, lemma_append_6, lemma_append_nothing,
};

verus! {

/// The main loop looks at its stack pointer once in this many iterations.
pub const STACK_CHECK_PERIOD: u64 = 10_000_000;
/// Lowest address a kernel stack may have: one megabyte.
pub const LOWEST_STACK: u64 = 0x10_0000;
/// Number of ticks the self-test waits for.
pub const SELF_TEST_TICKS: u64 = 10;
/// Number of polls after which the self-test gives up.
pub const SELF_TEST_POLLS: u32 = 1_000_000;

/// What the main loop found when it looked at its stack pointer.
#[derive(Clone, Copy, Debug, PartialEq, Eq, Structural)]
pub enum StackCheck {
    /// It was not the turn of this iteration to look.
    Skipped,
    /// The stack pointer is usable.
    Valid,
    /// The stack pointer is null.
    Null,
    /// The stack pointer lies below one megabyte.
    TooLow,
    /// The stack pointer is not a multiple of sixteen.
    Misaligned,
}

/// The verdict on stack pointer `rsp` in iteration `iteration`.
pub open spec fn stack_verdict(iteration: u64, rsp: u64) -> StackCheck {
    if iteration % STACK_CHECK_PERIOD != 0 {
        StackCheck::Skipped
    } else if rsp == 0 {
        StackCheck::Null
    } else if rsp < LOWEST_STACK {
        StackCheck::TooLow
    } else if rsp % 16 != 0 {
        StackCheck::Misaligned
    } else {
        StackCheck::Valid
    }
}

/// Whether a verdict means that the stack is corrupt and the system halts.
pub open spec fn stack_corrupt(verdict: StackCheck) -> bool {
    verdict == StackCheck::Null || verdict == StackCheck::TooLow || verdict
        == StackCheck::Misaligned
}

/// The mark printed behind the stack pointer.
pub open spec fn verdict_mark(verdict: StackCheck) -> Seq<u8> {
    match verdict {
        StackCheck::Skipped => Seq::empty(),
        StackCheck::Valid => " OK".spec_bytes(),
        StackCheck::Null => " **NULL**".spec_bytes(),
        StackCheck::TooLow => " **TOO_LOW**".spec_bytes(),
        StackCheck::Misaligned => " **MISALIGNED**".spec_bytes(),
    }
}

/// What the stack check prints.
pub open spec fn stack_check_text(iteration: u64, rsp: u64) -> Seq<u8> {
    let verdict = stack_verdict(iteration, rsp);
    if verdict == StackCheck::Skipped {
        Seq::empty()
    } else {
        "64-bit Main loop RSP: 0x".spec_bytes() + hex_halves_text(rsp) + verdict_mark(verdict)
            + "\n".spec_bytes() + if stack_corrupt(verdict) {
            "64-BIT STACK CORRUPTION DETECTED!\n".spec_bytes() + "RSP: 0x".spec_bytes()
                + hex_halves_text(rsp) + "\n".spec_bytes()
        } else {
            Seq::empty()
        }
    }
}

/// Looks at the stack pointer of the main loop, once in ten million
/// iterations. A corrupt stack is reported, and the caller then halts.
pub fn check_stack_in_main_loop_64bit(iteration: u64, rsp: u64, serial: &mut SerialPort) -> (verdict:
    StackCheck)
    ensures
        verdict == stack_verdict(iteration, rsp),
        final(serial)@ == old(serial)@ + stack_check_text(iteration, rsp),
        final(serial).base_port() == old(serial).base_port(),
{
    if iteration % STACK_CHECK_PERIOD != 0 {
        proof {
            lemma_append_nothing(old(serial)@);
        }
        return StackCheck::Skipped;
    }
    serial.write_str("64-bit Main loop RSP: 0x");
    serial.write_hex_halves(rsp);
    let verdict = if rsp == 0 {
        serial.write_str(" **NULL**");
        StackCheck::Null
    } else if rsp < LOWEST_STACK {
        serial.write_str(" **TOO_LOW**");
        StackCheck::TooLow
    } else if rsp % 16 != 0 {
        serial.write_str(" **MISALIGNED**");
        StackCheck::Misaligned
    } else {
        serial.write_str(" OK");
        StackCheck::Valid
    };
    serial.write_str("\n");
    let ghost shown = serial@;
    if is_corrupt(verdict) {
        serial.write_str("64-BIT STACK CORRUPTION DETECTED!\n");
        serial.write_str("RSP: 0x");
        serial.write_hex_halves(rsp);
        serial.write_str("\n");
        proof {
            lemma_append_4(
                shown,
                "64-BIT STACK CORRUPTION DETECTED!\n".spec_bytes(),
                "RSP: 0x".spec_bytes(),
                hex_halves_text(rsp),
                "\n".spec_bytes(),
            );
        }
    } else {
        proof {
            lemma_append_nothing(shown);
        }
    }
    proof {
        lemma_append_5(
            old(serial)@,
            "64-bit Main loop RSP: 0x".spec_bytes(),
            hex_halves_text(rsp),
            verdict_mark(verdict),
            "\n".spec_bytes(),
            if stack_corrupt(verdict) {
                "64-BIT STACK CORRUPTION DETECTED!\n".spec_bytes() + "RSP: 0x".spec_bytes()
                    + hex_halves_text(rsp) + "\n".spec_bytes()
            } else {
                Seq::empty()
            },
        );
    }
    verdict
}

/// Whether a verdict means that the stack is corrupt and the system halts.
pub fn is_corrupt(verdict: StackCheck) -> (corrupt: bool)
    ensures
        corrupt == stack_corrupt(verdict),
{
    match verdict {
        StackCheck::Null | StackCheck::TooLow | StackCheck::Misaligned => true,
        StackCheck::Skipped | StackCheck::Valid => false,
    }
}

/// What is printed about a table pointer: a label, the base, the limit.
pub open spec fn table_text(label: Seq<u8>, p: DescriptorTablePointer) -> Seq<u8> {
    label + hex_halves_text(p.base) + ", Limit: 0x".spec_bytes() + hex_text(p.limit as nat)
        + "\n".spec_bytes()
}

/// What is printed about the system tables.
pub open spec fn system_tables_text(gdt: Option<DescriptorTablePointer>, cs: u16) -> Seq<u8> {
    "\n=== 64-BIT SYSTEM TABLE CHECK ===\n".spec_bytes() + (match gdt {
        Some(p) => table_text("64-bit GDT Base: 0x".spec_bytes(), p),
        None => Seq::empty(),
    }) + "64-bit CS: 0x".spec_bytes() + hex_text(cs as nat) + "\n".spec_bytes()
        + "===================\n".spec_bytes()
}

/// What the verification of the loaded interrupt table prints.
pub open spec fn idt_check_text(idtr: Option<DescriptorTablePointer>) -> Seq<u8> {
    match idtr {
        Some(p) => table_text("  64-bit IDT Base: 0x".spec_bytes(), p) + if p.plausible() {
            "  \u{2713} 64-bit IDT appears loaded correctly\n".spec_bytes()
        } else {
            "  WARNING: 64-bit IDT may not be loaded correctly!\n".spec_bytes()
        },
        None => "  WARNING: 64-bit IDT may not be loaded correctly!\n".spec_bytes(),
    }
}

/// Writes the base and the limit of a table pointer behind `label`.
fn write_table(serial: &mut SerialPort, label: &str, p: &DescriptorTablePointer)
    ensures
        final(serial)@ == old(serial)@ + table_text(label.spec_bytes(), *p),
        final(serial).base_port() == old(serial).base_port(),
{
    serial.write_str(label);
    serial.write_hex_halves(p.base);
    serial.write_str(", Limit: 0x");
    serial.write_hex(p.limit as u32);
    serial.write_str("\n");
    proof {
        lemma_append_5(
            old(serial)@,
            label.spec_bytes(),
            hex_halves_text(p.base),
            ", Limit: 0x".spec_bytes(),
            hex_text(p.limit as nat),
            "\n".spec_bytes(),
        );
    }
}

/// Reports the global descriptor table pointer, given as the ten bytes the
/// processor stored, and the code segment selector in use.
pub fn check_system_tables_64bit(gdt_pointer: &[u8], cs: u16, serial: &mut SerialPort)
    ensures
        final(serial)@ == old(serial)@ + system_tables_text(
            DescriptorTablePointer::decode(gdt_pointer@),
            cs,
        ),
        final(serial).base_port() == old(serial).base_port(),
{
    serial.write_str("\n=== 64-BIT SYSTEM TABLE CHECK ===\n");
    let gdt = DescriptorTablePointer::from_bytes(gdt_pointer);
    match gdt {
        Some(p) => {
            write_table(serial, "64-bit GDT Base: 0x", &p);
        },
        None => {
            proof {
                lemma_append_nothing(serial@);
            }
        },
    }
    serial.write_str("64-bit CS: 0x");
    serial.write_hex(cs as u32);
    serial.write_str("\n");
    serial.write_str("===================\n");
    proof {
        lemma_append_6(
            old(serial)@,
            "\n=== 64-BIT SYSTEM TABLE CHECK ===\n".spec_bytes(),
            match gdt {
                Some(p) => table_text("64-bit GDT Base: 0x".spec_bytes(), p),
                None => Seq::empty(),
            },
            "64-bit CS: 0x".spec_bytes(),
            hex_text(cs as nat),
            "\n".spec_bytes(),
            "===================\n".spec_bytes(),
        );
    }
}

/// Verifies the interrupt table pointer that the processor reports, given
/// as the ten bytes it stored: the table counts as loaded when the base is
/// not null and the limit is that of 256 descriptors.
pub fn verify_idt_entries_64bit(idtr: &[u8], serial: &mut SerialPort) -> (loaded: bool)
    ensures
        loaded == match DescriptorTablePointer::decode(idtr@) {
            Some(p) => p.plausible(),
            None => false,
        },
        final(serial)@ == old(serial)@ + idt_check_text(DescriptorTablePointer::decode(idtr@)),
        final(serial).base_port() == old(serial).base_port(),
{
    match DescriptorTablePointer::from_bytes(idtr) {
        Some(p) => {
            write_table(serial, "  64-bit IDT Base: 0x", &p);
            let loaded = p.looks_loaded();
            if loaded {
                serial.write_str("  \u{2713} 64-bit IDT appears loaded correctly\n");
            } else {
                serial.write_str("  WARNING: 64-bit IDT may not be loaded correctly!\n");
            }
            proof {
                lemma_append(
                    old(serial)@,
                    table_text("  64-bit IDT Base: 0x".spec_bytes(), p),
                    if p.plausible() {
                        "  \u{2713} 64-bit IDT appears loaded correctly\n".spec_bytes()
                    } else {
                        "  WARNING: 64-bit IDT may not be loaded correctly!\n".spec_bytes()
                    },
                );
            }
            loaded
        },
        None => {
            serial.write_str("  WARNING: 64-bit IDT may not be loaded correctly!\n");
            false
        },
    }
}

// ---------------------------------------------------------------------------
// The timer self-test
// ---------------------------------------------------------------------------

/// How the self-test stands after a poll.
#[derive(Clone, Copy, Debug, PartialEq, Eq, Structural)]
pub enum SelfTestStatus {
    /// The ticks have not arrived yet; poll again.
    Pending,
    /// The counter reached the target; it read `ticks`.
    Passed { ticks: u64 },
    /// The bound on the number of polls was passed without the counter
    /// reaching the target.
    TimedOut,
}

/// The self-test of the timer: foreground code polls the tick counter until
/// it has advanced by ten, and gives up after a bounded number of polls.
#[derive(Clone, Copy, Debug, PartialEq, Eq, Structural)]
pub struct SelfTest {
    /// The counter value that passes the test.
    pub target: u64,
    /// Number of polls that found the counter short of the target.
    pub polls: u32,
}

/// The status that a poll reports when `polls` polls have failed before it
/// and the counter reads `current`.
pub open spec fn poll_status(target: u64, polls: u32, current: u64) -> SelfTestStatus {
    if current >= target {
        SelfTestStatus::Passed { ticks: current }
    } else if polls >= SELF_TEST_POLLS {
        SelfTestStatus::TimedOut
    } else {
        SelfTestStatus::Pending
    }
}

/// The number of failed polls after a poll.
pub open spec fn polls_after(target: u64, polls: u32, current: u64) -> u32 {
    if current >= target || polls > SELF_TEST_POLLS {
        polls
    } else {
        (polls + 1) as u32
    }
}

/// The status after polling with each of `readings` in turn, stopping at
/// the first poll that settles the test.
pub open spec fn status_after(test: SelfTest, readings: Seq<u64>) -> SelfTestStatus
    decreases readings.len(),
{
    if readings.len() == 0 {
        SelfTestStatus::Pending
    } else {
        match poll_status(test.target, test.polls, readings[0]) {
            SelfTestStatus::Pending => status_after(
                SelfTest {
                    target: test.target,
                    polls: polls_after(test.target, test.polls, readings[0]),
                },
                readings.drop_first(),
            ),
            settled => settled,
        }
    }
}

/// What `begin` prints.
pub open spec fn begin_text(initial_ticks: u64) -> Seq<u8> {
    "  Testing 64-bit timer interrupts...\n".spec_bytes() + "  Initial ticks: ".spec_bytes()
        + decimal_text((initial_ticks % 0x1_0000_0000) as nat) + "\n".spec_bytes()
}

/// What a poll prints.
pub open spec fn poll_text(status: SelfTestStatus) -> Seq<u8> {
    match status {
        SelfTestStatus::Pending => Seq::empty(),
        SelfTestStatus::Passed { ticks } =>
            "  \u{2713} 64-bit timer interrupts working! Final ticks: ".spec_bytes() + decimal_text(
                (ticks % 0x1_0000_0000) as nat,
            ) + "\n".spec_bytes(),
        SelfTestStatus::TimedOut => "  TIMEOUT: No 64-bit timer interrupts received\n".spec_bytes(),
    }
}

impl SelfTest {
    /// Starts the self-test when the counter reads `initial_ticks`: the
    /// target is ten ticks further.
    pub fn begin(initial_ticks: u64, serial: &mut SerialPort) -> (test: Self)
        requires
            initial_ticks + SELF_TEST_TICKS <= u64::MAX,
        ensures
            test == (SelfTest { target: (initial_ticks + SELF_TEST_TICKS) as u64, polls: 0 }),
            final(serial)@ == old(serial)@ + begin_text(initial_ticks),
            final(serial).base_port() == old(serial).base_port(),
    {
        serial.write_str("  Testing 64-bit timer interrupts...\n");
        serial.write_str("  Initial ticks: ");
        serial.write_decimal((initial_ticks % 0x1_0000_0000) as u32);
        serial.write_str("\n");
        proof {
            lemma_append_4(
                old(serial)@,
                "  Testing 64-bit timer interrupts...\n".spec_bytes(),
                "  Initial ticks: ".spec_bytes(),
                decimal_text((initial_ticks % 0x1_0000_0000) as nat),
                "\n".spec_bytes(),
            );
        }
        SelfTest { target: initial_ticks + SELF_TEST_TICKS, polls: 0 }
    }

    /// One poll: `current_ticks` is the tick counter as just read. The test
    /// passes as soon as the counter has reached the target, and times out
    /// at the first poll after a million that found it short.
    pub fn poll(&mut self, current_ticks: u64, serial: &mut SerialPort) -> (status: SelfTestStatus)
        ensures
            status == poll_status(old(self).target, old(self).polls, current_ticks),
            final(self).target == old(self).target,
            final(self).polls == polls_after(old(self).target, old(self).polls, current_ticks),
            final(serial)@ == old(serial)@ + poll_text(status),
            final(serial).base_port() == old(serial).base_port(),
    {
        if current_ticks >= self.target {
            serial.write_str("  \u{2713} 64-bit timer interrupts working! Final ticks: ");
            serial.write_decimal((current_ticks % 0x1_0000_0000) as u32);
            serial.write_str("\n");
            let status = SelfTestStatus::Passed { ticks: current_ticks };
            proof {
                lemma_append_3(
                    old(serial)@,
                    "  \u{2713} 64-bit timer interrupts working! Final ticks: ".spec_bytes(),
                    decimal_text((current_ticks % 0x1_0000_0000) as nat),
                    "\n".spec_bytes(),
                );
            }
            return status;
        }
        if self.polls >= SELF_TEST_POLLS {
            if self.polls == SELF_TEST_POLLS {
                self.polls = self.polls + 1;
            }
            serial.write_str("  TIMEOUT: No 64-bit timer interrupts received\n");
            return SelfTestStatus::TimedOut;
        }
        self.polls = self.polls + 1;
        proof {
            lemma_append_nothing(old(serial)@);
        }
        SelfTestStatus::Pending
    }
}

/// The self-test cannot hang. A poll that leaves it pending has counted
/// itself, and once a million polls are counted no poll leaves it pending:
/// whatever the counter reads, among any million and one consecutive polls
/// one settles the test, as passed or as timed out.
pub proof fn lemma_self_test_is_bounded(test: SelfTest, readings: Seq<u64>)
    requires
        test.polls <= SELF_TEST_POLLS,
        readings.len() + test.polls > SELF_TEST_POLLS,
    ensures
        status_after(test, readings) != SelfTestStatus::Pending,
    decreases readings.len(),
{
    match poll_status(test.target, test.polls, readings[0]) {
        SelfTestStatus::Pending => {
            let next = SelfTest {
                target: test.target,
                polls: polls_after(test.target, test.polls, readings[0]),
            };
            lemma_self_test_is_bounded(next, readings.drop_first());
        },
        _ => {},
    }
}

/// The self-test passes exactly on a reading that has reached the target,
/// and a test that has passed reports that reading.
pub proof fn lemma_self_test_passes_on_target(target: u64, polls: u32, current: u64)
    ensures
        poll_status(target, polls, current) is Passed <==> current >= target,
        poll_status(target, polls, current) is Passed ==> poll_status(target, polls, current)
            == (SelfTestStatus::Passed { ticks: current }),
        poll_status(target, polls, current) is Pending ==> polls_after(target, polls, current)
            == polls + 1,
{
}

} // verus!
