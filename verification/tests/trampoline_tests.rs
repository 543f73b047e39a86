use interrupt_core::interrupts::InterruptFrame;
use interrupt_core::trampoline::{
    aligned_stack_pointer, entry_stub, has_error_code, landing_sequence, leaving_sequence,
    read_frame, restore_sequence, save_sequence, write_frame, Cpu, Reg, Registers, StackOp,
};

/// Address from which the stacks of these tests grow down.
const BASE: u64 = 0xFFFF_8000_0001_0000;

fn registers(seed: u64) -> Registers {
    Registers {
        rax: seed,
        rbx: seed.wrapping_mul(3).wrapping_add(1),
        rcx: seed.wrapping_mul(5).wrapping_add(2),
        rdx: seed.wrapping_mul(7).wrapping_add(3),
        rbp: seed.wrapping_mul(11).wrapping_add(4),
        rsi: seed.wrapping_mul(13).wrapping_add(5),
        rdi: seed.wrapping_mul(17).wrapping_add(6),
        r8: seed.wrapping_mul(19).wrapping_add(7),
        r9: seed.wrapping_mul(23).wrapping_add(8),
        r10: seed.wrapping_mul(29).wrapping_add(9),
        r11: seed.wrapping_mul(31).wrapping_add(10),
        r12: seed.wrapping_mul(37).wrapping_add(11),
        r13: seed.wrapping_mul(41).wrapping_add(12),
        r14: seed.wrapping_mul(43).wrapping_add(13),
        r15: seed.wrapping_mul(47).wrapping_add(14),
    }
}

fn uniform(value: u64) -> Registers {
    Registers {
        rax: value, rbx: value, rcx: value, rdx: value, rbp: value, rsi: value, rdi: value,
        r8: value, r9: value, r10: value, r11: value, r12: value, r13: value, r14: value,
        r15: value,
    }
}

/// The stack as the processor leaves it for `vector`: ss, rsp, rflags, cs,
/// rip, and the fault code where the vector has one.
fn processor_stack(vector: u8, code: u64) -> Vec<u64> {
    let mut stack = vec![0xAAAA, 0x10, 0x7FFF_F000, 0x202, 0x08, 0xFFFF_FFFF_8000_1234];
    if has_error_code(vector) {
        stack.push(code);
    }
    stack
}

#[test]
fn vectors_with_a_processor_fault_code_are_the_documented_ones() {
    let with_code = [8u8, 10, 11, 12, 13, 14, 17, 21, 29, 30];
    for v in 0..=255u8 {
        assert_eq!(has_error_code(v), with_code.contains(&v), "vector {}", v);
    }
}

#[test]
fn entry_stub_pushes_zero_code_only_where_the_processor_pushed_none() {
    assert_eq!(entry_stub(0), vec![StackOp::PushValue(0), StackOp::PushValue(0)]);
    assert_eq!(entry_stub(32), vec![StackOp::PushValue(0), StackOp::PushValue(32)]);
    assert_eq!(entry_stub(128), vec![StackOp::PushValue(0), StackOp::PushValue(128)]);
    assert_eq!(entry_stub(8), vec![StackOp::PushValue(8)]);
    assert_eq!(entry_stub(14), vec![StackOp::PushValue(14)]);
}

#[test]
fn save_sequence_pushes_in_the_fixed_order() {
    let order = [
        Reg::Rax, Reg::Rbx, Reg::Rcx, Reg::Rdx, Reg::Rbp, Reg::Rsi, Reg::Rdi, Reg::R8,
        Reg::R9, Reg::R10, Reg::R11, Reg::R12, Reg::R13, Reg::R14, Reg::R15,
    ];
    let expected: Vec<StackOp> = order.iter().map(|r| StackOp::Push(*r)).collect();
    assert_eq!(save_sequence(), expected);
}

#[test]
fn restore_sequence_is_the_mirror_image_of_the_save_sequence() {
    let save = save_sequence();
    let restore = restore_sequence();
    assert_eq!(restore.len(), save.len() + 1);
    for i in 0..save.len() {
        let pushed = match save[save.len() - 1 - i] {
            StackOp::Push(r) => r,
            other => panic!("not a push: {:?}", other),
        };
        assert_eq!(restore[i], StackOp::Pop(pushed));
    }
    assert_eq!(restore[save.len()], StackOp::Discard(2));
}

#[test]
fn entry_and_exit_restore_registers_bit_for_bit_for_every_vector() {
    let patterns = [
        uniform(0),
        uniform(u64::MAX),
        uniform(0x5555_5555_5555_5555),
        uniform(0xAAAA_AAAA_AAAA_AAAA),
        registers(1),
        registers(0xDEAD_BEEF_0BAD_F00D),
    ];
    for v in 0..=255u8 {
        for regs in patterns.iter() {
            let at_entry = processor_stack(v, 0x1F);
            let mut cpu = Cpu::new(*regs, at_entry.clone(), BASE);
            assert!(cpu.run(&entry_stub(v)));
            assert!(cpu.run(&save_sequence()));
            assert!(cpu.run(&restore_sequence()));
            assert_eq!(cpu.regs, *regs, "vector {}", v);
            let mut expected = at_entry.clone();
            if has_error_code(v) {
                expected.pop();
            }
            assert_eq!(cpu.stack, expected, "vector {}", v);
        }
    }
}

#[test]
fn frame_seen_by_the_dispatcher_holds_vector_code_and_registers() {
    let regs = registers(7);
    let mut cpu = Cpu::new(regs, processor_stack(14, 0b110), BASE);
    assert!(cpu.run(&entry_stub(14)));
    assert!(cpu.run(&save_sequence()));
    let frame = read_frame(&cpu.stack).unwrap();
    assert_eq!(frame.int_no, 14);
    assert_eq!(frame.err_code, 0b110);
    assert_eq!(frame.rip, 0xFFFF_FFFF_8000_1234);
    assert_eq!(frame.cs, 0x08);
    assert_eq!(frame.rflags, 0x202);
    assert_eq!(frame.rsp, 0x7FFF_F000);
    assert_eq!(frame.ss, 0x10);
    assert_eq!(frame.rax, regs.rax);
    assert_eq!(frame.rbx, regs.rbx);
    assert_eq!(frame.rcx, regs.rcx);
    assert_eq!(frame.rdx, regs.rdx);
    assert_eq!(frame.rbp, regs.rbp);
    assert_eq!(frame.rsi, regs.rsi);
    assert_eq!(frame.rdi, regs.rdi);
    assert_eq!(frame.r8, regs.r8);
    assert_eq!(frame.r9, regs.r9);
    assert_eq!(frame.r10, regs.r10);
    assert_eq!(frame.r11, regs.r11);
    assert_eq!(frame.r12, regs.r12);
    assert_eq!(frame.r13, regs.r13);
    assert_eq!(frame.r14, regs.r14);
    assert_eq!(frame.r15, regs.r15);
}

#[test]
fn frame_of_a_vector_without_processor_code_has_code_zero() {
    let mut cpu = Cpu::new(registers(3), processor_stack(32, 0x99), BASE);
    assert!(cpu.run(&entry_stub(32)));
    assert!(cpu.run(&save_sequence()));
    let frame = read_frame(&cpu.stack).unwrap();
    assert_eq!(frame.int_no, 32);
    assert_eq!(frame.err_code, 0);
    assert_eq!(frame.rip, 0xFFFF_FFFF_8000_1234);
}

#[test]
fn frame_lies_with_r15_on_top_of_the_stack() {
    let regs = registers(9);
    let mut cpu = Cpu::new(regs, processor_stack(0, 0), BASE);
    assert!(cpu.run(&entry_stub(0)));
    assert!(cpu.run(&save_sequence()));
    let n = cpu.stack.len();
    assert_eq!(cpu.stack[n - 1], regs.r15);
    assert_eq!(cpu.stack[n - 15], regs.rax);
    assert_eq!(cpu.stack[n - 16], 0);
    assert_eq!(cpu.stack[n - 17], 0);
    assert_eq!(n, 1 + 22);
}

#[test]
fn changes_to_the_frame_are_what_the_exit_sequence_restores() {
    let regs = registers(5);
    let mut cpu = Cpu::new(regs, processor_stack(128, 0), BASE);
    assert!(cpu.run(&entry_stub(128)));
    assert!(cpu.run(&save_sequence()));
    let mut frame = read_frame(&cpu.stack).unwrap();
    frame.rax = u64::MAX;
    assert!(write_frame(&mut cpu.stack, &frame));
    assert_eq!(read_frame(&cpu.stack), Some(frame));
    cpu.regs = uniform(0x1111);
    assert!(cpu.run(&restore_sequence()));
    let mut expected = regs;
    expected.rax = u64::MAX;
    assert_eq!(cpu.regs, expected);
    assert_eq!(cpu.stack, processor_stack(128, 0));
}

#[test]
fn read_and_write_frame_need_a_full_frame() {
    let mut short: Vec<u64> = vec![0; 21];
    assert_eq!(read_frame(&short), None);
    let frame = InterruptFrame {
        r15: 1, r14: 2, r13: 3, r12: 4, r11: 5, r10: 6, r9: 7, r8: 8, rdi: 9, rsi: 10,
        rbp: 11, rdx: 12, rcx: 13, rbx: 14, rax: 15, int_no: 16, err_code: 17, rip: 18,
        cs: 19, rflags: 20, rsp: 21, ss: 22,
    };
    assert!(!write_frame(&mut short, &frame));
    assert_eq!(short, vec![0; 21]);
    let mut exact: Vec<u64> = vec![0; 22];
    assert!(write_frame(&mut exact, &frame));
    assert_eq!(
        exact,
        vec![22, 21, 20, 19, 18, 17, 16, 15, 14, 13, 12, 11, 10, 9, 8, 7, 6, 5, 4, 3, 2, 1]
    );
    assert_eq!(read_frame(&exact), Some(frame));
}

#[test]
fn pop_and_discard_stop_at_the_bottom_of_the_stack() {
    let mut cpu = Cpu::new(uniform(4), Vec::new(), BASE);
    assert!(!cpu.step(StackOp::Pop(Reg::Rax)));
    assert_eq!(cpu.regs, uniform(4));
    assert!(cpu.step(StackOp::PushValue(9)));
    assert!(!cpu.step(StackOp::Discard(2)));
    assert_eq!(cpu.stack, vec![9]);
    assert!(cpu.step(StackOp::Discard(1)));
    assert!(cpu.stack.is_empty());
    assert!(!cpu.run(&vec![StackOp::PushValue(1), StackOp::Pop(Reg::Rbx), StackOp::Pop(Reg::Rcx)]));
    assert_eq!(cpu.regs.rbx, 1);
    assert_eq!(cpu.regs.rcx, 4);
    assert!(cpu.stack.is_empty());
}

#[test]
fn registers_read_and_write_by_name() {
    let mut regs = uniform(0);
    regs.write(Reg::R12, 0xC0FFEE);
    regs.write(Reg::Rbp, 0xB00);
    assert_eq!(regs.read(Reg::R12), 0xC0FFEE);
    assert_eq!(regs.r12, 0xC0FFEE);
    assert_eq!(regs.read(Reg::Rbp), 0xB00);
    assert_eq!(regs.read(Reg::Rax), 0);
}

#[test]
fn aligned_stack_pointer_rounds_down_to_sixteen() {
    assert_eq!(aligned_stack_pointer(0x7FFF_F000), 0x7FFF_F000);
    assert_eq!(aligned_stack_pointer(0x7FFF_F008), 0x7FFF_F000);
    assert_eq!(aligned_stack_pointer(0x7FFF_F00F), 0x7FFF_F000);
    assert_eq!(aligned_stack_pointer(0x7FFF_F010), 0x7FFF_F010);
    assert_eq!(aligned_stack_pointer(15), 0);
    assert_eq!(aligned_stack_pointer(u64::MAX), u64::MAX - 15);
}

#[test]
fn landing_and_leaving_sequences_wrap_the_call_in_the_alignment() {
    let landing = landing_sequence();
    let save = save_sequence();
    assert_eq!(landing.len(), save.len() + 2);
    assert_eq!(&landing[..save.len()], &save[..]);
    assert_eq!(landing[save.len()], StackOp::SaveStackPointer(Reg::Rbp));
    assert_eq!(landing[save.len() + 1], StackOp::AlignStack);
    let leaving = leaving_sequence();
    assert_eq!(leaving[0], StackOp::RestoreStackPointer(Reg::Rbp));
    assert_eq!(&leaving[1..], &restore_sequence()[..]);
}

#[test]
fn dispatcher_is_called_on_a_stack_aligned_to_sixteen_bytes() {
    for vector in [0u8, 8, 14, 32, 33, 128, 255] {
        for extra in 0..4usize {
            let mut at_entry = vec![0x1111; extra];
            at_entry.extend(processor_stack(vector, 0x7));
            let mut cpu = Cpu::new(registers(21), at_entry, BASE);
            assert!(cpu.run(&entry_stub(vector)));
            assert!(cpu.run(&landing_sequence()));
            let sp = cpu.stack_pointer().unwrap();
            assert_eq!(sp % 16, 0, "vector {} extra {}", vector, extra);
            let unaligned = BASE - 8 * (extra as u64 + processor_stack(vector, 0).len() as u64
                + if has_error_code(vector) { 1 } else { 2 } + 15);
            assert_eq!(cpu.regs.rbp, unaligned);
            assert_eq!(sp, aligned_stack_pointer(unaligned));
        }
    }
}

#[test]
fn whole_trampoline_restores_registers_and_stack_for_every_vector() {
    let patterns = [uniform(0), uniform(u64::MAX), registers(0x0123_4567_89AB_CDEF)];
    for v in 0..=255u8 {
        for regs in patterns.iter() {
            for extra in 0..2usize {
                let mut at_entry = vec![0x2222; extra];
                at_entry.extend(processor_stack(v, 0x1F));
                let mut cpu = Cpu::new(*regs, at_entry.clone(), BASE);
                assert!(cpu.run(&entry_stub(v)));
                assert!(cpu.run(&landing_sequence()));
                // The dispatcher may use the stack and the registers that
                // the calling convention lets it change.
                cpu.stack.push(0xDEAD);
                cpu.stack.push(0xBEEF);
                cpu.regs.rax = 1;
                cpu.regs.rcx = 2;
                cpu.regs.r11 = 3;
                assert!(cpu.run(&leaving_sequence()));
                assert_eq!(cpu.regs, *regs, "vector {}", v);
                let mut expected = at_entry.clone();
                if has_error_code(v) {
                    expected.pop();
                }
                assert_eq!(cpu.stack, expected, "vector {}", v);
            }
        }
    }
}

#[test]
fn stack_pointer_operations_refuse_what_is_no_stack_address() {
    let mut cpu = Cpu::new(uniform(0), vec![1, 2, 3], 16);
    assert_eq!(cpu.stack_pointer(), None);
    assert!(!cpu.step(StackOp::SaveStackPointer(Reg::Rbp)));
    assert!(!cpu.step(StackOp::AlignStack));

    let mut odd = Cpu::new(uniform(0), vec![1], 0x1004);
    assert_eq!(odd.stack_pointer(), Some(0xFFC));
    assert!(!odd.step(StackOp::AlignStack));

    let mut cpu = Cpu::new(uniform(0), vec![1, 2, 3], 0x1000);
    cpu.regs.rbp = 0x1008;
    assert!(!cpu.step(StackOp::RestoreStackPointer(Reg::Rbp)));
    cpu.regs.rbp = 0xFF4;
    assert!(!cpu.step(StackOp::RestoreStackPointer(Reg::Rbp)));
    cpu.regs.rbp = 0x1000 - 32;
    assert!(!cpu.step(StackOp::RestoreStackPointer(Reg::Rbp)));
    assert_eq!(cpu.stack, vec![1, 2, 3]);
    cpu.regs.rbp = 0x1000 - 16;
    assert!(cpu.step(StackOp::RestoreStackPointer(Reg::Rbp)));
    assert_eq!(cpu.stack, vec![1, 2]);
    cpu.regs.rbp = 0x1000;
    assert!(cpu.step(StackOp::RestoreStackPointer(Reg::Rbp)));
    assert!(cpu.stack.is_empty());
}
