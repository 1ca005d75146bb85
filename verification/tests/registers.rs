use emu6502::cpu::registers::{step16, step8, ProcessorStatusBit, Registers};

const ALL_BITS: [ProcessorStatusBit; 8] = [
    ProcessorStatusBit::Carry,
    ProcessorStatusBit::Zero,
    ProcessorStatusBit::InterruptDisable,
    ProcessorStatusBit::DecimalMode,
    ProcessorStatusBit::BreakCommand,
    ProcessorStatusBit::Unused,
    ProcessorStatusBit::Overflow,
    ProcessorStatusBit::Negative,
];

/// All the simple methods of the register file.
#[test]
fn registers_test() {
    let mut registers: Registers = Registers::new();

    assert_eq!(
        registers.pc(),
        0,
        "Program counter should be initialized to 0"
    );
    assert_eq!(
        registers.sp(),
        0,
        "Stack pointer should be initialized to 0"
    );
    assert_eq!(registers.x(), 0, "X register should be initialized to 0");
    assert_eq!(registers.y(), 0, "Y register should be initialized to 0");
    assert_eq!(registers.a(), 0, "A register should be initialized to 0");
    assert_eq!(
        registers.p(),
        0,
        "Processor status register should be initialized to 0"
    );

    registers.set_pc(0x00FA);
    assert_eq!(registers.pc(), 0x00FA, "Program counter should be set");

    registers.set_sp(0xFF);
    assert_eq!(registers.sp(), 0xFF, "Stack pointer should be set");

    registers.set_a(0xF1);
    assert_eq!(registers.a(), 0xF1, "A register should be set");

    registers.set_x(0x12);
    assert_eq!(registers.x(), 0x12, "X register should be set");

    registers.set_y(0x34);
    assert_eq!(registers.y(), 0x34, "Y register should be set");

    registers.set_p(0b10101010);
    assert_eq!(
        registers.p(),
        0b10101010,
        "Processor status register should be set"
    );
}

/// The methods of the program counter.
#[test]
fn test_pc() {
    let mut registers: Registers = Registers::new();

    assert_eq!(
        registers.pc(),
        0,
        "Program counter should be initialized to 0"
    );

    registers.set_pc(0x1234);
    assert_eq!(registers.pc(), 0x1234, "Program counter should be set");

    registers.incr_pr(0x0010);
    assert_eq!(
        registers.pc(),
        0x1244,
        "Program counter should be incremented"
    );

    registers.decr_pr(0x0002);
    assert_eq!(
        registers.pc(),
        0x1242,
        "Program counter should be decremented"
    );

    registers.set_pc(0xFFFF);
    assert_eq!(registers.pc(), 0xFFFF, "Program counter should be set");

    registers.incr_pr(0x0001);
    assert_eq!(
        registers.pc(),
        0x0000,
        "Program counter should wrap around after incrementing"
    );

    registers.decr_pr(0x0005);
    assert_eq!(
        registers.pc(),
        0xFFFB,
        "Program counter should wrap around after decrementing"
    );
}

/// The methods of the stack pointer.
#[test]
fn test_sp() {
    let mut registers: Registers = Registers::new();

    assert_eq!(
        registers.sp(),
        0,
        "Stack pointer should be initialized to 0"
    );

    registers.set_sp(0x80);
    assert_eq!(registers.sp(), 0x80, "Stack pointer should be set");

    registers.incr_sp(0x10);
    assert_eq!(registers.sp(), 0x90, "Stack pointer should be incremented");

    registers.decr_sp(0x20);
    assert_eq!(registers.sp(), 0x70, "Stack pointer should be decremented");

    registers.set_sp(0x00);
    assert_eq!(registers.sp(), 0x00, "Stack pointer should be set");

    registers.decr_sp(0x02);
    assert_eq!(
        registers.sp(),
        0xFE,
        "Stack pointer should wrap around after decrementing"
    );

    registers.incr_sp(0x05);
    assert_eq!(
        registers.sp(),
        0x03,
        "Stack pointer should wrap around after incrementing"
    );
}

/// The methods of the processor status register.
#[test]
fn test_p() {
    let mut registers: Registers = Registers::new();

    assert_eq!(
        registers.p(),
        0,
        "Processor status register should be initialized to 0"
    );

    registers.set_p(0b00001111);
    assert_eq!(
        registers.p(),
        0b00001111,
        "Processor status register should be set"
    );

    registers.set_p_bit(ProcessorStatusBit::Negative, true);
    assert!(registers.p_bit(ProcessorStatusBit::Negative));
    assert_eq!(registers.p(), 0b10001111, "Negative bit should be set");

    registers.set_p_bit(ProcessorStatusBit::Carry, false);
    assert!(!registers.p_bit(ProcessorStatusBit::Carry));
    assert_eq!(registers.p(), 0b10001110, "Carry bit should be cleared");

    registers.toggle_p_bit(ProcessorStatusBit::InterruptDisable);
    assert!(!registers.p_bit(ProcessorStatusBit::InterruptDisable));
    assert_eq!(
        registers.p(),
        0b10001010,
        "Interrupt disable bit should be toggled off"
    );

    registers.toggle_p_bit(ProcessorStatusBit::InterruptDisable);
    assert!(registers.p_bit(ProcessorStatusBit::InterruptDisable));
    assert_eq!(
        registers.p(),
        0b10001110,
        "Interrupt disable bit should be toggled on"
    );
}

#[test]
fn flag_indices_run_from_carry_to_negative() {
    for (expected, bit) in ALL_BITS.iter().enumerate() {
        assert_eq!(bit.index() as usize, expected);
    }
    assert_eq!(ProcessorStatusBit::Carry.index(), 0);
    assert_eq!(ProcessorStatusBit::Unused.index(), 5);
    assert_eq!(ProcessorStatusBit::Negative.index(), 7);
}

#[test]
fn counters_wrap_at_both_ends() {
    assert_eq!(step16(0xFFFF, 1, true), 0x0000);
    assert_eq!(step16(0x0000, 1, false), 0xFFFF);
    assert_eq!(step16(0x8000, 0x8000, true), 0x0000);
    assert_eq!(step16(0x1234, 0xFFFF, true), 0x1233);
    assert_eq!(step16(0x1234, 0xFFFF, false), 0x1235);
    assert_eq!(step16(0x1234, 0, true), 0x1234);
    assert_eq!(step8(0xFF, 1, true), 0x00);
    assert_eq!(step8(0x00, 2, false), 0xFE);
    assert_eq!(step8(0x80, 0x80, true), 0x00);
    assert_eq!(step8(0x12, 0xFF, true), 0x11);
    assert_eq!(step8(0x12, 0xFF, false), 0x13);
}

#[test]
fn counting_up_and_down_meets_for_every_magnitude() {
    for start in [0x0000u16, 0x0001, 0x7FFF, 0x8000, 0xFFFE, 0xFFFF] {
        for count in [0u16, 1, 2, 0x00FF, 0x0100, 0x7FFF, 0x8000, 0xFFFF] {
            let mut registers = Registers::new();
            registers.set_pc(start);
            registers.incr_pr(count);
            assert_eq!(
                registers.pc() as u32,
                (start as u32 + count as u32) % 0x1_0000
            );
            registers.decr_pr(count);
            assert_eq!(registers.pc(), start);
        }
    }
    for start in 0..=255u8 {
        for count in 0..=255u8 {
            let mut registers = Registers::new();
            registers.set_sp(start);
            registers.decr_sp(count);
            assert_eq!(
                registers.sp() as i32,
                (start as i32 - count as i32).rem_euclid(0x100)
            );
            registers.incr_sp(count);
            assert_eq!(registers.sp(), start);
        }
    }
}

#[test]
fn counters_leave_the_other_registers_alone() {
    let mut registers = Registers::new();
    registers.set_a(0x11);
    registers.set_x(0x22);
    registers.set_y(0x33);
    registers.set_p(0x44);
    registers.set_sp(0x55);
    registers.set_pc(0x6677);
    registers.incr_pr(3);
    registers.decr_sp(4);
    assert_eq!(registers.pc(), 0x667A);
    assert_eq!(registers.sp(), 0x51);
    assert_eq!(registers.a(), 0x11);
    assert_eq!(registers.x(), 0x22);
    assert_eq!(registers.y(), 0x33);
    assert_eq!(registers.p(), 0x44);
}

#[test]
fn setting_a_flag_changes_no_other_bit() {
    for p in 0..=255u8 {
        for bit in ALL_BITS {
            for value in [false, true] {
                let mut registers = Registers::new();
                registers.set_p(p);
                registers.set_p_bit(bit, value);
                assert_eq!(registers.p_bit(bit), value);
                let mask = 1u8 << bit.index();
                assert_eq!(registers.p() & !mask, p & !mask);
                for other in ALL_BITS {
                    if other != bit {
                        assert_eq!(
                            registers.p_bit(other),
                            p & (1u8 << other.index()) != 0
                        );
                    }
                }
            }
        }
    }
}

#[test]
fn setting_negative_on_an_empty_status_byte() {
    let mut registers = Registers::new();
    registers.set_p_bit(ProcessorStatusBit::Negative, true);
    assert!(registers.p_bit(ProcessorStatusBit::Negative));
    assert_eq!(registers.p(), 0b1000_0000);
    registers.set_p_bit(ProcessorStatusBit::Negative, true);
    assert_eq!(registers.p(), 0b1000_0000);
    registers.set_p_bit(ProcessorStatusBit::Negative, false);
    assert_eq!(registers.p(), 0);
}

#[test]
fn toggling_twice_restores_the_status_byte() {
    for p in 0..=255u8 {
        for bit in ALL_BITS {
            let mut registers = Registers::new();
            registers.set_p(p);
            registers.toggle_p_bit(bit);
            assert_eq!(registers.p(), p ^ (1u8 << bit.index()));
            assert_eq!(registers.p_bit(bit), p & (1u8 << bit.index()) == 0);
            registers.toggle_p_bit(bit);
            assert_eq!(registers.p(), p);
        }
    }
}

#[test]
fn flags_reproduce_every_bit_of_the_status_byte() {
    let mut registers = Registers::new();
    registers.set_p(0b10101010);
    assert!(!registers.p_bit(ProcessorStatusBit::Carry));
    assert!(registers.p_bit(ProcessorStatusBit::Zero));
    assert!(!registers.p_bit(ProcessorStatusBit::InterruptDisable));
    assert!(registers.p_bit(ProcessorStatusBit::DecimalMode));
    assert!(!registers.p_bit(ProcessorStatusBit::BreakCommand));
    assert!(registers.p_bit(ProcessorStatusBit::Unused));
    assert!(!registers.p_bit(ProcessorStatusBit::Overflow));
    assert!(registers.p_bit(ProcessorStatusBit::Negative));

    for p in 0..=255u8 {
        registers.set_p(p);
        let mut rebuilt: u32 = 0;
        for bit in ALL_BITS {
            if registers.p_bit(bit) {
                rebuilt += 1u32 << bit.index();
            }
        }
        assert_eq!(rebuilt, p as u32);
    }
}

#[test]
fn flags_leave_the_other_registers_alone() {
    let mut registers = Registers::new();
    registers.set_pc(0xBEEF);
    registers.set_sp(0x01);
    registers.set_a(0x02);
    registers.set_x(0x03);
    registers.set_y(0x04);
    registers.set_p_bit(ProcessorStatusBit::Overflow, true);
    registers.toggle_p_bit(ProcessorStatusBit::Carry);
    assert_eq!(registers.p(), 0b0100_0001);
    assert_eq!(registers.pc(), 0xBEEF);
    assert_eq!(registers.sp(), 0x01);
    assert_eq!(registers.a(), 0x02);
    assert_eq!(registers.x(), 0x03);
    assert_eq!(registers.y(), 0x04);
}

#[test]
fn a_copy_of_the_registers_goes_its_own_way() {
    let mut registers = Registers::new();
    registers.set_pc(0x0200);
    let copy = registers.clone();
    registers.incr_pr(1);
    assert_eq!(copy.pc(), 0x0200);
    assert_eq!(registers.pc(), 0x0201);
}
