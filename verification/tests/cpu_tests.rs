use chip8::emulator::cpu::Cpu;
use chip8::emulator::disasm::Decodable;
use chip8::emulator::machine::{CpuError, Fault, LoadError, Status};
use chip8::emulator::opcode::OpCode;

/// The bytes of a program made of the given instruction words.
fn program(words: &[u16]) -> Vec<u8> {
    let mut bytes = Vec::new();
    for word in words {
        bytes.push((word >> 8) as u8);
        bytes.push((word & 0xFF) as u8);
    }
    bytes
}

/// A fresh processor with the given instruction words loaded.
fn loaded(words: &[u16]) -> Cpu {
    let mut cpu = Cpu::new();
    assert_eq!(Ok(()), cpu.load_program(&program(words)));
    cpu
}

/// Takes `count` steps, each of which must end in `Continue`.
fn steps(cpu: &mut Cpu, count: usize) {
    for _ in 0..count {
        assert_eq!(Ok(Status::Continue), cpu.step());
    }
}

/// The number of lit pixels.
fn lit(cpu: &Cpu) -> usize {
    cpu.get_display().iter().filter(|pixel| **pixel).count()
}

#[test]
fn test_reset_state() {
    let cpu = Cpu::new();
    assert_eq!(0x200, cpu.get_pc());
    assert_eq!(0, cpu.get_index());
    assert_eq!(0, cpu.get_stack_depth());
    assert_eq!(0, cpu.get_delay_timer());
    assert_eq!(0, cpu.get_sound_timer());
    assert_eq!(&[0u8; 16], cpu.get_registers());
    assert_eq!(0, lit(&cpu));
    assert_eq!(2048, cpu.get_display().len());
    for addr in 0x200..4096 {
        assert_eq!(0, cpu.get_memory()[addr]);
    }
}

#[test]
fn test_font_lies_below_the_program_area() {
    let cpu = Cpu::new();
    let memory = cpu.get_memory();
    for addr in 0..0x50 {
        assert_eq!(0, memory[addr]);
    }
    assert_eq!([0xF0, 0x90, 0x90, 0x90, 0xF0], memory[0x50..0x55]);
    assert_eq!([0x20, 0x60, 0x20, 0x20, 0x70], memory[0x55..0x5A]);
    assert_eq!([0xF0, 0x90, 0xF0, 0x90, 0x90], memory[0x82..0x87]);
    assert_eq!([0xF0, 0x80, 0xF0, 0x80, 0x80], memory[0x9B..0xA0]);
    for addr in 0xA0..0x200 {
        assert_eq!(0, memory[addr]);
    }
}

#[test]
fn test_load_program_copies_the_bytes() {
    let mut cpu = Cpu::new();
    assert_eq!(Ok(()), cpu.load_program(&[0x60, 0x05, 0xAB, 0xCD]));
    let memory = cpu.get_memory();
    assert_eq!([0x60, 0x05, 0xAB, 0xCD, 0x00], memory[0x200..0x205]);
    assert_eq!(0xF0, memory[0x50]);
    assert_eq!(0x200, cpu.get_pc());
}

#[test]
fn test_load_program_of_the_largest_size() {
    let mut cpu = Cpu::new();
    let bytes = vec![0xAAu8; 3584];
    assert_eq!(Ok(()), cpu.load_program(&bytes));
    assert_eq!(0xAA, cpu.get_memory()[0x200]);
    assert_eq!(0xAA, cpu.get_memory()[4095]);
    assert_eq!(0x00, cpu.get_memory()[0x1FF]);
}

#[test]
fn test_load_program_too_large() {
    let mut cpu = Cpu::new();
    let bytes = vec![0xAAu8; 3586];
    assert_eq!(Err(LoadError::ProgramTooLarge), cpu.load_program(&bytes));
    assert_eq!(0, cpu.get_memory()[0x200]);
}

#[test]
fn test_load_program_of_odd_length() {
    let mut cpu = Cpu::new();
    assert_eq!(Err(LoadError::OddLength), cpu.load_program(&[0x60, 0x05, 0x61]));
    assert_eq!(0, cpu.get_memory()[0x200]);
}

#[test]
fn test_load_program_too_large_and_odd() {
    let mut cpu = Cpu::new();
    let bytes = vec![0xAAu8; 3585];
    assert_eq!(Err(LoadError::ProgramTooLarge), cpu.load_program(&bytes));
}

#[test]
fn test_load_empty_program() {
    let mut cpu = Cpu::new();
    assert_eq!(Ok(()), cpu.load_program(&[]));
    assert_eq!(0, cpu.get_memory()[0x200]);
}

#[test]
fn test_add_with_carry() {
    let mut cpu = loaded(&[0x60FF, 0x6101, 0x8014]);
    steps(&mut cpu, 3);
    assert_eq!(0x00, cpu.get_registers()[0]);
    assert_eq!(1, cpu.get_registers()[0xF]);
}

#[test]
fn test_add_without_carry() {
    let mut cpu = loaded(&[0x6F01, 0x60FE, 0x6101, 0x8014]);
    steps(&mut cpu, 4);
    assert_eq!(0xFF, cpu.get_registers()[0]);
    assert_eq!(0, cpu.get_registers()[0xF]);
}

#[test]
fn test_sub_without_borrow() {
    let mut cpu = loaded(&[0x6005, 0x6103, 0x8015]);
    steps(&mut cpu, 3);
    assert_eq!(0x02, cpu.get_registers()[0]);
    assert_eq!(1, cpu.get_registers()[0xF]);
}

#[test]
fn test_sub_with_borrow() {
    let mut cpu = loaded(&[0x6001, 0x6103, 0x8015]);
    steps(&mut cpu, 3);
    assert_eq!(0xFE, cpu.get_registers()[0]);
    assert_eq!(0, cpu.get_registers()[0xF]);
}

#[test]
fn test_sub_of_equal_values_borrows_nothing() {
    let mut cpu = loaded(&[0x6007, 0x6107, 0x8015]);
    steps(&mut cpu, 3);
    assert_eq!(0x00, cpu.get_registers()[0]);
    assert_eq!(1, cpu.get_registers()[0xF]);
}

#[test]
fn test_subn() {
    let mut cpu = loaded(&[0x6003, 0x6105, 0x8017, 0x6205, 0x6303, 0x8237]);
    steps(&mut cpu, 3);
    assert_eq!(0x02, cpu.get_registers()[0]);
    assert_eq!(1, cpu.get_registers()[0xF]);
    steps(&mut cpu, 3);
    assert_eq!(0xFE, cpu.get_registers()[2]);
    assert_eq!(0, cpu.get_registers()[0xF]);
}

#[test]
fn test_shift_right() {
    let mut cpu = loaded(&[0x6005, 0x8006, 0x8006]);
    steps(&mut cpu, 2);
    assert_eq!(0x02, cpu.get_registers()[0]);
    assert_eq!(1, cpu.get_registers()[0xF]);
    steps(&mut cpu, 1);
    assert_eq!(0x01, cpu.get_registers()[0]);
    assert_eq!(0, cpu.get_registers()[0xF]);
}

#[test]
fn test_shift_left() {
    let mut cpu = loaded(&[0x60C1, 0x800E, 0x800E, 0x800E]);
    steps(&mut cpu, 2);
    assert_eq!(0x82, cpu.get_registers()[0]);
    assert_eq!(1, cpu.get_registers()[0xF]);
    steps(&mut cpu, 1);
    assert_eq!(0x04, cpu.get_registers()[0]);
    assert_eq!(1, cpu.get_registers()[0xF]);
    steps(&mut cpu, 1);
    assert_eq!(0x08, cpu.get_registers()[0]);
    assert_eq!(0, cpu.get_registers()[0xF]);
}

#[test]
fn test_flag_is_written_after_the_result() {
    let mut cpu = loaded(&[0x6FFF, 0x6101, 0x8F14, 0x6F05, 0x8F06]);
    steps(&mut cpu, 3);
    assert_eq!(1, cpu.get_registers()[0xF]);
    steps(&mut cpu, 2);
    assert_eq!(1, cpu.get_registers()[0xF]);
}

#[test]
fn test_logic_operations() {
    let mut cpu = loaded(&[0x60CA, 0x61AC, 0x6F07, 0x8011, 0x60CA, 0x8012, 0x60CA, 0x8013, 0x8210]);
    steps(&mut cpu, 4);
    assert_eq!(0xEE, cpu.get_registers()[0]);
    steps(&mut cpu, 2);
    assert_eq!(0x88, cpu.get_registers()[0]);
    steps(&mut cpu, 2);
    assert_eq!(0x66, cpu.get_registers()[0]);
    steps(&mut cpu, 1);
    assert_eq!(0xAC, cpu.get_registers()[2]);
    assert_eq!(0x07, cpu.get_registers()[0xF]);
}

#[test]
fn test_add_byte_wraps_and_sets_no_flag() {
    let mut cpu = loaded(&[0x60FF, 0x7002, 0x7010]);
    steps(&mut cpu, 2);
    assert_eq!(0x01, cpu.get_registers()[0]);
    assert_eq!(0, cpu.get_registers()[0xF]);
    steps(&mut cpu, 1);
    assert_eq!(0x11, cpu.get_registers()[0]);
}

#[test]
fn test_call_then_ret() {
    let mut bytes = program(&[0x2300]);
    bytes.resize(0x100, 0);
    bytes.extend(program(&[0x00EE]));
    let mut cpu = Cpu::new();
    assert_eq!(Ok(()), cpu.load_program(&bytes));

    steps(&mut cpu, 1);
    assert_eq!(0x300, cpu.get_pc());
    assert_eq!(1, cpu.get_stack_depth());
    steps(&mut cpu, 1);
    assert_eq!(0x202, cpu.get_pc());
    assert_eq!(0, cpu.get_stack_depth());
}

#[test]
fn test_nested_calls_return_in_reverse_order() {
    let mut cpu = loaded(&[0x2204, 0x1202, 0x2208, 0x00EE, 0x00EE]);
    steps(&mut cpu, 1);
    assert_eq!(0x204, cpu.get_pc());
    steps(&mut cpu, 1);
    assert_eq!(0x208, cpu.get_pc());
    assert_eq!(2, cpu.get_stack_depth());
    steps(&mut cpu, 1);
    assert_eq!(0x206, cpu.get_pc());
    steps(&mut cpu, 1);
    assert_eq!(0x202, cpu.get_pc());
    assert_eq!(0, cpu.get_stack_depth());
}

#[test]
fn test_stack_overflow() {
    let mut cpu = loaded(&[0x2200]);
    steps(&mut cpu, 16);
    assert_eq!(16, cpu.get_stack_depth());
    assert_eq!(
        Err(CpuError { kind: Fault::StackOverflow, addr: 0x200, raw: 0x2200 }),
        cpu.step()
    );
    assert_eq!(16, cpu.get_stack_depth());
    assert_eq!(0x200, cpu.get_pc());
}

#[test]
fn test_end_to_end() {
    let mut cpu = loaded(&[0x6005, 0x6105, 0x8014, 0x00EE]);
    steps(&mut cpu, 3);
    assert_eq!(0x0A, cpu.get_registers()[0]);
    assert_eq!(0, cpu.get_registers()[0xF]);
    assert_eq!(0x206, cpu.get_pc());

    assert_eq!(Ok(Status::Continue), cpu.step());
    assert_eq!(0x208, cpu.get_pc());
    assert_eq!(0, cpu.get_stack_depth());
    assert_eq!(0x0A, cpu.get_registers()[0]);
}

#[test]
fn test_sys_is_ignored() {
    let mut cpu = loaded(&[0x0123, 0x0FFF]);
    steps(&mut cpu, 2);
    assert_eq!(0x204, cpu.get_pc());
    assert_eq!(&[0u8; 16], cpu.get_registers());
    assert_eq!(0, cpu.get_stack_depth());
}

#[test]
fn test_jump() {
    let mut cpu = loaded(&[0x1ABC]);
    steps(&mut cpu, 1);
    assert_eq!(0xABC, cpu.get_pc());
}

#[test]
fn test_jump_by_offset() {
    let mut cpu = loaded(&[0x60FF, 0xBFFF]);
    steps(&mut cpu, 2);
    assert_eq!(0x10FE, cpu.get_pc());
    assert_eq!(Ok(Status::Halt), cpu.step());
    assert_eq!(0x10FE, cpu.get_pc());
}

#[test]
fn test_skips_on_a_byte() {
    let mut cpu = loaded(&[0x6042, 0x3042, 0x0000, 0x3043, 0x4043, 0x0000, 0x4042]);
    steps(&mut cpu, 2);
    assert_eq!(0x206, cpu.get_pc());
    steps(&mut cpu, 1);
    assert_eq!(0x208, cpu.get_pc());
    steps(&mut cpu, 1);
    assert_eq!(0x20C, cpu.get_pc());
    steps(&mut cpu, 1);
    assert_eq!(0x20E, cpu.get_pc());
}

#[test]
fn test_skips_on_a_register() {
    let mut cpu = loaded(&[0x6042, 0x6142, 0x5010, 0x0000, 0x9010, 0x6143, 0x5010, 0x9010]);
    steps(&mut cpu, 3);
    assert_eq!(0x208, cpu.get_pc());
    steps(&mut cpu, 1);
    assert_eq!(0x20A, cpu.get_pc());
    steps(&mut cpu, 2);
    assert_eq!(0x20E, cpu.get_pc());
    steps(&mut cpu, 1);
    assert_eq!(0x212, cpu.get_pc());
}

#[test]
fn test_set_index() {
    let mut cpu = loaded(&[0xAFFF]);
    steps(&mut cpu, 1);
    assert_eq!(0xFFF, cpu.get_index());
}

#[test]
fn test_add_to_index_stays_within_twelve_bits() {
    let mut cpu = loaded(&[0xAFFE, 0x6003, 0x6F07, 0xF01E, 0xA100, 0xF01E]);
    steps(&mut cpu, 4);
    assert_eq!(0x001, cpu.get_index());
    assert_eq!(0x07, cpu.get_registers()[0xF]);
    steps(&mut cpu, 2);
    assert_eq!(0x103, cpu.get_index());
}

#[test]
fn test_font_address() {
    let mut cpu = loaded(&[0x6000, 0xF029, 0x600A, 0xF029, 0x60FF, 0xF029, 0x6013, 0xF029]);
    steps(&mut cpu, 2);
    assert_eq!(0x50, cpu.get_index());
    steps(&mut cpu, 2);
    assert_eq!(0x50 + 50, cpu.get_index());
    steps(&mut cpu, 2);
    assert_eq!(0x50 + 75, cpu.get_index());
    steps(&mut cpu, 2);
    assert_eq!(0x50 + 15, cpu.get_index());
}

#[test]
fn test_bcd() {
    let mut cpu = loaded(&[0x659D, 0xA400, 0xF533]);
    steps(&mut cpu, 3);
    assert_eq!([1, 5, 7], cpu.get_memory()[0x400..0x403]);
    assert_eq!(0x400, cpu.get_index());
}

#[test]
fn test_bcd_of_small_and_large_values() {
    let mut cpu = loaded(&[0x6007, 0xA400, 0xF033, 0x60FF, 0xA410, 0xF033, 0x6000, 0xA420, 0xF033]);
    steps(&mut cpu, 3);
    assert_eq!([0, 0, 7], cpu.get_memory()[0x400..0x403]);
    steps(&mut cpu, 3);
    assert_eq!([2, 5, 5], cpu.get_memory()[0x410..0x413]);
    steps(&mut cpu, 3);
    assert_eq!([0, 0, 0], cpu.get_memory()[0x420..0x423]);
}

#[test]
fn test_bcd_at_the_end_of_memory() {
    let mut cpu = loaded(&[0x607B, 0xAFFD, 0xF033, 0xAFFE, 0xF033]);
    steps(&mut cpu, 3);
    assert_eq!([1, 2, 3], cpu.get_memory()[0xFFD..0x1000]);
    steps(&mut cpu, 1);
    assert_eq!(
        Err(CpuError { kind: Fault::MemoryBoundsViolation, addr: 0x208, raw: 0xF033 }),
        cpu.step()
    );
    assert_eq!([1, 2, 3], cpu.get_memory()[0xFFD..0x1000]);
    assert_eq!(0x208, cpu.get_pc());
}

#[test]
fn test_store_registers() {
    let mut cpu = loaded(&[0x6011, 0x6122, 0x6233, 0x6344, 0xA400, 0xF255]);
    steps(&mut cpu, 6);
    assert_eq!([0x11, 0x22, 0x33, 0x00], cpu.get_memory()[0x400..0x404]);
    assert_eq!(0x400, cpu.get_index());
}

#[test]
fn test_load_registers() {
    let mut cpu = loaded(&[0x63EE, 0xA200, 0xF265]);
    steps(&mut cpu, 3);
    assert_eq!([0x63, 0xEE, 0xA2, 0xEE], cpu.get_registers()[0..4]);
    assert_eq!(0x200, cpu.get_index());
}

#[test]
fn test_store_registers_beyond_memory() {
    let mut cpu = loaded(&[0xAFFE, 0xF155, 0xF255]);
    steps(&mut cpu, 2);
    assert_eq!(
        Err(CpuError { kind: Fault::MemoryBoundsViolation, addr: 0x204, raw: 0xF255 }),
        cpu.step()
    );
    assert_eq!(0x204, cpu.get_pc());
}

#[test]
fn test_load_registers_beyond_memory() {
    let mut cpu = loaded(&[0xAFFF, 0xF065, 0xF165]);
    steps(&mut cpu, 2);
    assert_eq!(
        Err(CpuError { kind: Fault::MemoryBoundsViolation, addr: 0x204, raw: 0xF165 }),
        cpu.step()
    );
    assert_eq!(&[0u8; 16], cpu.get_registers());
}

#[test]
fn test_unknown_opcode_is_a_fault() {
    let mut cpu = loaded(&[0x6005, 0xE1AA]);
    steps(&mut cpu, 1);
    let before = *cpu.get_registers();
    assert_eq!(
        Err(CpuError { kind: Fault::UnknownOpcode, addr: 0x202, raw: 0xE1AA }),
        cpu.step()
    );
    assert_eq!(0x202, cpu.get_pc());
    assert_eq!(&before, cpu.get_registers());
    assert_eq!(
        Err(CpuError { kind: Fault::UnknownOpcode, addr: 0x202, raw: 0xE1AA }),
        cpu.step()
    );
}

#[test]
fn test_disassembler_and_processor_agree_on_every_word() {
    for raw in 0..=0xFFFFu16 {
        let mut cpu = loaded(&[raw]);
        let unknown = matches!(
            cpu.step_with(0),
            Err(CpuError { kind: Fault::UnknownOpcode, .. })
        );
        let mnemonic = OpCode::new(raw).decode();
        assert_eq!(mnemonic.starts_with("UNKNOWN"), unknown, "word {raw:04X}");
    }
}

#[test]
fn test_halt_at_the_end_of_memory() {
    let mut cpu = loaded(&[0x1FFE]);
    steps(&mut cpu, 1);
    assert_eq!(0xFFE, cpu.get_pc());
    steps(&mut cpu, 1);
    assert_eq!(0x1000, cpu.get_pc());
    assert_eq!(Ok(Status::Halt), cpu.step());
    assert_eq!(0x1000, cpu.get_pc());
    assert_eq!(Ok(Status::Halt), cpu.step());
}

#[test]
fn test_halt_on_an_odd_last_address() {
    let mut cpu = loaded(&[0x1FFF]);
    steps(&mut cpu, 1);
    assert_eq!(Ok(Status::Halt), cpu.step());
    assert_eq!(0xFFF, cpu.get_pc());
}

#[test]
fn test_run_to_halt() {
    let mut cpu = loaded(&[0x6005, 0x1FFE]);
    assert_eq!(Ok(Status::Halt), cpu.run(10));
    assert_eq!(0x1000, cpu.get_pc());
    assert_eq!(5, cpu.get_registers()[0]);
}

#[test]
fn test_run_out_of_steps() {
    let mut cpu = loaded(&[0x7001, 0x1200]);
    assert_eq!(Ok(Status::Continue), cpu.run(7));
    assert_eq!(4, cpu.get_registers()[0]);
    assert_eq!(0x202, cpu.get_pc());
    assert_eq!(Ok(Status::Continue), cpu.run(0));
    assert_eq!(0x202, cpu.get_pc());
}

#[test]
fn test_run_stops_at_a_fault() {
    let mut cpu = loaded(&[0x6005, 0x5011, 0x6006]);
    assert_eq!(
        Err(CpuError { kind: Fault::UnknownOpcode, addr: 0x202, raw: 0x5011 }),
        cpu.run(10)
    );
    assert_eq!(5, cpu.get_registers()[0]);
    assert_eq!(0x202, cpu.get_pc());
}

#[test]
fn test_run_through_empty_memory_halts() {
    let mut cpu = Cpu::new();
    assert_eq!(Ok(Status::Halt), cpu.run(4096));
    assert_eq!(0x1000, cpu.get_pc());
}

#[test]
fn test_timers() {
    let mut cpu = loaded(&[0x6003, 0xF015, 0x6102, 0xF118, 0xF207]);
    steps(&mut cpu, 4);
    assert_eq!(3, cpu.get_delay_timer());
    assert_eq!(2, cpu.get_sound_timer());
    cpu.tick_timers();
    assert_eq!(2, cpu.get_delay_timer());
    assert_eq!(1, cpu.get_sound_timer());
    steps(&mut cpu, 1);
    assert_eq!(2, cpu.get_registers()[2]);
    cpu.tick_timers();
    assert_eq!(1, cpu.get_delay_timer());
    assert_eq!(0, cpu.get_sound_timer());
    cpu.tick_timers();
    cpu.tick_timers();
    assert_eq!(0, cpu.get_delay_timer());
    assert_eq!(0, cpu.get_sound_timer());
}

#[test]
fn test_steps_leave_the_timers_alone() {
    let mut cpu = loaded(&[0x60FF, 0xF015, 0xF018, 0x7001, 0x7001, 0x7001]);
    steps(&mut cpu, 6);
    assert_eq!(0xFF, cpu.get_delay_timer());
    assert_eq!(0xFF, cpu.get_sound_timer());
}

#[test]
fn test_ticks_leave_the_program_alone() {
    let mut cpu = loaded(&[0x6005]);
    steps(&mut cpu, 1);
    for _ in 0..300 {
        cpu.tick_timers();
    }
    assert_eq!(0x202, cpu.get_pc());
    assert_eq!(5, cpu.get_registers()[0]);
}

#[test]
fn test_skip_if_key_pressed() {
    let mut cpu = loaded(&[0x6007, 0xE09E, 0xE09E, 0x0000, 0xE0A1, 0xE0A1]);
    steps(&mut cpu, 2);
    assert_eq!(0x204, cpu.get_pc());
    cpu.set_key(7, true);
    steps(&mut cpu, 1);
    assert_eq!(0x208, cpu.get_pc());
    steps(&mut cpu, 1);
    assert_eq!(0x20A, cpu.get_pc());
    cpu.set_key(7, false);
    steps(&mut cpu, 1);
    assert_eq!(0x20E, cpu.get_pc());
}

#[test]
fn test_key_numbers_above_fifteen_are_keys_that_are_up() {
    let mut cpu = loaded(&[0x6010, 0xE09E, 0xE0A1]);
    for key in 0..16 {
        cpu.set_key(key, true);
    }
    steps(&mut cpu, 2);
    assert_eq!(0x204, cpu.get_pc());
    steps(&mut cpu, 1);
    assert_eq!(0x208, cpu.get_pc());
}

#[test]
fn test_set_key_ignores_an_index_above_fifteen() {
    let mut cpu = loaded(&[0xF00A]);
    cpu.set_key(16, true);
    cpu.set_key(usize::MAX, true);
    steps(&mut cpu, 1);
    assert_eq!(0x200, cpu.get_pc());
}

#[test]
fn test_wait_for_key() {
    let mut cpu = loaded(&[0xF30A, 0x6001]);
    steps(&mut cpu, 3);
    assert_eq!(0x200, cpu.get_pc());
    assert_eq!(0, cpu.get_registers()[3]);

    cpu.set_key(0xB, true);
    cpu.set_key(0xE, true);
    steps(&mut cpu, 1);
    assert_eq!(0x202, cpu.get_pc());
    assert_eq!(0xB, cpu.get_registers()[3]);
}

#[test]
fn test_wait_for_key_wants_a_key_to_go_down() {
    let mut cpu = loaded(&[0xF30A, 0xF40A]);
    cpu.set_key(0x5, true);
    steps(&mut cpu, 3);
    assert_eq!(0x200, cpu.get_pc());
    assert_eq!(0, cpu.get_registers()[3]);

    cpu.set_key(0x5, false);
    steps(&mut cpu, 1);
    assert_eq!(0x200, cpu.get_pc());

    cpu.set_key(0x5, true);
    steps(&mut cpu, 1);
    assert_eq!(0x202, cpu.get_pc());
    assert_eq!(0x5, cpu.get_registers()[3]);

    // The key is still down: the second wait does not take it.
    steps(&mut cpu, 2);
    assert_eq!(0x202, cpu.get_pc());
    assert_eq!(0, cpu.get_registers()[4]);
    cpu.set_key(0x5, false);
    cpu.set_key(0x0, true);
    steps(&mut cpu, 1);
    assert_eq!(0x202, cpu.get_pc());
    cpu.set_key(0x0, false);
    steps(&mut cpu, 1);
    cpu.set_key(0xF, true);
    steps(&mut cpu, 1);
    assert_eq!(0x204, cpu.get_pc());
    assert_eq!(0xF, cpu.get_registers()[4]);
}

#[test]
fn test_load_program_starts_a_wait_anew() {
    let mut cpu = loaded(&[0xF30A]);
    steps(&mut cpu, 1);
    assert_eq!(Ok(()), cpu.load_program(&program(&[0xF30A])));
    cpu.set_key(0x1, true);
    steps(&mut cpu, 2);
    assert_eq!(0x200, cpu.get_pc());
}

#[test]
fn test_timers_run_during_the_wait_for_a_key() {
    let mut cpu = loaded(&[0x6003, 0xF015, 0xF30A]);
    steps(&mut cpu, 3);
    cpu.tick_timers();
    steps(&mut cpu, 1);
    cpu.tick_timers();
    assert_eq!(1, cpu.get_delay_timer());
    assert_eq!(0x204, cpu.get_pc());
}

#[test]
fn test_draw_a_glyph() {
    let mut cpu = loaded(&[0x6001, 0xF029, 0x6103, 0x6202, 0xD125]);
    steps(&mut cpu, 5);
    let display = cpu.get_display();
    // The glyph for 1: 0x20, 0x60, 0x20, 0x20, 0x70, with its corner at (3, 2).
    let expected = [(5, 2), (4, 3), (5, 3), (5, 4), (5, 5), (4, 6), (5, 6), (6, 6)];
    for y in 0..32 {
        for x in 0..64 {
            assert_eq!(expected.contains(&(x, y)), display[y * 64 + x], "pixel ({x}, {y})");
        }
    }
    assert_eq!(0, cpu.get_registers()[0xF]);
}

#[test]
fn test_draw_twice_restores_the_display() {
    let mut cpu = loaded(&[0x6008, 0xF029, 0x610A, 0x6205, 0xD125, 0xD125]);
    steps(&mut cpu, 4);
    let before = *cpu.get_display();
    steps(&mut cpu, 1);
    assert_eq!(0, cpu.get_registers()[0xF]);
    assert_eq!(16, lit(&cpu));
    steps(&mut cpu, 1);
    assert_eq!(1, cpu.get_registers()[0xF]);
    assert_eq!(&before, cpu.get_display());
    assert_eq!(0, lit(&cpu));
}

#[test]
fn test_draw_twice_over_a_lit_background() {
    // A full block of 8 by 4, then twice a glyph that covers part of it.
    let mut cpu = loaded(&[
        0x60FF, 0x61FF, 0x62FF, 0x63FF, 0xA400, 0xF355, 0x6000, 0x6100, 0xD014, 0x6208, 0xF229,
        0xD015, 0xD015,
    ]);
    steps(&mut cpu, 9);
    assert_eq!(32, lit(&cpu));
    let before = *cpu.get_display();
    steps(&mut cpu, 3);
    // The glyph for 8 has 16 set bits: 12 in its first four rows, over the
    // block, and 4 in its fifth row, below the block.
    assert_eq!(1, cpu.get_registers()[0xF]);
    assert_eq!(32 - 12 + 4, lit(&cpu));
    steps(&mut cpu, 1);
    assert_eq!(1, cpu.get_registers()[0xF]);
    assert_eq!(&before, cpu.get_display());
}

#[test]
fn test_draw_twice_where_the_first_lights_nothing() {
    // A full block of 8 by 1, drawn over itself: the second drawing turns
    // off what the first one left, which is nothing.
    let mut cpu = loaded(&[0x60FF, 0xA400, 0xF055, 0x6000, 0xD001, 0xD001, 0xD001]);
    steps(&mut cpu, 5);
    assert_eq!(8, lit(&cpu));
    steps(&mut cpu, 1);
    assert_eq!(0, lit(&cpu));
    assert_eq!(1, cpu.get_registers()[0xF]);
    steps(&mut cpu, 1);
    assert_eq!(8, lit(&cpu));
    assert_eq!(0, cpu.get_registers()[0xF]);
}

#[test]
fn test_draw_wraps_the_corner() {
    let mut cpu = loaded(&[0x6080, 0xA400, 0xF055, 0x6142, 0x6225, 0xD121]);
    steps(&mut cpu, 6);
    // 0x42 mod 64 is 2, 0x25 mod 32 is 5.
    let display = cpu.get_display();
    assert!(display[5 * 64 + 2]);
    assert_eq!(1, lit(&cpu));
}

#[test]
fn test_draw_clips_at_the_right_edge() {
    let mut cpu = loaded(&[0x60FF, 0xA400, 0xF055, 0x613C, 0x6200, 0xD121]);
    steps(&mut cpu, 6);
    let display = cpu.get_display();
    for x in 60..64 {
        assert!(display[x]);
    }
    assert_eq!(4, lit(&cpu));
}

#[test]
fn test_draw_clips_at_the_bottom_edge() {
    let mut cpu = loaded(&[0x6080, 0x6180, 0x6280, 0xA400, 0xF255, 0x6305, 0x641E, 0xD343]);
    steps(&mut cpu, 8);
    let display = cpu.get_display();
    assert!(display[30 * 64 + 5]);
    assert!(display[31 * 64 + 5]);
    assert_eq!(2, lit(&cpu));
}

#[test]
fn test_draw_of_no_rows() {
    let mut cpu = loaded(&[0x6F01, 0xAFFF, 0xD000]);
    steps(&mut cpu, 3);
    assert_eq!(0, lit(&cpu));
    assert_eq!(0, cpu.get_registers()[0xF]);
}

#[test]
fn test_draw_beyond_memory() {
    let mut cpu = loaded(&[0xAFFE, 0xD002, 0xD003]);
    steps(&mut cpu, 2);
    assert_eq!(
        Err(CpuError { kind: Fault::MemoryBoundsViolation, addr: 0x204, raw: 0xD003 }),
        cpu.step()
    );
    assert_eq!(0, lit(&cpu));
    assert_eq!(0x204, cpu.get_pc());
}

#[test]
fn test_clear_display() {
    let mut cpu = loaded(&[0x6008, 0xF029, 0xD005, 0x00E0]);
    steps(&mut cpu, 3);
    assert_eq!(16, lit(&cpu));
    steps(&mut cpu, 1);
    assert_eq!(0, lit(&cpu));
    assert_eq!(0x208, cpu.get_pc());
}

#[test]
fn test_display_persists_across_steps() {
    let mut cpu = loaded(&[0x6008, 0xF029, 0xD005, 0x6001, 0x7001, 0x1208]);
    steps(&mut cpu, 12);
    assert_eq!(16, lit(&cpu));
}

#[test]
fn test_rnd_with_the_byte_given() {
    let mut cpu = loaded(&[0xC00F, 0xC1F0, 0xC200]);
    assert_eq!(Ok(Status::Continue), cpu.step_with(0xAB));
    assert_eq!(0x0B, cpu.get_registers()[0]);
    assert_eq!(Ok(Status::Continue), cpu.step_with(0xAB));
    assert_eq!(0xA0, cpu.get_registers()[1]);
    assert_eq!(Ok(Status::Continue), cpu.step_with(0xAB));
    assert_eq!(0x00, cpu.get_registers()[2]);
}

#[test]
fn test_rnd_draws_below_255_and_masks() {
    let mut cpu = loaded(&[0xC0FF, 0xC10F, 0x1200]);
    for _ in 0..2000 {
        steps(&mut cpu, 3);
        assert!(cpu.get_registers()[0] < 255);
        assert!(cpu.get_registers()[1] < 16);
    }
}

#[test]
fn test_rnd_draws_more_than_one_value() {
    let mut cpu = loaded(&[0xC0FF, 0x1200]);
    steps(&mut cpu, 1);
    let first = cpu.get_registers()[0];
    let mut differs = false;
    for _ in 0..2000 {
        steps(&mut cpu, 2);
        if cpu.get_registers()[0] != first {
            differs = true;
        }
    }
    assert!(differs);
}

#[test]
fn test_step_with_ignores_the_byte_for_other_instructions() {
    let mut first = loaded(&[0x6005, 0x7003, 0x8004]);
    let mut second = loaded(&[0x6005, 0x7003, 0x8004]);
    for _ in 0..3 {
        assert_eq!(first.step_with(0x00), second.step_with(0xFE));
    }
    assert_eq!(first.get_registers(), second.get_registers());
    assert_eq!(first.get_pc(), second.get_pc());
}
