use chip8_rust::cpu::Cpu;
use chip8_rust::cpu::CpuIoEvents;
use chip8_rust::semantics::CycleEffect;
use chip8_rust::semantics::ExecError;
use chip8_rust::semantics::Quirks;
use chip8_rust::timers::Timer;
use std::sync::Arc;
use std::sync::Mutex;

fn boot_with(program: Vec<u8>, quirks: Quirks) -> (Cpu, Arc<Mutex<u8>>, Arc<Mutex<u8>>) {
    let delay = Timer::new(false);
    let sound = Timer::new(true);
    let delay_cell = delay.get_value_arc();
    let sound_cell = sound.get_value_arc();
    let cpu = Cpu::new(program, quirks, delay.get_value_arc(), sound.get_value_arc()).unwrap();
    (cpu, delay_cell, sound_cell)
}

fn boot(program: Vec<u8>) -> Cpu {
    boot_with(program, Quirks::default()).0
}

fn run(cpu: &mut Cpu, cycles: usize) {
    for _ in 0..cycles {
        cpu.step().unwrap();
    }
}

const QUIET: CycleEffect = CycleEffect {
    redraw: false,
    set_delay: None,
    set_sound: None,
};

#[test]
fn jump_overwrites_pc() {
    let mut cpu = boot(vec![0x13, 0x45]);
    assert_eq!(cpu.exec_cycle(0, 0), Ok(QUIET));
    assert_eq!(cpu.pc_value(), 0x345);
}

#[test]
fn skip_if_equal_immediate() {
    let mut cpu = boot(vec![0x30, 0x00]);
    run(&mut cpu, 1);
    assert_eq!(cpu.pc_value(), 0x204);
    let mut cpu = boot(vec![0x30, 0x01]);
    run(&mut cpu, 1);
    assert_eq!(cpu.pc_value(), 0x202);
}

#[test]
fn skip_if_not_equal_immediate() {
    let mut cpu = boot(vec![0x40, 0x01]);
    run(&mut cpu, 1);
    assert_eq!(cpu.pc_value(), 0x204);
    let mut cpu = boot(vec![0x40, 0x00]);
    run(&mut cpu, 1);
    assert_eq!(cpu.pc_value(), 0x202);
}

#[test]
fn skip_if_registers_equal_and_not() {
    // V1 = 7, V2 = 7: 5120 skips
    let mut cpu = boot(vec![0x61, 0x07, 0x62, 0x07, 0x51, 0x20]);
    run(&mut cpu, 3);
    assert_eq!(cpu.pc_value(), 0x208);
    // V1 = 7, V2 = 8: 9120 skips
    let mut cpu = boot(vec![0x61, 0x07, 0x62, 0x08, 0x91, 0x20]);
    run(&mut cpu, 3);
    assert_eq!(cpu.pc_value(), 0x208);
}

#[test]
fn strict_low_nibble_on_register_skips() {
    let mut cpu = boot(vec![0x51, 0x21]);
    assert_eq!(
        cpu.exec_cycle(0, 0),
        Err(ExecError::UnknownOpcode {
            instruction: 0x5121,
            pc: 0x200
        })
    );
    let mut cpu = boot(vec![0x91, 0x22]);
    assert_eq!(
        cpu.exec_cycle(0, 0),
        Err(ExecError::UnknownOpcode {
            instruction: 0x9122,
            pc: 0x200
        })
    );
}

#[test]
fn set_immediate() {
    let mut cpu = boot(vec![0x6A, 0x5C]);
    run(&mut cpu, 1);
    assert_eq!(cpu.register(0xA), 0x5C);
    assert_eq!(cpu.pc_value(), 0x202);
}

#[test]
fn add_immediate_wraps_without_flag() {
    let mut cpu = boot(vec![0x61, 0xFF, 0x71, 0x02]);
    run(&mut cpu, 2);
    assert_eq!(cpu.register(1), 0x01);
    assert_eq!(cpu.register(0xF), 0x00);
}

#[test]
fn alu_assign_or_and_xor() {
    let mut cpu = boot(vec![0x61, 0x0C, 0x62, 0x0A, 0x81, 0x20]);
    run(&mut cpu, 3);
    assert_eq!(cpu.register(1), 0x0A);

    let mut cpu = boot(vec![0x61, 0x0C, 0x62, 0x0A, 0x81, 0x21]);
    run(&mut cpu, 3);
    assert_eq!(cpu.register(1), 0x0E);

    let mut cpu = boot(vec![0x61, 0x0C, 0x62, 0x0A, 0x81, 0x22]);
    run(&mut cpu, 3);
    assert_eq!(cpu.register(1), 0x08);

    let mut cpu = boot(vec![0x61, 0x0C, 0x62, 0x0A, 0x81, 0x23]);
    run(&mut cpu, 3);
    assert_eq!(cpu.register(1), 0x06);
}

#[test]
fn add_registers_sets_carry_iff_sum_exceeds_byte() {
    let mut cpu = boot(vec![0x61, 0xFF, 0x62, 0x01, 0x81, 0x24]);
    run(&mut cpu, 3);
    assert_eq!(cpu.register(1), 0x00);
    assert_eq!(cpu.register(0xF), 1);

    let mut cpu = boot(vec![0x61, 0x01, 0x62, 0x01, 0x81, 0x24]);
    run(&mut cpu, 3);
    assert_eq!(cpu.register(1), 0x02);
    assert_eq!(cpu.register(0xF), 0);
}

#[test]
fn sub_registers_sets_flag_iff_no_borrow() {
    let mut cpu = boot(vec![0x61, 0x05, 0x62, 0x03, 0x81, 0x25]);
    run(&mut cpu, 3);
    assert_eq!(cpu.register(1), 0x02);
    assert_eq!(cpu.register(0xF), 1);

    // equal operands: no borrow, flag stays 1
    let mut cpu = boot(vec![0x61, 0x05, 0x62, 0x05, 0x81, 0x25]);
    run(&mut cpu, 3);
    assert_eq!(cpu.register(1), 0x00);
    assert_eq!(cpu.register(0xF), 1);

    // borrow: result wraps modulo 256
    let mut cpu = boot(vec![0x61, 0x03, 0x62, 0x05, 0x81, 0x25]);
    run(&mut cpu, 3);
    assert_eq!(cpu.register(1), 0xFE);
    assert_eq!(cpu.register(0xF), 0);
}

#[test]
fn sub_reversed_sets_flag_iff_no_borrow() {
    let mut cpu = boot(vec![0x61, 0x03, 0x62, 0x05, 0x81, 0x27]);
    run(&mut cpu, 3);
    assert_eq!(cpu.register(1), 0x02);
    assert_eq!(cpu.register(0xF), 1);

    let mut cpu = boot(vec![0x61, 0x05, 0x62, 0x03, 0x81, 0x27]);
    run(&mut cpu, 3);
    assert_eq!(cpu.register(1), 0xFE);
    assert_eq!(cpu.register(0xF), 0);
}

#[test]
fn shift_right_in_place_by_default() {
    let mut cpu = boot(vec![0x61, 0x05, 0x81, 0x06]);
    run(&mut cpu, 2);
    assert_eq!(cpu.register(1), 0x02);
    assert_eq!(cpu.register(0xF), 1);
}

#[test]
fn shift_reads_second_register_under_quirk() {
    let quirks = Quirks {
        shift_reads_vy: true,
        jump_uses_vx: false,
    };
    let (mut cpu, _, _) = boot_with(vec![0x61, 0x05, 0x62, 0x06, 0x81, 0x26], quirks);
    run(&mut cpu, 3);
    assert_eq!(cpu.register(1), 0x03);
    assert_eq!(cpu.register(0xF), 0);
}

#[test]
fn shift_left_in_place_by_default() {
    let mut cpu = boot(vec![0x61, 0x81, 0x81, 0x0E]);
    run(&mut cpu, 2);
    assert_eq!(cpu.register(1), 0x02);
    assert_eq!(cpu.register(0xF), 1);
}

#[test]
fn unknown_alu_nibble_is_fatal() {
    let mut cpu = boot(vec![0x81, 0x28]);
    assert_eq!(
        cpu.exec_cycle(0, 0),
        Err(ExecError::UnknownOpcode {
            instruction: 0x8128,
            pc: 0x200
        })
    );
}

#[test]
fn set_index() {
    let mut cpu = boot(vec![0xA1, 0x23]);
    run(&mut cpu, 1);
    assert_eq!(cpu.index_value(), 0x123);
}

#[test]
fn jump_with_offset_uses_first_register_by_default() {
    let mut cpu = boot(vec![0x60, 0x04, 0xB3, 0x00]);
    run(&mut cpu, 2);
    assert_eq!(cpu.pc_value(), 0x304);
}

#[test]
fn jump_with_offset_uses_selected_register_under_quirk() {
    let quirks = Quirks {
        shift_reads_vy: false,
        jump_uses_vx: true,
    };
    let (mut cpu, _, _) = boot_with(vec![0x63, 0x07, 0xB3, 0x00], quirks);
    run(&mut cpu, 2);
    assert_eq!(cpu.pc_value(), 0x307);
}

#[test]
fn random_is_masked_by_immediate() {
    let mut cpu = boot(vec![0xC1, 0x0F]);
    assert_eq!(cpu.exec_cycle(0xAB, 0), Ok(QUIET));
    assert_eq!(cpu.register(1), 0x0B);

    // through the real random source the mask still holds
    let mut cpu = boot(vec![0xC2, 0x0F]);
    run(&mut cpu, 1);
    assert_eq!(cpu.register(2) & 0xF0, 0);
}

#[test]
fn draw_renders_glyph_rows() {
    let mut cpu = boot(vec![0xA0, 0x50, 0xD0, 0x05]);
    run(&mut cpu, 1);
    assert_eq!(cpu.step(), Ok(true));
    let rows = cpu.screen_rows();
    assert_eq!(rows[0], 0xF0u64 << 56);
    assert_eq!(rows[1], 0x90u64 << 56);
    assert_eq!(rows[2], 0x90u64 << 56);
    assert_eq!(rows[3], 0x90u64 << 56);
    assert_eq!(rows[4], 0xF0u64 << 56);
    assert_eq!(rows[5], 0);
    assert_eq!(cpu.register(0xF), 0);
}

#[test]
fn draw_twice_restores_pixels_and_reports_collision() {
    let mut cpu = boot(vec![0xA0, 0x50, 0xD0, 0x05, 0xD0, 0x05]);
    run(&mut cpu, 2);
    let first: Vec<u64> = cpu.screen_rows();
    assert!(first.iter().any(|r| *r != 0));
    run(&mut cpu, 1);
    let rows = cpu.screen_rows();
    assert!(rows.iter().all(|r| *r == 0));
    assert_eq!(cpu.register(0xF), 1);
}

#[test]
fn draw_clips_rows_past_bottom_edge() {
    let mut cpu = boot(vec![0x61, 0x1E, 0xA0, 0x50, 0xD0, 0x15]);
    run(&mut cpu, 3);
    let rows = cpu.screen_rows();
    assert_eq!(rows[30], 0xF0u64 << 56);
    assert_eq!(rows[31], 0x90u64 << 56);
    assert_eq!(rows[29], 0);
    assert_eq!(rows[0], 0);
}

#[test]
fn draw_wraps_start_column() {
    let mut cpu = boot(vec![0x60, 0x42, 0xA0, 0x50, 0xD0, 0x11]);
    run(&mut cpu, 3);
    let rows = cpu.screen_rows();
    // V0 = 0x42 = 66 wraps to column 2
    assert_eq!(rows[0], 0xF0u64 << 54);
}

#[test]
fn draw_past_memory_end_is_fatal() {
    let mut cpu = boot(vec![0xAF, 0xFF, 0xD0, 0x02]);
    run(&mut cpu, 1);
    assert_eq!(
        cpu.exec_cycle(0, 0),
        Err(ExecError::MemoryRangeOutOfBounds {
            instruction: 0xD002,
            pc: 0x202
        })
    );
}

#[test]
fn clear_screen_darkens_everything() {
    let mut cpu = boot(vec![0xA0, 0x50, 0xD0, 0x05, 0x00, 0xE0]);
    run(&mut cpu, 2);
    assert_eq!(cpu.step(), Ok(true));
    assert!(cpu.screen_rows().iter().all(|r| *r == 0));
}

#[test]
fn call_then_return_resumes_after_call() {
    let mut program = vec![0x22, 0x08];
    program.resize(8, 0);
    program.extend_from_slice(&[0x00, 0xEE]);
    let mut cpu = boot(program);
    run(&mut cpu, 1);
    assert_eq!(cpu.pc_value(), 0x208);
    assert_eq!(cpu.stack_len(), 1);
    run(&mut cpu, 1);
    assert_eq!(cpu.pc_value(), 0x202);
    assert_eq!(cpu.stack_len(), 0);
}

#[test]
fn seventeenth_nested_call_is_fatal_overflow() {
    // 0x2200 at 0x200 calls itself forever
    let mut cpu = boot(vec![0x22, 0x00]);
    for i in 0..16 {
        assert_eq!(cpu.step(), Ok(false));
        assert_eq!(cpu.stack_len(), i + 1);
    }
    assert_eq!(
        cpu.step(),
        Err(ExecError::StackOverflow {
            instruction: 0x2200,
            pc: 0x200
        })
    );
}

#[test]
fn return_on_empty_stack_is_fatal_underflow_and_distinct() {
    let mut cpu = boot(vec![0x00, 0xEE]);
    let underflow = cpu.step().unwrap_err();
    assert_eq!(
        underflow,
        ExecError::StackUnderflow {
            instruction: 0x00EE,
            pc: 0x200
        }
    );
    assert_ne!(
        underflow,
        ExecError::StackOverflow {
            instruction: 0x00EE,
            pc: 0x200
        }
    );
}

#[test]
fn machine_routine_call_is_fatal() {
    let mut cpu = boot(vec![0x01, 0x23]);
    assert_eq!(
        cpu.step(),
        Err(ExecError::UnsupportedMachineRoutine {
            instruction: 0x0123,
            pc: 0x200
        })
    );
}

#[test]
fn unknown_key_and_timer_opcodes_are_fatal() {
    let mut cpu = boot(vec![0xE1, 0x55]);
    assert_eq!(
        cpu.exec_cycle(0, 0),
        Err(ExecError::UnknownOpcode {
            instruction: 0xE155,
            pc: 0x200
        })
    );
    let mut cpu = boot(vec![0xF1, 0xFF]);
    assert_eq!(
        cpu.exec_cycle(0, 0),
        Err(ExecError::UnknownOpcode {
            instruction: 0xF1FF,
            pc: 0x200
        })
    );
}

#[test]
fn runaway_program_counter_is_fatal() {
    let mut cpu = boot(vec![0x1F, 0xFF]);
    run(&mut cpu, 1);
    assert_eq!(cpu.pc_value(), 0xFFF);
    assert_eq!(
        cpu.step(),
        Err(ExecError::ProgramCounterOutOfRange { pc: 0xFFF })
    );
}

#[test]
fn keypad_skip_if_held() {
    let mut cpu = boot(vec![0x65, 0x05, 0xE5, 0x9E]);
    cpu.process_cpu_io_event(&CpuIoEvents::KeyPressed(5));
    run(&mut cpu, 2);
    assert_eq!(cpu.pc_value(), 0x206);

    let mut cpu = boot(vec![0x65, 0x05, 0xE5, 0x9E]);
    run(&mut cpu, 2);
    assert_eq!(cpu.pc_value(), 0x204);
}

#[test]
fn keypad_skip_if_not_held() {
    let mut cpu = boot(vec![0x65, 0x05, 0xE5, 0xA1]);
    run(&mut cpu, 2);
    assert_eq!(cpu.pc_value(), 0x206);

    let mut cpu = boot(vec![0x65, 0x05, 0xE5, 0xA1]);
    cpu.process_cpu_io_event(&CpuIoEvents::KeyPressed(5));
    run(&mut cpu, 2);
    assert_eq!(cpu.pc_value(), 0x204);
}

#[test]
fn released_key_no_longer_skips() {
    let mut cpu = boot(vec![0x65, 0x05, 0xE5, 0x9E]);
    cpu.process_cpu_io_event(&CpuIoEvents::KeyPressed(5));
    cpu.process_cpu_io_event(&CpuIoEvents::KeyReleased(5));
    run(&mut cpu, 2);
    assert_eq!(cpu.pc_value(), 0x204);
}

#[test]
fn delay_timer_read_as_sampled() {
    let mut cpu = boot(vec![0xF5, 0x07]);
    assert_eq!(cpu.exec_cycle(0, 99), Ok(QUIET));
    assert_eq!(cpu.register(5), 99);
}

#[test]
fn delay_timer_read_through_engine() {
    let (mut cpu, delay_cell, _) = boot_with(vec![0xF5, 0x07], Quirks::default());
    *delay_cell.lock().unwrap() = 42;
    run(&mut cpu, 1);
    assert_eq!(cpu.register(5), 42);
}

#[test]
fn delay_timer_write_through_engine() {
    let (mut cpu, delay_cell, _) = boot_with(vec![0x65, 0x2A, 0xF5, 0x15], Quirks::default());
    run(&mut cpu, 2);
    assert_eq!(*delay_cell.lock().unwrap(), 42);
}

#[test]
fn sound_timer_write_through_engine() {
    let (mut cpu, _, sound_cell) = boot_with(vec![0x66, 0x07, 0xF6, 0x18], Quirks::default());
    run(&mut cpu, 2);
    assert_eq!(*sound_cell.lock().unwrap(), 7);
}

#[test]
fn timer_writes_surface_as_cycle_effects() {
    let mut cpu = boot(vec![0x65, 0x2A, 0xF5, 0x15, 0xF5, 0x18]);
    assert_eq!(cpu.exec_cycle(0, 0), Ok(QUIET));
    assert_eq!(
        cpu.exec_cycle(0, 0),
        Ok(CycleEffect {
            redraw: false,
            set_delay: Some(42),
            set_sound: None
        })
    );
    assert_eq!(
        cpu.exec_cycle(0, 0),
        Ok(CycleEffect {
            redraw: false,
            set_delay: None,
            set_sound: Some(42)
        })
    );
}

#[test]
fn wait_for_key_spins_then_stores() {
    let mut cpu = boot(vec![0xF5, 0x0A]);
    assert_eq!(cpu.step(), Ok(false));
    assert_eq!(cpu.pc_value(), 0x200);
    assert_eq!(cpu.step(), Ok(false));
    assert_eq!(cpu.pc_value(), 0x200);
    cpu.process_cpu_io_event(&CpuIoEvents::KeyPressed(7));
    assert_eq!(cpu.step(), Ok(false));
    assert_eq!(cpu.pc_value(), 0x202);
    assert_eq!(cpu.register(5), 7);
}

#[test]
fn wait_for_key_stores_lowest_held() {
    let mut cpu = boot(vec![0xF5, 0x0A]);
    cpu.process_cpu_io_event(&CpuIoEvents::KeyPressed(9));
    cpu.process_cpu_io_event(&CpuIoEvents::KeyPressed(3));
    run(&mut cpu, 1);
    assert_eq!(cpu.register(5), 3);
}

#[test]
fn add_to_index() {
    let mut cpu = boot(vec![0xA1, 0x00, 0x65, 0x07, 0xF5, 0x1E]);
    run(&mut cpu, 3);
    assert_eq!(cpu.index_value(), 0x107);
}

#[test]
fn font_character_lookup() {
    let mut cpu = boot(vec![0x61, 0x0C, 0xF1, 0x29]);
    run(&mut cpu, 2);
    assert_eq!(cpu.index_value(), 0x50 + 5 * 0xC);
}

#[test]
fn binary_coded_decimal_decomposition() {
    let mut cpu = boot(vec![0x61, 0xEA, 0xA3, 0x00, 0xF1, 0x33]);
    run(&mut cpu, 3);
    let mem = cpu.memory_snapshot();
    assert_eq!(&mem[0x300..0x303], &[2, 3, 4]);
}

#[test]
fn register_dump_and_load_round_trip() {
    let mut cpu = boot(vec![
        0x60, 0x11, 0x61, 0x22, 0x62, 0x33, // V0..V2
        0xA3, 0x00, 0xF2, 0x55, // dump V0..=V2 at 0x300
        0x60, 0x00, 0x61, 0x00, 0x62, 0x00, // clear them
        0xF2, 0x65, // load them back
    ]);
    run(&mut cpu, 5);
    let mem = cpu.memory_snapshot();
    assert_eq!(&mem[0x300..0x303], &[0x11, 0x22, 0x33]);
    assert_eq!(mem[0x303], 0);
    run(&mut cpu, 3);
    assert_eq!(cpu.register(0), 0);
    run(&mut cpu, 1);
    assert_eq!(cpu.register(0), 0x11);
    assert_eq!(cpu.register(1), 0x22);
    assert_eq!(cpu.register(2), 0x33);
    assert_eq!(cpu.register(3), 0);
}

#[test]
fn memory_family_bounds_checks_are_fatal() {
    let mut cpu = boot(vec![0xAF, 0xFE, 0xF1, 0x33]);
    run(&mut cpu, 1);
    assert_eq!(
        cpu.exec_cycle(0, 0),
        Err(ExecError::MemoryRangeOutOfBounds {
            instruction: 0xF133,
            pc: 0x202
        })
    );

    let mut cpu = boot(vec![0xAF, 0xFF, 0xF1, 0x55]);
    run(&mut cpu, 1);
    assert_eq!(
        cpu.exec_cycle(0, 0),
        Err(ExecError::MemoryRangeOutOfBounds {
            instruction: 0xF155,
            pc: 0x202
        })
    );
}
