use chip8::connector::Connector;
use chip8::cpu::{Cpu, Quirks, StepStatus};
use chip8::instruction::Chip8Error;

fn load(program: &[u8]) -> (Cpu, Connector) {
    let mut connector = Connector::new();
    for (k, b) in program.iter().enumerate() {
        connector.write_byte_ram(0x200 + k as u16, *b);
    }
    (Cpu::new(), connector)
}

fn run(cpu: &mut Cpu, connector: &mut Connector, steps: usize) {
    for _ in 0..steps {
        assert_eq!(cpu.step(connector, 0), Ok(StepStatus::Executed));
    }
}

#[test]
fn write_then_read_every_register() {
    let mut cpu = Cpu::new();
    for x in 0u8..16 {
        for v in 0u8..=255 {
            cpu.write_reg_vx(x, v);
            assert_eq!(cpu.read_reg_vx(x), v);
        }
    }
}

#[test]
fn write_leaves_other_registers() {
    let mut cpu = Cpu::new();
    cpu.write_reg_vx(3, 0x42);
    for x in 0u8..16 {
        if x != 3 {
            assert_eq!(cpu.read_reg_vx(x), 0);
        }
    }
}

#[test]
fn add_reg_with_carry() {
    let (mut cpu, mut con) = load(&[0x61, 0xFF, 0x62, 0x01, 0x81, 0x24]);
    run(&mut cpu, &mut con, 3);
    assert_eq!(cpu.read_reg_vx(1), 0x00);
    assert_eq!(cpu.read_reg_vx(0xF), 1);
}

#[test]
fn add_reg_without_carry() {
    let (mut cpu, mut con) = load(&[0x61, 0x01, 0x62, 0x01, 0x81, 0x24]);
    run(&mut cpu, &mut con, 3);
    assert_eq!(cpu.read_reg_vx(1), 0x02);
    assert_eq!(cpu.read_reg_vx(0xF), 0);
}

#[test]
fn sub_reg_without_borrow() {
    let (mut cpu, mut con) = load(&[0x61, 0x05, 0x62, 0x01, 0x81, 0x25]);
    run(&mut cpu, &mut con, 3);
    assert_eq!(cpu.read_reg_vx(1), 0x04);
    assert_eq!(cpu.read_reg_vx(0xF), 1);
}

#[test]
fn sub_reg_with_borrow() {
    let (mut cpu, mut con) = load(&[0x61, 0x01, 0x62, 0x05, 0x81, 0x25]);
    run(&mut cpu, &mut con, 3);
    assert_eq!(cpu.read_reg_vx(1), 0xFC);
    assert_eq!(cpu.read_reg_vx(0xF), 0);
}

#[test]
fn sub_reg_reversed() {
    let (mut cpu, mut con) = load(&[0x61, 0x01, 0x62, 0x05, 0x81, 0x27, 0x63, 0x09, 0x83, 0x17]);
    run(&mut cpu, &mut con, 3);
    assert_eq!(cpu.read_reg_vx(1), 0x04);
    assert_eq!(cpu.read_reg_vx(0xF), 1);
    run(&mut cpu, &mut con, 2);
    assert_eq!(cpu.read_reg_vx(3), 0xFB);
    assert_eq!(cpu.read_reg_vx(0xF), 0);
}

#[test]
fn add_immediate_wraps_without_flag() {
    let (mut cpu, mut con) = load(&[0x61, 0xFE, 0x71, 0x03]);
    run(&mut cpu, &mut con, 2);
    assert_eq!(cpu.read_reg_vx(1), 0x01);
    assert_eq!(cpu.read_reg_vx(0xF), 0);
}

#[test]
fn bitwise_and_move() {
    let (mut cpu, mut con) = load(&[
        0x61, 0b1100, 0x62, 0b1010, 0x83, 0x10, 0x83, 0x21, 0x84, 0x10, 0x84, 0x22, 0x85, 0x10,
        0x85, 0x23,
    ]);
    run(&mut cpu, &mut con, 8);
    assert_eq!(cpu.read_reg_vx(3), 0b1110);
    assert_eq!(cpu.read_reg_vx(4), 0b1000);
    assert_eq!(cpu.read_reg_vx(5), 0b0110);
}

#[test]
fn shifts_read_vx_by_default() {
    let (mut cpu, mut con) = load(&[0x61, 0x81, 0x62, 0x02, 0x81, 0x26]);
    run(&mut cpu, &mut con, 3);
    assert_eq!(cpu.read_reg_vx(1), 0x40);
    assert_eq!(cpu.read_reg_vx(0xF), 1);
    let (mut cpu, mut con) = load(&[0x61, 0x81, 0x81, 0x2E]);
    run(&mut cpu, &mut con, 2);
    assert_eq!(cpu.read_reg_vx(1), 0x02);
    assert_eq!(cpu.read_reg_vx(0xF), 1);
}

#[test]
fn shifts_read_vy_under_quirk() {
    let mut con = Connector::new();
    for (k, b) in [0x61u8, 0x00, 0x62, 0x03, 0x81, 0x26].iter().enumerate() {
        con.write_byte_ram(0x200 + k as u16, *b);
    }
    let mut cpu = Cpu::with_quirks(Quirks { shift_reads_vy: true, load_store_moves_index: false });
    run(&mut cpu, &mut con, 3);
    assert_eq!(cpu.read_reg_vx(1), 0x01);
    assert_eq!(cpu.read_reg_vx(0xF), 1);
}

#[test]
fn call_then_return_restores_pc() {
    let mut program = vec![0u8; 0x102];
    program[0] = 0x23;
    program[1] = 0x00;
    program[0x100] = 0x00;
    program[0x101] = 0xEE;
    let (mut cpu, mut con) = load(&program);
    run(&mut cpu, &mut con, 1);
    assert_eq!(cpu.get_pc(), 0x300);
    assert_eq!(cpu.stack_depth(), 1);
    run(&mut cpu, &mut con, 1);
    assert_eq!(cpu.get_pc(), 0x202);
    assert_eq!(cpu.stack_depth(), 0);
}

#[test]
fn twenty_fifth_nested_call_overflows() {
    let mut program = Vec::new();
    for k in 0..25u16 {
        let target = 0x200 + 2 * (k + 1);
        program.push(0x20 | (target >> 8) as u8);
        program.push((target & 0xFF) as u8);
    }
    let (mut cpu, mut con) = load(&program);
    run(&mut cpu, &mut con, 24);
    assert_eq!(cpu.stack_depth(), 24);
    assert_eq!(cpu.step(&mut con, 0), Err(Chip8Error::StackOverflow));
    assert_eq!(cpu.stack_depth(), 24);
    assert_eq!(cpu.get_pc(), 0x230);
}

#[test]
fn return_with_empty_stack_underflows() {
    let (mut cpu, mut con) = load(&[0x00, 0xEE]);
    assert_eq!(cpu.step(&mut con, 0), Err(Chip8Error::StackUnderflow));
    assert_eq!(cpu.get_pc(), 0x200);
}

#[test]
fn skips_move_by_four_or_two() {
    // Each case runs after V1 = 5, V2 = 5 and V3 = 6; the flag says whether it skips.
    let cases: [([u8; 2], bool); 8] = [
        ([0x31, 0x05], true),
        ([0x31, 0x06], false),
        ([0x41, 0x06], true),
        ([0x41, 0x05], false),
        ([0x51, 0x20], true),
        ([0x51, 0x30], false),
        ([0x91, 0x30], true),
        ([0x91, 0x20], false),
    ];
    for (ins, taken) in cases.iter() {
        let (mut cpu, mut con) = load(&[0x61, 0x05, 0x62, 0x05, 0x63, 0x06, ins[0], ins[1]]);
        run(&mut cpu, &mut con, 3);
        let before = cpu.get_pc();
        run(&mut cpu, &mut con, 1);
        let expected = if *taken { before + 4 } else { before + 2 };
        assert_eq!(cpu.get_pc(), expected);
    }
}

#[test]
fn key_skips_follow_latch() {
    let (mut cpu, mut con) = load(&[0x61, 0x07, 0xE1, 0x9E]);
    con.change_key_pressed(Some(7));
    run(&mut cpu, &mut con, 2);
    assert_eq!(cpu.get_pc(), 0x206);
    let (mut cpu, mut con) = load(&[0x61, 0x07, 0xE1, 0xA1]);
    con.change_key_pressed(Some(7));
    run(&mut cpu, &mut con, 2);
    assert_eq!(cpu.get_pc(), 0x204);
    let (mut cpu, mut con) = load(&[0x61, 0x07, 0xE1, 0xA1]);
    run(&mut cpu, &mut con, 2);
    assert_eq!(cpu.get_pc(), 0x206);
}

#[test]
fn store_bcd_writes_three_digits() {
    let (mut cpu, mut con) = load(&[0x61, 234, 0xA3, 0x00, 0xF1, 0x33]);
    run(&mut cpu, &mut con, 3);
    assert_eq!(con.read_byte_ram(0x300), 2);
    assert_eq!(con.read_byte_ram(0x301), 3);
    assert_eq!(con.read_byte_ram(0x302), 4);
}

#[test]
fn store_bcd_out_of_range() {
    let (mut cpu, mut con) = load(&[0xAF, 0xFE, 0xF1, 0x33]);
    run(&mut cpu, &mut con, 1);
    assert_eq!(cpu.step(&mut con, 0), Err(Chip8Error::OutOfRangeAccess));
}

#[test]
fn block_store_and_load() {
    let (mut cpu, mut con) =
        load(&[0x60, 0x0A, 0x61, 0x0B, 0x62, 0x0C, 0xA4, 0x00, 0xF2, 0x55, 0x60, 0x00, 0xF1, 0x65]);
    con.write_byte_ram(0x403, 0x99);
    run(&mut cpu, &mut con, 5);
    assert_eq!(con.read_byte_ram(0x400), 0x0A);
    assert_eq!(con.read_byte_ram(0x401), 0x0B);
    assert_eq!(con.read_byte_ram(0x402), 0x0C);
    assert_eq!(con.read_byte_ram(0x403), 0x99);
    assert_eq!(cpu.get_index(), 0x400);
    cpu.write_reg_vx(1, 0);
    run(&mut cpu, &mut con, 2);
    assert_eq!(cpu.read_reg_vx(0), 0x0A);
    assert_eq!(cpu.read_reg_vx(1), 0x0B);
    assert_eq!(cpu.read_reg_vx(2), 0x0C);
}

#[test]
fn block_store_moves_index_under_quirk() {
    let mut con = Connector::new();
    for (k, b) in [0xA4u8, 0x00, 0xF2, 0x55, 0xF1, 0x65].iter().enumerate() {
        con.write_byte_ram(0x200 + k as u16, *b);
    }
    let mut cpu = Cpu::with_quirks(Quirks { shift_reads_vy: false, load_store_moves_index: true });
    run(&mut cpu, &mut con, 2);
    assert_eq!(cpu.get_index(), 0x403);
    run(&mut cpu, &mut con, 1);
    assert_eq!(cpu.get_index(), 0x405);
}

#[test]
fn index_instructions() {
    let (mut cpu, mut con) = load(&[0xA1, 0x23, 0x61, 0x10, 0xF1, 0x1E, 0x62, 0x0A, 0xF2, 0x29]);
    run(&mut cpu, &mut con, 1);
    assert_eq!(cpu.get_index(), 0x123);
    run(&mut cpu, &mut con, 2);
    assert_eq!(cpu.get_index(), 0x133);
    run(&mut cpu, &mut con, 2);
    assert_eq!(cpu.get_index(), 50);
}

#[test]
fn jumps() {
    let (mut cpu, mut con) = load(&[0x13, 0x00]);
    run(&mut cpu, &mut con, 1);
    assert_eq!(cpu.get_pc(), 0x300);
    let (mut cpu, mut con) = load(&[0x60, 0x04, 0xB3, 0x00]);
    run(&mut cpu, &mut con, 2);
    assert_eq!(cpu.get_pc(), 0x304);
}

#[test]
fn random_masks_given_byte() {
    let (mut cpu, mut con) = load(&[0xC1, 0x0F]);
    assert_eq!(cpu.step(&mut con, 0xAB), Ok(StepStatus::Executed));
    assert_eq!(cpu.read_reg_vx(1), 0x0B);
}

#[test]
fn random_from_generator_respects_mask() {
    let (mut cpu, mut con) = load(&[0xC1, 0x00, 0xC2, 0xF0]);
    cpu.write_reg_vx(1, 0x55);
    assert_eq!(cpu.run_instruction(&mut con), Ok(StepStatus::Executed));
    assert_eq!(cpu.read_reg_vx(1), 0);
    assert_eq!(cpu.run_instruction(&mut con), Ok(StepStatus::Executed));
    assert_eq!(cpu.read_reg_vx(2) & 0x0F, 0);
}

#[test]
fn timers_through_instructions() {
    let (mut cpu, mut con) = load(&[0x61, 0x09, 0xF1, 0x15, 0xF1, 0x18, 0xF2, 0x07]);
    run(&mut cpu, &mut con, 3);
    assert_eq!(con.get_delay_timer(), 9);
    assert_eq!(con.get_sound_timer(), 9);
    con.tick();
    run(&mut cpu, &mut con, 1);
    assert_eq!(cpu.read_reg_vx(2), 8);
}

#[test]
fn await_key_holds_pc_until_key() {
    let (mut cpu, mut con) = load(&[0xF3, 0x0A]);
    assert_eq!(cpu.step(&mut con, 0), Ok(StepStatus::AwaitingKey));
    assert_eq!(cpu.get_pc(), 0x200);
    assert_eq!(cpu.step(&mut con, 0), Ok(StepStatus::AwaitingKey));
    con.change_key_pressed(Some(0xC));
    assert_eq!(cpu.step(&mut con, 0), Ok(StepStatus::Executed));
    assert_eq!(cpu.read_reg_vx(3), 0xC);
    assert_eq!(cpu.get_pc(), 0x202);
}

#[test]
fn jump_to_itself_is_a_stall() {
    let (mut cpu, mut con) = load(&[0x12, 0x00]);
    assert_eq!(cpu.step(&mut con, 0), Err(Chip8Error::StalledProgramCounter));
}

#[test]
fn unknown_opcodes_are_refused() {
    for w in [0x0123u16, 0x5121, 0x8008, 0x9AB1, 0xE0FF, 0xF0FF].iter() {
        let (mut cpu, mut con) = load(&[(*w >> 8) as u8, (*w & 0xFF) as u8]);
        assert_eq!(cpu.step(&mut con, 0), Err(Chip8Error::UnknownOpcode(*w)));
        assert_eq!(cpu.get_pc(), 0x200);
    }
}

#[test]
fn fetch_past_end_of_memory() {
    let (mut cpu, mut con) = load(&[0x1F, 0xFF]);
    run(&mut cpu, &mut con, 1);
    assert_eq!(cpu.step(&mut con, 0), Err(Chip8Error::OutOfRangeAccess));
}

#[test]
fn clear_screen_instruction() {
    let (mut cpu, mut con) = load(&[0x00, 0xE0]);
    con.debug_draw_byte(0xFF, 0, 0);
    run(&mut cpu, &mut con, 1);
    assert!(con.get_display().iter().all(|c| *c == 0));
}
