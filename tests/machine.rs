use chip8::chip8::Chip8;
use chip8::connector::Connector;
use chip8::input::{HostKey, Input};
use chip8::instruction::{decode, Chip8Error, Instruction};
use chip8::memory::Ram;
use chip8::cpu::StepStatus;

#[test]
fn load_rom_and_run() {
    let mut machine = Chip8::new();
    assert_eq!(machine.load_rom(&vec![0x60, 0x00, 0x61, 0x00, 0xA2, 0x0A, 0xD0, 0x11, 0xF0, 0x18, 0x80]), Ok(()));
    for _ in 0..5 {
        assert_eq!(machine.run_instruction(), Ok(StepStatus::Executed));
    }
    assert_eq!(machine.get_dislay()[0], 1);
    assert_eq!(machine.get_dislay()[1], 0);
    assert_eq!(machine.get_sound_timer(), 0);
}

#[test]
fn load_rom_too_long() {
    let mut machine = Chip8::new();
    assert_eq!(machine.load_rom(&vec![0u8; 3585]), Err(Chip8Error::OutOfRangeAccess));
    assert_eq!(machine.load_rom(&vec![0u8; 3584]), Ok(()));
}

#[test]
fn machine_tick_counts_down_delay_only() {
    let mut machine = Chip8::new();
    machine.load_rom(&vec![0x60, 0x02, 0xF0, 0x15, 0xF0, 0x18]).unwrap();
    for _ in 0..3 {
        assert_eq!(machine.step(0), Ok(StepStatus::Executed));
    }
    machine.tick();
    assert_eq!(machine.get_delay_timer(), 1);
    assert_eq!(machine.get_sound_timer(), 2);
    machine.tick();
    machine.tick();
    assert_eq!(machine.get_delay_timer(), 0);
}

#[test]
fn machine_key_latch() {
    let mut machine = Chip8::new();
    machine.load_rom(&vec![0xF5, 0x0A, 0xE5, 0x9E]).unwrap();
    assert_eq!(machine.step(0), Ok(StepStatus::AwaitingKey));
    machine.change_key_pressed(Some(4));
    assert_eq!(machine.step(0), Ok(StepStatus::Executed));
    assert_eq!(machine.step(0), Ok(StepStatus::Executed));
}

#[test]
fn ram_reads_back_writes() {
    let mut ram = Ram::new();
    assert_eq!(ram.read_byte(0xFFF), 0);
    ram.write_byte(0xFFF, 7);
    ram.write_byte(0, 9);
    assert_eq!(ram.read_byte(0xFFF), 7);
    assert_eq!(ram.read_byte(0), 9);
    assert_eq!(ram.read_byte(1), 0);
}

#[test]
fn input_latch() {
    let mut input = Input::new();
    assert_eq!(input.get_key_pressed(), None);
    assert!(!input.is_key_pressed(0));
    input.change_key_pressed(Some(0xA));
    assert!(input.is_key_pressed(0xA));
    assert!(!input.is_key_pressed(0xB));
    assert_eq!(input.get_key_pressed(), Some(0xA));
}

#[test]
fn connector_timers() {
    let mut con = Connector::new();
    con.tick();
    assert_eq!(con.get_delay_timer(), 0);
    con.change_delay_timer(1);
    con.change_sound_timer(5);
    con.tick();
    assert_eq!(con.get_delay_timer(), 0);
    assert_eq!(con.get_sound_timer(), 5);
}

#[test]
fn keycode_layout() {
    let layout = [
        (HostKey::A, 0x1), (HostKey::Z, 0x2), (HostKey::E, 0x3), (HostKey::R, 0xC),
        (HostKey::Q, 0x4), (HostKey::S, 0x5), (HostKey::D, 0x6), (HostKey::F, 0xD),
        (HostKey::W, 0x7), (HostKey::X, 0x8), (HostKey::C, 0x9), (HostKey::V, 0xE),
        (HostKey::U, 0xA), (HostKey::I, 0x0), (HostKey::O, 0xB), (HostKey::P, 0xF),
    ];
    for (key, code) in layout.iter() {
        assert_eq!(Connector::get_keycode_by_key(Some(*key)), Some(*code));
    }
    assert_eq!(Connector::get_keycode_by_key(Some(HostKey::Other)), None);
    assert_eq!(Connector::get_keycode_by_key(None), None);
}

#[test]
fn decode_fields() {
    assert_eq!(decode(0x00E0), Ok(Instruction::ClearScreen));
    assert_eq!(decode(0x00EE), Ok(Instruction::Return));
    assert_eq!(decode(0x1ABC), Ok(Instruction::Jump { addr: 0xABC }));
    assert_eq!(decode(0x2ABC), Ok(Instruction::Call { addr: 0xABC }));
    assert_eq!(decode(0x3A42), Ok(Instruction::SkipEqImm { x: 0xA, nn: 0x42 }));
    assert_eq!(decode(0x8AB4), Ok(Instruction::AddReg { x: 0xA, y: 0xB }));
    assert_eq!(decode(0x8ABE), Ok(Instruction::ShiftLeft { x: 0xA, y: 0xB }));
    assert_eq!(decode(0xD125), Ok(Instruction::Draw { x: 1, y: 2, n: 5 }));
    assert_eq!(decode(0xF733), Ok(Instruction::StoreBcd { x: 7 }));
    assert_eq!(decode(0xF165), Ok(Instruction::BlockLoad { x: 1 }));
    assert_eq!(decode(0x8AB8), Err(Chip8Error::UnknownOpcode(0x8AB8)));
    assert_eq!(decode(0x0000), Err(Chip8Error::UnknownOpcode(0x0000)));
}
