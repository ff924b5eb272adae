use vstd::prelude::*;

verus! {

/// The fatal conditions of a step.
#[derive(Clone, Copy, Debug, PartialEq, Eq, Structural)]
pub enum Chip8Error {
    /// The instruction word matches no instruction.
    UnknownOpcode(u16),
    /// A call with the call stack already full.
    StackOverflow,
    /// A return with the call stack empty.
    StackUnderflow,
    /// A memory access outside the address space.
    OutOfRangeAccess,
    /// The program counter did not move in a step that was not waiting for a
    /// key.
    StalledProgramCounter,
}

/// One decoded instruction. `x` and `y` are register indices (0 to 15),
/// `nn` an 8-bit immediate, `n` a 4-bit immediate and `addr` a 12-bit address.
#[derive(Clone, Copy, Debug, PartialEq, Eq, Structural)]
pub enum Instruction {
    ClearScreen,
    Return,
    Jump { addr: u16 },
    Call { addr: u16 },
    SkipEqImm { x: u8, nn: u8 },
    SkipNeImm { x: u8, nn: u8 },
    SkipEqReg { x: u8, y: u8 },
    SetImm { x: u8, nn: u8 },
    AddImm { x: u8, nn: u8 },
    Move { x: u8, y: u8 },
    Or { x: u8, y: u8 },
    And { x: u8, y: u8 },
    Xor { x: u8, y: u8 },
    AddReg { x: u8, y: u8 },
    SubReg { x: u8, y: u8 },
    ShiftRight { x: u8, y: u8 },
    SubRegRev { x: u8, y: u8 },
    ShiftLeft { x: u8, y: u8 },
    SkipNeReg { x: u8, y: u8 },
    SetIndex { addr: u16 },
    JumpOffset { addr: u16 },
    Random { x: u8, nn: u8 },
    Draw { x: u8, y: u8, n: u8 },
    SkipIfKey { x: u8 },
    SkipIfNotKey { x: u8 },
    ReadDelayTimer { x: u8 },
    AwaitKey { x: u8 },
    SetDelayTimer { x: u8 },
    SetSoundTimer { x: u8 },
    AddToIndex { x: u8 },
    FontCharAddress { x: u8 },
    StoreBcd { x: u8 },
    BlockStore { x: u8 },
    BlockLoad { x: u8 },
}

/// The instruction that the word `w` encodes: the top nibble picks the class,
/// the low 12 bits are `addr`, the low byte `nn`, the low nibble `n`, the
/// second nibble `x` and the third `y`.
pub open spec fn decode_spec(w: u16) -> Result<Instruction, Chip8Error> {
    let class = w >> 12u16;
    let addr = w & 0x0FFFu16;
    let nn = (w & 0x00FFu16) as u8;
    let n = (w & 0x000Fu16) as u8;
    let x = ((w >> 8u16) & 0x000Fu16) as u8;
    let y = ((w >> 4u16) & 0x000Fu16) as u8;
    if class == 0x0 && addr == 0x0E0 {
        Ok(Instruction::ClearScreen)
    } else if class == 0x0 && addr == 0x0EE {
        Ok(Instruction::Return)
    } else if class == 0x1 {
        Ok(Instruction::Jump { addr })
    } else if class == 0x2 {
        Ok(Instruction::Call { addr })
    } else if class == 0x3 {
        Ok(Instruction::SkipEqImm { x, nn })
    } else if class == 0x4 {
        Ok(Instruction::SkipNeImm { x, nn })
    } else if class == 0x5 && n == 0 {
        Ok(Instruction::SkipEqReg { x, y })
    } else if class == 0x6 {
        Ok(Instruction::SetImm { x, nn })
    } else if class == 0x7 {
        Ok(Instruction::AddImm { x, nn })
    } else if class == 0x8 && n == 0x0 {
        Ok(Instruction::Move { x, y })
    } else if class == 0x8 && n == 0x1 {
        Ok(Instruction::Or { x, y })
    } else if class == 0x8 && n == 0x2 {
        Ok(Instruction::And { x, y })
    } else if class == 0x8 && n == 0x3 {
        Ok(Instruction::Xor { x, y })
    } else if class == 0x8 && n == 0x4 {
        Ok(Instruction::AddReg { x, y })
    } else if class == 0x8 && n == 0x5 {
        Ok(Instruction::SubReg { x, y })
    } else if class == 0x8 && n == 0x6 {
        Ok(Instruction::ShiftRight { x, y })
    } else if class == 0x8 && n == 0x7 {
        Ok(Instruction::SubRegRev { x, y })
    } else if class == 0x8 && n == 0xE {
        Ok(Instruction::ShiftLeft { x, y })
    } else if class == 0x9 && n == 0 {
        Ok(Instruction::SkipNeReg { x, y })
    } else if class == 0xA {
        Ok(Instruction::SetIndex { addr })
    } else if class == 0xB {
        Ok(Instruction::JumpOffset { addr })
    } else if class == 0xC {
        Ok(Instruction::Random { x, nn })
    } else if class == 0xD {
        Ok(Instruction::Draw { x, y, n })
    } else if class == 0xE && nn == 0x9E {
        Ok(Instruction::SkipIfKey { x })
    } else if class == 0xE && nn == 0xA1 {
        Ok(Instruction::SkipIfNotKey { x })
    } else if class == 0xF && nn == 0x07 {
        Ok(Instruction::ReadDelayTimer { x })
    } else if class == 0xF && nn == 0x0A {
        Ok(Instruction::AwaitKey { x })
    } else if class == 0xF && nn == 0x15 {
        Ok(Instruction::SetDelayTimer { x })
    } else if class == 0xF && nn == 0x18 {
        Ok(Instruction::SetSoundTimer { x })
    } else if class == 0xF && nn == 0x1E {
        Ok(Instruction::AddToIndex { x })
    } else if class == 0xF && nn == 0x29 {
        Ok(Instruction::FontCharAddress { x })
    } else if class == 0xF && nn == 0x33 {
        Ok(Instruction::StoreBcd { x })
    } else if class == 0xF && nn == 0x55 {
        Ok(Instruction::BlockStore { x })
    } else if class == 0xF && nn == 0x65 {
        Ok(Instruction::BlockLoad { x })
    } else {
        Err(Chip8Error::UnknownOpcode(w))
    }
}

/// Register operands are nibbles, `n` is a nibble and addresses have 12 bits.
pub open spec fn operands_in_range(ins: Instruction) -> bool {
    match ins {
        Instruction::ClearScreen | Instruction::Return => true,
        Instruction::Jump { addr } | Instruction::Call { addr } | Instruction::SetIndex { addr }
        | Instruction::JumpOffset { addr } => addr < 0x1000,
        Instruction::SkipEqImm { x, .. } | Instruction::SkipNeImm { x, .. }
        | Instruction::SetImm { x, .. } | Instruction::AddImm { x, .. }
        | Instruction::Random { x, .. } | Instruction::SkipIfKey { x }
        | Instruction::SkipIfNotKey { x } | Instruction::ReadDelayTimer { x }
        | Instruction::AwaitKey { x } | Instruction::SetDelayTimer { x }
        | Instruction::SetSoundTimer { x } | Instruction::AddToIndex { x }
        | Instruction::FontCharAddress { x } | Instruction::StoreBcd { x }
        | Instruction::BlockStore { x } | Instruction::BlockLoad { x } => x < 16,
        Instruction::Draw { x, y, n } => x < 16 && y < 16 && n < 16,
        Instruction::SkipEqReg { x, y } | Instruction::SkipNeReg { x, y }
        | Instruction::Move { x, y } | Instruction::Or { x, y } | Instruction::And { x, y }
        | Instruction::Xor { x, y } | Instruction::AddReg { x, y } | Instruction::SubReg { x, y }
        | Instruction::ShiftRight { x, y } | Instruction::SubRegRev { x, y }
        | Instruction::ShiftLeft { x, y } => x < 16 && y < 16,
    }
}

/// Every instruction that a word decodes to has its operands in range.
pub proof fn lemma_decoded_operands_in_range(w: u16)
    ensures
        decode_spec(w) is Ok ==> operands_in_range(decode_spec(w)->Ok_0),
{
    assert(w & 0x0FFFu16 < 0x1000) by (bit_vector);
    assert(((w >> 8u16) & 0x000Fu16) < 16) by (bit_vector);
    assert(((w >> 4u16) & 0x000Fu16) < 16) by (bit_vector);
    assert((w & 0x000Fu16) < 16) by (bit_vector);
}

/// Decodes the instruction word `w`.
pub fn decode(w: u16) -> (r: Result<Instruction, Chip8Error>)
    ensures
        r == decode_spec(w),
        r is Ok ==> operands_in_range(r->Ok_0),
{
    proof {
        lemma_decoded_operands_in_range(w);
    }
    let class = w >> 12u16;
    let addr = w & 0x0FFFu16;
    let nn = (w & 0x00FFu16) as u8;
    let n = (w & 0x000Fu16) as u8;
    let x = ((w >> 8u16) & 0x000Fu16) as u8;
    let y = ((w >> 4u16) & 0x000Fu16) as u8;
    match class {
        0x0 => {
            if addr == 0x0E0 {
                Ok(Instruction::ClearScreen)
            } else if addr == 0x0EE {
                Ok(Instruction::Return)
            } else {
                Err(Chip8Error::UnknownOpcode(w))
            }
        },
        0x1 => Ok(Instruction::Jump { addr }),
        0x2 => Ok(Instruction::Call { addr }),
        0x3 => Ok(Instruction::SkipEqImm { x, nn }),
        0x4 => Ok(Instruction::SkipNeImm { x, nn }),
        0x5 => {
            if n == 0 {
                Ok(Instruction::SkipEqReg { x, y })
            } else {
                Err(Chip8Error::UnknownOpcode(w))
            }
        },
        0x6 => Ok(Instruction::SetImm { x, nn }),
        0x7 => Ok(Instruction::AddImm { x, nn }),
        0x8 => match n {
            0x0 => Ok(Instruction::Move { x, y }),
            0x1 => Ok(Instruction::Or { x, y }),
            0x2 => Ok(Instruction::And { x, y }),
            0x3 => Ok(Instruction::Xor { x, y }),
            0x4 => Ok(Instruction::AddReg { x, y }),
            0x5 => Ok(Instruction::SubReg { x, y }),
            0x6 => Ok(Instruction::ShiftRight { x, y }),
            0x7 => Ok(Instruction::SubRegRev { x, y }),
            0xE => Ok(Instruction::ShiftLeft { x, y }),
            _ => Err(Chip8Error::UnknownOpcode(w)),
        },
        0x9 => {
            if n == 0 {
                Ok(Instruction::SkipNeReg { x, y })
            } else {
                Err(Chip8Error::UnknownOpcode(w))
            }
        },
        0xA => Ok(Instruction::SetIndex { addr }),
        0xB => Ok(Instruction::JumpOffset { addr }),
        0xC => Ok(Instruction::Random { x, nn }),
        0xD => Ok(Instruction::Draw { x, y, n }),
        0xE => match nn {
            0x9E => Ok(Instruction::SkipIfKey { x }),
            0xA1 => Ok(Instruction::SkipIfNotKey { x }),
            _ => Err(Chip8Error::UnknownOpcode(w)),
        },
        0xF => match nn {
            0x07 => Ok(Instruction::ReadDelayTimer { x }),
            0x0A => Ok(Instruction::AwaitKey { x }),
            0x15 => Ok(Instruction::SetDelayTimer { x }),
            0x18 => Ok(Instruction::SetSoundTimer { x }),
            0x1E => Ok(Instruction::AddToIndex { x }),
            0x29 => Ok(Instruction::FontCharAddress { x }),
            0x33 => Ok(Instruction::StoreBcd { x }),
            0x55 => Ok(Instruction::BlockStore { x }),
            0x65 => Ok(Instruction::BlockLoad { x }),
            _ => Err(Chip8Error::UnknownOpcode(w)),
        },
        _ => Err(Chip8Error::UnknownOpcode(w)),
    }
}

} // verus!
