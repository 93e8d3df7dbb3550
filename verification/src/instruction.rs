use vstd::prelude::*;

verus! {

/// One decoded instruction. `x` and `y` name registers, `nn` is an 8-bit
/// immediate, `addr` a 12-bit address and `n` a 4-bit count.
#[derive(Clone, Copy, Debug, PartialEq, Eq)]
pub enum Instruction {
    /// `00E0`
    ClearScreen,
    /// `00EE`
    Return,
    /// `0NNN` other than the two above: a call into host machine code, ignored.
    MachineRoutine { addr: u16 },
    /// `1NNN`
    Jump { addr: u16 },
    /// `2NNN`
    Call { addr: u16 },
    /// `3XNN`
    SkipIfEqual { x: u8, nn: u8 },
    /// `4XNN`
    SkipIfNotEqual { x: u8, nn: u8 },
    /// `5XY0`
    SkipIfRegistersEqual { x: u8, y: u8 },
    /// `6XNN`
    SetImmediate { x: u8, nn: u8 },
    /// `7XNN`
    AddImmediate { x: u8, nn: u8 },
    /// `8XY0`
    Copy { x: u8, y: u8 },
    /// `8XY1`
    Or { x: u8, y: u8 },
    /// `8XY2`
    And { x: u8, y: u8 },
    /// `8XY3`
    Xor { x: u8, y: u8 },
    /// `8XY4`
    AddWithCarry { x: u8, y: u8 },
    /// `8XY5`
    Subtract { x: u8, y: u8 },
    /// `8XY6`
    ShiftRight { x: u8 },
    /// `8XY7`
    ReverseSubtract { x: u8, y: u8 },
    /// `8XYE`
    ShiftLeft { x: u8 },
    /// `9XY0`
    SkipIfRegistersNotEqual { x: u8, y: u8 },
    /// `ANNN`
    SetIndex { addr: u16 },
    /// `BNNN`
    JumpWithOffset { addr: u16 },
    /// `CXNN`
    Random { x: u8, nn: u8 },
    /// `DXYN`
    Draw { x: u8, y: u8, n: u8 },
    /// `EX9E`
    SkipIfKeyPressed { x: u8 },
    /// `EXA1`
    SkipIfKeyNotPressed { x: u8 },
    /// `FX07`
    ReadDelayTimer { x: u8 },
    /// `FX0A`
    WaitForKey { x: u8 },
    /// `FX15`
    SetDelayTimer { x: u8 },
    /// `FX18`
    SetSoundTimer { x: u8 },
    /// `FX1E`
    AddToIndex { x: u8 },
    /// `FX29`
    SelectGlyph { x: u8 },
    /// `FX33`
    StoreDecimal { x: u8 },
    /// `FX55`
    DumpRegisters { x: u8 },
    /// `FX65`
    LoadRegisters { x: u8 },
}

impl Instruction {
    /// Every operand fits the bits that an instruction word has for it.
    pub open spec fn wf(self) -> bool {
        match self {
            Instruction::ClearScreen | Instruction::Return => true,
            Instruction::MachineRoutine { addr }
            | Instruction::Jump { addr }
            | Instruction::Call { addr }
            | Instruction::SetIndex { addr }
            | Instruction::JumpWithOffset { addr } => addr < 0x1000,
            Instruction::SkipIfEqual { x, nn }
            | Instruction::SkipIfNotEqual { x, nn }
            | Instruction::SetImmediate { x, nn }
            | Instruction::AddImmediate { x, nn }
            | Instruction::Random { x, nn } => x < 16,
            Instruction::SkipIfRegistersEqual { x, y }
            | Instruction::Copy { x, y }
            | Instruction::Or { x, y }
            | Instruction::And { x, y }
            | Instruction::Xor { x, y }
            | Instruction::AddWithCarry { x, y }
            | Instruction::Subtract { x, y }
            | Instruction::ReverseSubtract { x, y }
            | Instruction::SkipIfRegistersNotEqual { x, y } => x < 16 && y < 16,
            Instruction::Draw { x, y, n } => x < 16 && y < 16 && n < 16,
            Instruction::ShiftRight { x }
            | Instruction::ShiftLeft { x }
            | Instruction::SkipIfKeyPressed { x }
            | Instruction::SkipIfKeyNotPressed { x }
            | Instruction::ReadDelayTimer { x }
            | Instruction::WaitForKey { x }
            | Instruction::SetDelayTimer { x }
            | Instruction::SetSoundTimer { x }
            | Instruction::AddToIndex { x }
            | Instruction::SelectGlyph { x }
            | Instruction::StoreDecimal { x }
            | Instruction::DumpRegisters { x }
            | Instruction::LoadRegisters { x } => x < 16,
        }
    }
}

/// The leading nibble of an instruction word: its category.
pub open spec fn category(op: u16) -> int {
    op as int / 0x1000
}

/// The second nibble, which most categories read as a register number.
pub open spec fn operand_x(op: u16) -> u8 {
    (op as int / 0x100 % 0x10) as u8
}

/// The third nibble.
pub open spec fn operand_y(op: u16) -> u8 {
    (op as int / 0x10 % 0x10) as u8
}

/// The last nibble.
pub open spec fn operand_n(op: u16) -> u8 {
    (op as int % 0x10) as u8
}

/// The low byte.
pub open spec fn operand_nn(op: u16) -> u8 {
    (op as int % 0x100) as u8
}

/// The low twelve bits.
pub open spec fn operand_addr(op: u16) -> u16 {
    (op as int % 0x1000) as u16
}

/// The instruction that a word stands for, or `None` where it matches no
/// defined pattern.
pub open spec fn decode_spec(op: u16) -> Option<Instruction> {
    let x = operand_x(op);
    let y = operand_y(op);
    let n = operand_n(op);
    let nn = operand_nn(op);
    let addr = operand_addr(op);
    let low = op as int % 0x100;
    let c = category(op);
    if c == 0x0 {
        if op == 0x00E0 {
            Some(Instruction::ClearScreen)
        } else if op == 0x00EE {
            Some(Instruction::Return)
        } else {
            Some(Instruction::MachineRoutine { addr })
        }
    } else if c == 0x1 {
        Some(Instruction::Jump { addr })
    } else if c == 0x2 {
        Some(Instruction::Call { addr })
    } else if c == 0x3 {
        Some(Instruction::SkipIfEqual { x, nn })
    } else if c == 0x4 {
        Some(Instruction::SkipIfNotEqual { x, nn })
    } else if c == 0x5 {
        if n == 0 {
            Some(Instruction::SkipIfRegistersEqual { x, y })
        } else {
            None
        }
    } else if c == 0x6 {
        Some(Instruction::SetImmediate { x, nn })
    } else if c == 0x7 {
        Some(Instruction::AddImmediate { x, nn })
    } else if c == 0x8 {
        if n == 0x0 {
            Some(Instruction::Copy { x, y })
        } else if n == 0x1 {
            Some(Instruction::Or { x, y })
        } else if n == 0x2 {
            Some(Instruction::And { x, y })
        } else if n == 0x3 {
            Some(Instruction::Xor { x, y })
        } else if n == 0x4 {
            Some(Instruction::AddWithCarry { x, y })
        } else if n == 0x5 {
            Some(Instruction::Subtract { x, y })
        } else if n == 0x6 {
            Some(Instruction::ShiftRight { x })
        } else if n == 0x7 {
            Some(Instruction::ReverseSubtract { x, y })
        } else if n == 0xE {
            Some(Instruction::ShiftLeft { x })
        } else {
            None
        }
    } else if c == 0x9 {
        if n == 0 {
            Some(Instruction::SkipIfRegistersNotEqual { x, y })
        } else {
            None
        }
    } else if c == 0xA {
        Some(Instruction::SetIndex { addr })
    } else if c == 0xB {
        Some(Instruction::JumpWithOffset { addr })
    } else if c == 0xC {
        Some(Instruction::Random { x, nn })
    } else if c == 0xD {
        Some(Instruction::Draw { x, y, n })
    } else if c == 0xE {
        if low == 0x9E {
            Some(Instruction::SkipIfKeyPressed { x })
        } else if low == 0xA1 {
            Some(Instruction::SkipIfKeyNotPressed { x })
        } else {
            None
        }
    } else {
        if low == 0x07 {
            Some(Instruction::ReadDelayTimer { x })
        } else if low == 0x0A {
            Some(Instruction::WaitForKey { x })
        } else if low == 0x15 {
            Some(Instruction::SetDelayTimer { x })
        } else if low == 0x18 {
            Some(Instruction::SetSoundTimer { x })
        } else if low == 0x1E {
            Some(Instruction::AddToIndex { x })
        } else if low == 0x29 {
            Some(Instruction::SelectGlyph { x })
        } else if low == 0x33 {
            Some(Instruction::StoreDecimal { x })
        } else if low == 0x55 {
            Some(Instruction::DumpRegisters { x })
        } else if low == 0x65 {
            Some(Instruction::LoadRegisters { x })
        } else {
            None
        }
    }
}

/// Splits an instruction word into its nibbles and picks the instruction
/// they select. Whatever comes out has operands in range.
pub fn decode(op: u16) -> (ins: Option<Instruction>)
    ensures
        ins == decode_spec(op),
        ins matches Some(i) ==> i.wf(),
{
    let c: u8 = (op >> 12) as u8;
    let x: u8 = ((op >> 8) & 0xF) as u8;
    let y: u8 = ((op >> 4) & 0xF) as u8;
    let n: u8 = (op & 0xF) as u8;
    let nn: u8 = (op & 0xFF) as u8;
    let addr: u16 = op & 0xFFF;
    proof {
        assert(op >> 12 == op / 0x1000) by (bit_vector);
        assert((op >> 8) & 0xF == op / 0x100 % 0x10) by (bit_vector);
        assert((op >> 4) & 0xF == op / 0x10 % 0x10) by (bit_vector);
        assert(op & 0xF == op % 0x10) by (bit_vector);
        assert(op & 0xFF == op % 0x100) by (bit_vector);
        assert(op & 0xFFF == op % 0x1000) by (bit_vector);
    }
    match c {
        0x0 => match op {
            0x00E0 => Some(Instruction::ClearScreen),
            0x00EE => Some(Instruction::Return),
            _ => Some(Instruction::MachineRoutine { addr }),
        },
        0x1 => Some(Instruction::Jump { addr }),
        0x2 => Some(Instruction::Call { addr }),
        0x3 => Some(Instruction::SkipIfEqual { x, nn }),
        0x4 => Some(Instruction::SkipIfNotEqual { x, nn }),
        0x5 => match n {
            0x0 => Some(Instruction::SkipIfRegistersEqual { x, y }),
            _ => None,
        },
        0x6 => Some(Instruction::SetImmediate { x, nn }),
        0x7 => Some(Instruction::AddImmediate { x, nn }),
        0x8 => match n {
            0x0 => Some(Instruction::Copy { x, y }),
            0x1 => Some(Instruction::Or { x, y }),
            0x2 => Some(Instruction::And { x, y }),
            0x3 => Some(Instruction::Xor { x, y }),
            0x4 => Some(Instruction::AddWithCarry { x, y }),
            0x5 => Some(Instruction::Subtract { x, y }),
            0x6 => Some(Instruction::ShiftRight { x }),
            0x7 => Some(Instruction::ReverseSubtract { x, y }),
            0xE => Some(Instruction::ShiftLeft { x }),
            _ => None,
        },
        0x9 => match n {
            0x0 => Some(Instruction::SkipIfRegistersNotEqual { x, y }),
            _ => None,
        },
        0xA => Some(Instruction::SetIndex { addr }),
        0xB => Some(Instruction::JumpWithOffset { addr }),
        0xC => Some(Instruction::Random { x, nn }),
        0xD => Some(Instruction::Draw { x, y, n }),
        0xE => match nn {
            0x9E => Some(Instruction::SkipIfKeyPressed { x }),
            0xA1 => Some(Instruction::SkipIfKeyNotPressed { x }),
            _ => None,
        },
        _ => match nn {
            0x07 => Some(Instruction::ReadDelayTimer { x }),
            0x0A => Some(Instruction::WaitForKey { x }),
            0x15 => Some(Instruction::SetDelayTimer { x }),
            0x18 => Some(Instruction::SetSoundTimer { x }),
            0x1E => Some(Instruction::AddToIndex { x }),
            0x29 => Some(Instruction::SelectGlyph { x }),
            0x33 => Some(Instruction::StoreDecimal { x }),
            0x55 => Some(Instruction::DumpRegisters { x }),
            0x65 => Some(Instruction::LoadRegisters { x }),
            _ => None,
        },
    }
}

} // verus!
