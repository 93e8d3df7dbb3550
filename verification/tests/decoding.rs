use chip8::{decode, Instruction};

#[test]
fn decode_category_zero() {
    assert_eq!(decode(0x00E0), Some(Instruction::ClearScreen));
    assert_eq!(decode(0x00EE), Some(Instruction::Return));
    assert_eq!(decode(0x0000), Some(Instruction::MachineRoutine { addr: 0x000 }));
    assert_eq!(decode(0x00E1), Some(Instruction::MachineRoutine { addr: 0x0E1 }));
    assert_eq!(decode(0x01E0), Some(Instruction::MachineRoutine { addr: 0x1E0 }));
    assert_eq!(decode(0x0FFF), Some(Instruction::MachineRoutine { addr: 0xFFF }));
}

#[test]
fn decode_addresses() {
    assert_eq!(decode(0x1ABC), Some(Instruction::Jump { addr: 0xABC }));
    assert_eq!(decode(0x2ABC), Some(Instruction::Call { addr: 0xABC }));
    assert_eq!(decode(0xAABC), Some(Instruction::SetIndex { addr: 0xABC }));
    assert_eq!(decode(0xBABC), Some(Instruction::JumpWithOffset { addr: 0xABC }));
    assert_eq!(decode(0x1000), Some(Instruction::Jump { addr: 0 }));
    assert_eq!(decode(0x1FFF), Some(Instruction::Jump { addr: 0xFFF }));
}

#[test]
fn decode_register_and_immediate() {
    assert_eq!(decode(0x3A12), Some(Instruction::SkipIfEqual { x: 0xA, nn: 0x12 }));
    assert_eq!(decode(0x4A12), Some(Instruction::SkipIfNotEqual { x: 0xA, nn: 0x12 }));
    assert_eq!(decode(0x6A12), Some(Instruction::SetImmediate { x: 0xA, nn: 0x12 }));
    assert_eq!(decode(0x7A12), Some(Instruction::AddImmediate { x: 0xA, nn: 0x12 }));
    assert_eq!(decode(0xCA12), Some(Instruction::Random { x: 0xA, nn: 0x12 }));
    assert_eq!(decode(0x6FFF), Some(Instruction::SetImmediate { x: 0xF, nn: 0xFF }));
    assert_eq!(decode(0x6000), Some(Instruction::SetImmediate { x: 0, nn: 0 }));
}

#[test]
fn decode_two_registers() {
    assert_eq!(decode(0x5AB0), Some(Instruction::SkipIfRegistersEqual { x: 0xA, y: 0xB }));
    assert_eq!(decode(0x9AB0), Some(Instruction::SkipIfRegistersNotEqual { x: 0xA, y: 0xB }));
    assert_eq!(decode(0x8AB0), Some(Instruction::Copy { x: 0xA, y: 0xB }));
    assert_eq!(decode(0x8AB1), Some(Instruction::Or { x: 0xA, y: 0xB }));
    assert_eq!(decode(0x8AB2), Some(Instruction::And { x: 0xA, y: 0xB }));
    assert_eq!(decode(0x8AB3), Some(Instruction::Xor { x: 0xA, y: 0xB }));
    assert_eq!(decode(0x8AB4), Some(Instruction::AddWithCarry { x: 0xA, y: 0xB }));
    assert_eq!(decode(0x8AB5), Some(Instruction::Subtract { x: 0xA, y: 0xB }));
    assert_eq!(decode(0x8AB6), Some(Instruction::ShiftRight { x: 0xA }));
    assert_eq!(decode(0x8AB7), Some(Instruction::ReverseSubtract { x: 0xA, y: 0xB }));
    assert_eq!(decode(0x8ABE), Some(Instruction::ShiftLeft { x: 0xA }));
    assert_eq!(decode(0xDAB7), Some(Instruction::Draw { x: 0xA, y: 0xB, n: 7 }));
    assert_eq!(decode(0xD000), Some(Instruction::Draw { x: 0, y: 0, n: 0 }));
}

#[test]
fn decode_keys_and_category_f() {
    assert_eq!(decode(0xE39E), Some(Instruction::SkipIfKeyPressed { x: 3 }));
    assert_eq!(decode(0xE3A1), Some(Instruction::SkipIfKeyNotPressed { x: 3 }));
    assert_eq!(decode(0xF307), Some(Instruction::ReadDelayTimer { x: 3 }));
    assert_eq!(decode(0xF30A), Some(Instruction::WaitForKey { x: 3 }));
    assert_eq!(decode(0xF315), Some(Instruction::SetDelayTimer { x: 3 }));
    assert_eq!(decode(0xF318), Some(Instruction::SetSoundTimer { x: 3 }));
    assert_eq!(decode(0xF31E), Some(Instruction::AddToIndex { x: 3 }));
    assert_eq!(decode(0xF329), Some(Instruction::SelectGlyph { x: 3 }));
    assert_eq!(decode(0xF333), Some(Instruction::StoreDecimal { x: 3 }));
    assert_eq!(decode(0xF355), Some(Instruction::DumpRegisters { x: 3 }));
    assert_eq!(decode(0xF365), Some(Instruction::LoadRegisters { x: 3 }));
}

#[test]
fn decode_rejects_undefined_words() {
    for word in [
        0x5001u16, 0x500F, 0x9001, 0x8008, 0x800D, 0x800F, 0xE000, 0xE09F, 0xE0A0, 0xF000, 0xF056,
        0xF0FF, 0xFFFF,
    ] {
        assert_eq!(decode(word), None);
    }
}

#[test]
fn decode_counts_the_defined_words() {
    let defined = (0..=0xFFFFu16).filter(|&word| decode(word).is_some()).count();
    // Nine categories take every word: 0, 1, 2, 3, 4, 6, 7, A, B, C, D are
    // eleven. 5 and 9 take one word in sixteen, 8 nine in sixteen, E two
    // low bytes and F nine.
    let expected = 11 * 4096 + 2 * 256 + 9 * 256 + 2 * 16 + 9 * 16;
    assert_eq!(defined, expected);
}

#[test]
fn decode_keeps_operands_in_range() {
    for word in 0..=0xFFFFu16 {
        match decode(word) {
            Some(Instruction::Draw { x, y, n }) => assert!(x < 16 && y < 16 && n < 16),
            Some(Instruction::Jump { addr }) | Some(Instruction::Call { addr }) => {
                assert!(addr < 0x1000)
            }
            Some(Instruction::AddImmediate { x, nn }) => {
                assert_eq!(x as u16, (word >> 8) & 0xF);
                assert_eq!(nn as u16, word & 0xFF);
            }
            _ => {}
        }
    }
}
