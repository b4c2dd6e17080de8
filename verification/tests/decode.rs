use chip8::instruction::is_random;
use chip8::{decode, Instruction};

#[test]
fn decode_fixed_words() {
    assert_eq!(decode(0x0000), Some(Instruction::Nop));
    assert_eq!(decode(0x00E0), Some(Instruction::ClearScreen));
    assert_eq!(decode(0x00EE), Some(Instruction::Return));
}

#[test]
fn decode_address_instructions() {
    assert_eq!(decode(0x1ABC), Some(Instruction::Jump { addr: 0xABC }));
    assert_eq!(decode(0x2FFF), Some(Instruction::Call { addr: 0xFFF }));
    assert_eq!(decode(0xA000), Some(Instruction::LoadIndex { addr: 0x000 }));
    assert_eq!(decode(0xB123), Some(Instruction::JumpOffset { addr: 0x123 }));
}

#[test]
fn decode_register_and_byte_instructions() {
    assert_eq!(decode(0x3A42), Some(Instruction::SkipEqByte { x: 0xA, byte: 0x42 }));
    assert_eq!(decode(0x4B00), Some(Instruction::SkipNeByte { x: 0xB, byte: 0x00 }));
    assert_eq!(decode(0x60FF), Some(Instruction::LoadByte { x: 0, byte: 0xFF }));
    assert_eq!(decode(0x7F01), Some(Instruction::AddByte { x: 0xF, byte: 0x01 }));
    assert_eq!(decode(0xC30F), Some(Instruction::Random { x: 3, byte: 0x0F }));
}

#[test]
fn decode_two_register_instructions() {
    assert_eq!(decode(0x5120), Some(Instruction::SkipEqReg { x: 1, y: 2 }));
    assert_eq!(decode(0x9AB0), Some(Instruction::SkipNeReg { x: 0xA, y: 0xB }));
    assert_eq!(decode(0x8120), Some(Instruction::Move { x: 1, y: 2 }));
    assert_eq!(decode(0x8121), Some(Instruction::Or { x: 1, y: 2 }));
    assert_eq!(decode(0x8122), Some(Instruction::And { x: 1, y: 2 }));
    assert_eq!(decode(0x8123), Some(Instruction::Xor { x: 1, y: 2 }));
    assert_eq!(decode(0x8124), Some(Instruction::AddCarry { x: 1, y: 2 }));
    assert_eq!(decode(0x8125), Some(Instruction::SubBorrow { x: 1, y: 2 }));
    assert_eq!(decode(0x8126), Some(Instruction::ShiftRight { x: 1 }));
    assert_eq!(decode(0x8127), Some(Instruction::SubReverse { x: 1, y: 2 }));
    assert_eq!(decode(0x812E), Some(Instruction::ShiftLeft { x: 1 }));
    assert_eq!(decode(0xD12F), Some(Instruction::Draw { x: 1, y: 2, rows: 0xF }));
    assert_eq!(decode(0xDEF0), Some(Instruction::Draw { x: 0xE, y: 0xF, rows: 0 }));
}

#[test]
fn decode_key_and_misc_instructions() {
    assert_eq!(decode(0xE19E), Some(Instruction::SkipKeyPressed { x: 1 }));
    assert_eq!(decode(0xE2A1), Some(Instruction::SkipKeyNotPressed { x: 2 }));
    assert_eq!(decode(0xF307), Some(Instruction::LoadDelay { x: 3 }));
    assert_eq!(decode(0xF40A), Some(Instruction::WaitKey { x: 4 }));
    assert_eq!(decode(0xF515), Some(Instruction::StoreDelay { x: 5 }));
    assert_eq!(decode(0xF618), Some(Instruction::StoreSound { x: 6 }));
    assert_eq!(decode(0xF71E), Some(Instruction::AddIndex { x: 7 }));
    assert_eq!(decode(0xF829), Some(Instruction::FontAddress { x: 8 }));
    assert_eq!(decode(0xF933), Some(Instruction::StoreBcd { x: 9 }));
    assert_eq!(decode(0xFA55), Some(Instruction::StoreRegisters { x: 0xA }));
    assert_eq!(decode(0xFB65), Some(Instruction::LoadRegisters { x: 0xB }));
}

#[test]
fn decode_rejects_words_outside_the_instruction_set() {
    for word in [
        0x0001u16, 0x00E1, 0x00EF, 0x0100, 0x0FFF, 0x5121, 0x512F, 0x8128, 0x812D, 0x812F, 0x9121,
        0xE000, 0xE19F, 0xE2A0, 0xF000, 0xF308, 0xF356, 0xF3FF,
    ] {
        assert_eq!(decode(word), None, "word {word:#06x}");
    }
}

#[test]
fn decode_accepts_exactly_the_documented_patterns() {
    let mut accepted = 0u32;
    for word in 0..=0xFFFFu16 {
        let kind = word >> 12;
        let last = word & 0xF;
        let byte = word & 0xFF;
        let expected = match kind {
            0x0 => word == 0x0000 || word == 0x00E0 || word == 0x00EE,
            0x5 | 0x9 => last == 0,
            0x8 => last <= 7 || last == 0xE,
            0xE => byte == 0x9E || byte == 0xA1,
            0xF => [0x07, 0x0A, 0x15, 0x18, 0x1E, 0x29, 0x33, 0x55, 0x65].contains(&byte),
            _ => true,
        };
        assert_eq!(decode(word).is_some(), expected, "word {word:#06x}");
        if expected {
            accepted += 1;
        }
    }
    assert_eq!(accepted, 3 + 10 * 4096 + 2 * 256 + 9 * 256 + 2 * 16 + 9 * 16);
}

#[test]
fn only_the_c_words_are_random() {
    for word in 0..=0xFFFFu16 {
        assert_eq!(is_random(word), word >> 12 == 0xC, "word {word:#06x}");
        assert_eq!(is_random(word), matches!(decode(word), Some(Instruction::Random { .. })));
    }
}
