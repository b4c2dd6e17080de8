//! Instruction words and their decoding into operations with operands.

use vstd::prelude::*;

verus! {

/// One operation of the machine with its operands.
///
/// `x` and `y` are register numbers, `addr` is a twelve-bit address, `byte`
/// an immediate value and `rows` a sprite height.
#[derive(Clone, Copy, Debug, PartialEq, Eq, Structural)]
pub enum Instruction {
    /// `0000`: does nothing.
    Nop,
    /// `00E0`: clears the framebuffer.
    ClearScreen,
    /// `00EE`: returns from a call.
    Return,
    /// `1nnn`: jumps to `addr`.
    Jump { addr: u16 },
    /// `2nnn`: calls the routine at `addr`.
    Call { addr: u16 },
    /// `3xkk`: skips the next instruction if `Vx == byte`.
    SkipEqByte { x: u8, byte: u8 },
    /// `4xkk`: skips the next instruction if `Vx != byte`.
    SkipNeByte { x: u8, byte: u8 },
    /// `5xy0`: skips the next instruction if `Vx == Vy`.
    SkipEqReg { x: u8, y: u8 },
    /// `6xkk`: `Vx = byte`.
    LoadByte { x: u8, byte: u8 },
    /// `7xkk`: `Vx = Vx + byte` modulo 256, no flag.
    AddByte { x: u8, byte: u8 },
    /// `8xy0`: `Vx = Vy`.
    Move { x: u8, y: u8 },
    /// `8xy1`: `Vx = Vx | Vy`.
    Or { x: u8, y: u8 },
    /// `8xy2`: `Vx = Vx & Vy`.
    And { x: u8, y: u8 },
    /// `8xy3`: `Vx = Vx ^ Vy`.
    Xor { x: u8, y: u8 },
    /// `8xy4`: `Vx = Vx + Vy` modulo 256, `VF` = carry.
    AddCarry { x: u8, y: u8 },
    /// `8xy5`: `Vx = Vx - Vy` modulo 256, `VF` = no borrow.
    SubBorrow { x: u8, y: u8 },
    /// `8xy6`: `VF` = lowest bit of `Vx`, then `Vx` is halved. `Vy` is unused.
    ShiftRight { x: u8 },
    /// `8xy7`: `VF` = `Vy > Vx`, then `Vx = Vy - Vx` modulo 256.
    SubReverse { x: u8, y: u8 },
    /// `8xyE`: `VF` = highest bit of `Vx`, then `Vx` is doubled modulo 256.
    /// `Vy` is unused.
    ShiftLeft { x: u8 },
    /// `9xy0`: skips the next instruction if `Vx != Vy`.
    SkipNeReg { x: u8, y: u8 },
    /// `Annn`: `I = addr`.
    LoadIndex { addr: u16 },
    /// `Bnnn`: jumps to `V0 + addr`.
    JumpOffset { addr: u16 },
    /// `Cxkk`: `Vx` = a random byte masked with `byte`.
    Random { x: u8, byte: u8 },
    /// `Dxyn`: draws the sprite of `rows` bytes at `I` at `(Vx, Vy)`.
    Draw { x: u8, y: u8, rows: u8 },
    /// `Ex9E`: skips the next instruction if key `Vx` is down.
    SkipKeyPressed { x: u8 },
    /// `ExA1`: skips the next instruction if key `Vx` is up.
    SkipKeyNotPressed { x: u8 },
    /// `Fx07`: `Vx` = delay timer.
    LoadDelay { x: u8 },
    /// `Fx0A`: waits for a key and stores its number in `Vx`.
    WaitKey { x: u8 },
    /// `Fx15`: delay timer = `Vx`.
    StoreDelay { x: u8 },
    /// `Fx18`: sound timer = `Vx`.
    StoreSound { x: u8 },
    /// `Fx1E`: `I = I + Vx` modulo 65536.
    AddIndex { x: u8 },
    /// `Fx29`: `I` = address of the glyph for digit `Vx`.
    FontAddress { x: u8 },
    /// `Fx33`: stores the three decimal digits of `Vx` at `I`, `I+1`, `I+2`.
    StoreBcd { x: u8 },
    /// `Fx55`: stores `V0` to `Vx` in memory from `I` on.
    StoreRegisters { x: u8 },
    /// `Fx65`: loads `V0` to `Vx` from memory from `I` on.
    LoadRegisters { x: u8 },
}

impl Instruction {
    /// Register numbers and the sprite height are below 16, addresses below
    /// 4096: what four-bit and twelve-bit fields can hold.
    pub open spec fn wf(self) -> bool {
        match self {
            Instruction::Nop | Instruction::ClearScreen | Instruction::Return => true,
            Instruction::Jump { addr }
            | Instruction::Call { addr }
            | Instruction::LoadIndex { addr }
            | Instruction::JumpOffset { addr } => addr < 4096,
            Instruction::SkipEqByte { x, byte }
            | Instruction::SkipNeByte { x, byte }
            | Instruction::LoadByte { x, byte }
            | Instruction::AddByte { x, byte }
            | Instruction::Random { x, byte } => x < 16,
            Instruction::SkipEqReg { x, y }
            | Instruction::Move { x, y }
            | Instruction::Or { x, y }
            | Instruction::And { x, y }
            | Instruction::Xor { x, y }
            | Instruction::AddCarry { x, y }
            | Instruction::SubBorrow { x, y }
            | Instruction::SubReverse { x, y }
            | Instruction::SkipNeReg { x, y } => x < 16 && y < 16,
            Instruction::Draw { x, y, rows } => x < 16 && y < 16 && rows < 16,
            Instruction::ShiftRight { x }
            | Instruction::ShiftLeft { x }
            | Instruction::SkipKeyPressed { x }
            | Instruction::SkipKeyNotPressed { x }
            | Instruction::LoadDelay { x }
            | Instruction::WaitKey { x }
            | Instruction::StoreDelay { x }
            | Instruction::StoreSound { x }
            | Instruction::AddIndex { x }
            | Instruction::FontAddress { x }
            | Instruction::StoreBcd { x }
            | Instruction::StoreRegisters { x }
            | Instruction::LoadRegisters { x } => x < 16,
        }
    }
}

/// The hexadecimal digit of `opcode` at `place`, where place 3 is the
/// leading digit and place 0 the last.
pub open spec fn digit(opcode: u16, place: nat) -> u8 {
    if place == 3 {
        (opcode / 0x1000) as u8
    } else if place == 2 {
        ((opcode / 0x100) % 0x10) as u8
    } else if place == 1 {
        ((opcode / 0x10) % 0x10) as u8
    } else {
        (opcode % 0x10) as u8
    }
}

/// The low twelve bits of `opcode`.
pub open spec fn address_field(opcode: u16) -> u16 {
    (opcode % 0x1000) as u16
}

/// The low eight bits of `opcode`.
pub open spec fn byte_field(opcode: u16) -> u8 {
    (opcode % 0x100) as u8
}

/// The operation that an instruction word stands for, or `None` where the
/// word matches no pattern of the instruction set.
pub open spec fn decode_spec(opcode: u16) -> Option<Instruction> {
    let kind: u8 = digit(opcode, 3);
    let x: u8 = digit(opcode, 2);
    let y: u8 = digit(opcode, 1);
    let last: u8 = digit(opcode, 0);
    let addr: u16 = address_field(opcode);
    let byte: u8 = byte_field(opcode);
    if kind == 0x0 {
        if opcode == 0x0000 {
            Some(Instruction::Nop)
        } else if opcode == 0x00E0 {
            Some(Instruction::ClearScreen)
        } else if opcode == 0x00EE {
            Some(Instruction::Return)
        } else {
            None
        }
    } else if kind == 0x1 {
        Some(Instruction::Jump { addr })
    } else if kind == 0x2 {
        Some(Instruction::Call { addr })
    } else if kind == 0x3 {
        Some(Instruction::SkipEqByte { x, byte })
    } else if kind == 0x4 {
        Some(Instruction::SkipNeByte { x, byte })
    } else if kind == 0x5 {
        if last == 0x0 {
            Some(Instruction::SkipEqReg { x, y })
        } else {
            None
        }
    } else if kind == 0x6 {
        Some(Instruction::LoadByte { x, byte })
    } else if kind == 0x7 {
        Some(Instruction::AddByte { x, byte })
    } else if kind == 0x8 {
        if last == 0x0 {
            Some(Instruction::Move { x, y })
        } else if last == 0x1 {
            Some(Instruction::Or { x, y })
        } else if last == 0x2 {
            Some(Instruction::And { x, y })
        } else if last == 0x3 {
            Some(Instruction::Xor { x, y })
        } else if last == 0x4 {
            Some(Instruction::AddCarry { x, y })
        } else if last == 0x5 {
            Some(Instruction::SubBorrow { x, y })
        } else if last == 0x6 {
            Some(Instruction::ShiftRight { x })
        } else if last == 0x7 {
            Some(Instruction::SubReverse { x, y })
        } else if last == 0xE {
            Some(Instruction::ShiftLeft { x })
        } else {
            None
        }
    } else if kind == 0x9 {
        if last == 0x0 {
            Some(Instruction::SkipNeReg { x, y })
        } else {
            None
        }
    } else if kind == 0xA {
        Some(Instruction::LoadIndex { addr })
    } else if kind == 0xB {
        Some(Instruction::JumpOffset { addr })
    } else if kind == 0xC {
        Some(Instruction::Random { x, byte })
    } else if kind == 0xD {
        Some(Instruction::Draw { x, y, rows: last })
    } else if kind == 0xE {
        if byte == 0x9E {
            Some(Instruction::SkipKeyPressed { x })
        } else if byte == 0xA1 {
            Some(Instruction::SkipKeyNotPressed { x })
        } else {
            None
        }
    } else {
        if byte == 0x07 {
            Some(Instruction::LoadDelay { x })
        } else if byte == 0x0A {
            Some(Instruction::WaitKey { x })
        } else if byte == 0x15 {
            Some(Instruction::StoreDelay { x })
        } else if byte == 0x18 {
            Some(Instruction::StoreSound { x })
        } else if byte == 0x1E {
            Some(Instruction::AddIndex { x })
        } else if byte == 0x29 {
            Some(Instruction::FontAddress { x })
        } else if byte == 0x33 {
            Some(Instruction::StoreBcd { x })
        } else if byte == 0x55 {
            Some(Instruction::StoreRegisters { x })
        } else if byte == 0x65 {
            Some(Instruction::LoadRegisters { x })
        } else {
            None
        }
    }
}

/// Whether the word is the random-number instruction `Cxkk`, the only one
/// whose effect is not a function of the machine state alone.
pub open spec fn is_random_opcode(opcode: u16) -> bool {
    digit(opcode, 3) == 0xC
}

/// Every decoded instruction has its operands in range.
pub proof fn lemma_decode_wf(opcode: u16)
    ensures
        decode_spec(opcode) matches Some(ins) ==> ins.wf(),
{
}

/// Masking and shifting an instruction word yields its hexadecimal digits
/// and its address and byte fields.
proof fn lemma_fields(opcode: u16)
    ensures
        (opcode & 0xF000) >> 12 == opcode / 0x1000,
        (opcode & 0x0F00) >> 8 == (opcode / 0x100) % 0x10,
        (opcode & 0x00F0) >> 4 == (opcode / 0x10) % 0x10,
        opcode & 0x000F == opcode % 0x10,
        opcode & 0x0FFF == opcode % 0x1000,
        opcode & 0x00FF == opcode % 0x100,
{
    assert((opcode & 0xF000) >> 12 == opcode / 0x1000) by (bit_vector);
    assert((opcode & 0x0F00) >> 8 == (opcode / 0x100) % 0x10) by (bit_vector);
    assert((opcode & 0x00F0) >> 4 == (opcode / 0x10) % 0x10) by (bit_vector);
    assert(opcode & 0x000F == opcode % 0x10) by (bit_vector);
    assert(opcode & 0x0FFF == opcode % 0x1000) by (bit_vector);
    assert(opcode & 0x00FF == opcode % 0x100) by (bit_vector);
}

/// Decodes an instruction word.
pub fn decode(opcode: u16) -> (r: Option<Instruction>)
    ensures
        r == decode_spec(opcode),
        r matches Some(ins) ==> ins.wf(),
{
    proof {
        lemma_fields(opcode);
    }
    let kind: u16 = (opcode & 0xF000) >> 12;
    let x: u8 = ((opcode & 0x0F00) >> 8) as u8;
    let y: u8 = ((opcode & 0x00F0) >> 4) as u8;
    let last: u8 = (opcode & 0x000F) as u8;
    let addr: u16 = opcode & 0x0FFF;
    let byte: u8 = (opcode & 0x00FF) as u8;
    match (kind, last) {
        (0x0, _) => {
            if opcode == 0x0000 {
                Some(Instruction::Nop)
            } else if opcode == 0x00E0 {
                Some(Instruction::ClearScreen)
            } else if opcode == 0x00EE {
                Some(Instruction::Return)
            } else {
                None
            }
        },
        (0x1, _) => Some(Instruction::Jump { addr }),
        (0x2, _) => Some(Instruction::Call { addr }),
        (0x3, _) => Some(Instruction::SkipEqByte { x, byte }),
        (0x4, _) => Some(Instruction::SkipNeByte { x, byte }),
        (0x5, 0x0) => Some(Instruction::SkipEqReg { x, y }),
        (0x6, _) => Some(Instruction::LoadByte { x, byte }),
        (0x7, _) => Some(Instruction::AddByte { x, byte }),
        (0x8, 0x0) => Some(Instruction::Move { x, y }),
        (0x8, 0x1) => Some(Instruction::Or { x, y }),
        (0x8, 0x2) => Some(Instruction::And { x, y }),
        (0x8, 0x3) => Some(Instruction::Xor { x, y }),
        (0x8, 0x4) => Some(Instruction::AddCarry { x, y }),
        (0x8, 0x5) => Some(Instruction::SubBorrow { x, y }),
        (0x8, 0x6) => Some(Instruction::ShiftRight { x }),
        (0x8, 0x7) => Some(Instruction::SubReverse { x, y }),
        (0x8, 0xE) => Some(Instruction::ShiftLeft { x }),
        (0x9, 0x0) => Some(Instruction::SkipNeReg { x, y }),
        (0xA, _) => Some(Instruction::LoadIndex { addr }),
        (0xB, _) => Some(Instruction::JumpOffset { addr }),
        (0xC, _) => Some(Instruction::Random { x, byte }),
        (0xD, _) => Some(Instruction::Draw { x, y, rows: last }),
        (0xE, _) => {
            if byte == 0x9E {
                Some(Instruction::SkipKeyPressed { x })
            } else if byte == 0xA1 {
                Some(Instruction::SkipKeyNotPressed { x })
            } else {
                None
            }
        },
        (0xF, _) => {
            if byte == 0x07 {
                Some(Instruction::LoadDelay { x })
            } else if byte == 0x0A {
                Some(Instruction::WaitKey { x })
            } else if byte == 0x15 {
                Some(Instruction::StoreDelay { x })
            } else if byte == 0x18 {
                Some(Instruction::StoreSound { x })
            } else if byte == 0x1E {
                Some(Instruction::AddIndex { x })
            } else if byte == 0x29 {
                Some(Instruction::FontAddress { x })
            } else if byte == 0x33 {
                Some(Instruction::StoreBcd { x })
            } else if byte == 0x55 {
                Some(Instruction::StoreRegisters { x })
            } else if byte == 0x65 {
                Some(Instruction::LoadRegisters { x })
            } else {
                None
            }
        },
        _ => None,
    }
}

/// Whether the word is the random-number instruction.
pub fn is_random(opcode: u16) -> (r: bool)
    ensures
        r == is_random_opcode(opcode),
{
    proof {
        lemma_fields(opcode);
    }
    (opcode & 0xF000) >> 12 == 0xC
}

} // verus!
