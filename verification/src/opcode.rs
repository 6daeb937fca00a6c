//! Instruction words and what they decode to.

use vstd::prelude::*;

verus! {

/// One instruction of the machine, with its operands taken apart.
///
/// `x` and `y` number registers, `nn` is an immediate byte, `addr` a
/// twelve-bit address and `n` a sprite's height in rows.
#[derive(Clone, Copy, Debug, PartialEq, Eq, Structural)]
pub enum Instruction {
    /// `0000`: do nothing.
    Nop,
    /// `00E0`: clear the screen.
    ClearScreen,
    /// `00EE`: return from a subroutine.
    Return,
    /// `1NNN`: jump to `addr`.
    Jump { addr: u16 },
    /// `2NNN`: call the subroutine at `addr`.
    Call { addr: u16 },
    /// `3XNN`: skip the next instruction if `V[x] == nn`.
    SkipEqImm { x: u8, nn: u8 },
    /// `4XNN`: skip the next instruction if `V[x] != nn`.
    SkipNeImm { x: u8, nn: u8 },
    /// `5XY0`: skip the next instruction if `V[x] == V[y]`.
    SkipEqReg { x: u8, y: u8 },
    /// `6XNN`: `V[x] = nn`.
    LoadImm { x: u8, nn: u8 },
    /// `7XNN`: `V[x] += nn`, wrapping, flag untouched.
    AddImm { x: u8, nn: u8 },
    /// `8XY0`: `V[x] = V[y]`.
    Move { x: u8, y: u8 },
    /// `8XY1`: `V[x] |= V[y]`.
    Or { x: u8, y: u8 },
    /// `8XY2`: `V[x] &= V[y]`.
    And { x: u8, y: u8 },
    /// `8XY3`: `V[x] ^= V[y]`.
    Xor { x: u8, y: u8 },
    /// `8XY4`: `V[x] += V[y]`, `VF` = carry.
    Add { x: u8, y: u8 },
    /// `8XY5`: `V[x] -= V[y]`, `VF` = no borrow.
    Sub { x: u8, y: u8 },
    /// `8XY6`: `V[x] >>= 1`, `VF` = the bit shifted out.
    ShiftRight { x: u8 },
    /// `8XY7`: `V[x] = V[y] - V[x]`, `VF` = no borrow.
    SubFrom { x: u8, y: u8 },
    /// `8XYE`: `V[x] <<= 1`, `VF` = the bit shifted out.
    ShiftLeft { x: u8 },
    /// `9XY0`: skip the next instruction if `V[x] != V[y]`.
    SkipNeReg { x: u8, y: u8 },
    /// `ANNN`: index register = `addr`.
    LoadIndex { addr: u16 },
    /// `BNNN`: jump to `V[0] + addr`.
    JumpOffset { addr: u16 },
    /// `CXNN`: `V[x]` = a random byte masked with `nn`.
    Random { x: u8, nn: u8 },
    /// `DXYN`: draw an `n`-row sprite at (`V[x]`, `V[y]`).
    Draw { x: u8, y: u8, n: u8 },
    /// `EX9E`: skip the next instruction if key `V[x]` is down.
    SkipKeyDown { x: u8 },
    /// `EXA1`: skip the next instruction if key `V[x]` is up.
    SkipKeyUp { x: u8 },
    /// `FX07`: `V[x]` = delay timer.
    ReadDelay { x: u8 },
    /// `FX0A`: wait until a key is down, then `V[x]` = that key.
    WaitKey { x: u8 },
    /// `FX15`: delay timer = `V[x]`.
    SetDelay { x: u8 },
    /// `FX18`: sound timer = `V[x]`.
    SetSound { x: u8 },
    /// `FX1E`: index register += `V[x]`, wrapping.
    AddIndex { x: u8 },
    /// `FX29`: index register = address of the glyph for `V[x]`.
    FontAddr { x: u8 },
    /// `FX33`: store the decimal digits of `V[x]` at the index register.
    StoreBcd { x: u8 },
    /// `FX55`: store `V[0..=x]` at the index register.
    StoreRegs { x: u8 },
    /// `FX65`: load `V[0..=x]` from the index register.
    LoadRegs { x: u8 },
}

/// The most significant four bits of an instruction word.
pub open spec fn nibble1(op: u16) -> int {
    op as int / 4096
}

/// The second four bits of an instruction word: the operand `X`.
pub open spec fn nibble2(op: u16) -> int {
    (op as int / 256) % 16
}

/// The third four bits of an instruction word: the operand `Y`.
pub open spec fn nibble3(op: u16) -> int {
    (op as int / 16) % 16
}

/// The least significant four bits of an instruction word: the operand `N`.
pub open spec fn nibble4(op: u16) -> int {
    op as int % 16
}

/// The low byte of an instruction word: the operand `NN`.
pub open spec fn low_byte(op: u16) -> int {
    op as int % 256
}

/// The low twelve bits of an instruction word: the operand `NNN`.
pub open spec fn low_addr(op: u16) -> int {
    op as int % 4096
}

/// The instructions of the family `8XY_`, told apart by the last nibble.
pub open spec fn decode_alu(x: u8, y: u8, n4: int) -> Option<Instruction> {
    if n4 == 0 {
        Some(Instruction::Move { x, y })
    } else if n4 == 1 {
        Some(Instruction::Or { x, y })
    } else if n4 == 2 {
        Some(Instruction::And { x, y })
    } else if n4 == 3 {
        Some(Instruction::Xor { x, y })
    } else if n4 == 4 {
        Some(Instruction::Add { x, y })
    } else if n4 == 5 {
        Some(Instruction::Sub { x, y })
    } else if n4 == 6 {
        Some(Instruction::ShiftRight { x })
    } else if n4 == 7 {
        Some(Instruction::SubFrom { x, y })
    } else if n4 == 0xE {
        Some(Instruction::ShiftLeft { x })
    } else {
        None
    }
}

/// The instructions of the family `FX__`, told apart by the low byte.
pub open spec fn decode_misc(x: u8, nn: int) -> Option<Instruction> {
    if nn == 0x07 {
        Some(Instruction::ReadDelay { x })
    } else if nn == 0x0A {
        Some(Instruction::WaitKey { x })
    } else if nn == 0x15 {
        Some(Instruction::SetDelay { x })
    } else if nn == 0x18 {
        Some(Instruction::SetSound { x })
    } else if nn == 0x1E {
        Some(Instruction::AddIndex { x })
    } else if nn == 0x29 {
        Some(Instruction::FontAddr { x })
    } else if nn == 0x33 {
        Some(Instruction::StoreBcd { x })
    } else if nn == 0x55 {
        Some(Instruction::StoreRegs { x })
    } else if nn == 0x65 {
        Some(Instruction::LoadRegs { x })
    } else {
        None
    }
}

/// The instruction that a word stands for, or `None` where it stands for none.
pub open spec fn decode_spec(op: u16) -> Option<Instruction> {
    let n1 = nibble1(op);
    let x = nibble2(op) as u8;
    let y = nibble3(op) as u8;
    let n = nibble4(op) as u8;
    let nn = low_byte(op) as u8;
    let addr = low_addr(op) as u16;
    if n1 == 0x0 {
        if op == 0x0000 {
            Some(Instruction::Nop)
        } else if op == 0x00E0 {
            Some(Instruction::ClearScreen)
        } else if op == 0x00EE {
            Some(Instruction::Return)
        } else {
            None
        }
    } else if n1 == 0x1 {
        Some(Instruction::Jump { addr })
    } else if n1 == 0x2 {
        Some(Instruction::Call { addr })
    } else if n1 == 0x3 {
        Some(Instruction::SkipEqImm { x, nn })
    } else if n1 == 0x4 {
        Some(Instruction::SkipNeImm { x, nn })
    } else if n1 == 0x5 {
        if n == 0 {
            Some(Instruction::SkipEqReg { x, y })
        } else {
            None
        }
    } else if n1 == 0x6 {
        Some(Instruction::LoadImm { x, nn })
    } else if n1 == 0x7 {
        Some(Instruction::AddImm { x, nn })
    } else if n1 == 0x8 {
        decode_alu(x, y, n as int)
    } else if n1 == 0x9 {
        if n == 0 {
            Some(Instruction::SkipNeReg { x, y })
        } else {
            None
        }
    } else if n1 == 0xA {
        Some(Instruction::LoadIndex { addr })
    } else if n1 == 0xB {
        Some(Instruction::JumpOffset { addr })
    } else if n1 == 0xC {
        Some(Instruction::Random { x, nn })
    } else if n1 == 0xD {
        Some(Instruction::Draw { x, y, n })
    } else if n1 == 0xE {
        if nn == 0x9E {
            Some(Instruction::SkipKeyDown { x })
        } else if nn == 0xA1 {
            Some(Instruction::SkipKeyUp { x })
        } else {
            None
        }
    } else {
        decode_misc(x, nn as int)
    }
}

impl Instruction {
    /// Whether the instruction steers the program: a jump, a call, a
    /// return, a skip, or the wait for a key.
    pub open spec fn is_control(self) -> bool {
        self is Return || self is Jump || self is Call || self is SkipEqImm || self is SkipNeImm
            || self is SkipEqReg || self is SkipNeReg || self is JumpOffset || self is SkipKeyDown
            || self is SkipKeyUp || self is WaitKey
    }

    /// Whether the instruction computes a register and does nothing
    /// else.
    pub open spec fn is_register(self) -> bool {
        self is LoadImm || self is AddImm || self is Move || self is Or || self is And
            || self is Xor || self is Add || self is Sub || self is ShiftRight || self is SubFrom
            || self is ShiftLeft || self is Random || self is ReadDelay
    }

    /// Register numbers are below sixteen, addresses below 4096, and a
    /// sprite has at most fifteen rows.
    pub open spec fn wf(self) -> bool {
        match self {
            Instruction::Nop | Instruction::ClearScreen | Instruction::Return => true,
            Instruction::Jump { addr }
            | Instruction::Call { addr }
            | Instruction::LoadIndex { addr }
            | Instruction::JumpOffset { addr } => addr < 4096,
            Instruction::SkipEqImm { x, nn }
            | Instruction::SkipNeImm { x, nn }
            | Instruction::LoadImm { x, nn }
            | Instruction::AddImm { x, nn }
            | Instruction::Random { x, nn } => x < 16,
            Instruction::SkipEqReg { x, y }
            | Instruction::Move { x, y }
            | Instruction::Or { x, y }
            | Instruction::And { x, y }
            | Instruction::Xor { x, y }
            | Instruction::Add { x, y }
            | Instruction::Sub { x, y }
            | Instruction::SubFrom { x, y }
            | Instruction::SkipNeReg { x, y } => x < 16 && y < 16,
            Instruction::Draw { x, y, n } => x < 16 && y < 16 && n < 16,
            Instruction::ShiftRight { x }
            | Instruction::ShiftLeft { x }
            | Instruction::SkipKeyDown { x }
            | Instruction::SkipKeyUp { x }
            | Instruction::ReadDelay { x }
            | Instruction::WaitKey { x }
            | Instruction::SetDelay { x }
            | Instruction::SetSound { x }
            | Instruction::AddIndex { x }
            | Instruction::FontAddr { x }
            | Instruction::StoreBcd { x }
            | Instruction::StoreRegs { x }
            | Instruction::LoadRegs { x } => x < 16,
        }
    }
}

/// The instruction word with the given four nibbles, most significant
/// first.
pub open spec fn word(n1: int, n2: int, n3: int, n4: int) -> u16 {
    (4096 * n1 + 256 * n2 + 16 * n3 + n4) as u16
}

/// A word put together from four nibbles comes apart into the same four.
pub proof fn lemma_word_nibbles(n1: int, n2: int, n3: int, n4: int)
    requires
        0 <= n1 < 16,
        0 <= n2 < 16,
        0 <= n3 < 16,
        0 <= n4 < 16,
    ensures
        nibble1(word(n1, n2, n3, n4)) == n1,
        nibble2(word(n1, n2, n3, n4)) == n2,
        nibble3(word(n1, n2, n3, n4)) == n3,
        nibble4(word(n1, n2, n3, n4)) == n4,
        low_byte(word(n1, n2, n3, n4)) == 16 * n3 + n4,
        low_addr(word(n1, n2, n3, n4)) == 256 * n2 + 16 * n3 + n4,
{
    let w = 4096 * n1 + 256 * n2 + 16 * n3 + n4;
    let low12 = 256 * n2 + 16 * n3 + n4;
    let low8 = 16 * n3 + n4;
    assert(0 <= w < 65536);
    assert(word(n1, n2, n3, n4) as int == w);
    assert(w / 4096 == n1 && w % 4096 == low12) by {
        assert(w == 4096 * n1 + low12 && 0 <= low12 < 4096);
    }
    assert(w / 256 == 16 * n1 + n2 && w % 256 == low8) by {
        assert(w == 256 * (16 * n1 + n2) + low8 && 0 <= low8 < 256);
    }
    assert((16 * n1 + n2) % 16 == n2);
    assert(w / 16 == 256 * n1 + 16 * n2 + n3 && w % 16 == n4) by {
        assert(w == 16 * (256 * n1 + 16 * n2 + n3) + n4 && 0 <= n4 < 16);
    }
    assert((256 * n1 + 16 * n2 + n3) % 16 == n3) by {
        assert(256 * n1 + 16 * n2 + n3 == 16 * (16 * n1 + n2) + n3);
    }
}

/// Every instruction that a word decodes to has operands in range.
pub proof fn lemma_decode_wf(op: u16)
    ensures
        decode_spec(op) matches Some(ins) ==> ins.wf(),
{
}

/// How the shifts and masks that take a word apart relate to division.
proof fn lemma_fields(op: u16)
    ensures
        (op & 0xF000) >> 12 == op / 4096,
        (op & 0x0F00) >> 8 == (op / 256) % 16,
        (op & 0x00F0) >> 4 == (op / 16) % 16,
        op & 0x000F == op % 16,
        op & 0x00FF == op % 256,
        op & 0x0FFF == op % 4096,
{
    assert((op & 0xF000) >> 12 == op / 4096) by (bit_vector);
    assert((op & 0x0F00) >> 8 == (op / 256) % 16) by (bit_vector);
    assert((op & 0x00F0) >> 4 == (op / 16) % 16) by (bit_vector);
    assert(op & 0x000F == op % 16) by (bit_vector);
    assert(op & 0x00FF == op % 256) by (bit_vector);
    assert(op & 0x0FFF == op % 4096) by (bit_vector);
}

/// Splits an instruction word into its nibbles and finds the instruction:
/// first by the leading nibble, then, in the families `0`, `5`, `8`, `9`,
/// `E` and `F`, by the nibbles that follow.
pub fn decode(op: u16) -> (r: Option<Instruction>)
    ensures
        r == decode_spec(op),
{
    proof {
        lemma_fields(op);
    }
    let digit1: u16 = (op & 0xF000) >> 12;
    let x: u8 = ((op & 0x0F00) >> 8) as u8;
    let y: u8 = ((op & 0x00F0) >> 4) as u8;
    let n: u8 = (op & 0x000F) as u8;
    let nn: u8 = (op & 0x00FF) as u8;
    let addr: u16 = op & 0x0FFF;
    match digit1 {
        0x0 => match op {
            0x0000 => Some(Instruction::Nop),
            0x00E0 => Some(Instruction::ClearScreen),
            0x00EE => Some(Instruction::Return),
            _ => None,
        },
        0x1 => Some(Instruction::Jump { addr }),
        0x2 => Some(Instruction::Call { addr }),
        0x3 => Some(Instruction::SkipEqImm { x, nn }),
        0x4 => Some(Instruction::SkipNeImm { x, nn }),
        0x5 => match n {
            0 => Some(Instruction::SkipEqReg { x, y }),
            _ => None,
        },
        0x6 => Some(Instruction::LoadImm { x, nn }),
        0x7 => Some(Instruction::AddImm { x, nn }),
        0x8 => match n {
            0x0 => Some(Instruction::Move { x, y }),
            0x1 => Some(Instruction::Or { x, y }),
            0x2 => Some(Instruction::And { x, y }),
            0x3 => Some(Instruction::Xor { x, y }),
            0x4 => Some(Instruction::Add { x, y }),
            0x5 => Some(Instruction::Sub { x, y }),
            0x6 => Some(Instruction::ShiftRight { x }),
            0x7 => Some(Instruction::SubFrom { x, y }),
            0xE => Some(Instruction::ShiftLeft { x }),
            _ => None,
        },
        0x9 => match n {
            0 => Some(Instruction::SkipNeReg { x, y }),
            _ => None,
        },
        0xA => Some(Instruction::LoadIndex { addr }),
        0xB => Some(Instruction::JumpOffset { addr }),
        0xC => Some(Instruction::Random { x, nn }),
        0xD => Some(Instruction::Draw { x, y, n }),
        0xE => match nn {
            0x9E => Some(Instruction::SkipKeyDown { x }),
            0xA1 => Some(Instruction::SkipKeyUp { x }),
            _ => None,
        },
        _ => match nn {
            0x07 => Some(Instruction::ReadDelay { x }),
            0x0A => Some(Instruction::WaitKey { x }),
            0x15 => Some(Instruction::SetDelay { x }),
            0x18 => Some(Instruction::SetSound { x }),
            0x1E => Some(Instruction::AddIndex { x }),
            0x29 => Some(Instruction::FontAddr { x }),
            0x33 => Some(Instruction::StoreBcd { x }),
            0x55 => Some(Instruction::StoreRegs { x }),
            0x65 => Some(Instruction::LoadRegs { x }),
            _ => None,
        },
    }
}

} // verus!
