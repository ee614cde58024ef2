use vstd::prelude::*;

verus! {

/// One decoded instruction word.
///
/// `x` and `y` name registers, `kk` is an immediate byte, `addr` a 12-bit
/// address and `n` a sprite height.
#[derive(Clone, Copy, Debug, PartialEq, Eq, Structural)]
pub enum Instruction {
    /// `0000`: do nothing.
    Nop,
    /// `00E0`: clear the display.
    ClearScreen,
    /// `00EE`: return from a subroutine.
    Return,
    /// `1nnn`: jump to `addr`.
    Jump { addr: u16 },
    /// `2nnn`: call the subroutine at `addr`.
    Call { addr: u16 },
    /// `3xkk`: skip the next instruction if `Vx == kk`.
    SkipEqImm { x: u8, kk: u8 },
    /// `4xkk`: skip the next instruction if `Vx != kk`.
    SkipNeImm { x: u8, kk: u8 },
    /// `5xy0`: skip the next instruction if `Vx == Vy`.
    SkipEqReg { x: u8, y: u8 },
    /// `6xkk`: `Vx = kk`.
    LoadImm { x: u8, kk: u8 },
    /// `7xkk`: `Vx = Vx + kk` modulo 256; the flag register is not touched.
    AddImm { x: u8, kk: u8 },
    /// `8xy0`: `Vx = Vy`.
    Move { x: u8, y: u8 },
    /// `8xy1`: `Vx = Vx | Vy`.
    Or { x: u8, y: u8 },
    /// `8xy2`: `Vx = Vx & Vy`.
    And { x: u8, y: u8 },
    /// `8xy3`: `Vx = Vx ^ Vy`.
    Xor { x: u8, y: u8 },
    /// `8xy4`: `Vx = Vx + Vy` modulo 256, flag = carry.
    Add { x: u8, y: u8 },
    /// `8xy5`: `Vx = Vx - Vy` modulo 256, flag = no borrow.
    Sub { x: u8, y: u8 },
    /// `8xy6`: `Vx = Vx / 2`, flag = the bit shifted out.
    ShiftRight { x: u8 },
    /// `8xy7`: `Vx = Vy - Vx` modulo 256, flag = no borrow.
    SubFrom { x: u8, y: u8 },
    /// `8xyE`: `Vx = 2 * Vx` modulo 256, flag = the bit shifted out.
    ShiftLeft { x: u8 },
    /// `9xy0`: skip the next instruction if `Vx != Vy`.
    SkipNeReg { x: u8, y: u8 },
    /// `Annn`: `I = addr`.
    LoadIndex { addr: u16 },
    /// `Bnnn`: jump to `addr + V0`.
    JumpOffset { addr: u16 },
    /// `Cxkk`: `Vx = random & kk`.
    Random { x: u8, kk: u8 },
    /// `Dxyn`: draw the `n`-row sprite at `I` at column `Vx`, row `Vy`.
    Draw { x: u8, y: u8, n: u8 },
    /// `Ex9E`: skip the next instruction if key `Vx` is pressed.
    SkipKey { x: u8 },
    /// `ExA1`: skip the next instruction if key `Vx` is not pressed.
    SkipNoKey { x: u8 },
    /// `Fx07`: `Vx = delay timer`.
    LoadDelay { x: u8 },
    /// `Fx0A`: wait for a key and store its index in `Vx`.
    WaitKey { x: u8 },
    /// `Fx15`: `delay timer = Vx`.
    SetDelay { x: u8 },
    /// `Fx18`: `sound timer = Vx`.
    SetSound { x: u8 },
    /// `Fx1E`: `I = I + Vx`.
    AddIndex { x: u8 },
    /// `Fx29`: `I =` address of the glyph of digit `Vx`.
    LoadGlyph { x: u8 },
    /// `Fx33`: store the three decimal digits of `Vx` at `I`.
    StoreBcd { x: u8 },
    /// `Fx55`: store `V0..=Vx` at `I`.
    StoreRegs { x: u8 },
    /// `Fx65`: load `V0..=Vx` from `I`.
    LoadRegs { x: u8 },
    /// Any other word.
    Unknown { opcode: u16 },
}

impl Instruction {
    /// Every register index is below 16, every address below 4096 and a
    /// sprite height below 16.
    pub open spec fn wf(self) -> bool {
        match self {
            Instruction::Nop | Instruction::ClearScreen | Instruction::Return => true,
            Instruction::Jump { addr }
            | Instruction::Call { addr }
            | Instruction::LoadIndex { addr }
            | Instruction::JumpOffset { addr } => addr < 4096,
            Instruction::SkipEqImm { x, kk }
            | Instruction::SkipNeImm { x, kk }
            | Instruction::LoadImm { x, kk }
            | Instruction::AddImm { x, kk }
            | Instruction::Random { x, kk } => x < 16,
            Instruction::SkipEqReg { x, y }
            | Instruction::Move { x, y }
            | Instruction::Or { x, y }
            | Instruction::And { x, y }
            | Instruction::Xor { x, y }
            | Instruction::Add { x, y }
            | Instruction::Sub { x, y }
            | Instruction::SubFrom { x, y }
            | Instruction::SkipNeReg { x, y } => x < 16 && y < 16,
            Instruction::Draw { x, y, n } => x < 16 && y < 16 && n < 16,
            Instruction::ShiftRight { x }
            | Instruction::ShiftLeft { x }
            | Instruction::SkipKey { x }
            | Instruction::SkipNoKey { x }
            | Instruction::LoadDelay { x }
            | Instruction::WaitKey { x }
            | Instruction::SetDelay { x }
            | Instruction::SetSound { x }
            | Instruction::AddIndex { x }
            | Instruction::LoadGlyph { x }
            | Instruction::StoreBcd { x }
            | Instruction::StoreRegs { x }
            | Instruction::LoadRegs { x } => x < 16,
            Instruction::Unknown { opcode } => true,
        }
    }
}

/// The leading nibble of an instruction word.
pub open spec fn nibble_op(opcode: u16) -> int {
    opcode as int / 4096
}

/// The second nibble: the register index `x`.
pub open spec fn nibble_x(opcode: u16) -> u8 {
    (opcode as int / 256 % 16) as u8
}

/// The third nibble: the register index `y`.
pub open spec fn nibble_y(opcode: u16) -> u8 {
    (opcode as int / 16 % 16) as u8
}

/// The last nibble: the sprite height `n`.
pub open spec fn nibble_n(opcode: u16) -> u8 {
    (opcode as int % 16) as u8
}

/// The low byte: the immediate `kk`.
pub open spec fn low_byte(opcode: u16) -> u8 {
    (opcode as int % 256) as u8
}

/// The low twelve bits: the address `nnn`.
pub open spec fn low_addr(opcode: u16) -> u16 {
    (opcode as int % 4096) as u16
}

/// The instruction that a word encodes.
pub open spec fn decode_spec(opcode: u16) -> Instruction {
    let op: int = nibble_op(opcode);
    let x: u8 = nibble_x(opcode);
    let y: u8 = nibble_y(opcode);
    let n: u8 = nibble_n(opcode);
    let kk: u8 = low_byte(opcode);
    let addr: u16 = low_addr(opcode);
    if opcode == 0x0000 {
        Instruction::Nop
    } else if opcode == 0x00E0 {
        Instruction::ClearScreen
    } else if opcode == 0x00EE {
        Instruction::Return
    } else if op == 0x1 {
        Instruction::Jump { addr }
    } else if op == 0x2 {
        Instruction::Call { addr }
    } else if op == 0x3 {
        Instruction::SkipEqImm { x, kk }
    } else if op == 0x4 {
        Instruction::SkipNeImm { x, kk }
    } else if op == 0x5 && n == 0x0 {
        Instruction::SkipEqReg { x, y }
    } else if op == 0x6 {
        Instruction::LoadImm { x, kk }
    } else if op == 0x7 {
        Instruction::AddImm { x, kk }
    } else if op == 0x8 && n == 0x0 {
        Instruction::Move { x, y }
    } else if op == 0x8 && n == 0x1 {
        Instruction::Or { x, y }
    } else if op == 0x8 && n == 0x2 {
        Instruction::And { x, y }
    } else if op == 0x8 && n == 0x3 {
        Instruction::Xor { x, y }
    } else if op == 0x8 && n == 0x4 {
        Instruction::Add { x, y }
    } else if op == 0x8 && n == 0x5 {
        Instruction::Sub { x, y }
    } else if op == 0x8 && n == 0x6 {
        Instruction::ShiftRight { x }
    } else if op == 0x8 && n == 0x7 {
        Instruction::SubFrom { x, y }
    } else if op == 0x8 && n == 0xE {
        Instruction::ShiftLeft { x }
    } else if op == 0x9 && n == 0x0 {
        Instruction::SkipNeReg { x, y }
    } else if op == 0xA {
        Instruction::LoadIndex { addr }
    } else if op == 0xB {
        Instruction::JumpOffset { addr }
    } else if op == 0xC {
        Instruction::Random { x, kk }
    } else if op == 0xD {
        Instruction::Draw { x, y, n }
    } else if op == 0xE && kk == 0x9E {
        Instruction::SkipKey { x }
    } else if op == 0xE && kk == 0xA1 {
        Instruction::SkipNoKey { x }
    } else if op == 0xF && kk == 0x07 {
        Instruction::LoadDelay { x }
    } else if op == 0xF && kk == 0x0A {
        Instruction::WaitKey { x }
    } else if op == 0xF && kk == 0x15 {
        Instruction::SetDelay { x }
    } else if op == 0xF && kk == 0x18 {
        Instruction::SetSound { x }
    } else if op == 0xF && kk == 0x1E {
        Instruction::AddIndex { x }
    } else if op == 0xF && kk == 0x29 {
        Instruction::LoadGlyph { x }
    } else if op == 0xF && kk == 0x33 {
        Instruction::StoreBcd { x }
    } else if op == 0xF && kk == 0x55 {
        Instruction::StoreRegs { x }
    } else if op == 0xF && kk == 0x65 {
        Instruction::LoadRegs { x }
    } else {
        Instruction::Unknown { opcode }
    }
}

/// Every decoded instruction is well formed.
pub proof fn lemma_decode_wf(opcode: u16)
    ensures
        decode_spec(opcode).wf(),
{
}

/// Splits an instruction word into its nibbles and recognises its form.
pub fn decode(opcode: u16) -> (ins: Instruction)
    ensures
        ins == decode_spec(opcode),
        ins.wf(),
{
    let op: u16 = opcode / 4096;
    let x: u8 = (opcode / 256 % 16) as u8;
    let y: u8 = (opcode / 16 % 16) as u8;
    let n: u8 = (opcode % 16) as u8;
    let kk: u8 = (opcode % 256) as u8;
    let addr: u16 = opcode % 4096;
    if opcode == 0x0000 {
        return Instruction::Nop;
    }
    if opcode == 0x00E0 {
        return Instruction::ClearScreen;
    }
    if opcode == 0x00EE {
        return Instruction::Return;
    }
    match op {
        0x1 => Instruction::Jump { addr },
        0x2 => Instruction::Call { addr },
        0x3 => Instruction::SkipEqImm { x, kk },
        0x4 => Instruction::SkipNeImm { x, kk },
        0x5 => if n == 0x0 {
            Instruction::SkipEqReg { x, y }
        } else {
            Instruction::Unknown { opcode }
        },
        0x6 => Instruction::LoadImm { x, kk },
        0x7 => Instruction::AddImm { x, kk },
        0x8 => match n {
            0x0 => Instruction::Move { x, y },
            0x1 => Instruction::Or { x, y },
            0x2 => Instruction::And { x, y },
            0x3 => Instruction::Xor { x, y },
            0x4 => Instruction::Add { x, y },
            0x5 => Instruction::Sub { x, y },
            0x6 => Instruction::ShiftRight { x },
            0x7 => Instruction::SubFrom { x, y },
            0xE => Instruction::ShiftLeft { x },
            _ => Instruction::Unknown { opcode },
        },
        0x9 => if n == 0x0 {
            Instruction::SkipNeReg { x, y }
        } else {
            Instruction::Unknown { opcode }
        },
        0xA => Instruction::LoadIndex { addr },
        0xB => Instruction::JumpOffset { addr },
        0xC => Instruction::Random { x, kk },
        0xD => Instruction::Draw { x, y, n },
        0xE => match kk {
            0x9E => Instruction::SkipKey { x },
            0xA1 => Instruction::SkipNoKey { x },
            _ => Instruction::Unknown { opcode },
        },
        0xF => match kk {
            0x07 => Instruction::LoadDelay { x },
            0x0A => Instruction::WaitKey { x },
            0x15 => Instruction::SetDelay { x },
            0x18 => Instruction::SetSound { x },
            0x1E => Instruction::AddIndex { x },
            0x29 => Instruction::LoadGlyph { x },
            0x33 => Instruction::StoreBcd { x },
            0x55 => Instruction::StoreRegs { x },
            0x65 => Instruction::LoadRegs { x },
            _ => Instruction::Unknown { opcode },
        },
        _ => Instruction::Unknown { opcode },
    }
}

} // verus!
