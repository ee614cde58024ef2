use vstd::prelude::*;
use crate::error::{Chip8Error, Outcome};
use crate::font::font_bytes;
use crate::instruction::{decode_spec, Instruction};

verus! {

/// Bytes of addressable memory.
pub const MEMORY_SIZE: usize = 4096;

/// Address at which programs are loaded and execution starts.
pub const PROGRAM_START: u16 = 0x200;

/// Largest program that fits between `PROGRAM_START` and the end of memory.
pub const MAX_PROGRAM_SIZE: usize = 3584;

/// Number of general registers; the last one doubles as the flag register.
pub const REGISTER_COUNT: usize = 16;

/// Index of the flag register.
pub const FLAG: usize = 15;

/// Number of return addresses the call stack can hold.
pub const STACK_DEPTH: usize = 16;

/// Number of keys on the pad.
pub const KEY_COUNT: usize = 16;

/// Display width in pixels.
pub const DISPLAY_WIDTH: usize = 64;

/// Display height in pixels.
pub const DISPLAY_HEIGHT: usize = 32;

/// The mathematical state of the machine.
///
/// `stack` holds only the return addresses of the calls that are outstanding,
/// oldest first. `display[r][c]` is the pixel in row `r`, column `c`.
#[verifier::ext_equal]
pub struct Machine {
    pub memory: Seq<u8>,
    pub registers: Seq<u8>,
    pub index: u16,
    pub pc: u16,
    pub display: Seq<Seq<bool>>,
    pub delay_timer: u8,
    pub sound_timer: u8,
    pub stack: Seq<u16>,
    pub keys: Seq<bool>,
}

/// Bit `col` of a sprite row, counted from the most significant bit.
pub open spec fn sprite_bit(row: u8, col: int) -> bool {
    (row >> ((7 - col) as u8)) & 1u8 == 1u8
}

/// `k` is the lowest index of a pressed key.
pub open spec fn is_lowest_pressed(keys: Seq<bool>, k: int) -> bool {
    &&& 0 <= k < keys.len()
    &&& keys[k]
    &&& forall|j: int| 0 <= j < k ==> !#[trigger] keys[j]
}

/// Some key is pressed.
pub open spec fn any_pressed(keys: Seq<bool>) -> bool {
    exists|k: int| 0 <= k < keys.len() && #[trigger] keys[k]
}

/// The lowest index of a pressed key, if any key is pressed.
pub open spec fn lowest_pressed(keys: Seq<bool>) -> Option<int> {
    if any_pressed(keys) {
        Some(choose|k: int| is_lowest_pressed(keys, k))
    } else {
        None
    }
}

/// The lowest pressed key is unique: whichever key has no pressed key below
/// it is the one that `lowest_pressed` names.
pub proof fn lemma_lowest_pressed_unique(keys: Seq<bool>, k: int)
    requires
        is_lowest_pressed(keys, k),
    ensures
        lowest_pressed(keys) == Some(k),
{
    assert(keys[k]);
    let c: int = choose|c: int| is_lowest_pressed(keys, c);
    assert(is_lowest_pressed(keys, c));
    if c < k {
        assert(!keys[c]);
    }
    if k < c {
        assert(!keys[k]);
    }
}

/// Only the random instruction looks at the random byte.
pub proof fn lemma_random_only_matters_when_drawn(m: Machine, first: u8, second: u8)
    requires
        !m.draws_random(),
    ensures
        m.step(first) == m.step(second),
{
}

impl Machine {
    /// All components have their fixed sizes and the stack is within its
    /// capacity.
    pub open spec fn wf(self) -> bool {
        &&& self.memory.len() == MEMORY_SIZE
        &&& self.registers.len() == REGISTER_COUNT
        &&& self.display.len() == DISPLAY_HEIGHT
        &&& forall|r: int| 0 <= r < DISPLAY_HEIGHT ==> (#[trigger] self.display[r]).len() == DISPLAY_WIDTH
        &&& self.stack.len() <= STACK_DEPTH
        &&& self.keys.len() == KEY_COUNT
    }

    /// The cleared machine: everything zero, execution at `PROGRAM_START`.
    pub open spec fn blank() -> Machine {
        Machine {
            memory: Seq::new(MEMORY_SIZE as nat, |i: int| 0u8),
            registers: Seq::new(REGISTER_COUNT as nat, |i: int| 0u8),
            index: 0,
            pc: PROGRAM_START,
            display: Self::dark(),
            delay_timer: 0,
            sound_timer: 0,
            stack: Seq::empty(),
            keys: Seq::new(KEY_COUNT as nat, |i: int| false),
        }
    }

    /// The display with every pixel off.
    pub open spec fn dark() -> Seq<Seq<bool>> {
        Seq::new(
            DISPLAY_HEIGHT as nat,
            |r: int| Seq::new(DISPLAY_WIDTH as nat, |c: int| false),
        )
    }

    /// `bytes` written into memory from `start` on.
    pub open spec fn with_bytes(self, start: int, bytes: Seq<u8>) -> Machine {
        Machine {
            memory: Seq::new(
                self.memory.len(),
                |i: int|
                    if start <= i < start + bytes.len() {
                        bytes[i - start]
                    } else {
                        self.memory[i]
                    },
            ),
            ..self
        }
    }

    /// The font written at the bottom of memory.
    pub open spec fn with_font(self) -> Machine {
        self.with_bytes(0, font_bytes())
    }

    /// The machine after initialisation: cleared, with the font in place.
    pub open spec fn initial() -> Machine {
        Self::blank().with_font()
    }

    /// A program written at `PROGRAM_START`.
    pub open spec fn with_program(self, bytes: Seq<u8>) -> Machine {
        self.with_bytes(PROGRAM_START as int, bytes)
    }

    /// One key flag changed.
    pub open spec fn with_key(self, key: int, pressed: bool) -> Machine {
        Machine { keys: self.keys.update(key, pressed), ..self }
    }

    /// Both timers count down by one and stop at zero.
    pub open spec fn tick(self) -> Machine {
        Machine {
            delay_timer: if self.delay_timer > 0 {
                (self.delay_timer - 1) as u8
            } else {
                0
            },
            sound_timer: if self.sound_timer > 0 {
                (self.sound_timer - 1) as u8
            } else {
                0
            },
            ..self
        }
    }

    /// The instruction word at the program counter, high byte first, or
    /// `None` if it does not lie within memory.
    pub open spec fn fetch(self) -> Option<u16> {
        if self.pc as int + 1 < MEMORY_SIZE {
            Some((self.memory[self.pc as int] as int * 256 + self.memory[self.pc as int + 1] as int) as u16)
        } else {
            None
        }
    }

    /// Register `x`.
    pub open spec fn reg(self, x: u8) -> u8 {
        self.registers[x as int]
    }

    /// The program counter moved forward by `by` bytes.
    pub open spec fn advance(self, by: int) -> Machine {
        Machine { pc: (self.pc + by) as u16, ..self }
    }

    /// Moves past the current instruction, and past the next one too if
    /// `skip` holds.
    pub open spec fn advance_skipping(self, skip: bool) -> Machine {
        self.advance(if skip { 4 } else { 2 })
    }

    /// Register `x` set to `value`.
    pub open spec fn set_reg(self, x: u8, value: u8) -> Machine {
        Machine { registers: self.registers.update(x as int, value), ..self }
    }

    /// Register `x` set to `value`, and then the flag register set to `flag`.
    /// When `x` is the flag register itself, the flag wins.
    pub open spec fn set_reg_flag(self, x: u8, value: u8, flag: bool) -> Machine {
        Machine {
            registers: self.registers.update(x as int, value).update(
                FLAG as int,
                if flag { 1u8 } else { 0u8 },
            ),
            ..self
        }
    }

    /// The sprite at `I`, drawn with its top left corner at column `vx`,
    /// row `vy`, has a set bit that lands on pixel (`r`, `c`). Coordinates
    /// wrap around the display edges.
    pub open spec fn sprite_covers(self, vx: int, vy: int, n: int, r: int, c: int) -> bool {
        let row: int = (r - vy) % (DISPLAY_HEIGHT as int);
        let col: int = (c - vx) % (DISPLAY_WIDTH as int);
        row < n && col < 8 && sprite_bit(self.memory[self.index + row], col)
    }

    /// The display after drawing: each pixel under a set sprite bit flips.
    pub open spec fn drawn(self, vx: int, vy: int, n: int) -> Seq<Seq<bool>> {
        Seq::new(
            DISPLAY_HEIGHT as nat,
            |r: int|
                Seq::new(
                    DISPLAY_WIDTH as nat,
                    |c: int| self.display[r][c] != self.sprite_covers(vx, vy, n, r, c),
                ),
        )
    }

    /// Drawing turns a lit pixel off.
    pub open spec fn erases(self, vx: int, vy: int, n: int) -> bool {
        exists|r: int, c: int|
            0 <= r < DISPLAY_HEIGHT && 0 <= c < DISPLAY_WIDTH && self.display[r][c]
                && #[trigger] self.sprite_covers(vx, vy, n, r, c)
    }

    /// The registers with `V0..=Vx` loaded from memory at `I`.
    pub open spec fn registers_loaded(self, x: u8) -> Seq<u8> {
        Seq::new(
            self.registers.len(),
            |k: int|
                if k <= x {
                    self.memory[self.index + k]
                } else {
                    self.registers[k]
                },
        )
    }

    /// The error that stops `ins`, if there is one. It depends on the
    /// registers, the index register and the stack, never on the timers.
    pub open spec fn fault(self, ins: Instruction) -> Option<Chip8Error> {
        match ins {
            Instruction::Return => if self.stack.len() == 0 {
                Some(Chip8Error::CallStackUnderflow)
            } else {
                None
            },
            Instruction::Call { addr } => if self.stack.len() >= STACK_DEPTH {
                Some(Chip8Error::CallStackOverflow)
            } else {
                None
            },
            Instruction::Draw { x, y, n } => if self.index + n > MEMORY_SIZE {
                Some(Chip8Error::MemoryOutOfBounds)
            } else {
                None
            },
            Instruction::SkipKey { x } | Instruction::SkipNoKey { x } => if self.reg(x)
                >= KEY_COUNT {
                Some(Chip8Error::InvalidKeyIndex)
            } else {
                None
            },
            Instruction::AddIndex { x } => if self.index + self.reg(x) > u16::MAX {
                Some(Chip8Error::IndexOverflow)
            } else {
                None
            },
            Instruction::StoreBcd { x } => if self.index + 3 > MEMORY_SIZE {
                Some(Chip8Error::MemoryOutOfBounds)
            } else {
                None
            },
            Instruction::StoreRegs { x } | Instruction::LoadRegs { x } => if self.index + x + 1
                > MEMORY_SIZE {
                Some(Chip8Error::MemoryOutOfBounds)
            } else {
                None
            },
            _ => None,
        }
    }

    /// The machine after executing `ins`, for an instruction without fault.
    /// `random` is the byte that a random instruction draws.
    pub open spec fn apply(self, ins: Instruction, random: u8) -> Machine {
        match ins {
            Instruction::Nop => self.advance(2),
            Instruction::Unknown { opcode } => self.advance(2),
            Instruction::ClearScreen => Machine { display: Self::dark(), ..self }.advance(2),
            Instruction::Return => Machine {
                pc: self.stack.last(),
                stack: self.stack.drop_last(),
                ..self
            },
            Instruction::Jump { addr } => Machine { pc: addr, ..self },
            Instruction::Call { addr } => Machine {
                pc: addr,
                stack: self.stack.push((self.pc + 2) as u16),
                ..self
            },
            Instruction::SkipEqImm { x, kk } => self.advance_skipping(self.reg(x) == kk),
            Instruction::SkipNeImm { x, kk } => self.advance_skipping(self.reg(x) != kk),
            Instruction::SkipEqReg { x, y } => self.advance_skipping(self.reg(x) == self.reg(y)),
            Instruction::SkipNeReg { x, y } => self.advance_skipping(self.reg(x) != self.reg(y)),
            Instruction::LoadImm { x, kk } => self.set_reg(x, kk).advance(2),
            Instruction::AddImm { x, kk } => self.set_reg(
                x,
                ((self.reg(x) + kk) % 256) as u8,
            ).advance(2),
            Instruction::Move { x, y } => self.set_reg(x, self.reg(y)).advance(2),
            Instruction::Or { x, y } => self.set_reg(x, self.reg(x) | self.reg(y)).advance(2),
            Instruction::And { x, y } => self.set_reg(x, self.reg(x) & self.reg(y)).advance(2),
            Instruction::Xor { x, y } => self.set_reg(x, self.reg(x) ^ self.reg(y)).advance(2),
            Instruction::Add { x, y } => self.set_reg_flag(
                x,
                ((self.reg(x) + self.reg(y)) % 256) as u8,
                self.reg(x) + self.reg(y) > 255,
            ).advance(2),
            Instruction::Sub { x, y } => self.set_reg_flag(
                x,
                ((self.reg(x) - self.reg(y)) % 256) as u8,
                self.reg(x) >= self.reg(y),
            ).advance(2),
            Instruction::SubFrom { x, y } => self.set_reg_flag(
                x,
                ((self.reg(y) - self.reg(x)) % 256) as u8,
                self.reg(y) >= self.reg(x),
            ).advance(2),
            Instruction::ShiftRight { x } => self.set_reg_flag(
                x,
                self.reg(x) / 2,
                self.reg(x) % 2 == 1,
            ).advance(2),
            Instruction::ShiftLeft { x } => self.set_reg_flag(
                x,
                ((self.reg(x) * 2) % 256) as u8,
                self.reg(x) >= 128,
            ).advance(2),
            Instruction::LoadIndex { addr } => Machine { index: addr, ..self }.advance(2),
            Instruction::JumpOffset { addr } => Machine {
                pc: (addr + self.reg(0)) as u16,
                ..self
            },
            Instruction::Random { x, kk } => self.set_reg(x, random & kk).advance(2),
            Instruction::Draw { x, y, n } => Machine {
                display: self.drawn(self.reg(x) as int, self.reg(y) as int, n as int),
                ..self
            }.set_reg(
                FLAG as u8,
                if self.erases(self.reg(x) as int, self.reg(y) as int, n as int) {
                    1
                } else {
                    0
                },
            ).advance(2),
            Instruction::SkipKey { x } => self.advance_skipping(self.keys[self.reg(x) as int]),
            Instruction::SkipNoKey { x } => self.advance_skipping(!self.keys[self.reg(x) as int]),
            Instruction::LoadDelay { x } => self.set_reg(x, self.delay_timer).advance(2),
            Instruction::WaitKey { x } => match lowest_pressed(self.keys) {
                Some(k) => self.set_reg(x, k as u8).advance(2),
                None => self,
            },
            Instruction::SetDelay { x } => Machine { delay_timer: self.reg(x), ..self }.advance(2),
            Instruction::SetSound { x } => Machine { sound_timer: self.reg(x), ..self }.advance(2),
            Instruction::AddIndex { x } => Machine {
                index: (self.index + self.reg(x)) as u16,
                ..self
            }.advance(2),
            Instruction::LoadGlyph { x } => Machine {
                index: (5 * self.reg(x)) as u16,
                ..self
            }.advance(2),
            Instruction::StoreBcd { x } => self.with_bytes(
                self.index as int,
                seq![self.reg(x) / 100, self.reg(x) / 10 % 10, self.reg(x) % 10],
            ).advance(2),
            Instruction::StoreRegs { x } => self.with_bytes(
                self.index as int,
                self.registers.subrange(0, x + 1),
            ).advance(2),
            Instruction::LoadRegs { x } => Machine {
                registers: self.registers_loaded(x),
                ..self
            }.advance(2),
        }
    }

    /// What a cycle reports for `ins`.
    pub open spec fn outcome(ins: Instruction) -> Outcome {
        match ins {
            Instruction::Unknown { opcode } => Outcome::UnrecognizedOpcode(opcode),
            _ => Outcome::Executed,
        }
    }

    /// What one cycle returns. A cycle fails if the instruction word lies
    /// outside memory or the instruction has a fault.
    pub open spec fn step_result(self) -> Result<Outcome, Chip8Error> {
        match self.fetch() {
            None => Err(Chip8Error::MemoryOutOfBounds),
            Some(opcode) => match self.fault(decode_spec(opcode)) {
                Some(e) => Err(e),
                None => Ok(Self::outcome(decode_spec(opcode))),
            },
        }
    }

    /// The next cycle executes the random instruction.
    pub open spec fn draws_random(self) -> bool {
        match self.fetch() {
            Some(opcode) => decode_spec(opcode) is Random,
            None => false,
        }
    }

    /// The machine after one cycle: unchanged if the cycle fails; otherwise
    /// the timers tick and then the fetched instruction is executed.
    pub open spec fn step(self, random: u8) -> Machine {
        match self.step_result() {
            Err(e) => self,
            Ok(o) => self.tick().apply(decode_spec(self.fetch().unwrap()), random),
        }
    }
}

} // verus!
