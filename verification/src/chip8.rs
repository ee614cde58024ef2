use vstd::prelude::*;

mod cycle;
mod draw;
mod execute;
mod inspect;

use crate::error::Chip8Error;
use crate::font::FONT;
use crate::machine::{Machine, MAX_PROGRAM_SIZE};

verus! {

/// The interpreter: memory, registers, call stack, timers, display and key
/// pad of one machine. Its mathematical value is the [`Machine`] `self@`.
pub struct Chip8 {
    memory: [u8; 4096],
    registers: [u8; 16],
    i: u16,
    pc: u16,
    display: [[bool; 64]; 32],
    delay_timer: u8,
    sound_timer: u8,
    stack: [u16; 16],
    sp: usize,
    keys: [bool; 16],
}

impl View for Chip8 {
    type V = Machine;

    closed spec fn view(&self) -> Machine {
        Machine {
            memory: self.memory@,
            registers: self.registers@,
            index: self.i,
            pc: self.pc,
            display: Seq::new(32, |r: int| self.display[r]@),
            delay_timer: self.delay_timer,
            sound_timer: self.sound_timer,
            stack: self.stack@.subrange(0, self.sp as int),
            keys: self.keys@,
        }
    }
}

impl Chip8 {
    /// The number of stack entries in use never exceeds the capacity.
    #[verifier::type_invariant]
    spec fn inv(&self) -> bool {
        self.sp <= 16
    }

    /// A cleared machine: all memory, registers, timers, pixels and keys
    /// zero, the stack empty, execution at 0x200. The font is not loaded.
    pub fn new() -> (vm: Chip8)
        ensures
            vm@ == Machine::blank(),
            vm@.wf(),
    {
        let vm = Chip8 {
            memory: [0; 4096],
            registers: [0; 16],
            i: 0,
            pc: 0x200,
            display: [[false; 64]; 32],
            delay_timer: 0,
            sound_timer: 0,
            stack: [0; 16],
            sp: 0,
            keys: [false; 16],
        };
        assert(vm@ =~~= Machine::blank());
        vm
    }

    /// Resets the machine and writes the font to the bottom of memory.
    pub fn initialize(&mut self)
        ensures
            final(self)@ == Machine::initial(),
            final(self)@.wf(),
    {
        *self = Chip8::new();
        self.load_font();
    }

    /// Writes the font to the first 80 bytes of memory.
    pub fn load_font(&mut self)
        ensures
            final(self)@ == old(self)@.with_font(),
            final(self)@.wf(),
    {
        self.store(0, FONT.as_slice());
        proof {
            use_type_invariant(&*self);
        }
    }

    /// Copies a program into memory from address 0x200 on. A program of more
    /// than 3584 bytes is refused and the machine is left as it was.
    pub fn load_game(&mut self, bytes: Vec<u8>) -> (res: Result<(), Chip8Error>)
        ensures
            match res {
                Ok(_) => bytes@.len() <= MAX_PROGRAM_SIZE && final(self)@ == old(self)@.with_program(bytes@),
                Err(e) => bytes@.len() > MAX_PROGRAM_SIZE && e == Chip8Error::ProgramTooLarge
                    && final(self)@ == old(self)@,
            },
            final(self)@.wf(),
    {
        proof {
            use_type_invariant(&*self);
        }
        if bytes.len() > MAX_PROGRAM_SIZE {
            return Err(Chip8Error::ProgramTooLarge);
        }
        self.store(0x200, bytes.as_slice());
        Ok(())
    }

    /// Presses or releases one key. An index above 15 is refused and the
    /// machine is left as it was.
    pub fn set_key(&mut self, key: u8, val: bool) -> (res: Result<(), Chip8Error>)
        ensures
            match res {
                Ok(_) => key < 16 && final(self)@ == old(self)@.with_key(key as int, val),
                Err(e) => key >= 16 && e == Chip8Error::InvalidKeyIndex && final(self)@ == old(self)@,
            },
            final(self)@.wf(),
    {
        proof {
            use_type_invariant(&*self);
        }
        if key >= 16 {
            return Err(Chip8Error::InvalidKeyIndex);
        }
        self.keys[key as usize] = val;
        assert(self@ =~= old(self)@.with_key(key as int, val));
        Ok(())
    }

    /// A copy of the display, row by row; `true` is a lit pixel.
    pub fn display(&self) -> (grid: [[bool; 64]; 32])
        ensures
            forall|r: int, c: int|
                0 <= r < 32 && 0 <= c < 64 ==> grid[r][c] == #[trigger] self@.display[r][c],
    {
        self.display
    }

    /// The current value of the sound timer.
    pub fn sound_timer(&self) -> (t: u8)
        ensures
            t == self@.sound_timer,
    {
        self.sound_timer
    }

    /// Writes `bytes` into memory from `start` on.
    fn store(&mut self, start: usize, bytes: &[u8])
        requires
            start + bytes@.len() <= 4096,
        ensures
            final(self)@ == old(self)@.with_bytes(start as int, bytes@),
            final(self)@.wf(),
    {
        proof {
            use_type_invariant(&*self);
        }
        let ghost before = self@;
        let n: usize = bytes.len();
        let mut k: usize = 0;
        while k < n
            invariant
                k <= n,
                n == bytes@.len(),
                start + n <= 4096,
                self@ == before.with_bytes(start as int, bytes@.subrange(0, k as int)),
            decreases n - k,
        {
            proof {
                use_type_invariant(&*self);
            }
            self.memory[start + k] = bytes[k];
            k = k + 1;
            assert(self@ =~= before.with_bytes(start as int, bytes@.subrange(0, k as int)));
        }
        assert(bytes@.subrange(0, n as int) =~= bytes@);
    }
}

} // verus!
