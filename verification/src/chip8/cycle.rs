use vstd::prelude::*;
use crate::chip8::Chip8;
use crate::error::{Chip8Error, Outcome};
use crate::entropy::random_byte;
use crate::instruction::{decode, Instruction};
use crate::machine::lemma_random_only_matters_when_drawn;

verus! {

impl Chip8 {
    /// Runs one cycle: fetches the instruction word at the program counter,
    /// decodes it, counts the timers down and executes it. A random
    /// instruction draws a fresh byte from the system's generator; any other
    /// instruction behaves the same whatever that byte would have been.
    ///
    /// On an error nothing has changed, not even the timers.
    pub fn run_cycle(&mut self) -> (res: Result<Outcome, Chip8Error>)
        ensures
            res == old(self)@.step_result(),
            exists|random: u8| final(self)@ == old(self)@.step(random),
            !old(self)@.draws_random() ==> forall|random: u8|
                final(self)@ == old(self)@.step(random),
            final(self)@.wf(),
    {
        let random: u8 = if self.next_draws_random() {
            random_byte()
        } else {
            0
        };
        let res = self.run_cycle_with(random);
        proof {
            if !old(self)@.draws_random() {
                assert forall|other: u8| self@ == old(self)@.step(other) by {
                    lemma_random_only_matters_when_drawn(old(self)@, random, other);
                }
            }
        }
        res
    }

    /// Runs one cycle in which a random instruction, if it is one, draws the
    /// byte `random`.
    ///
    /// On an error nothing has changed, not even the timers.
    pub fn run_cycle_with(&mut self, random: u8) -> (res: Result<Outcome, Chip8Error>)
        ensures
            res == old(self)@.step_result(),
            final(self)@ == old(self)@.step(random),
            final(self)@.wf(),
    {
        proof {
            use_type_invariant(&*self);
        }
        let word: u16 = match self.fetch() {
            Some(word) => word,
            None => {
                return Err(Chip8Error::MemoryOutOfBounds);
            },
        };
        let ins: Instruction = decode(word);
        match self.check(ins) {
            Some(e) => {
                return Err(e);
            },
            None => {},
        }
        self.tick();
        self.execute(ins, random);
        proof {
            use_type_invariant(&*self);
        }
        match ins {
            Instruction::Unknown { opcode } => Ok(Outcome::UnrecognizedOpcode(opcode)),
            _ => Ok(Outcome::Executed),
        }
    }

    /// Tells whether the next cycle executes the random instruction.
    fn next_draws_random(&self) -> (yes: bool)
        ensures
            yes == self@.draws_random(),
    {
        match self.fetch() {
            Some(word) => match decode(word) {
                Instruction::Random { x, kk } => true,
                _ => false,
            },
            None => false,
        }
    }

    /// Reads the instruction word at the program counter.
    pub(crate) fn fetch(&self) -> (word: Option<u16>)
        ensures
            word == self@.fetch(),
    {
        if self.pc < 4095 {
            let hi: u16 = self.memory[self.pc as usize] as u16;
            let lo: u16 = self.memory[self.pc as usize + 1] as u16;
            Some(hi * 256 + lo)
        } else {
            None
        }
    }

    /// Counts both timers down by one, stopping at zero.
    pub(crate) fn tick(&mut self)
        ensures
            final(self)@ == old(self)@.tick(),
    {
        proof {
            use_type_invariant(&*self);
        }
        if self.delay_timer > 0 {
            self.delay_timer = self.delay_timer - 1;
        }
        if self.sound_timer > 0 {
            self.sound_timer = self.sound_timer - 1;
        }
        assert(self@ =~= old(self)@.tick());
    }

    /// Finds the error that stops `ins`, without changing anything.
    pub(crate) fn check(&self, ins: Instruction) -> (fault: Option<Chip8Error>)
        requires
            ins.wf(),
        ensures
            fault == self@.fault(ins),
    {
        proof {
            use_type_invariant(self);
        }
        match ins {
            Instruction::Return => if self.sp == 0 {
                Some(Chip8Error::CallStackUnderflow)
            } else {
                None
            },
            Instruction::Call { addr } => if self.sp >= 16 {
                Some(Chip8Error::CallStackOverflow)
            } else {
                None
            },
            Instruction::Draw { x, y, n } => if self.i as usize + n as usize > 4096 {
                Some(Chip8Error::MemoryOutOfBounds)
            } else {
                None
            },
            Instruction::SkipKey { x } | Instruction::SkipNoKey { x } => if self.registers[x as usize]
                >= 16 {
                Some(Chip8Error::InvalidKeyIndex)
            } else {
                None
            },
            Instruction::AddIndex { x } => if self.i as u32 + self.registers[x as usize] as u32
                > 0xFFFF {
                Some(Chip8Error::IndexOverflow)
            } else {
                None
            },
            Instruction::StoreBcd { x } => if self.i as usize + 3 > 4096 {
                Some(Chip8Error::MemoryOutOfBounds)
            } else {
                None
            },
            Instruction::StoreRegs { x } | Instruction::LoadRegs { x } => if self.i as usize
                + x as usize + 1 > 4096 {
                Some(Chip8Error::MemoryOutOfBounds)
            } else {
                None
            },
            _ => None,
        }
    }
}

} // verus!
