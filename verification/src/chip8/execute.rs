use vstd::prelude::*;
use vstd::slice::slice_subrange;
use crate::chip8::Chip8;
use crate::instruction::Instruction;
use crate::machine::{lemma_lowest_pressed_unique, lowest_pressed, Machine};

verus! {

/// Instructions that only move the program counter or the stack, or wait
/// for a key.
spec fn is_flow(ins: Instruction) -> bool {
    ins is Nop
        || ins is Unknown
        || ins is Return
        || ins is Jump
        || ins is Call
        || ins is JumpOffset
        || ins is SkipEqImm
        || ins is SkipNeImm
        || ins is SkipEqReg
        || ins is SkipNeReg
        || ins is SkipKey
        || ins is SkipNoKey
        || ins is WaitKey
}

/// Instructions that compute a register.
spec fn is_register(ins: Instruction) -> bool {
    ins is LoadImm
        || ins is AddImm
        || ins is Move
        || ins is Or
        || ins is And
        || ins is Xor
        || ins is Add
        || ins is Sub
        || ins is SubFrom
        || ins is ShiftRight
        || ins is ShiftLeft
        || ins is Random
        || ins is LoadDelay
}

/// Instructions that write the display, the index register, a timer or
/// memory, or load registers from memory.
spec fn is_device(ins: Instruction) -> bool {
    ins is ClearScreen
        || ins is Draw
        || ins is LoadIndex
        || ins is AddIndex
        || ins is LoadGlyph
        || ins is SetDelay
        || ins is SetSound
        || ins is StoreBcd
        || ins is StoreRegs
        || ins is LoadRegs
}

impl Chip8 {
    /// Moves the program counter past the current instruction, and past the
    /// next one too if `skip` holds.
    pub(crate) fn advance(&mut self, skip: bool)
        requires
            old(self)@.pc + 1 < 4096,
        ensures
            final(self)@ == old(self)@.advance_skipping(skip),
    {
        proof {
            use_type_invariant(&*self);
        }
        if skip {
            self.pc = self.pc + 4;
        } else {
            self.pc = self.pc + 2;
        }
        assert(self@ =~= old(self)@.advance_skipping(skip));
    }

    /// Writes `value` to register `x`.
    pub(crate) fn set_register(&mut self, x: u8, value: u8)
        requires
            x < 16,
        ensures
            final(self)@ == old(self)@.set_reg(x, value),
    {
        proof {
            use_type_invariant(&*self);
        }
        self.registers[x as usize] = value;
        assert(self@ =~= old(self)@.set_reg(x, value));
    }

    /// Writes `value` to register `x` and then `flag` to the flag register.
    pub(crate) fn set_register_flag(&mut self, x: u8, value: u8, flag: bool)
        requires
            x < 16,
        ensures
            final(self)@ == old(self)@.set_reg_flag(x, value, flag),
    {
        proof {
            use_type_invariant(&*self);
        }
        self.registers[x as usize] = value;
        self.registers[15] = if flag { 1 } else { 0 };
        assert(self@ =~= old(self)@.set_reg_flag(x, value, flag));
    }

    /// Turns every pixel off.
    pub(crate) fn clear_screen(&mut self)
        ensures
            final(self)@ == (Machine { display: Machine::dark(), ..old(self)@ }),
    {
        proof {
            use_type_invariant(&*self);
        }
        self.display = [[false; 64]; 32];
        assert(self@ =~~= (Machine { display: Machine::dark(), ..old(self)@ }));
    }

    /// Pushes the address of the next instruction and continues at `addr`.
    pub(crate) fn call(&mut self, addr: u16)
        requires
            old(self)@.stack.len() < 16,
            old(self)@.pc + 1 < 4096,
        ensures
            final(self)@ == old(self)@.apply(Instruction::Call { addr }, 0),
    {
        proof {
            use_type_invariant(&*self);
        }
        self.stack[self.sp] = self.pc + 2;
        self.sp = self.sp + 1;
        self.pc = addr;
        assert(self@ =~= old(self)@.apply(Instruction::Call { addr }, 0));
    }

    /// Pops the newest return address and continues there.
    pub(crate) fn ret(&mut self)
        requires
            old(self)@.stack.len() > 0,
        ensures
            final(self)@ == old(self)@.apply(Instruction::Return, 0),
    {
        proof {
            use_type_invariant(&*self);
        }
        self.sp = self.sp - 1;
        self.pc = self.stack[self.sp];
        assert(self@ =~= old(self)@.apply(Instruction::Return, 0));
    }

    /// The lowest index of a pressed key.
    pub(crate) fn lowest_pressed_key(&self) -> (key: Option<u8>)
        ensures
            lowest_pressed(self@.keys) == match key {
                Some(k) => Some(k as int),
                None => None::<int>,
            },
    {
        let mut k: u8 = 0;
        while k < 16
            invariant
                k <= 16,
                forall|j: int| 0 <= j < k ==> !#[trigger] self@.keys[j],
            decreases 16 - k,
        {
            if self.keys[k as usize] {
                proof {
                    lemma_lowest_pressed_unique(self@.keys, k as int);
                }
                return Some(k);
            }
            k = k + 1;
        }
        None
    }

    /// Stores `V0..=Vx` in memory from `I` on.
    pub(crate) fn store_registers(&mut self, x: u8)
        requires
            x < 16,
            old(self)@.index + x + 1 <= 4096,
        ensures
            final(self)@ == old(self)@.with_bytes(
                old(self)@.index as int,
                old(self)@.registers.subrange(0, x + 1),
            ),
    {
        let regs: [u8; 16] = self.registers;
        self.store(self.i as usize, slice_subrange(regs.as_slice(), 0, x as usize + 1));
    }

    /// Stores the hundreds, tens and units digits of `value` at `I`.
    pub(crate) fn store_bcd(&mut self, value: u8)
        requires
            old(self)@.index + 3 <= 4096,
        ensures
            final(self)@ == old(self)@.with_bytes(
                old(self)@.index as int,
                seq![value / 100, value / 10 % 10, value % 10],
            ),
    {
        let digits: [u8; 3] = [value / 100, value / 10 % 10, value % 10];
        assert(digits@ =~= seq![value / 100, value / 10 % 10, value % 10]);
        self.store(self.i as usize, digits.as_slice());
    }

    /// Loads `V0..=Vx` from memory at `I`.
    pub(crate) fn load_registers(&mut self, x: u8)
        requires
            x < 16,
            old(self)@.index + x + 1 <= 4096,
        ensures
            final(self)@ == (Machine { registers: old(self)@.registers_loaded(x), ..old(self)@ }),
    {
        proof {
            use_type_invariant(&*self);
        }
        let ghost before = self@;
        let base: usize = self.i as usize;
        let mut k: usize = 0;
        while k <= x as usize
            invariant
                k <= x + 1,
                x < 16,
                base == before.index,
                base + x + 1 <= 4096,
                self@ == (Machine {
                    registers: Seq::new(
                        16,
                        |j: int|
                            if j < k {
                                before.memory[before.index + j]
                            } else {
                                before.registers[j]
                            },
                    ),
                    ..before
                }),
            decreases x + 1 - k,
        {
            proof {
                use_type_invariant(&*self);
            }
            self.registers[k] = self.memory[base + k];
            k = k + 1;
            assert(self@ =~= (Machine {
                registers: Seq::new(
                    16,
                    |j: int|
                        if j < k {
                            before.memory[before.index + j]
                        } else {
                            before.registers[j]
                        },
                ),
                ..before
            }));
        }
        assert(self@ =~= (Machine { registers: before.registers_loaded(x), ..before }));
    }

    /// Executes one instruction that has no fault. `random` is used by the
    /// random instruction only.
    pub(crate) fn execute(&mut self, ins: Instruction, random: u8)
        requires
            ins.wf(),
            old(self)@.fault(ins) is None,
            old(self)@.pc + 1 < 4096,
        ensures
            final(self)@ == old(self)@.apply(ins, random),
    {
        match ins {
            Instruction::Nop
            | Instruction::Unknown { .. }
            | Instruction::Return
            | Instruction::Jump { .. }
            | Instruction::Call { .. }
            | Instruction::JumpOffset { .. }
            | Instruction::SkipEqImm { .. }
            | Instruction::SkipNeImm { .. }
            | Instruction::SkipEqReg { .. }
            | Instruction::SkipNeReg { .. }
            | Instruction::SkipKey { .. }
            | Instruction::SkipNoKey { .. }
            | Instruction::WaitKey { .. } => {
                self.execute_flow(ins);
            },
            Instruction::LoadImm { .. }
            | Instruction::AddImm { .. }
            | Instruction::Move { .. }
            | Instruction::Or { .. }
            | Instruction::And { .. }
            | Instruction::Xor { .. }
            | Instruction::Add { .. }
            | Instruction::Sub { .. }
            | Instruction::SubFrom { .. }
            | Instruction::ShiftRight { .. }
            | Instruction::ShiftLeft { .. }
            | Instruction::Random { .. }
            | Instruction::LoadDelay { .. } => {
                self.execute_register(ins, random);
            },
            Instruction::ClearScreen
            | Instruction::Draw { .. }
            | Instruction::LoadIndex { .. }
            | Instruction::AddIndex { .. }
            | Instruction::LoadGlyph { .. }
            | Instruction::SetDelay { .. }
            | Instruction::SetSound { .. }
            | Instruction::StoreBcd { .. }
            | Instruction::StoreRegs { .. }
            | Instruction::LoadRegs { .. } => {
                self.execute_device(ins);
            },
        }
    }

    /// Executes an instruction that only moves the program counter or the
    /// stack, or waits for a key.
    fn execute_flow(&mut self, ins: Instruction)
        requires
            is_flow(ins),
            ins.wf(),
            old(self)@.fault(ins) is None,
            old(self)@.pc + 1 < 4096,
        ensures
            final(self)@ == old(self)@.apply(ins, 0),
    {
        match ins {
            Instruction::Nop => {
                self.advance(false);
            },
            Instruction::Unknown { opcode } => {
                self.advance(false);
            },
            Instruction::Return => {
                self.ret();
            },
            Instruction::Jump { addr } => {
                self.jump(addr);
            },
            Instruction::Call { addr } => {
                self.call(addr);
            },
            Instruction::JumpOffset { addr } => {
                let target: u16 = addr + self.registers[0] as u16;
                self.jump(target);
            },
            Instruction::SkipEqImm { x, kk } => {
                let skip: bool = self.registers[x as usize] == kk;
                self.advance(skip);
            },
            Instruction::SkipNeImm { x, kk } => {
                let skip: bool = self.registers[x as usize] != kk;
                self.advance(skip);
            },
            Instruction::SkipEqReg { x, y } => {
                let skip: bool = self.registers[x as usize] == self.registers[y as usize];
                self.advance(skip);
            },
            Instruction::SkipNeReg { x, y } => {
                let skip: bool = self.registers[x as usize] != self.registers[y as usize];
                self.advance(skip);
            },
            Instruction::SkipKey { x } => {
                let skip: bool = self.keys[self.registers[x as usize] as usize];
                self.advance(skip);
            },
            Instruction::SkipNoKey { x } => {
                let skip: bool = !self.keys[self.registers[x as usize] as usize];
                self.advance(skip);
            },
            Instruction::WaitKey { x } => {
                match self.lowest_pressed_key() {
                    Some(k) => {
                        self.set_register(x, k);
                        self.advance(false);
                    },
                    None => {},
                }
            },
            _ => {},
        }
    }

    /// Executes an instruction that computes a register from registers, an
    /// immediate, the delay timer or the random byte.
    fn execute_register(&mut self, ins: Instruction, random: u8)
        requires
            is_register(ins),
            ins.wf(),
            old(self)@.fault(ins) is None,
            old(self)@.pc + 1 < 4096,
        ensures
            final(self)@ == old(self)@.apply(ins, random),
    {
        match ins {
            Instruction::LoadImm { x, kk } => {
                self.set_register(x, kk);
                self.advance(false);
            },
            Instruction::AddImm { x, kk } => {
                let sum: u16 = self.registers[x as usize] as u16 + kk as u16;
                self.set_register(x, (sum % 256) as u8);
                self.advance(false);
            },
            Instruction::Move { x, y } => {
                let w: u8 = self.registers[y as usize];
                self.set_register(x, w);
                self.advance(false);
            },
            Instruction::Or { x, y } => {
                let v: u8 = self.registers[x as usize];
                let w: u8 = self.registers[y as usize];
                self.set_register(x, v | w);
                self.advance(false);
            },
            Instruction::And { x, y } => {
                let v: u8 = self.registers[x as usize];
                let w: u8 = self.registers[y as usize];
                self.set_register(x, v & w);
                self.advance(false);
            },
            Instruction::Xor { x, y } => {
                let v: u8 = self.registers[x as usize];
                let w: u8 = self.registers[y as usize];
                self.set_register(x, v ^ w);
                self.advance(false);
            },
            Instruction::Add { x, y } => {
                let v: u8 = self.registers[x as usize];
                let w: u8 = self.registers[y as usize];
                let sum: u16 = v as u16 + w as u16;
                self.set_register_flag(x, (sum % 256) as u8, sum > 255);
                self.advance(false);
            },
            Instruction::Sub { x, y } => {
                let v: u8 = self.registers[x as usize];
                let w: u8 = self.registers[y as usize];
                let diff: u16 = (256 + v as u16 - w as u16) % 256;
                self.set_register_flag(x, diff as u8, v >= w);
                self.advance(false);
            },
            Instruction::SubFrom { x, y } => {
                let v: u8 = self.registers[x as usize];
                let w: u8 = self.registers[y as usize];
                let diff: u16 = (256 + w as u16 - v as u16) % 256;
                self.set_register_flag(x, diff as u8, w >= v);
                self.advance(false);
            },
            Instruction::ShiftRight { x } => {
                let v: u8 = self.registers[x as usize];
                self.set_register_flag(x, v / 2, v % 2 == 1);
                self.advance(false);
            },
            Instruction::ShiftLeft { x } => {
                let v: u8 = self.registers[x as usize];
                let doubled: u16 = v as u16 * 2;
                self.set_register_flag(x, (doubled % 256) as u8, v >= 128);
                self.advance(false);
            },
            Instruction::Random { x, kk } => {
                self.set_register(x, random & kk);
                self.advance(false);
            },
            Instruction::LoadDelay { x } => {
                let t: u8 = self.delay_timer;
                self.set_register(x, t);
                self.advance(false);
            },
            _ => {},
        }
    }

    /// Executes an instruction that writes the display, the index register,
    /// a timer or memory, or loads registers from memory.
    fn execute_device(&mut self, ins: Instruction)
        requires
            is_device(ins),
            ins.wf(),
            old(self)@.fault(ins) is None,
            old(self)@.pc + 1 < 4096,
        ensures
            final(self)@ == old(self)@.apply(ins, 0),
    {
        match ins {
            Instruction::ClearScreen => {
                self.clear_screen();
                self.advance(false);
            },
            Instruction::Draw { x, y, n } => {
                self.draw(x, y, n);
                self.advance(false);
            },
            Instruction::LoadIndex { addr } => {
                self.set_index(addr);
                self.advance(false);
            },
            Instruction::AddIndex { x } => {
                let target: u16 = self.i + self.registers[x as usize] as u16;
                self.set_index(target);
                self.advance(false);
            },
            Instruction::LoadGlyph { x } => {
                let target: u16 = 5 * self.registers[x as usize] as u16;
                self.set_index(target);
                self.advance(false);
            },
            Instruction::SetDelay { x } => {
                proof {
                    use_type_invariant(&*self);
                }
                self.delay_timer = self.registers[x as usize];
                assert(self@ =~= (Machine { delay_timer: old(self)@.reg(x), ..old(self)@ }));
                self.advance(false);
            },
            Instruction::SetSound { x } => {
                proof {
                    use_type_invariant(&*self);
                }
                self.sound_timer = self.registers[x as usize];
                assert(self@ =~= (Machine { sound_timer: old(self)@.reg(x), ..old(self)@ }));
                self.advance(false);
            },
            Instruction::StoreBcd { x } => {
                let v: u8 = self.registers[x as usize];
                self.store_bcd(v);
                self.advance(false);
            },
            Instruction::StoreRegs { x } => {
                self.store_registers(x);
                self.advance(false);
            },
            Instruction::LoadRegs { x } => {
                self.load_registers(x);
                self.advance(false);
            },
            _ => {},
        }
    }

    /// Continues execution at `target`.
    pub(crate) fn jump(&mut self, target: u16)
        ensures
            final(self)@ == (Machine { pc: target, ..old(self)@ }),
    {
        proof {
            use_type_invariant(&*self);
        }
        self.pc = target;
        assert(self@ =~= (Machine { pc: target, ..old(self)@ }));
    }

    /// Points the index register at `target`.
    pub(crate) fn set_index(&mut self, target: u16)
        ensures
            final(self)@ == (Machine { index: target, ..old(self)@ }),
    {
        proof {
            use_type_invariant(&*self);
        }
        self.i = target;
        assert(self@ =~= (Machine { index: target, ..old(self)@ }));
    }
}

} // verus!
