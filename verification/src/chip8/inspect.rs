use vstd::prelude::*;
use crate::chip8::Chip8;

verus! {

impl Chip8 {
    /// The address of the next instruction.
    pub fn program_counter(&self) -> (pc: u16)
        ensures
            pc == self@.pc,
    {
        self.pc
    }

    /// The index register.
    pub fn index(&self) -> (index: u16)
        ensures
            index == self@.index,
    {
        self.i
    }

    /// The current value of the delay timer.
    pub fn delay_timer(&self) -> (t: u8)
        ensures
            t == self@.delay_timer,
    {
        self.delay_timer
    }

    /// Register `x`, or `None` if `x` is above 15.
    pub fn register(&self, x: u8) -> (value: Option<u8>)
        ensures
            value == (if x < 16 {
                Some(self@.registers[x as int])
            } else {
                None
            }),
    {
        if x < 16 {
            Some(self.registers[x as usize])
        } else {
            None
        }
    }

    /// The byte at `addr`, or `None` if `addr` lies outside memory.
    pub fn memory(&self, addr: u16) -> (value: Option<u8>)
        ensures
            value == (if addr < 4096 {
                Some(self@.memory[addr as int])
            } else {
                None
            }),
    {
        if addr < 4096 {
            Some(self.memory[addr as usize])
        } else {
            None
        }
    }

    /// Whether key `key` is pressed, or `None` if `key` is above 15.
    pub fn key(&self, key: u8) -> (pressed: Option<bool>)
        ensures
            pressed == (if key < 16 {
                Some(self@.keys[key as int])
            } else {
                None
            }),
    {
        if key < 16 {
            Some(self.keys[key as usize])
        } else {
            None
        }
    }

    /// The return addresses of the outstanding calls, oldest first.
    pub fn call_stack(&self) -> (addrs: Vec<u16>)
        ensures
            addrs@ == self@.stack,
    {
        proof {
            use_type_invariant(self);
        }
        let mut addrs: Vec<u16> = Vec::new();
        let mut k: usize = 0;
        while k < self.sp
            invariant
                k <= self.sp <= 16,
                addrs@ == self@.stack.subrange(0, k as int),
            decreases self.sp - k,
        {
            addrs.push(self.stack[k]);
            k = k + 1;
            assert(addrs@ =~= self@.stack.subrange(0, k as int));
        }
        assert(self@.stack.subrange(0, self.sp as int) =~= self@.stack);
        addrs
    }
}

} // verus!
