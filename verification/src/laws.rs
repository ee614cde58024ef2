use vstd::prelude::*;
use crate::error::{Chip8Error, Outcome};
use crate::font::font_bytes;
use crate::instruction::{decode_spec, Instruction};
use crate::machine::{any_pressed, is_lowest_pressed, lemma_lowest_pressed_unique, Machine};

verus! {

/// The machine after the cycles that draw the random bytes `randoms`, one
/// after the other.
pub open spec fn run(m: Machine, randoms: Seq<u8>) -> Machine
    decreases randoms.len(),
{
    if randoms.len() == 0 {
        m
    } else {
        run(m, randoms.drop_last()).step(randoms.last())
    }
}

/// The next cycle succeeds and does not write the delay timer.
pub open spec fn keeps_delay(m: Machine) -> bool {
    m.step_result() is Ok && !(decode_spec(m.fetch().unwrap()) is SetDelay)
}

/// Every cycle of the run succeeds and none writes the delay timer.
pub open spec fn run_keeps_delay(m: Machine, randoms: Seq<u8>) -> bool
    decreases randoms.len(),
{
    randoms.len() > 0 ==> run_keeps_delay(m, randoms.drop_last()) && keeps_delay(
        run(m, randoms.drop_last()),
    )
}

/// The next cycle polls for a key and finds none pressed.
pub open spec fn polls_in_vain(m: Machine) -> bool {
    m.fetch() is Some && decode_spec(m.fetch().unwrap()) is WaitKey && !any_pressed(m.keys)
}

/// After initialisation the program counter is 0x200; registers, index
/// register, timers, pixels and keys are zero; the stack is empty; the first
/// 80 bytes of memory are the font and the rest of memory is zero.
pub proof fn lemma_initial_state()
    ensures
        Machine::initial().wf(),
        Machine::initial().pc == 0x200,
        Machine::initial().index == 0,
        Machine::initial().delay_timer == 0,
        Machine::initial().sound_timer == 0,
        Machine::initial().stack.len() == 0,
        forall|x: int| 0 <= x < 16 ==> Machine::initial().registers[x] == 0,
        forall|k: int| 0 <= k < 16 ==> !Machine::initial().keys[k],
        forall|r: int, c: int| 0 <= r < 32 && 0 <= c < 64 ==> !Machine::initial().display[r][c],
        Machine::initial().memory.subrange(0, 80) == font_bytes(),
        forall|i: int| 80 <= i < 4096 ==> Machine::initial().memory[i] == 0,
{
    assert(Machine::initial().memory.subrange(0, 80) =~= font_bytes());
}

/// A loaded program of at most 3584 bytes stands in memory from 0x200 on,
/// byte for byte, and the memory around it is untouched.
pub proof fn lemma_program_in_memory(m: Machine, bytes: Seq<u8>)
    requires
        m.wf(),
        bytes.len() <= 3584,
    ensures
        m.with_program(bytes).wf(),
        m.with_program(bytes).memory.subrange(0x200, 0x200 + bytes.len() as int) == bytes,
        forall|i: int|
            0 <= i < 0x200 || 0x200 + bytes.len() <= i < 4096 ==> m.with_program(bytes).memory[i]
                == m.memory[i],
{
    assert(m.with_program(bytes).memory.subrange(0x200, 0x200 + bytes.len() as int) =~= bytes);
}

/// A cycle keeps the machine well formed.
pub proof fn lemma_step_wf(m: Machine, random: u8)
    requires
        m.wf(),
    ensures
        m.step(random).wf(),
{
}

/// The next cycle succeeds and executes an instruction that neither jumps,
/// calls nor returns.
pub open spec fn runs_straight(m: Machine) -> bool {
    m.step_result() is Ok && !(decode_spec(m.fetch().unwrap()) is Jump) && !(decode_spec(
        m.fetch().unwrap(),
    ) is JumpOffset) && !(decode_spec(m.fetch().unwrap()) is Call) && !(decode_spec(
        m.fetch().unwrap(),
    ) is Return)
}

/// An even program counter stays even over every cycle that neither jumps,
/// calls nor returns: such a cycle moves it by 0, 2 or 4 bytes.
pub proof fn lemma_pc_stays_even(m: Machine, random: u8)
    requires
        m.wf(),
        m.pc % 2 == 0,
        runs_straight(m),
    ensures
        m.step(random).pc % 2 == 0,
        m.step(random).pc == m.pc || m.step(random).pc == m.pc + 2 || m.step(random).pc == m.pc
            + 4,
{
}

/// A call followed by a return continues right after the call: the two
/// cycles together only count the timers down twice and move the program
/// counter past the call. The stack is as it was before.
pub proof fn lemma_call_then_return(m: Machine, addr: u16, first: u8, second: u8)
    requires
        m.wf(),
        m.fetch() is Some,
        decode_spec(m.fetch().unwrap()) == (Instruction::Call { addr }),
        m.stack.len() < 16,
        addr < 4095,
        m.memory[addr as int] == 0x00,
        m.memory[addr as int + 1] == 0xEE,
    ensures
        m.step_result() == Ok::<Outcome, Chip8Error>(Outcome::Executed),
        m.step(first).step_result() == Ok::<Outcome, Chip8Error>(Outcome::Executed),
        m.step(first).step(second) == m.tick().tick().advance(2),
        m.step(first).step(second).stack == m.stack,
        m.step(first).step(second).pc == m.pc + 2,
{
    let called: Machine = m.step(first);
    assert(called.fetch() == Some(0x00EEu16));
    assert(decode_spec(0x00EEu16) == Instruction::Return);
    assert(called.stack.drop_last() =~= m.stack);
    assert(called.step(second) =~= m.tick().tick().advance(2));
}

/// A call succeeds and makes the stack one entry deeper while fewer than
/// sixteen calls are outstanding; with sixteen outstanding it fails with a
/// stack overflow.
pub proof fn lemma_call_depth(m: Machine, random: u8)
    requires
        m.wf(),
        m.fetch() is Some,
        decode_spec(m.fetch().unwrap()) is Call,
    ensures
        m.stack.len() < 16 ==> m.step_result() is Ok && m.step(random).stack.len() == m.stack.len()
            + 1,
        m.stack.len() == 16 ==> m.step_result() == Err::<Outcome, Chip8Error>(
            Chip8Error::CallStackOverflow,
        ),
{
}

/// Drawing the same sprite twice at the same place restores the display.
/// The second drawing raises the flag exactly if the sprite has a set bit on
/// a pixel that was dark before the first.
///
/// The coordinate registers must not be the flag register, which the first
/// drawing overwrites.
pub proof fn lemma_draw_twice(m: Machine, x: u8, y: u8, n: u8, first: u8, second: u8)
    requires
        m.wf(),
        x < 15,
        y < 15,
        n < 16,
        m.index + n <= 4096,
    ensures
        m.apply(Instruction::Draw { x, y, n }, first).apply(
            Instruction::Draw { x, y, n },
            second,
        ).display == m.display,
        m.apply(Instruction::Draw { x, y, n }, first).apply(
            Instruction::Draw { x, y, n },
            second,
        ).registers[15] == 1 <==> exists|r: int, c: int|
            0 <= r < 32 && 0 <= c < 64 && !m.display[r][c] && #[trigger] m.sprite_covers(
                m.reg(x) as int,
                m.reg(y) as int,
                n as int,
                r,
                c,
            ),
{
    let ins: Instruction = Instruction::Draw { x, y, n };
    let vx: int = m.reg(x) as int;
    let vy: int = m.reg(y) as int;
    let once: Machine = m.apply(ins, first);
    let twice: Machine = once.apply(ins, second);
    assert(once.reg(x) == m.reg(x) && once.reg(y) == m.reg(y));
    assert forall|r: int, c: int| 0 <= r < 32 && 0 <= c < 64 implies (once.sprite_covers(
        vx,
        vy,
        n as int,
        r,
        c,
    ) == m.sprite_covers(vx, vy, n as int, r, c) && twice.display[r][c] == m.display[r][c]) by {}
    assert(twice.display =~~= m.display);
    if once.erases(vx, vy, n as int) {
        let (r, c): (int, int) = choose|r: int, c: int|
            0 <= r < 32 && 0 <= c < 64 && once.display[r][c] && #[trigger] once.sprite_covers(
                vx,
                vy,
                n as int,
                r,
                c,
            );
        assert(!m.display[r][c] && m.sprite_covers(vx, vy, n as int, r, c));
    }
    if exists|r: int, c: int|
        0 <= r < 32 && 0 <= c < 64 && !m.display[r][c] && #[trigger] m.sprite_covers(
            vx,
            vy,
            n as int,
            r,
            c,
        ) {
        let (r, c): (int, int) = choose|r: int, c: int|
            0 <= r < 32 && 0 <= c < 64 && !m.display[r][c] && #[trigger] m.sprite_covers(
                vx,
                vy,
                n as int,
                r,
                c,
            );
        assert(once.display[r][c] && once.sprite_covers(vx, vy, n as int, r, c));
    }
}

/// Adding `Vy` to `Vx` sets the flag register to 1 exactly if the sum
/// exceeds 255, and leaves the sum modulo 256 in `Vx`, unless `Vx` is the
/// flag register itself, which then holds the flag.
pub proof fn lemma_add_registers(m: Machine, x: u8, y: u8, random: u8)
    requires
        m.wf(),
        x < 16,
        y < 16,
    ensures
        m.apply(Instruction::Add { x, y }, random).registers[15] == (if m.reg(x) + m.reg(y) > 255 {
            1u8
        } else {
            0u8
        }),
        x != 15 ==> m.apply(Instruction::Add { x, y }, random).registers[x as int] == (m.reg(x)
            + m.reg(y)) % 256,
{
}

/// Subtracting `Vy` from `Vx` sets the flag register to 1 exactly if
/// `Vx >= Vy`, and leaves the difference modulo 256 in `Vx`, unless `Vx` is
/// the flag register itself, which then holds the flag.
pub proof fn lemma_sub_registers(m: Machine, x: u8, y: u8, random: u8)
    requires
        m.wf(),
        x < 16,
        y < 16,
    ensures
        m.apply(Instruction::Sub { x, y }, random).registers[15] == (if m.reg(x) >= m.reg(y) {
            1u8
        } else {
            0u8
        }),
        x != 15 ==> m.apply(Instruction::Sub { x, y }, random).registers[x as int] == (m.reg(x)
            - m.reg(y)) % 256,
{
}

/// A cycle that succeeds and does not write the delay timer counts it down
/// by one, and leaves it at zero once it is there.
pub proof fn lemma_delay_counts_down(m: Machine, random: u8)
    requires
        m.wf(),
        keeps_delay(m),
    ensures
        m.step(random).delay_timer == (if m.delay_timer > 0 {
            m.delay_timer - 1
        } else {
            0
        }),
{
}

/// Over a run of cycles that succeed and do not write the delay timer, the
/// timer falls by one per cycle until it reaches zero, and then stays there:
/// it never wraps below zero.
pub proof fn lemma_delay_after_run(m: Machine, randoms: Seq<u8>)
    requires
        m.wf(),
        run_keeps_delay(m, randoms),
    ensures
        run(m, randoms).wf(),
        run(m, randoms).delay_timer == (if m.delay_timer >= randoms.len() {
            m.delay_timer - randoms.len()
        } else {
            0
        }),
    decreases randoms.len(),
{
    if randoms.len() > 0 {
        lemma_delay_after_run(m, randoms.drop_last());
        lemma_step_wf(run(m, randoms.drop_last()), randoms.last());
        lemma_delay_counts_down(run(m, randoms.drop_last()), randoms.last());
    }
}

/// Waiting for a key while none is pressed only counts the timers down: the
/// program counter stays on the instruction, which is polled again by the
/// next cycle.
pub proof fn lemma_wait_key_polls(m: Machine, random: u8)
    requires
        m.wf(),
        polls_in_vain(m),
    ensures
        m.step_result() == Ok::<Outcome, Chip8Error>(Outcome::Executed),
        m.step(random) == m.tick(),
        m.step(random).pc == m.pc,
        polls_in_vain(m.step(random)),
{
    assert(m.tick().keys == m.keys);
    assert(m.step(random) =~= m.tick());
}

/// However many cycles wait for a key while none is pressed, the program
/// counter, the registers, the memory, the display and the stack do not
/// change.
pub proof fn lemma_wait_key_polls_forever(m: Machine, randoms: Seq<u8>)
    requires
        m.wf(),
        polls_in_vain(m),
    ensures
        run(m, randoms).wf(),
        polls_in_vain(run(m, randoms)),
        run(m, randoms).pc == m.pc,
        run(m, randoms) == (Machine {
            delay_timer: run(m, randoms).delay_timer,
            sound_timer: run(m, randoms).sound_timer,
            ..m
        }),
    decreases randoms.len(),
{
    if randoms.len() > 0 {
        lemma_wait_key_polls_forever(m, randoms.drop_last());
        lemma_wait_key_polls(run(m, randoms.drop_last()), randoms.last());
    }
}

/// Waiting for a key while one is pressed stores the lowest pressed index in
/// the target register and moves on to the next instruction.
pub proof fn lemma_wait_key_takes_lowest(m: Machine, x: u8, k: int, random: u8)
    requires
        m.wf(),
        m.fetch() is Some,
        decode_spec(m.fetch().unwrap()) == (Instruction::WaitKey { x }),
        is_lowest_pressed(m.keys, k),
    ensures
        m.step_result() == Ok::<Outcome, Chip8Error>(Outcome::Executed),
        m.step(random) == m.tick().set_reg(x, k as u8).advance(2),
        m.step(random).registers[x as int] == k,
        m.step(random).pc == m.pc + 2,
{
    lemma_lowest_pressed_unique(m.keys, k);
    crate::instruction::lemma_decode_wf(m.fetch().unwrap());
}

} // verus!
