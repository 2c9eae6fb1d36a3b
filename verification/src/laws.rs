//! Laws of the machine: what holds of every state, proved from the model.

use crate::instruction::{decode_spec, Instruction};
use crate::model::{
    any_pressed, first_pressed, flag, is_first_pressed, EngineState, Fault, Machine,
    LAST_INSTRUCTION, STACK_DEPTH,
};
use crate::sprite::{draw_sprite, sprite_lights, DISPLAY_SIZE};
use vstd::prelude::*;

verus! {

/// Clearing the screen leaves every pixel off, whatever the framebuffer
/// held before, and changes nothing else but the program counter.
pub proof fn lemma_clear_screen(m: Machine, random: u8)
    requires
        m.pc <= LAST_INSTRUCTION,
    ensures
        m.execute(Instruction::ClearScreen, random) is Ok,
        forall|p: int|
            0 <= p < DISPLAY_SIZE ==> #[trigger] m.execute(
                Instruction::ClearScreen,
                random,
            )->Ok_0.display[p] == 0,
        m.execute(Instruction::ClearScreen, random)->Ok_0.display.len() == DISPLAY_SIZE,
        m.execute(Instruction::ClearScreen, random)->Ok_0.pc == m.pc + 2,
        m.execute(Instruction::ClearScreen, random)->Ok_0.memory == m.memory,
        m.execute(Instruction::ClearScreen, random)->Ok_0.v == m.v,
{
}

/// Register add, the destination not being `VF`: the destination holds the
/// sum modulo 256, and `VF` is 1 exactly if the sum did not fit in a byte.
pub proof fn lemma_add_carry(m: Machine, x: u8, y: u8, random: u8)
    requires
        m.well_formed(),
        m.pc <= LAST_INSTRUCTION,
        x < 0xF,
        y < 16,
    ensures
        m.execute(Instruction::Add { x, y }, random) is Ok,
        m.execute(Instruction::Add { x, y }, random)->Ok_0.v[x as int] == (m.v[x as int]
            + m.v[y as int]) % 256,
        m.execute(Instruction::Add { x, y }, random)->Ok_0.v[0xF] == flag(
            m.v[x as int] + m.v[y as int] > 255,
        ),
{
}

/// Register subtract, neither operand being `VF`: `VF` is 1 exactly if the
/// minuend was strictly greater than the subtrahend, and the destination
/// holds the difference modulo 256.
pub proof fn lemma_sub_borrow(m: Machine, x: u8, y: u8, random: u8)
    requires
        m.well_formed(),
        m.pc <= LAST_INSTRUCTION,
        x < 0xF,
        y < 0xF,
    ensures
        m.execute(Instruction::Sub { x, y }, random) is Ok,
        m.execute(Instruction::Sub { x, y }, random)->Ok_0.v[x as int] == (m.v[x as int]
            - m.v[y as int]) % 256,
        m.execute(Instruction::Sub { x, y }, random)->Ok_0.v[0xF] == flag(
            m.v[x as int] > m.v[y as int],
        ),
        m.execute(Instruction::SubReverse { x, y }, random) is Ok,
        m.execute(Instruction::SubReverse { x, y }, random)->Ok_0.v[x as int] == (m.v[y as int]
            - m.v[x as int]) % 256,
        m.execute(Instruction::SubReverse { x, y }, random)->Ok_0.v[0xF] == flag(
            m.v[y as int] > m.v[x as int],
        ),
{
}

/// Shifts, the operand not being `VF`: `VF` holds the bit shifted out, the
/// operand is halved, or doubled modulo 256.
pub proof fn lemma_shifts(m: Machine, x: u8, random: u8)
    requires
        m.well_formed(),
        m.pc <= LAST_INSTRUCTION,
        x < 0xF,
    ensures
        m.execute(Instruction::ShiftRight { x }, random) is Ok,
        m.execute(Instruction::ShiftRight { x }, random)->Ok_0.v[x as int] == m.v[x as int] / 2,
        m.execute(Instruction::ShiftRight { x }, random)->Ok_0.v[0xF] == m.v[x as int] % 2,
        m.execute(Instruction::ShiftLeft { x }, random) is Ok,
        m.execute(Instruction::ShiftLeft { x }, random)->Ok_0.v[x as int] == (m.v[x as int] * 2)
            % 256,
        m.execute(Instruction::ShiftLeft { x }, random)->Ok_0.v[0xF] == m.v[x as int] / 128,
{
}

/// The decimal store writes three digits, each below ten, that make up the
/// value of the register, and touches no other memory cell.
pub proof fn lemma_store_bcd(m: Machine, x: u8, random: u8)
    requires
        m.well_formed(),
        m.pc <= LAST_INSTRUCTION,
        x < 16,
        m.index + 2 < 4096,
    ensures
        m.execute(Instruction::StoreBcd { x }, random) is Ok,
        ({
            let after = m.execute(Instruction::StoreBcd { x }, random)->Ok_0;
            let i = m.index as int;
            &&& after.memory[i] < 10 && after.memory[i + 1] < 10 && after.memory[i + 2] < 10
            &&& after.memory[i] * 100 + after.memory[i + 1] * 10 + after.memory[i + 2]
                == m.v[x as int]
            &&& forall|a: int|
                0 <= a < 4096 && !(i <= a <= i + 2) ==> #[trigger] after.memory[a] == m.memory[a]
            &&& after.index == m.index
        }),
{
}

/// A call followed at once by a return comes back to the instruction after
/// the call, with the stack pointer where it was. The call pushes its own
/// address and jumps to its target.
pub proof fn lemma_call_then_return(m: Machine, nnn: u16, r1: u8, r2: u8)
    requires
        m.well_formed(),
        m.pc <= LAST_INSTRUCTION,
        m.sp < STACK_DEPTH,
        nnn <= LAST_INSTRUCTION,
    ensures
        m.execute(Instruction::Call { nnn }, r1) is Ok,
        ({
            let called = m.execute(Instruction::Call { nnn }, r1)->Ok_0;
            &&& called.pc == nnn
            &&& called.sp == m.sp + 1
            &&& called.stack[m.sp as int] == m.pc
            &&& called.execute(Instruction::Return, r2) is Ok
            &&& called.execute(Instruction::Return, r2)->Ok_0.pc == m.pc + 2
            &&& called.execute(Instruction::Return, r2)->Ok_0.sp == m.sp
            &&& called.execute(Instruction::Return, r2)->Ok_0.memory == m.memory
            &&& called.execute(Instruction::Return, r2)->Ok_0.v == m.v
        }),
{
}

/// A call is refused exactly when the stack is full, and a return exactly
/// when no call is active, the stack pointer lies beyond the stack, or the
/// address to resume at lies beyond memory.
pub proof fn lemma_stack_guards(m: Machine, nnn: u16, random: u8)
    requires
        m.well_formed(),
        m.pc <= LAST_INSTRUCTION,
    ensures
        m.execute(Instruction::Call { nnn }, random) is Err <==> m.sp >= STACK_DEPTH,
        m.execute(Instruction::Return, random) == Err::<Machine, Fault>(Fault::StackUnderflow)
            <==> m.sp == 0,
        m.execute(Instruction::Return, random) is Ok <==> 0 < m.sp <= STACK_DEPTH && m.stack[m.sp
            - 1] <= LAST_INSTRUCTION,
{
}

/// The machine after `randoms.len()` cycles, the keypad as the machine
/// holds it and cycle `i` using `randoms[i]` for a random load; or the
/// first refusal.
pub open spec fn run(m: Machine, randoms: Seq<u8>) -> Result<Machine, Fault>
    decreases randoms.len(),
{
    if randoms.len() == 0 {
        Ok(m)
    } else {
        match m.step(randoms[0]) {
            Ok(next) => run(next, randoms.drop_first()),
            Err(fault) => Err(fault),
        }
    }
}

/// The instruction at the program counter is a key wait into register `x`.
pub open spec fn at_key_wait(m: Machine, x: u8) -> bool {
    &&& m.well_formed()
    &&& m.pc <= LAST_INSTRUCTION
    &&& decode_spec(m.fetch()) == Instruction::WaitKey { x }
}

/// One cycle on a key wait with no key held down: the machine is
/// suspended. Nothing changes but the state and the timers, so the same
/// instruction is evaluated again by the next cycle.
pub proof fn lemma_key_wait_suspends(m: Machine, x: u8, random: u8)
    requires
        at_key_wait(m, x),
        !any_pressed(m.keypad),
    ensures
        m.step(random) == Ok::<Machine, Fault>(
            Machine { state: EngineState::AwaitingKey, ..m }.tick(),
        ),
        at_key_wait(m.step(random)->Ok_0, x),
        !any_pressed(m.step(random)->Ok_0.keypad),
{
    crate::instruction::lemma_decode_well_formed(m.fetch());
}

/// However many cycles run on a key wait with no key held down, the
/// program counter does not advance and no register is set.
pub proof fn lemma_key_wait_holds(m: Machine, x: u8, randoms: Seq<u8>)
    requires
        at_key_wait(m, x),
        !any_pressed(m.keypad),
    ensures
        run(m, randoms) is Ok,
        run(m, randoms)->Ok_0.pc == m.pc,
        run(m, randoms)->Ok_0.v == m.v,
        run(m, randoms)->Ok_0.memory == m.memory,
        run(m, randoms)->Ok_0.index == m.index,
        run(m, randoms)->Ok_0.display == m.display,
        run(m, randoms)->Ok_0.stack == m.stack,
        run(m, randoms)->Ok_0.sp == m.sp,
        randoms.len() > 0 ==> run(m, randoms)->Ok_0.state == EngineState::AwaitingKey,
    decreases randoms.len(),
{
    if randoms.len() > 0 {
        lemma_key_wait_suspends(m, x, randoms[0]);
        lemma_key_wait_holds(m.step(randoms[0])->Ok_0, x, randoms.drop_first());
    }
}

/// One cycle on a key wait with a key held down completes the wait: the
/// first key held down, in key order, goes to the destination register,
/// the program counter advances and the machine is running.
pub proof fn lemma_key_wait_completes(m: Machine, x: u8, random: u8)
    requires
        at_key_wait(m, x),
        any_pressed(m.keypad),
    ensures
        m.step(random) is Ok,
        m.step(random)->Ok_0.pc == m.pc + 2,
        m.step(random)->Ok_0.state == EngineState::Running,
        m.step(random)->Ok_0.v == m.v.update(x as int, first_pressed(m.keypad) as u8),
        is_first_pressed(m.keypad, first_pressed(m.keypad)),
{
    crate::instruction::lemma_decode_well_formed(m.fetch());
    let k = choose|k: int| 0 <= k < m.keypad.len() && #[trigger] m.keypad[k];
    lemma_some_key_is_first(m.keypad, k);
}

/// Where some key is held down, one of them is the first.
pub proof fn lemma_some_key_is_first(keypad: Seq<bool>, k: int)
    requires
        0 <= k < keypad.len(),
        keypad[k],
    ensures
        is_first_pressed(keypad, first_pressed(keypad)),
        first_pressed(keypad) <= k,
    decreases k,
{
    if exists|j: int| 0 <= j < k && #[trigger] keypad[j] {
        let j = choose|j: int| 0 <= j < k && #[trigger] keypad[j];
        lemma_some_key_is_first(keypad, j);
    } else {
        assert(is_first_pressed(keypad, k));
        let chosen = first_pressed(keypad);
        assert(is_first_pressed(keypad, chosen));
        if k < chosen {
            assert(!keypad[k]);
        }
    }
}

/// Only a random load looks at the random byte: a cycle on any other
/// instruction ends the same whatever byte it is given.
pub proof fn lemma_random_only_for_random_load(m: Machine, r1: u8, r2: u8)
    requires
        !(decode_spec(m.fetch()) is Random),
    ensures
        m.step(r1) == m.step(r2),
{
}

/// Each cycle lowers each timer by exactly one while it is above zero, and
/// never below zero, unless the instruction executed sets that timer.
pub proof fn lemma_timers_count_down(m: Machine, random: u8)
    requires
        m.step(random) is Ok,
    ensures
        !(decode_spec(m.fetch()) is SetDelay) ==> m.step(random)->Ok_0.delay == if m.delay > 0 {
            m.delay - 1
        } else {
            0
        },
        !(decode_spec(m.fetch()) is SetSound) ==> m.step(random)->Ok_0.sound == if m.sound > 0 {
            m.sound - 1
        } else {
            0
        },
{
}

/// An unknown instruction word changes nothing but the program counter,
/// which advances, and the timers.
pub proof fn lemma_unknown_is_harmless(m: Machine, random: u8)
    requires
        m.pc <= LAST_INSTRUCTION,
        decode_spec(m.fetch()) is Unknown,
    ensures
        m.step(random) == Ok::<Machine, Fault>(
            Machine { pc: (m.pc + 2) as u16, state: EngineState::Running, ..m }.tick(),
        ),
{
}

/// A cycle keeps the shape of the machine, and a stack pointer within the
/// stack stays within it.
pub proof fn lemma_step_keeps_shape(m: Machine, random: u8)
    requires
        m.well_formed(),
        m.step(random) is Ok,
    ensures
        m.step(random)->Ok_0.well_formed(),
        m.sp <= STACK_DEPTH ==> m.step(random)->Ok_0.sp <= STACK_DEPTH,
        m.step(random)->Ok_0.keypad == m.keypad,
        m.step(random)->Ok_0.debug == m.debug,
{
    crate::instruction::lemma_decode_well_formed(m.fetch());
}

/// Drawing toggles: a pixel that is off comes on and one that is on goes
/// off under a lit sprite pixel, and every other pixel is kept.
pub proof fn lemma_draw_toggles(display: Seq<u8>, sprite: Seq<u8>, x: u8, y: u8, p: int)
    requires
        0 <= p < display.len(),
        display[p] == 0 || display[p] == 1,
    ensures
        draw_sprite(display, sprite, x, y).len() == display.len(),
        draw_sprite(display, sprite, x, y)[p] == if sprite_lights(sprite, x, y, p) {
            1 - display[p]
        } else {
            display[p] as int
        },
{
    let d = display[p];
    assert(d == 0 || d == 1 ==> d ^ 1 == 1 - d) by (bit_vector);
}

/// On a blank framebuffer a sprite sets exactly the pixels it lights.
pub proof fn lemma_draw_on_blank(display: Seq<u8>, sprite: Seq<u8>, x: u8, y: u8)
    requires
        forall|p: int| 0 <= p < display.len() ==> #[trigger] display[p] == 0,
    ensures
        forall|p: int|
            0 <= p < display.len() ==> #[trigger] draw_sprite(display, sprite, x, y)[p] == flag(
                sprite_lights(sprite, x, y, p),
            ),
{
    assert forall|p: int| 0 <= p < display.len() implies #[trigger] draw_sprite(
        display,
        sprite,
        x,
        y,
    )[p] == flag(sprite_lights(sprite, x, y, p)) by {
        lemma_draw_toggles(display, sprite, x, y, p);
    }
}

/// Drawing the same sprite twice at the same place restores the
/// framebuffer.
pub proof fn lemma_draw_twice(display: Seq<u8>, sprite: Seq<u8>, x: u8, y: u8)
    ensures
        draw_sprite(draw_sprite(display, sprite, x, y), sprite, x, y) == display,
{
    let once = draw_sprite(display, sprite, x, y);
    let twice = draw_sprite(once, sprite, x, y);
    assert forall|p: int| 0 <= p < display.len() implies twice[p] == display[p] by {
        let d = display[p];
        assert((d ^ 1) ^ 1 == d) by (bit_vector);
    }
    assert(twice =~= display);
}

/// A draw resets `VF` whatever the sprite covers, and reads its position
/// from the registers as they were before the reset.
pub proof fn lemma_draw_resets_flag(m: Machine, x: u8, y: u8, n: u8, random: u8)
    requires
        m.well_formed(),
        x < 16,
        y < 16,
        m.execute(Instruction::Draw { x, y, n }, random) is Ok,
    ensures
        m.execute(Instruction::Draw { x, y, n }, random)->Ok_0.v == m.v.update(0xF, 0),
        m.execute(Instruction::Draw { x, y, n }, random)->Ok_0.display == draw_sprite(
            m.display,
            m.sprite(n),
            m.v[x as int],
            m.v[y as int],
        ),
        m.execute(Instruction::Draw { x, y, n }, random)->Ok_0.pc == m.pc + 2,
{
}

/// A cycle leaves the machine awaiting a key exactly if it evaluated a key
/// wait with no key held down; after any other cycle the machine is
/// running.
pub proof fn lemma_awaiting_key_only_on_key_wait(m: Machine, random: u8)
    requires
        m.step(random) is Ok,
    ensures
        m.step(random)->Ok_0.state == EngineState::AwaitingKey <==> decode_spec(m.fetch())
            is WaitKey && !any_pressed(m.keypad),
        m.step(random)->Ok_0.state != EngineState::AwaitingKey ==> m.step(random)->Ok_0.state
            == EngineState::Running,
{
}

/// How the program counter moves. Jump, call and return set it and do not
/// advance it further; a key wait with no key held down leaves it; a skip
/// advances it by 2 or by 4; every other instruction advances it by
/// exactly 2.
pub proof fn lemma_counter_moves(m: Machine, instruction: Instruction, random: u8)
    requires
        m.well_formed(),
        instruction.well_formed(),
        m.execute(instruction, random) is Ok,
    ensures
        ({
            let after = m.execute(instruction, random)->Ok_0;
            match instruction {
                Instruction::Jump { nnn } => after.pc == nnn,
                Instruction::Call { nnn } => after.pc == nnn,
                Instruction::JumpOffset { nnn } => after.pc == nnn + m.v[0],
                Instruction::Return => after.pc == m.stack[m.sp - 1] + 2,
                Instruction::WaitKey { .. } => after.pc == if any_pressed(m.keypad) {
                    m.pc + 2
                } else {
                    m.pc as int
                },
                Instruction::SkipEqImm { .. }
                | Instruction::SkipNeImm { .. }
                | Instruction::SkipEqReg { .. }
                | Instruction::SkipNeReg { .. }
                | Instruction::SkipKeyPressed { .. }
                | Instruction::SkipKeyNotPressed { .. } => after.pc == m.pc + 2 || after.pc
                    == m.pc + 4,
                _ => after.pc == m.pc + 2,
            }
        }),
{
}

} // verus!
