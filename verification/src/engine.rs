//! The executable machine: the state store, the loader and the instruction
//! engine.

use crate::font::{font_set, font_table};
use crate::instruction::{decode, Instruction};
use crate::model::{
    any_pressed, first_pressed, is_first_pressed, wrapping_add_u8, wrapping_sub_u8, EngineState,
    Fault, Machine, LAST_INSTRUCTION,
};
use crate::random::random_byte;
use crate::sprite::{
    cell_offset, draw_sprite, lemma_sprite_lights, lemma_sprite_overruns, lit_before, pixel_index,
    sprite_bit, sprite_lights, sprite_lights_at, sprite_overruns,
};
use vstd::prelude::*;

verus! {

/// The virtual machine.
pub struct CHIP8 {
    pub memory: [u8; 4096],
    pub vregister: [u8; 16],
    pub index_register: u16,
    pub program_counter: u16,
    pub stack_pointer: u8,
    pub stack: [u16; 16],
    pub delay_timer: u8,
    pub sound_timer: u8,
    pub display: [u8; 2048],
    pub keypad: [bool; 16],
    pub state: EngineState,
    pub debug: bool,
}

impl View for CHIP8 {
    type V = Machine;

    open spec fn view(&self) -> Machine {
        Machine {
            memory: self.memory@,
            v: self.vregister@,
            index: self.index_register,
            pc: self.program_counter,
            sp: self.stack_pointer,
            stack: self.stack@,
            delay: self.delay_timer,
            sound: self.sound_timer,
            display: self.display@,
            keypad: self.keypad@,
            state: self.state,
            debug: self.debug,
        }
    }
}

impl CHIP8 {
    /// A machine with every store zeroed and the program counter at the
    /// program start.
    pub fn new() -> (machine: Self)
        ensures
            machine@ == Machine::initial(),
    {
        let machine = Self {
            memory: [0; 4096],
            vregister: [0; 16],
            index_register: 0x0,
            program_counter: 0x200,
            stack_pointer: 0,
            stack: [0; 16],
            delay_timer: 0,
            sound_timer: 0,
            display: [0; 2048],
            keypad: [false; 16],
            state: EngineState::Running,
            debug: false,
        };
        proof {
            assert(machine.memory@ =~= Machine::initial().memory);
            assert(machine.vregister@ =~= Machine::initial().v);
            assert(machine.stack@ =~= Machine::initial().stack);
            assert(machine.display@ =~= Machine::initial().display);
            assert(machine.keypad@ =~= Machine::initial().keypad);
        }
        machine
    }
}

impl CHIP8 {
    /// Writes the font table to memory, from address `0x50` on.
    pub fn load_fonts(&mut self)
        ensures
            final(self)@ == old(self)@.with_fonts(),
    {
        let table: [u8; 80] = font_set();
        let mut i: usize = 0;
        while i < 80
            invariant
                i <= 80,
                table@ == font_table(),
                self@ == (Machine { memory: self@.memory, ..old(self)@ }),
                forall|a: int|
                    0 <= a < 4096 ==> #[trigger] self.memory@[a] == if 0x50 <= a < 0x50 + i {
                        table@[a - 0x50]
                    } else {
                        old(self).memory@[a]
                    },
            decreases 80 - i,
        {
            self.memory[0x50 + i] = table[i];
            i = i + 1;
        }
        assert(self@.memory =~= old(self)@.with_fonts().memory);
    }

    /// Writes a program image to memory, from address `0x200` on. An image
    /// of more than 3584 bytes does not fit and is refused, the machine
    /// left as it was.
    pub fn load_rom(&mut self, rom: &[u8]) -> (result: Result<(), Fault>)
        ensures
            match result {
                Ok(()) => old(self)@.with_rom(rom@) == Ok::<Machine, Fault>(final(self)@),
                Err(fault) => old(self)@.with_rom(rom@) == Err::<Machine, Fault>(fault) && *final(self) == *old(self),
            },
    {
        let len: usize = rom.len();
        if len > 4096 - 0x200 {
            return Err(Fault::RomTooLarge);
        }
        let mut i: usize = 0;
        while i < len
            invariant
                i <= len,
                len == rom@.len(),
                len <= 4096 - 0x200,
                self@ == (Machine { memory: self@.memory, ..old(self)@ }),
                forall|a: int|
                    0 <= a < 4096 ==> #[trigger] self.memory@[a] == if 0x200 <= a < 0x200 + i {
                        rom@[a - 0x200]
                    } else {
                        old(self).memory@[a]
                    },
            decreases len - i,
        {
            self.memory[0x200 + i] = rom[i];
            i = i + 1;
        }
        assert(self@.memory =~= old(self)@.with_rom(rom@)->Ok_0.memory);
        Ok(())
    }

    /// The instruction word at the program counter, or the refusal of a
    /// program counter that leaves no room for one.
    pub fn fetch(&self) -> (result: Result<u16, Fault>)
        ensures
            self.program_counter <= LAST_INSTRUCTION ==> result == Ok::<u16, Fault>(
                self@.fetch(),
            ),
            self.program_counter > LAST_INSTRUCTION ==> result == Err::<u16, Fault>(
                Fault::ProgramCounterOutOfBounds,
            ),
    {
        if self.program_counter > LAST_INSTRUCTION {
            return Err(Fault::ProgramCounterOutOfBounds);
        }
        let msb: u8 = self.memory[self.program_counter as usize];
        let lsb: u8 = self.memory[(self.program_counter + 1) as usize];
        let opcode: u16 = ((msb as u16) << 8) | lsb as u16;
        assert(((msb as u16) << 8) | lsb as u16 == msb as u16 * 256 + lsb as u16) by (bit_vector);
        Ok(opcode)
    }

    /// Executes one instruction, `random` being the byte to use for a random
    /// load. A refused instruction leaves the machine as it was.
    pub fn execute(&mut self, instruction: Instruction, random: u8) -> (result: Result<(), Fault>)
        requires
            instruction.well_formed(),
        ensures
            match result {
                Ok(()) => old(self)@.execute(instruction, random) == Ok::<Machine, Fault>(
                    final(self)@,
                ),
                Err(fault) => old(self)@.execute(instruction, random) == Err::<Machine, Fault>(
                    fault,
                ) && *final(self) == *old(self),
            },
    {
        if self.program_counter > LAST_INSTRUCTION {
            return Err(Fault::ProgramCounterOutOfBounds);
        }
        match instruction {
            Instruction::ClearScreen => {
                self.display = [0; 2048];
                self.advance();
                assert(self@.display =~= Seq::new(2048, |p: int| 0u8));
                Ok(())
            },
            Instruction::Return => self.op_return(),
            Instruction::Jump { nnn } => {
                self.program_counter = nnn;
                self.state = EngineState::Running;
                Ok(())
            },
            Instruction::Call { nnn } => self.op_call(nnn),
            Instruction::SkipEqImm { x, kk } => {
                let taken: bool = self.vregister[x as usize] == kk;
                self.skip_if(taken);
                Ok(())
            },
            Instruction::SkipNeImm { x, kk } => {
                let taken: bool = self.vregister[x as usize] != kk;
                self.skip_if(taken);
                Ok(())
            },
            Instruction::SkipEqReg { x, y } => {
                let taken: bool = self.vregister[x as usize] == self.vregister[y as usize];
                self.skip_if(taken);
                Ok(())
            },
            Instruction::LoadImm { x, kk } => {
                self.set_v(x, kk);
                self.advance();
                Ok(())
            },
            Instruction::AddImm { x, kk } => {
                let sum: u8 = wrapping_add(self.vregister[x as usize], kk);
                self.set_v(x, sum);
                self.advance();
                Ok(())
            },
            Instruction::Move { x, y } => {
                let value: u8 = self.vregister[y as usize];
                self.set_v(x, value);
                self.advance();
                Ok(())
            },
            Instruction::Or { x, y } => {
                let value: u8 = self.vregister[x as usize] | self.vregister[y as usize];
                self.set_v(x, value);
                self.advance();
                Ok(())
            },
            Instruction::And { x, y } => {
                let value: u8 = self.vregister[x as usize] & self.vregister[y as usize];
                self.set_v(x, value);
                self.advance();
                Ok(())
            },
            Instruction::Xor { x, y } => {
                let value: u8 = self.vregister[x as usize] ^ self.vregister[y as usize];
                self.set_v(x, value);
                self.advance();
                Ok(())
            },
            Instruction::Add { x, y } => {
                self.op_add(x, y);
                Ok(())
            },
            Instruction::Sub { x, y } => {
                self.op_sub(x, y);
                Ok(())
            },
            Instruction::ShiftRight { x } => {
                self.op_shift_right(x);
                Ok(())
            },
            Instruction::SubReverse { x, y } => {
                self.op_sub_reverse(x, y);
                Ok(())
            },
            Instruction::ShiftLeft { x } => {
                self.op_shift_left(x);
                Ok(())
            },
            Instruction::SkipNeReg { x, y } => {
                let taken: bool = self.vregister[x as usize] != self.vregister[y as usize];
                self.skip_if(taken);
                Ok(())
            },
            Instruction::LoadIndex { nnn } => {
                self.advance();
                self.index_register = nnn;
                Ok(())
            },
            Instruction::JumpOffset { nnn } => {
                self.program_counter = nnn + self.vregister[0] as u16;
                self.state = EngineState::Running;
                Ok(())
            },
            Instruction::Random { x, kk } => {
                self.set_v(x, random & kk);
                self.advance();
                Ok(())
            },
            Instruction::Draw { x, y, n } => self.op_draw(x, y, n),
            Instruction::SkipKeyPressed { x } => self.op_skip_key(x, true),
            Instruction::SkipKeyNotPressed { x } => self.op_skip_key(x, false),
            Instruction::LoadDelay { x } => {
                let value: u8 = self.delay_timer;
                self.set_v(x, value);
                self.advance();
                Ok(())
            },
            Instruction::WaitKey { x } => {
                self.op_wait_key(x);
                Ok(())
            },
            Instruction::SetDelay { x } => {
                self.advance();
                self.delay_timer = self.vregister[x as usize];
                Ok(())
            },
            Instruction::SetSound { x } => {
                self.advance();
                self.sound_timer = self.vregister[x as usize];
                Ok(())
            },
            Instruction::AddIndex { x } => self.op_add_index(x),
            Instruction::FontAddress { x } => {
                self.advance();
                self.index_register = 0x50 + self.vregister[x as usize] as u16 * 5;
                Ok(())
            },
            Instruction::StoreBcd { x } => self.op_store_bcd(x),
            Instruction::StoreRegisters { x } => self.op_store_registers(x),
            Instruction::LoadRegisters { x } => self.op_load_registers(x),
            Instruction::Unknown { .. } => {
                self.advance();
                Ok(())
            },
        }
    }

    /// Lowers each timer that is above zero by one.
    pub fn tick_timers(&mut self)
        ensures
            final(self)@ == old(self)@.tick(),
    {
        if self.delay_timer > 0 {
            self.delay_timer = self.delay_timer - 1;
        }
        if self.sound_timer > 0 {
            self.sound_timer = self.sound_timer - 1;
        }
    }

    /// Runs one cycle with `random` as the byte to use for a random load:
    /// fetch, decode, execute, then tick the timers. Returns the
    /// instruction word that was executed. A refused cycle leaves the
    /// machine as it was, timers included.
    pub fn cycle_with(&mut self, random: u8) -> (result: Result<u16, Fault>)
        ensures
            match result {
                Ok(opcode) => opcode == old(self)@.fetch() && old(self)@.step(random) == Ok::<
                    Machine,
                    Fault,
                >(final(self)@),
                Err(fault) => old(self)@.step(random) == Err::<Machine, Fault>(fault) && *final(self) == *old(self),
            },
    {
        let opcode: u16 = match self.fetch() {
            Ok(opcode) => opcode,
            Err(fault) => {
                return Err(fault);
            },
        };
        let instruction: Instruction = decode(opcode);
        match self.execute(instruction, random) {
            Ok(()) => {
                self.tick_timers();
                Ok(opcode)
            },
            Err(fault) => Err(fault),
        }
    }

    /// Runs one cycle: fetch, decode, execute, then tick the timers. A
    /// random load draws its byte from the random source; whatever byte is
    /// drawn, the cycle is the one [`Machine::step`] describes for it.
    /// Returns the instruction word that was executed. A refused cycle
    /// leaves the machine as it was, timers included.
    pub fn cycle(&mut self) -> (result: Result<u16, Fault>)
        ensures
            exists|random: u8|
                match result {
                    Ok(opcode) => opcode == old(self)@.fetch() && #[trigger] old(self)@.step(
                        random,
                    ) == Ok::<Machine, Fault>(final(self)@),
                    Err(fault) => #[trigger] old(self)@.step(random) == Err::<Machine, Fault>(
                        fault,
                    ) && *final(self) == *old(self),
                },
    {
        let random: u8 = match self.fetch() {
            Ok(opcode) => match decode(opcode) {
                Instruction::Random { .. } => random_byte(),
                _ => 0,
            },
            Err(_) => 0,
        };
        self.cycle_with(random)
    }
}

impl CHIP8 {
    /// Sets register `x`.
    fn set_v(&mut self, x: u8, value: u8)
        requires
            x < 16,
        ensures
            final(self)@ == old(self)@.with_v(x, value),
    {
        self.vregister[x as usize] = value;
    }

    /// Moves the program counter to the next instruction.
    fn advance(&mut self)
        requires
            old(self).program_counter <= LAST_INSTRUCTION,
        ensures
            final(self)@ == old(self)@.advance(),
    {
        self.program_counter = self.program_counter + 2;
        self.state = EngineState::Running;
    }

    /// Moves the program counter past the next instruction if `condition`
    /// holds, and to it otherwise.
    fn skip_if(&mut self, condition: bool)
        requires
            old(self).program_counter <= LAST_INSTRUCTION,
        ensures
            final(self)@ == old(self)@.skip_if(condition),
    {
        if condition {
            self.program_counter = self.program_counter + 4;
        } else {
            self.program_counter = self.program_counter + 2;
        }
        self.state = EngineState::Running;
    }

    /// Pops the address of the last call and resumes after it.
    fn op_return(&mut self) -> (result: Result<(), Fault>)
        ensures
            match result {
                Ok(()) => old(self)@.execute_return() == Ok::<Machine, Fault>(final(self)@),
                Err(fault) => old(self)@.execute_return() == Err::<Machine, Fault>(fault)
                    && *final(self) == *old(self),
            },
    {
        if self.stack_pointer == 0 {
            return Err(Fault::StackUnderflow);
        }
        if self.stack_pointer > 16 {
            return Err(Fault::StackOverflow);
        }
        let resume: u16 = self.stack[(self.stack_pointer - 1) as usize];
        if resume > LAST_INSTRUCTION {
            return Err(Fault::ProgramCounterOutOfBounds);
        }
        self.stack_pointer = self.stack_pointer - 1;
        self.program_counter = resume + 2;
        self.state = EngineState::Running;
        Ok(())
    }

    /// Pushes the address of the call and jumps to `nnn`.
    fn op_call(&mut self, nnn: u16) -> (result: Result<(), Fault>)
        ensures
            match result {
                Ok(()) => old(self)@.execute_call(nnn) == Ok::<Machine, Fault>(final(self)@),
                Err(fault) => old(self)@.execute_call(nnn) == Err::<Machine, Fault>(fault)
                    && *final(self) == *old(self),
            },
    {
        if self.stack_pointer >= 16 {
            return Err(Fault::StackOverflow);
        }
        self.stack[self.stack_pointer as usize] = self.program_counter;
        self.stack_pointer = self.stack_pointer + 1;
        self.program_counter = nnn;
        self.state = EngineState::Running;
        Ok(())
    }

    /// `Vx = Vx + Vy` modulo 256, then `VF` = carry.
    fn op_add(&mut self, x: u8, y: u8)
        requires
            x < 16,
            y < 16,
            old(self).program_counter <= LAST_INSTRUCTION,
        ensures
            final(self)@ == old(self)@.execute_add(x, y),
    {
        let sum: u16 = self.vregister[x as usize] as u16 + self.vregister[y as usize] as u16;
        self.set_v(x, (sum % 256) as u8);
        self.set_v(0xF, if sum > 255 { 1 } else { 0 });
        self.advance();
    }

    /// `VF` = whether `Vx > Vy`, then `Vx = Vx - Vy` modulo 256.
    fn op_sub(&mut self, x: u8, y: u8)
        requires
            x < 16,
            y < 16,
            old(self).program_counter <= LAST_INSTRUCTION,
        ensures
            final(self)@ == old(self)@.execute_sub(x, y),
    {
        let no_borrow: bool = self.vregister[x as usize] > self.vregister[y as usize];
        self.set_v(0xF, if no_borrow { 1 } else { 0 });
        let difference: u8 = wrapping_sub(self.vregister[x as usize], self.vregister[y as usize]);
        self.set_v(x, difference);
        self.advance();
    }

    /// `VF` = whether `Vy > Vx`, then `Vx = Vy - Vx` modulo 256.
    fn op_sub_reverse(&mut self, x: u8, y: u8)
        requires
            x < 16,
            y < 16,
            old(self).program_counter <= LAST_INSTRUCTION,
        ensures
            final(self)@ == old(self)@.execute_sub_reverse(x, y),
    {
        let no_borrow: bool = self.vregister[y as usize] > self.vregister[x as usize];
        self.set_v(0xF, if no_borrow { 1 } else { 0 });
        let difference: u8 = wrapping_sub(self.vregister[y as usize], self.vregister[x as usize]);
        self.set_v(x, difference);
        self.advance();
    }

    /// `VF` = lowest bit of `Vx`, then `Vx = Vx / 2`.
    fn op_shift_right(&mut self, x: u8)
        requires
            x < 16,
            old(self).program_counter <= LAST_INSTRUCTION,
        ensures
            final(self)@ == old(self)@.execute_shift_right(x),
    {
        let operand: u8 = self.vregister[x as usize];
        let lsb: u8 = operand & 0x01;
        assert(operand & 0x01 == operand % 2) by (bit_vector);
        self.set_v(0xF, lsb);
        let halved: u8 = self.vregister[x as usize] / 2;
        self.set_v(x, halved);
        self.advance();
    }

    /// `VF` = highest bit of `Vx`, then `Vx = Vx * 2` modulo 256.
    fn op_shift_left(&mut self, x: u8)
        requires
            x < 16,
            old(self).program_counter <= LAST_INSTRUCTION,
        ensures
            final(self)@ == old(self)@.execute_shift_left(x),
    {
        let operand: u8 = self.vregister[x as usize];
        let msb: u8 = (operand & 0x80) >> 7;
        assert((operand & 0x80) >> 7 == operand / 128) by (bit_vector);
        self.set_v(0xF, msb);
        let doubled: u16 = self.vregister[x as usize] as u16 * 2;
        self.set_v(x, (doubled % 256) as u8);
        self.advance();
    }

    /// Resets `VF` and toggles the `n`-row sprite at the index register onto
    /// the framebuffer at `(Vx, Vy)`.
    fn op_draw(&mut self, x: u8, y: u8, n: u8) -> (result: Result<(), Fault>)
        requires
            x < 16,
            y < 16,
            n < 16,
            old(self).program_counter <= LAST_INSTRUCTION,
        ensures
            match result {
                Ok(()) => old(self)@.execute_draw(x, y, n) == Ok::<Machine, Fault>(final(self)@),
                Err(fault) => old(self)@.execute_draw(x, y, n) == Err::<Machine, Fault>(fault)
                    && *final(self) == *old(self),
            },
    {
        let left: u8 = self.vregister[x as usize];
        let top: u8 = self.vregister[y as usize];
        let start: usize = self.index_register as usize;
        if n > 0 && start + n as usize > 4096 {
            return Err(Fault::AddressOutOfBounds);
        }
        let ghost sprite = self@.sprite(n);
        let mut display: [u8; 2048] = self.display;
        let mut row: u8 = 0;
        while row < n
            invariant
                row <= n,
                n < 16,
                x < 16,
                y < 16,
                *self == *old(self),
                start == self.index_register,
                n > 0 ==> start + n <= 4096,
                left == self.vregister@[x as int],
                top == self.vregister@[y as int],
                sprite == self@.sprite(n),
                forall|p: int|
                    0 <= p < 2048 ==> #[trigger] display@[p] == if lit_before(
                        sprite,
                        left,
                        top,
                        row as int,
                        0,
                        p,
                    ) {
                        self.display@[p] ^ 1
                    } else {
                        self.display@[p]
                    },
                forall|p: int|
                    p >= 2048 ==> !#[trigger] lit_before(sprite, left, top, row as int, 0, p),
            decreases n - row,
        {
            let bits: u8 = self.memory[start + row as usize];
            let mut col: u8 = 0;
            while col < 8
                invariant
                    row < n,
                    n < 16,
                    x < 16,
                    y < 16,
                    col <= 8,
                    *self == *old(self),
                    start == self.index_register,
                    start + n <= 4096,
                    left == self.vregister@[x as int],
                    top == self.vregister@[y as int],
                    sprite == self@.sprite(n),
                    bits == sprite[row as int],
                    forall|p: int|
                        0 <= p < 2048 ==> #[trigger] display@[p] == if lit_before(
                            sprite,
                            left,
                            top,
                            row as int,
                            col as int,
                            p,
                        ) {
                            self.display@[p] ^ 1
                        } else {
                            self.display@[p]
                        },
                    forall|p: int|
                        p >= 2048 ==> !#[trigger] lit_before(
                            sprite,
                            left,
                            top,
                            row as int,
                            col as int,
                            p,
                        ),
                decreases 8 - col,
            {
                let lit: bool = (bits >> (7 - col)) & 0x01 == 1;
                let cell: usize = (left as usize + col as usize) + (top as usize + row as usize)
                    * 64;
                let ghost before = display@;
                proof {
                    assert(lit == sprite_bit(bits, col as int));
                    assert(cell == pixel_index(left, top, row as int, col as int));
                    assert(cell_offset(left, top, cell as int) == row * 64 + col);
                }
                if lit {
                    if cell >= 2048 {
                        proof {
                            assert(sprite_overruns(sprite, left, top));
                        }
                        return Err(Fault::PixelOutOfBounds);
                    }
                    let toggled: u8 = display[cell] ^ 1;
                    display[cell] = toggled;
                }
                proof {
                    assert forall|p: int|
                        #[trigger] lit_before(sprite, left, top, row as int, col + 1, p) == (
                        lit_before(sprite, left, top, row as int, col as int, p) || (lit && p
                            == cell)) by {
                        let offset = cell_offset(left, top, p);
                        if p == cell {
                            assert(offset / 64 == row && offset % 64 == col);
                        } else if offset >= 0 && offset / 64 == row && offset % 64 == col {
                            assert(offset == row * 64 + col);
                        }
                    }
                    assert forall|p: int| 0 <= p < 2048 implies #[trigger] display@[p]
                        == if lit_before(sprite, left, top, row as int, col + 1, p) {
                        self.display@[p] ^ 1
                    } else {
                        self.display@[p]
                    } by {
                        assert(before[p] == if lit_before(
                            sprite,
                            left,
                            top,
                            row as int,
                            col as int,
                            p,
                        ) {
                            self.display@[p] ^ 1
                        } else {
                            self.display@[p]
                        });
                        if lit && p == cell {
                            let offset = cell_offset(left, top, p);
                            assert(offset / 64 == row && offset % 64 == col);
                            assert(!lit_before(sprite, left, top, row as int, col as int, p));
                        }
                    }
                    assert forall|p: int| p >= 2048 implies !#[trigger] lit_before(
                        sprite,
                        left,
                        top,
                        row as int,
                        col + 1,
                        p,
                    ) by {
                        assert(!lit_before(sprite, left, top, row as int, col as int, p));
                    }
                }
                col = col + 1;
            }
            proof {
                assert forall|p: int|
                    #[trigger] lit_before(sprite, left, top, row + 1, 0, p) == lit_before(
                        sprite,
                        left,
                        top,
                        row as int,
                        8,
                        p,
                    ) by {}
                assert forall|p: int| p >= 2048 implies !#[trigger] lit_before(
                    sprite,
                    left,
                    top,
                    row + 1,
                    0,
                    p,
                ) by {
                    assert(!lit_before(sprite, left, top, row as int, 8, p));
                }
            }
            row = row + 1;
        }
        proof {
            assert forall|p: int| #[trigger]
                sprite_lights(sprite, left, top, p) == lit_before(
                    sprite,
                    left,
                    top,
                    n as int,
                    0,
                    p,
                ) by {
                lemma_sprite_lights(sprite, left, top, p);
            }
            lemma_sprite_overruns(sprite, left, top);
            if sprite_overruns(sprite, left, top) {
                let p = choose|p: int|
                    p >= 2048 && #[trigger] sprite_lights_at(sprite, left, top, p);
                assert(!lit_before(sprite, left, top, n as int, 0, p));
            }
            assert(display@ =~= draw_sprite(self.display@, sprite, left, top));
        }
        self.set_v(0xF, 0);
        self.display = display;
        self.advance();
        Ok(())
    }

    /// Skips the next instruction if the key numbered `Vx` is held down
    /// (`pressed`) or is not (`!pressed`).
    fn op_skip_key(&mut self, x: u8, pressed: bool) -> (result: Result<(), Fault>)
        requires
            x < 16,
            old(self).program_counter <= LAST_INSTRUCTION,
        ensures
            match result {
                Ok(()) => old(self)@.execute_skip_key(x, pressed) == Ok::<Machine, Fault>(
                    final(self)@,
                ),
                Err(fault) => old(self)@.execute_skip_key(x, pressed) == Err::<Machine, Fault>(
                    fault,
                ) && *final(self) == *old(self),
            },
    {
        let key: u8 = self.vregister[x as usize];
        if key >= 16 {
            return Err(Fault::KeyOutOfRange);
        }
        let held: bool = self.keypad[key as usize];
        self.skip_if(held == pressed);
        Ok(())
    }

    /// The first key, in key order, that is held down.
    pub fn first_pressed_key(&self) -> (key: Option<u8>)
        ensures
            key is Some <==> any_pressed(self@.keypad),
            key is Some ==> key->Some_0 == first_pressed(self@.keypad),
            key is Some ==> is_first_pressed(self@.keypad, key->Some_0 as int),
    {
        let mut k: u8 = 0;
        while k < 16
            invariant
                k <= 16,
                forall|j: int| 0 <= j < k ==> !#[trigger] self.keypad@[j],
            decreases 16 - k,
        {
            if self.keypad[k as usize] {
                proof {
                    lemma_first_pressed_unique(self@.keypad, k as int);
                }
                return Some(k);
            }
            k = k + 1;
        }
        None
    }

    /// Stores the first key held down in `Vx` and goes on, or, with no key
    /// held down, suspends: only the state changes.
    fn op_wait_key(&mut self, x: u8)
        requires
            x < 16,
            old(self).program_counter <= LAST_INSTRUCTION,
        ensures
            final(self)@ == old(self)@.execute_wait_key(x),
    {
        match self.first_pressed_key() {
            Some(key) => {
                self.set_v(x, key);
                self.advance();
            },
            None => {
                self.state = EngineState::AwaitingKey;
            },
        }
    }

    /// `I = I + Vx`.
    fn op_add_index(&mut self, x: u8) -> (result: Result<(), Fault>)
        requires
            x < 16,
            old(self).program_counter <= LAST_INSTRUCTION,
        ensures
            match result {
                Ok(()) => old(self)@.execute_add_index(x) == Ok::<Machine, Fault>(final(self)@),
                Err(fault) => old(self)@.execute_add_index(x) == Err::<Machine, Fault>(fault)
                    && *final(self) == *old(self),
            },
    {
        let sum: u32 = self.index_register as u32 + self.vregister[x as usize] as u32;
        if sum > 0xFFFF {
            return Err(Fault::AddressOutOfBounds);
        }
        self.advance();
        self.index_register = sum as u16;
        Ok(())
    }

    /// Stores the hundreds, tens and ones of `Vx` at `I`, `I + 1`, `I + 2`.
    fn op_store_bcd(&mut self, x: u8) -> (result: Result<(), Fault>)
        requires
            x < 16,
            old(self).program_counter <= LAST_INSTRUCTION,
        ensures
            match result {
                Ok(()) => old(self)@.execute_store_bcd(x) == Ok::<Machine, Fault>(final(self)@),
                Err(fault) => old(self)@.execute_store_bcd(x) == Err::<Machine, Fault>(fault)
                    && *final(self) == *old(self),
            },
    {
        let start: usize = self.index_register as usize;
        if start + 2 >= 4096 {
            return Err(Fault::AddressOutOfBounds);
        }
        let value: u8 = self.vregister[x as usize];
        self.advance();
        self.memory[start] = value / 100;
        self.memory[start + 1] = (value / 10) % 10;
        self.memory[start + 2] = value % 10;
        Ok(())
    }

    /// Copies `V0..=Vx` to memory from `I` on.
    fn op_store_registers(&mut self, x: u8) -> (result: Result<(), Fault>)
        requires
            x < 16,
            old(self).program_counter <= LAST_INSTRUCTION,
        ensures
            match result {
                Ok(()) => old(self)@.execute_store_registers(x) == Ok::<Machine, Fault>(
                    final(self)@,
                ),
                Err(fault) => old(self)@.execute_store_registers(x) == Err::<Machine, Fault>(
                    fault,
                ) && *final(self) == *old(self),
            },
    {
        let start: usize = self.index_register as usize;
        if start + x as usize >= 4096 {
            return Err(Fault::AddressOutOfBounds);
        }
        self.advance();
        let ghost advanced = self@;
        let mut r: u8 = 0;
        while r <= x
            invariant
                r <= x + 1,
                x < 16,
                start == self.index_register,
                start + x < 4096,
                self@ == (Machine { memory: self@.memory, ..advanced }),
                forall|a: int|
                    0 <= a < 4096 ==> #[trigger] self.memory@[a] == if start <= a < start + r {
                        advanced.v[a - start]
                    } else {
                        advanced.memory[a]
                    },
            decreases x + 1 - r,
        {
            self.memory[start + r as usize] = self.vregister[r as usize];
            r = r + 1;
        }
        assert(self@.memory =~= old(self)@.execute_store_registers(x)->Ok_0.memory);
        Ok(())
    }

    /// Copies memory from `I` on to `V0..=Vx`.
    fn op_load_registers(&mut self, x: u8) -> (result: Result<(), Fault>)
        requires
            x < 16,
            old(self).program_counter <= LAST_INSTRUCTION,
        ensures
            match result {
                Ok(()) => old(self)@.execute_load_registers(x) == Ok::<Machine, Fault>(
                    final(self)@,
                ),
                Err(fault) => old(self)@.execute_load_registers(x) == Err::<Machine, Fault>(
                    fault,
                ) && *final(self) == *old(self),
            },
    {
        let start: usize = self.index_register as usize;
        if start + x as usize >= 4096 {
            return Err(Fault::AddressOutOfBounds);
        }
        self.advance();
        let ghost advanced = self@;
        let mut r: u8 = 0;
        while r <= x
            invariant
                r <= x + 1,
                x < 16,
                start == self.index_register,
                start + x < 4096,
                self@ == (Machine { v: self@.v, ..advanced }),
                forall|i: int|
                    0 <= i < 16 ==> #[trigger] self.vregister@[i] == if i < r {
                        advanced.memory[start + i]
                    } else {
                        advanced.v[i]
                    },
            decreases x + 1 - r,
        {
            self.vregister[r as usize] = self.memory[start + r as usize];
            r = r + 1;
        }
        assert(self@.v =~= old(self)@.execute_load_registers(x)->Ok_0.v);
        Ok(())
    }
}

/// Eight-bit addition modulo 256.
fn wrapping_add(a: u8, b: u8) -> (sum: u8)
    ensures
        sum == wrapping_add_u8(a, b),
{
    ((a as u16 + b as u16) % 256) as u8
}

/// Eight-bit subtraction modulo 256.
fn wrapping_sub(a: u8, b: u8) -> (difference: u8)
    ensures
        difference == wrapping_sub_u8(a, b),
{
    if a >= b {
        a - b
    } else {
        (256 - (b as u16 - a as u16)) as u8
    }
}

/// The model of every machine has the shape of a machine.
pub proof fn lemma_view_well_formed(machine: CHIP8)
    ensures
        machine@.well_formed(),
{
}

/// A key that is held down with no key before it held down is the first
/// key held down.
proof fn lemma_first_pressed_unique(keypad: Seq<bool>, k: int)
    requires
        is_first_pressed(keypad, k),
    ensures
        any_pressed(keypad),
        first_pressed(keypad) == k,
{
    let chosen = first_pressed(keypad);
    assert(is_first_pressed(keypad, chosen));
    if chosen < k {
        assert(!keypad[chosen]);
    } else if k < chosen {
        assert(!keypad[k]);
    }
}

} // verus!
