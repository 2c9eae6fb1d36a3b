//! The mathematical model of the machine and of what each instruction does
//! to it.

use crate::font::{font_table, FONT_SIZE};
use crate::instruction::{decode_spec, Instruction};
use crate::sprite::{draw_sprite, sprite_overruns, DISPLAY_SIZE};
use vstd::prelude::*;

verus! {

/// Number of addressable memory cells.
pub const MEMORY_SIZE: usize = 4096;

/// Number of general-purpose registers.
pub const REGISTER_COUNT: usize = 16;

/// Maximum depth of the call stack.
pub const STACK_DEPTH: usize = 16;

/// Number of keys on the keypad.
pub const KEY_COUNT: usize = 16;

/// Address at which programs are loaded and at which execution starts.
pub const PROGRAM_START: u16 = 0x200;

/// The two operational states of the engine.
#[derive(Clone, Copy, Debug, PartialEq, Eq, Structural)]
pub enum EngineState {
    /// The last cycle executed an instruction to completion.
    Running,
    /// The last cycle found a key-wait instruction and no key held down.
    AwaitingKey,
}

/// The mathematical model of the machine: what a [`CHIP8`] value stands for.
pub struct Machine {
    pub memory: Seq<u8>,
    pub v: Seq<u8>,
    pub index: u16,
    pub pc: u16,
    pub sp: u8,
    pub stack: Seq<u16>,
    pub delay: u8,
    pub sound: u8,
    pub display: Seq<u8>,
    pub keypad: Seq<bool>,
    pub state: EngineState,
    pub debug: bool,
}

impl Machine {
    /// The shape every model of a machine has: each store has its fixed size.
    pub open spec fn well_formed(self) -> bool {
        &&& self.memory.len() == MEMORY_SIZE
        &&& self.v.len() == REGISTER_COUNT
        &&& self.stack.len() == STACK_DEPTH
        &&& self.display.len() == DISPLAY_SIZE
        &&& self.keypad.len() == KEY_COUNT
    }

    /// The machine as it is before anything is loaded: all stores zero, the
    /// program counter at the program start.
    pub open spec fn initial() -> Machine {
        Machine {
            memory: Seq::new(MEMORY_SIZE as nat, |i: int| 0u8),
            v: Seq::new(REGISTER_COUNT as nat, |i: int| 0u8),
            index: 0,
            pc: PROGRAM_START,
            sp: 0,
            stack: Seq::new(STACK_DEPTH as nat, |i: int| 0u16),
            delay: 0,
            sound: 0,
            display: Seq::new(DISPLAY_SIZE as nat, |i: int| 0u8),
            keypad: Seq::new(KEY_COUNT as nat, |i: int| false),
            state: EngineState::Running,
            debug: false,
        }
    }
}

/// Why a cycle, an instruction or a load was refused. A refused operation
/// leaves the machine as it was.
#[derive(Clone, Copy, Debug, PartialEq, Eq, Structural)]
pub enum Fault {
    /// The program counter, or the address a return would resume at, does
    /// not leave room for an instruction word within memory.
    ProgramCounterOutOfBounds,
    /// A call with the stack full, or a return with the stack pointer
    /// beyond the stack.
    StackOverflow,
    /// A return with no call active.
    StackUnderflow,
    /// A memory access through the index register beyond the last cell, or
    /// an index register that would no longer fit in sixteen bits.
    AddressOutOfBounds,
    /// A sprite with a lit pixel beyond the last framebuffer cell.
    PixelOutOfBounds,
    /// A key test on a register that holds no key number.
    KeyOutOfRange,
    /// A program image longer than the memory from the program start on.
    RomTooLarge,
}

/// The highest address at which an instruction word still lies within memory.
pub const LAST_INSTRUCTION: u16 = 4094;

/// Address of the first byte of the font table.
pub const FONT_START: u16 = 0x50;

/// Number of bytes of one font glyph.
pub const GLYPH_SIZE: u16 = 5;

/// Eight-bit addition, modulo 256.
pub open spec fn wrapping_add_u8(a: u8, b: u8) -> u8 {
    ((a + b) % 256) as u8
}

/// Eight-bit subtraction, modulo 256.
pub open spec fn wrapping_sub_u8(a: u8, b: u8) -> u8 {
    ((a - b) % 256) as u8
}

/// 1 where the condition holds, else 0: the value a flag register takes.
pub open spec fn flag(condition: bool) -> u8 {
    if condition {
        1
    } else {
        0
    }
}

/// Key `k` is held down and no key before it is.
pub open spec fn is_first_pressed(keypad: Seq<bool>, k: int) -> bool {
    &&& 0 <= k < keypad.len()
    &&& keypad[k]
    &&& forall|j: int| 0 <= j < k ==> !#[trigger] keypad[j]
}

/// Some key is held down.
pub open spec fn any_pressed(keypad: Seq<bool>) -> bool {
    exists|k: int| 0 <= k < keypad.len() && #[trigger] keypad[k]
}

/// The first key, in key order, that is held down.
pub open spec fn first_pressed(keypad: Seq<bool>) -> int {
    choose|k: int| is_first_pressed(keypad, k)
}

impl Machine {
    /// The machine with register `x` set to `value`.
    pub open spec fn with_v(self, x: u8, value: u8) -> Machine {
        Machine { v: self.v.update(x as int, value), ..self }
    }

    /// The machine, running, with the program counter on the next
    /// instruction.
    pub open spec fn advance(self) -> Machine {
        Machine { pc: (self.pc + 2) as u16, state: EngineState::Running, ..self }
    }

    /// The machine, running, with the program counter past the next
    /// instruction if `condition` holds and on it otherwise.
    pub open spec fn skip_if(self, condition: bool) -> Machine {
        Machine {
            pc: (self.pc + if condition {
                4int
            } else {
                2int
            }) as u16,
            state: EngineState::Running,
            ..self
        }
    }

    /// Return: pop the address of the call and resume after it.
    pub open spec fn execute_return(self) -> Result<Machine, Fault> {
        if self.sp == 0 {
            Err(Fault::StackUnderflow)
        } else if self.sp > STACK_DEPTH {
            Err(Fault::StackOverflow)
        } else if self.stack[self.sp - 1] > LAST_INSTRUCTION {
            Err(Fault::ProgramCounterOutOfBounds)
        } else {
            Ok(
                Machine {
                    sp: (self.sp - 1) as u8,
                    pc: (self.stack[self.sp - 1] + 2) as u16,
                    state: EngineState::Running,
                    ..self
                },
            )
        }
    }

    /// Call: push the address of the call itself and jump.
    pub open spec fn execute_call(self, nnn: u16) -> Result<Machine, Fault> {
        if self.sp >= STACK_DEPTH {
            Err(Fault::StackOverflow)
        } else {
            Ok(
                Machine {
                    stack: self.stack.update(self.sp as int, self.pc),
                    sp: (self.sp + 1) as u8,
                    pc: nnn,
                    state: EngineState::Running,
                    ..self
                },
            )
        }
    }

    /// Register add: the sum modulo 256 in `Vx`, then the carry in `VF`.
    pub open spec fn execute_add(self, x: u8, y: u8) -> Machine {
        let sum = self.v[x as int] + self.v[y as int];
        self.with_v(x, (sum % 256) as u8).with_v(0xF, flag(sum > 255)).advance()
    }

    /// Register subtract: first `VF` is set to whether `Vx > Vy`, then `Vx`
    /// becomes `Vx - Vy` modulo 256, both read after the flag was written.
    pub open spec fn execute_sub(self, x: u8, y: u8) -> Machine {
        let flagged = self.with_v(0xF, flag(self.v[x as int] > self.v[y as int]));
        flagged.with_v(x, wrapping_sub_u8(flagged.v[x as int], flagged.v[y as int])).advance()
    }

    /// Reverse subtract: first `VF` is set to whether `Vy > Vx`, then `Vx`
    /// becomes `Vy - Vx` modulo 256, both read after the flag was written.
    pub open spec fn execute_sub_reverse(self, x: u8, y: u8) -> Machine {
        let flagged = self.with_v(0xF, flag(self.v[y as int] > self.v[x as int]));
        flagged.with_v(x, wrapping_sub_u8(flagged.v[y as int], flagged.v[x as int])).advance()
    }

    /// Shift right: first `VF` is set to the lowest bit of `Vx`, then `Vx`
    /// is halved.
    pub open spec fn execute_shift_right(self, x: u8) -> Machine {
        let flagged = self.with_v(0xF, (self.v[x as int] % 2) as u8);
        flagged.with_v(x, (flagged.v[x as int] / 2) as u8).advance()
    }

    /// Shift left: first `VF` is set to the highest bit of `Vx`, then `Vx`
    /// is doubled modulo 256.
    pub open spec fn execute_shift_left(self, x: u8) -> Machine {
        let flagged = self.with_v(0xF, (self.v[x as int] / 128) as u8);
        flagged.with_v(x, ((flagged.v[x as int] * 2) % 256) as u8).advance()
    }

    /// The `n` sprite bytes at the index register.
    pub open spec fn sprite(self, n: u8) -> Seq<u8> {
        Seq::new(n as nat, |row: int| self.memory[self.index + row])
    }

    /// Draw: `VF` is reset, and the sprite at the index register is
    /// toggled onto the framebuffer at `(Vx, Vy)`, as read before the reset.
    pub open spec fn execute_draw(self, x: u8, y: u8, n: u8) -> Result<Machine, Fault> {
        if n > 0 && self.index + n > MEMORY_SIZE {
            Err(Fault::AddressOutOfBounds)
        } else if sprite_overruns(self.sprite(n), self.v[x as int], self.v[y as int]) {
            Err(Fault::PixelOutOfBounds)
        } else {
            Ok(
                Machine {
                    display: draw_sprite(
                        self.display,
                        self.sprite(n),
                        self.v[x as int],
                        self.v[y as int],
                    ),
                    ..self.with_v(0xF, 0).advance()
                },
            )
        }
    }

    /// Key test: skip if the key numbered `Vx` is held down (`pressed`) or
    /// is not (`!pressed`).
    pub open spec fn execute_skip_key(self, x: u8, pressed: bool) -> Result<Machine, Fault> {
        if self.v[x as int] >= KEY_COUNT {
            Err(Fault::KeyOutOfRange)
        } else {
            Ok(self.skip_if(self.keypad[self.v[x as int] as int] == pressed))
        }
    }

    /// Key wait: with a key held down, its number goes to `Vx` and the
    /// program goes on; with none, nothing changes but the state.
    pub open spec fn execute_wait_key(self, x: u8) -> Machine {
        if any_pressed(self.keypad) {
            self.with_v(x, first_pressed(self.keypad) as u8).advance()
        } else {
            Machine { state: EngineState::AwaitingKey, ..self }
        }
    }

    /// Index add: `I = I + Vx`.
    pub open spec fn execute_add_index(self, x: u8) -> Result<Machine, Fault> {
        if self.index + self.v[x as int] > u16::MAX {
            Err(Fault::AddressOutOfBounds)
        } else {
            Ok(Machine { index: (self.index + self.v[x as int]) as u16, ..self.advance() })
        }
    }

    /// Decimal store: hundreds, tens and ones of `Vx` at `I`, `I + 1`,
    /// `I + 2`.
    pub open spec fn execute_store_bcd(self, x: u8) -> Result<Machine, Fault> {
        if self.index + 2 >= MEMORY_SIZE {
            Err(Fault::AddressOutOfBounds)
        } else {
            let value = self.v[x as int];
            Ok(
                Machine {
                    memory: self.memory.update(self.index as int, (value / 100) as u8).update(
                        self.index + 1,
                        ((value / 10) % 10) as u8,
                    ).update(self.index + 2, (value % 10) as u8),
                    ..self.advance()
                },
            )
        }
    }

    /// Block store: `V0..=Vx` to memory from `I` on; `I` is kept.
    pub open spec fn execute_store_registers(self, x: u8) -> Result<Machine, Fault> {
        if self.index + x >= MEMORY_SIZE {
            Err(Fault::AddressOutOfBounds)
        } else {
            Ok(
                Machine {
                    memory: Seq::new(
                        self.memory.len(),
                        |a: int|
                            if self.index <= a <= self.index + x {
                                self.v[a - self.index]
                            } else {
                                self.memory[a]
                            },
                    ),
                    ..self.advance()
                },
            )
        }
    }

    /// Block load: `V0..=Vx` from memory from `I` on; `I` is kept.
    pub open spec fn execute_load_registers(self, x: u8) -> Result<Machine, Fault> {
        if self.index + x >= MEMORY_SIZE {
            Err(Fault::AddressOutOfBounds)
        } else {
            Ok(
                Machine {
                    v: Seq::new(
                        self.v.len(),
                        |r: int|
                            if r <= x {
                                self.memory[self.index + r]
                            } else {
                                self.v[r]
                            },
                    ),
                    ..self.advance()
                },
            )
        }
    }

    /// What one instruction does to the machine, `random` being the byte
    /// drawn for a random load.
    ///
    /// The program counter must leave room for an instruction word within
    /// memory. Jump, call and return set it; every other instruction
    /// advances it by 2, a skip that is taken by 4, and a key wait with no
    /// key held down leaves it.
    pub open spec fn execute(self, instruction: Instruction, random: u8) -> Result<
        Machine,
        Fault,
    > {
        if self.pc > LAST_INSTRUCTION {
            Err(Fault::ProgramCounterOutOfBounds)
        } else {
            match instruction {
                Instruction::ClearScreen => Ok(
                    Machine {
                        display: Seq::new(DISPLAY_SIZE as nat, |p: int| 0u8),
                        ..self.advance()
                    },
                ),
                Instruction::Return => self.execute_return(),
                Instruction::Jump { nnn } => Ok(
                    Machine { pc: nnn, state: EngineState::Running, ..self },
                ),
                Instruction::Call { nnn } => self.execute_call(nnn),
                Instruction::SkipEqImm { x, kk } => Ok(self.skip_if(self.v[x as int] == kk)),
                Instruction::SkipNeImm { x, kk } => Ok(self.skip_if(self.v[x as int] != kk)),
                Instruction::SkipEqReg { x, y } => Ok(
                    self.skip_if(self.v[x as int] == self.v[y as int]),
                ),
                Instruction::LoadImm { x, kk } => Ok(self.with_v(x, kk).advance()),
                Instruction::AddImm { x, kk } => Ok(
                    self.with_v(x, wrapping_add_u8(self.v[x as int], kk)).advance(),
                ),
                Instruction::Move { x, y } => Ok(self.with_v(x, self.v[y as int]).advance()),
                Instruction::Or { x, y } => Ok(
                    self.with_v(x, self.v[x as int] | self.v[y as int]).advance(),
                ),
                Instruction::And { x, y } => Ok(
                    self.with_v(x, self.v[x as int] & self.v[y as int]).advance(),
                ),
                Instruction::Xor { x, y } => Ok(
                    self.with_v(x, self.v[x as int] ^ self.v[y as int]).advance(),
                ),
                Instruction::Add { x, y } => Ok(self.execute_add(x, y)),
                Instruction::Sub { x, y } => Ok(self.execute_sub(x, y)),
                Instruction::ShiftRight { x } => Ok(self.execute_shift_right(x)),
                Instruction::SubReverse { x, y } => Ok(self.execute_sub_reverse(x, y)),
                Instruction::ShiftLeft { x } => Ok(self.execute_shift_left(x)),
                Instruction::SkipNeReg { x, y } => Ok(
                    self.skip_if(self.v[x as int] != self.v[y as int]),
                ),
                Instruction::LoadIndex { nnn } => Ok(Machine { index: nnn, ..self.advance() }),
                Instruction::JumpOffset { nnn } => Ok(
                    Machine {
                        pc: (nnn + self.v[0]) as u16,
                        state: EngineState::Running,
                        ..self
                    },
                ),
                Instruction::Random { x, kk } => Ok(self.with_v(x, random & kk).advance()),
                Instruction::Draw { x, y, n } => self.execute_draw(x, y, n),
                Instruction::SkipKeyPressed { x } => self.execute_skip_key(x, true),
                Instruction::SkipKeyNotPressed { x } => self.execute_skip_key(x, false),
                Instruction::LoadDelay { x } => Ok(self.with_v(x, self.delay).advance()),
                Instruction::WaitKey { x } => Ok(self.execute_wait_key(x)),
                Instruction::SetDelay { x } => Ok(
                    Machine { delay: self.v[x as int], ..self.advance() },
                ),
                Instruction::SetSound { x } => Ok(
                    Machine { sound: self.v[x as int], ..self.advance() },
                ),
                Instruction::AddIndex { x } => self.execute_add_index(x),
                Instruction::FontAddress { x } => Ok(
                    Machine {
                        index: (FONT_START + self.v[x as int] * GLYPH_SIZE) as u16,
                        ..self.advance()
                    },
                ),
                Instruction::StoreBcd { x } => self.execute_store_bcd(x),
                Instruction::StoreRegisters { x } => self.execute_store_registers(x),
                Instruction::LoadRegisters { x } => self.execute_load_registers(x),
                Instruction::Unknown { .. } => Ok(self.advance()),
            }
        }
    }

    /// The machine with each timer that is above zero lowered by one.
    pub open spec fn tick(self) -> Machine {
        Machine {
            delay: if self.delay > 0 {
                (self.delay - 1) as u8
            } else {
                0
            },
            sound: if self.sound > 0 {
                (self.sound - 1) as u8
            } else {
                0
            },
            ..self
        }
    }

    /// The instruction word at the program counter: two bytes, the most
    /// significant first.
    pub open spec fn fetch(self) -> u16 {
        (self.memory[self.pc as int] * 256 + self.memory[self.pc + 1]) as u16
    }

    /// One cycle: fetch the word at the program counter, decode it, execute
    /// it, then tick the timers. `random` is the byte drawn for a random
    /// load.
    pub open spec fn step(self, random: u8) -> Result<Machine, Fault> {
        if self.pc > LAST_INSTRUCTION {
            Err(Fault::ProgramCounterOutOfBounds)
        } else {
            match self.execute(decode_spec(self.fetch()), random) {
                Ok(next) => Ok(next.tick()),
                Err(fault) => Err(fault),
            }
        }
    }

    /// The machine with the font table written to memory from
    /// [`FONT_START`] on.
    pub open spec fn with_fonts(self) -> Machine {
        Machine {
            memory: Seq::new(
                self.memory.len(),
                |a: int|
                    if FONT_START <= a < FONT_START + FONT_SIZE {
                        font_table()[a - FONT_START]
                    } else {
                        self.memory[a]
                    },
            ),
            ..self
        }
    }

    /// The machine with a program image written to memory from
    /// [`PROGRAM_START`] on, or the refusal of an image that does not fit.
    pub open spec fn with_rom(self, rom: Seq<u8>) -> Result<Machine, Fault> {
        if rom.len() > MEMORY_SIZE - PROGRAM_START {
            Err(Fault::RomTooLarge)
        } else {
            Ok(
                Machine {
                    memory: Seq::new(
                        self.memory.len(),
                        |a: int|
                            if PROGRAM_START <= a < PROGRAM_START + rom.len() {
                                rom[a - PROGRAM_START]
                            } else {
                                self.memory[a]
                            },
                    ),
                    ..self
                },
            )
        }
    }
}

} // verus!
