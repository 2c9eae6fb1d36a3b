//! Instruction words and their decoding.
//!
//! An instruction word is sixteen bits, written here as four hexadecimal
//! digits `c x y n`: `c` selects the class, `x` and `y` name registers, `n` is
//! a four-bit immediate, `kk` (the digits `y n`) an eight-bit immediate and
//! `nnn` (the digits `x y n`) a twelve-bit address.

use vstd::prelude::*;

verus! {

/// The class digit of an instruction word: its most significant digit.
pub open spec fn class_of(opcode: u16) -> u8 {
    (opcode / 0x1000) as u8
}

/// The `x` digit of an instruction word: the second digit from the left.
pub open spec fn x_of(opcode: u16) -> u8 {
    ((opcode / 0x100) % 0x10) as u8
}

/// The `y` digit of an instruction word: the third digit from the left.
pub open spec fn y_of(opcode: u16) -> u8 {
    ((opcode / 0x10) % 0x10) as u8
}

/// The `n` digit of an instruction word: its least significant digit.
pub open spec fn n_of(opcode: u16) -> u8 {
    (opcode % 0x10) as u8
}

/// The `kk` immediate of an instruction word: its low byte.
pub open spec fn kk_of(opcode: u16) -> u8 {
    (opcode % 0x100) as u8
}

/// The `nnn` address of an instruction word: its low twelve bits.
pub open spec fn nnn_of(opcode: u16) -> u16 {
    (opcode % 0x1000) as u16
}

/// A decoded instruction with its operands.
///
/// `x` and `y` are register numbers, `kk` an immediate byte, `nnn` an address
/// and `n` a sprite height.
#[derive(Clone, Copy, Debug, PartialEq, Eq, Structural)]
pub enum Instruction {
    /// `00E0`: clear the framebuffer.
    ClearScreen,
    /// `00EE`: return from a subroutine.
    Return,
    /// `1nnn`: jump to `nnn`.
    Jump { nnn: u16 },
    /// `2nnn`: call the subroutine at `nnn`.
    Call { nnn: u16 },
    /// `3xkk`: skip the next instruction if `Vx == kk`.
    SkipEqImm { x: u8, kk: u8 },
    /// `4xkk`: skip the next instruction if `Vx != kk`.
    SkipNeImm { x: u8, kk: u8 },
    /// `5xy_`: skip the next instruction if `Vx == Vy`.
    SkipEqReg { x: u8, y: u8 },
    /// `6xkk`: `Vx = kk`.
    LoadImm { x: u8, kk: u8 },
    /// `7xkk`: `Vx = Vx + kk`, wrapping, no flag.
    AddImm { x: u8, kk: u8 },
    /// `8xy0`: `Vx = Vy`.
    Move { x: u8, y: u8 },
    /// `8xy1`: `Vx = Vx | Vy`.
    Or { x: u8, y: u8 },
    /// `8xy2`: `Vx = Vx & Vy`.
    And { x: u8, y: u8 },
    /// `8xy3`: `Vx = Vx ^ Vy`.
    Xor { x: u8, y: u8 },
    /// `8xy4`: `Vx = Vx + Vy`, wrapping, `VF` = carry.
    Add { x: u8, y: u8 },
    /// `8xy5`: `Vx = Vx - Vy`, wrapping, `VF` = no borrow.
    Sub { x: u8, y: u8 },
    /// `8x_6`: `Vx = Vx / 2`, `VF` = the bit shifted out.
    ShiftRight { x: u8 },
    /// `8xy7`: `Vx = Vy - Vx`, wrapping, `VF` = no borrow.
    SubReverse { x: u8, y: u8 },
    /// `8x_E`: `Vx = Vx * 2`, wrapping, `VF` = the bit shifted out.
    ShiftLeft { x: u8 },
    /// `9xy_`: skip the next instruction if `Vx != Vy`.
    SkipNeReg { x: u8, y: u8 },
    /// `Annn`: `I = nnn`.
    LoadIndex { nnn: u16 },
    /// `Bnnn`: jump to `nnn + V0`.
    JumpOffset { nnn: u16 },
    /// `Cxkk`: `Vx = random byte & kk`.
    Random { x: u8, kk: u8 },
    /// `Dxyn`: draw the `n`-row sprite at `I` at position `(Vx, Vy)`.
    Draw { x: u8, y: u8, n: u8 },
    /// `Ex9E`: skip the next instruction if key `Vx` is held down.
    SkipKeyPressed { x: u8 },
    /// `ExA1`: skip the next instruction if key `Vx` is not held down.
    SkipKeyNotPressed { x: u8 },
    /// `Fx07`: `Vx = delay timer`.
    LoadDelay { x: u8 },
    /// `Fx0A`: wait for a key and store its number in `Vx`.
    WaitKey { x: u8 },
    /// `Fx15`: `delay timer = Vx`.
    SetDelay { x: u8 },
    /// `Fx18`: `sound timer = Vx`.
    SetSound { x: u8 },
    /// `Fx1E`: `I = I + Vx`.
    AddIndex { x: u8 },
    /// `Fx29`: `I` = address of the font glyph for digit `Vx`.
    FontAddress { x: u8 },
    /// `Fx33`: store the decimal digits of `Vx` at `I`, `I + 1`, `I + 2`.
    StoreBcd { x: u8 },
    /// `Fx55`: store `V0..=Vx` in memory starting at `I`.
    StoreRegisters { x: u8 },
    /// `Fx65`: load `V0..=Vx` from memory starting at `I`.
    LoadRegisters { x: u8 },
    /// Any other word: no effect but to advance the program counter.
    Unknown { opcode: u16 },
}

impl Instruction {
    /// The `x` operand, or 0 where the instruction has none.
    pub open spec fn x(self) -> u8 {
        match self {
            Instruction::SkipEqImm { x, .. }
            | Instruction::SkipNeImm { x, .. }
            | Instruction::SkipEqReg { x, .. }
            | Instruction::LoadImm { x, .. }
            | Instruction::AddImm { x, .. }
            | Instruction::Move { x, .. }
            | Instruction::Or { x, .. }
            | Instruction::And { x, .. }
            | Instruction::Xor { x, .. }
            | Instruction::Add { x, .. }
            | Instruction::Sub { x, .. }
            | Instruction::ShiftRight { x }
            | Instruction::SubReverse { x, .. }
            | Instruction::ShiftLeft { x }
            | Instruction::SkipNeReg { x, .. }
            | Instruction::Random { x, .. }
            | Instruction::Draw { x, .. }
            | Instruction::SkipKeyPressed { x }
            | Instruction::SkipKeyNotPressed { x }
            | Instruction::LoadDelay { x }
            | Instruction::WaitKey { x }
            | Instruction::SetDelay { x }
            | Instruction::SetSound { x }
            | Instruction::AddIndex { x }
            | Instruction::FontAddress { x }
            | Instruction::StoreBcd { x }
            | Instruction::StoreRegisters { x }
            | Instruction::LoadRegisters { x } => x,
            _ => 0,
        }
    }

    /// The `y` operand, or 0 where the instruction has none.
    pub open spec fn y(self) -> u8 {
        match self {
            Instruction::SkipEqReg { y, .. }
            | Instruction::Move { y, .. }
            | Instruction::Or { y, .. }
            | Instruction::And { y, .. }
            | Instruction::Xor { y, .. }
            | Instruction::Add { y, .. }
            | Instruction::Sub { y, .. }
            | Instruction::SubReverse { y, .. }
            | Instruction::SkipNeReg { y, .. }
            | Instruction::Draw { y, .. } => y,
            _ => 0,
        }
    }

    /// The address operand, or 0 where the instruction has none.
    pub open spec fn nnn(self) -> u16 {
        match self {
            Instruction::Jump { nnn }
            | Instruction::Call { nnn }
            | Instruction::LoadIndex { nnn }
            | Instruction::JumpOffset { nnn } => nnn,
            _ => 0,
        }
    }

    /// Every operand is within the range its field of the instruction word
    /// can hold: register numbers and sprite heights below 16, addresses
    /// below 4096.
    pub open spec fn well_formed(self) -> bool {
        &&& self.x() < 16
        &&& self.y() < 16
        &&& self.nnn() < 0x1000
        &&& (self matches Instruction::Draw { n, .. } ==> n < 16)
    }
}

/// The instruction that an instruction word stands for.
///
/// `00E0` and `00EE` are matched whole. Otherwise the class digit decides;
/// class 8 is further split by `n`, classes E and F by `kk`. Classes 5 and 9
/// ignore `n`. Every other word is [`Instruction::Unknown`].
pub open spec fn decode_spec(opcode: u16) -> Instruction {
    let class = class_of(opcode);
    let x = x_of(opcode);
    let y = y_of(opcode);
    let n = n_of(opcode);
    let kk = kk_of(opcode);
    let nnn = nnn_of(opcode);
    if opcode == 0x00E0 {
        Instruction::ClearScreen
    } else if opcode == 0x00EE {
        Instruction::Return
    } else if class == 0x1 {
        Instruction::Jump { nnn }
    } else if class == 0x2 {
        Instruction::Call { nnn }
    } else if class == 0x3 {
        Instruction::SkipEqImm { x, kk }
    } else if class == 0x4 {
        Instruction::SkipNeImm { x, kk }
    } else if class == 0x5 {
        Instruction::SkipEqReg { x, y }
    } else if class == 0x6 {
        Instruction::LoadImm { x, kk }
    } else if class == 0x7 {
        Instruction::AddImm { x, kk }
    } else if class == 0x8 {
        if n == 0x0 {
            Instruction::Move { x, y }
        } else if n == 0x1 {
            Instruction::Or { x, y }
        } else if n == 0x2 {
            Instruction::And { x, y }
        } else if n == 0x3 {
            Instruction::Xor { x, y }
        } else if n == 0x4 {
            Instruction::Add { x, y }
        } else if n == 0x5 {
            Instruction::Sub { x, y }
        } else if n == 0x6 {
            Instruction::ShiftRight { x }
        } else if n == 0x7 {
            Instruction::SubReverse { x, y }
        } else if n == 0xE {
            Instruction::ShiftLeft { x }
        } else {
            Instruction::Unknown { opcode }
        }
    } else if class == 0x9 {
        Instruction::SkipNeReg { x, y }
    } else if class == 0xA {
        Instruction::LoadIndex { nnn }
    } else if class == 0xB {
        Instruction::JumpOffset { nnn }
    } else if class == 0xC {
        Instruction::Random { x, kk }
    } else if class == 0xD {
        Instruction::Draw { x, y, n }
    } else if class == 0xE {
        if kk == 0x9E {
            Instruction::SkipKeyPressed { x }
        } else if kk == 0xA1 {
            Instruction::SkipKeyNotPressed { x }
        } else {
            Instruction::Unknown { opcode }
        }
    } else if class == 0xF {
        if kk == 0x07 {
            Instruction::LoadDelay { x }
        } else if kk == 0x0A {
            Instruction::WaitKey { x }
        } else if kk == 0x15 {
            Instruction::SetDelay { x }
        } else if kk == 0x18 {
            Instruction::SetSound { x }
        } else if kk == 0x1E {
            Instruction::AddIndex { x }
        } else if kk == 0x29 {
            Instruction::FontAddress { x }
        } else if kk == 0x33 {
            Instruction::StoreBcd { x }
        } else if kk == 0x55 {
            Instruction::StoreRegisters { x }
        } else if kk == 0x65 {
            Instruction::LoadRegisters { x }
        } else {
            Instruction::Unknown { opcode }
        }
    } else {
        Instruction::Unknown { opcode }
    }
}

/// The word made of the four digits `class`, `x`, `y`, `n`.
pub open spec fn word(class: u8, x: u8, y: u8, n: u8) -> u16 {
    (class * 0x1000 + x * 0x100 + y * 0x10 + n) as u16
}

/// The word made of the class digit, the `x` digit and the byte `kk`.
pub open spec fn word_kk(class: u8, x: u8, kk: u8) -> u16 {
    (class * 0x1000 + x * 0x100 + kk) as u16
}

/// The word made of the class digit and the address `nnn`.
pub open spec fn word_nnn(class: u8, nnn: u16) -> u16 {
    (class * 0x1000 + nnn) as u16
}

/// The canonical instruction word of an instruction: unused digits are zero.
pub open spec fn encode_spec(instruction: Instruction) -> u16 {
    match instruction {
        Instruction::ClearScreen => 0x00E0,
        Instruction::Return => 0x00EE,
        Instruction::Jump { nnn } => word_nnn(0x1, nnn),
        Instruction::Call { nnn } => word_nnn(0x2, nnn),
        Instruction::SkipEqImm { x, kk } => word_kk(0x3, x, kk),
        Instruction::SkipNeImm { x, kk } => word_kk(0x4, x, kk),
        Instruction::SkipEqReg { x, y } => word(0x5, x, y, 0),
        Instruction::LoadImm { x, kk } => word_kk(0x6, x, kk),
        Instruction::AddImm { x, kk } => word_kk(0x7, x, kk),
        Instruction::Move { x, y } => word(0x8, x, y, 0x0),
        Instruction::Or { x, y } => word(0x8, x, y, 0x1),
        Instruction::And { x, y } => word(0x8, x, y, 0x2),
        Instruction::Xor { x, y } => word(0x8, x, y, 0x3),
        Instruction::Add { x, y } => word(0x8, x, y, 0x4),
        Instruction::Sub { x, y } => word(0x8, x, y, 0x5),
        Instruction::ShiftRight { x } => word(0x8, x, 0, 0x6),
        Instruction::SubReverse { x, y } => word(0x8, x, y, 0x7),
        Instruction::ShiftLeft { x } => word(0x8, x, 0, 0xE),
        Instruction::SkipNeReg { x, y } => word(0x9, x, y, 0),
        Instruction::LoadIndex { nnn } => word_nnn(0xA, nnn),
        Instruction::JumpOffset { nnn } => word_nnn(0xB, nnn),
        Instruction::Random { x, kk } => word_kk(0xC, x, kk),
        Instruction::Draw { x, y, n } => word(0xD, x, y, n),
        Instruction::SkipKeyPressed { x } => word_kk(0xE, x, 0x9E),
        Instruction::SkipKeyNotPressed { x } => word_kk(0xE, x, 0xA1),
        Instruction::LoadDelay { x } => word_kk(0xF, x, 0x07),
        Instruction::WaitKey { x } => word_kk(0xF, x, 0x0A),
        Instruction::SetDelay { x } => word_kk(0xF, x, 0x15),
        Instruction::SetSound { x } => word_kk(0xF, x, 0x18),
        Instruction::AddIndex { x } => word_kk(0xF, x, 0x1E),
        Instruction::FontAddress { x } => word_kk(0xF, x, 0x29),
        Instruction::StoreBcd { x } => word_kk(0xF, x, 0x33),
        Instruction::StoreRegisters { x } => word_kk(0xF, x, 0x55),
        Instruction::LoadRegisters { x } => word_kk(0xF, x, 0x65),
        Instruction::Unknown { opcode } => opcode,
    }
}

/// Decodes an instruction word.
pub fn decode(opcode: u16) -> (instruction: Instruction)
    ensures
        instruction == decode_spec(opcode),
        instruction.well_formed(),
{
    let class: u8 = (opcode >> 12) as u8;
    let x: u8 = ((opcode & 0x0F00) >> 8) as u8;
    let y: u8 = ((opcode & 0x00F0) >> 4) as u8;
    let n: u8 = (opcode & 0x000F) as u8;
    let kk: u8 = (opcode & 0x00FF) as u8;
    let nnn: u16 = opcode & 0x0FFF;
    proof {
        lemma_digits_are_bit_fields(opcode);
    }
    if opcode == 0x00E0 {
        Instruction::ClearScreen
    } else if opcode == 0x00EE {
        Instruction::Return
    } else {
        match class {
            0x1 => Instruction::Jump { nnn },
            0x2 => Instruction::Call { nnn },
            0x3 => Instruction::SkipEqImm { x, kk },
            0x4 => Instruction::SkipNeImm { x, kk },
            0x5 => Instruction::SkipEqReg { x, y },
            0x6 => Instruction::LoadImm { x, kk },
            0x7 => Instruction::AddImm { x, kk },
            0x8 => match n {
                0x0 => Instruction::Move { x, y },
                0x1 => Instruction::Or { x, y },
                0x2 => Instruction::And { x, y },
                0x3 => Instruction::Xor { x, y },
                0x4 => Instruction::Add { x, y },
                0x5 => Instruction::Sub { x, y },
                0x6 => Instruction::ShiftRight { x },
                0x7 => Instruction::SubReverse { x, y },
                0xE => Instruction::ShiftLeft { x },
                _ => Instruction::Unknown { opcode },
            },
            0x9 => Instruction::SkipNeReg { x, y },
            0xA => Instruction::LoadIndex { nnn },
            0xB => Instruction::JumpOffset { nnn },
            0xC => Instruction::Random { x, kk },
            0xD => Instruction::Draw { x, y, n },
            0xE => match kk {
                0x9E => Instruction::SkipKeyPressed { x },
                0xA1 => Instruction::SkipKeyNotPressed { x },
                _ => Instruction::Unknown { opcode },
            },
            0xF => match kk {
                0x07 => Instruction::LoadDelay { x },
                0x0A => Instruction::WaitKey { x },
                0x15 => Instruction::SetDelay { x },
                0x18 => Instruction::SetSound { x },
                0x1E => Instruction::AddIndex { x },
                0x29 => Instruction::FontAddress { x },
                0x33 => Instruction::StoreBcd { x },
                0x55 => Instruction::StoreRegisters { x },
                0x65 => Instruction::LoadRegisters { x },
                _ => Instruction::Unknown { opcode },
            },
            _ => Instruction::Unknown { opcode },
        }
    }
}

/// The digits and immediates of a word are its bit fields: the class is
/// bits 12 to 15, `x` bits 8 to 11, `y` bits 4 to 7, `n` bits 0 to 3, `kk`
/// bits 0 to 7 and `nnn` bits 0 to 11.
pub proof fn lemma_digits_are_bit_fields(opcode: u16)
    ensures
        class_of(opcode) == opcode >> 12,
        x_of(opcode) == (opcode & 0x0F00) >> 8,
        y_of(opcode) == (opcode & 0x00F0) >> 4,
        n_of(opcode) == opcode & 0x000F,
        kk_of(opcode) == opcode & 0x00FF,
        nnn_of(opcode) == opcode & 0x0FFF,
{
    assert(opcode >> 12 == opcode / 0x1000) by (bit_vector);
    assert((opcode & 0x0F00) >> 8 == (opcode / 0x100) % 0x10) by (bit_vector);
    assert((opcode & 0x00F0) >> 4 == (opcode / 0x10) % 0x10) by (bit_vector);
    assert(opcode & 0x000F == opcode % 0x10) by (bit_vector);
    assert(opcode & 0x00FF == opcode % 0x100) by (bit_vector);
    assert(opcode & 0x0FFF == opcode % 0x1000) by (bit_vector);
}

/// The four digits of a word put together again give the word.
pub proof fn lemma_digits_recompose(opcode: u16)
    ensures
        opcode == word(class_of(opcode), x_of(opcode), y_of(opcode), n_of(opcode)),
        opcode == word_kk(class_of(opcode), x_of(opcode), kk_of(opcode)),
        opcode == word_nnn(class_of(opcode), nnn_of(opcode)),
        class_of(opcode) < 16,
        x_of(opcode) < 16,
        y_of(opcode) < 16,
        n_of(opcode) < 16,
        nnn_of(opcode) < 0x1000,
{
    assert(opcode / 0x1000 < 16 && (opcode / 0x100) % 0x10 < 16 && (opcode / 0x10) % 0x10 < 16
        && opcode % 0x10 < 16 && opcode % 0x100 < 0x100 && opcode % 0x1000 < 0x1000)
        by (bit_vector);
    assert(opcode == (opcode / 0x1000) * 0x1000 + ((opcode / 0x100) % 0x10) * 0x100 + ((opcode
        / 0x10) % 0x10) * 0x10 + opcode % 0x10) by (bit_vector);
    assert(opcode == (opcode / 0x1000) * 0x1000 + ((opcode / 0x100) % 0x10) * 0x100 + opcode
        % 0x100) by (bit_vector);
    assert(opcode == (opcode / 0x1000) * 0x1000 + opcode % 0x1000) by (bit_vector);
}

/// Each digit of a word made of four digits is the digit it was made of.
pub proof fn lemma_word_digits(class: u8, x: u8, y: u8, n: u8)
    requires
        class < 16,
        x < 16,
        y < 16,
        n < 16,
    ensures
        class_of(word(class, x, y, n)) == class,
        x_of(word(class, x, y, n)) == x,
        y_of(word(class, x, y, n)) == y,
        n_of(word(class, x, y, n)) == n,
        kk_of(word(class, x, y, n)) == y * 0x10 + n,
        nnn_of(word(class, x, y, n)) == x * 0x100 + y * 0x10 + n,
{
    let w: u16 = word(class, x, y, n);
    assert(w == class * 0x1000 + x * 0x100 + y * 0x10 + n);
    assert(w / 0x1000 == class && (w / 0x100) % 0x10 == x && (w / 0x10) % 0x10 == y && w % 0x10
        == n && w % 0x100 == y * 0x10 + n && w % 0x1000 == x * 0x100 + y * 0x10 + n)
        by (bit_vector)
        requires
            class < 16,
            x < 16,
            y < 16,
            n < 16,
            w == class * 0x1000 + x * 0x100 + y * 0x10 + n,
    ;
}

/// Every instruction word decodes to a well-formed instruction.
pub proof fn lemma_decode_well_formed(opcode: u16)
    ensures
        decode_spec(opcode).well_formed(),
{
}

/// Decoding the canonical word of a well-formed instruction gives that
/// instruction back: no operand bit is lost, moved or mixed with another.
/// An [`Instruction::Unknown`] is covered where its word is one that decodes
/// to it.
pub proof fn lemma_decode_encode(instruction: Instruction)
    requires
        instruction.well_formed(),
        instruction matches Instruction::Unknown { opcode } ==> decode_spec(opcode)
            == instruction,
    ensures
        decode_spec(encode_spec(instruction)) == instruction,
{
    match instruction {
        Instruction::ClearScreen | Instruction::Return | Instruction::Unknown { .. } => {},
        Instruction::Jump { nnn }
        | Instruction::Call { nnn }
        | Instruction::LoadIndex { nnn }
        | Instruction::JumpOffset { nnn } => {
            lemma_word_nnn_digits(0x1, nnn);
            lemma_word_nnn_digits(0x2, nnn);
            lemma_word_nnn_digits(0xA, nnn);
            lemma_word_nnn_digits(0xB, nnn);
        },
        Instruction::SkipEqImm { x, kk }
        | Instruction::SkipNeImm { x, kk }
        | Instruction::LoadImm { x, kk }
        | Instruction::AddImm { x, kk }
        | Instruction::Random { x, kk } => {
            lemma_word_kk_digits(0x3, x, kk);
            lemma_word_kk_digits(0x4, x, kk);
            lemma_word_kk_digits(0x6, x, kk);
            lemma_word_kk_digits(0x7, x, kk);
            lemma_word_kk_digits(0xC, x, kk);
        },
        Instruction::SkipKeyPressed { x } => {
            lemma_word_kk_digits(0xE, x, 0x9E);
        },
        Instruction::SkipKeyNotPressed { x } => {
            lemma_word_kk_digits(0xE, x, 0xA1);
        },
        Instruction::LoadDelay { x } => {
            lemma_word_kk_digits(0xF, x, 0x07);
        },
        Instruction::WaitKey { x } => {
            lemma_word_kk_digits(0xF, x, 0x0A);
        },
        Instruction::SetDelay { x } => {
            lemma_word_kk_digits(0xF, x, 0x15);
        },
        Instruction::SetSound { x } => {
            lemma_word_kk_digits(0xF, x, 0x18);
        },
        Instruction::AddIndex { x } => {
            lemma_word_kk_digits(0xF, x, 0x1E);
        },
        Instruction::FontAddress { x } => {
            lemma_word_kk_digits(0xF, x, 0x29);
        },
        Instruction::StoreBcd { x } => {
            lemma_word_kk_digits(0xF, x, 0x33);
        },
        Instruction::StoreRegisters { x } => {
            lemma_word_kk_digits(0xF, x, 0x55);
        },
        Instruction::LoadRegisters { x } => {
            lemma_word_kk_digits(0xF, x, 0x65);
        },
        Instruction::SkipEqReg { x, y } => {
            lemma_word_digits(0x5, x, y, 0);
        },
        Instruction::SkipNeReg { x, y } => {
            lemma_word_digits(0x9, x, y, 0);
        },
        Instruction::Move { x, y } => {
            lemma_word_digits(0x8, x, y, 0x0);
        },
        Instruction::Or { x, y } => {
            lemma_word_digits(0x8, x, y, 0x1);
        },
        Instruction::And { x, y } => {
            lemma_word_digits(0x8, x, y, 0x2);
        },
        Instruction::Xor { x, y } => {
            lemma_word_digits(0x8, x, y, 0x3);
        },
        Instruction::Add { x, y } => {
            lemma_word_digits(0x8, x, y, 0x4);
        },
        Instruction::Sub { x, y } => {
            lemma_word_digits(0x8, x, y, 0x5);
        },
        Instruction::ShiftRight { x } => {
            lemma_word_digits(0x8, x, 0, 0x6);
        },
        Instruction::SubReverse { x, y } => {
            lemma_word_digits(0x8, x, y, 0x7);
        },
        Instruction::ShiftLeft { x } => {
            lemma_word_digits(0x8, x, 0, 0xE);
        },
        Instruction::Draw { x, y, n } => {
            lemma_word_digits(0xD, x, y, n);
        },
    }
}

/// Each field of a word made of a class digit and an address is the value it
/// was made of.
pub proof fn lemma_word_nnn_digits(class: u8, nnn: u16)
    requires
        class < 16,
        nnn < 0x1000,
    ensures
        class_of(word_nnn(class, nnn)) == class,
        nnn_of(word_nnn(class, nnn)) == nnn,
        word_nnn(class, nnn) == class * 0x1000 + nnn,
{
    let w: u16 = word_nnn(class, nnn);
    assert(w == class * 0x1000 + nnn);
    assert(w / 0x1000 == class && w % 0x1000 == nnn) by (bit_vector)
        requires
            class < 16,
            nnn < 0x1000,
            w == class * 0x1000 + nnn,
    ;
}

/// Each field of a word made of a class digit, an `x` digit and a byte is
/// the value it was made of.
pub proof fn lemma_word_kk_digits(class: u8, x: u8, kk: u8)
    requires
        class < 16,
        x < 16,
    ensures
        class_of(word_kk(class, x, kk)) == class,
        x_of(word_kk(class, x, kk)) == x,
        kk_of(word_kk(class, x, kk)) == kk,
        word_kk(class, x, kk) == class * 0x1000 + x * 0x100 + kk,
{
    let w: u16 = word_kk(class, x, kk);
    assert(w == class * 0x1000 + x * 0x100 + kk);
    assert(w / 0x1000 == class && (w / 0x100) % 0x10 == x && w % 0x100 == kk) by (bit_vector)
        requires
            class < 16,
            x < 16,
            w == class * 0x1000 + x * 0x100 + kk,
    ;
}

} // verus!
