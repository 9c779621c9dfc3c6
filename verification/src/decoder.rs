//! Instruction decoding.
//!
//! An instruction is a 16-bit word. Its four nibbles are, from the top, the
//! class, the register index `x`, the register index `y` and a 4-bit operand;
//! the low byte and the low twelve bits double as an immediate and an address.
//! Splitting a word into these fields never fails. Whether the word names an
//! instruction is decided afterwards, by [`decode`].

use vstd::prelude::*;
use crate::error::Chip8Error;

verus! {

/// The addressing fields of an instruction word.
#[derive(Clone, Copy, Debug, PartialEq, Eq, Structural)]
pub struct Fields {
    /// The top four bits.
    pub opclass: u8,
    /// Bits 8 to 11.
    pub x: u8,
    /// Bits 4 to 7.
    pub y: u8,
    /// The low four bits.
    pub nibble: u8,
    /// The low eight bits.
    pub byte: u8,
    /// The low twelve bits.
    pub addr: u16,
}

/// The fields of `opcode`, written as quotients and remainders.
pub open spec fn fields_of(opcode: u16) -> Fields {
    Fields {
        opclass: (opcode / 0x1000) as u8,
        x: ((opcode / 0x100) % 0x10) as u8,
        y: ((opcode / 0x10) % 0x10) as u8,
        nibble: (opcode % 0x10) as u8,
        byte: (opcode % 0x100) as u8,
        addr: opcode % 0x1000,
    }
}

/// Splits an instruction word into its fields.
pub fn split(opcode: u16) -> (f: Fields)
    ensures
        f == fields_of(opcode),
        f.opclass < 16,
        f.x < 16,
        f.y < 16,
        f.nibble < 16,
        f.addr < 0x1000,
{
    let opclass: u16 = opcode >> 12;
    let x: u16 = (opcode & 0x0F00) >> 8;
    let y: u16 = (opcode & 0x00F0) >> 4;
    let nibble: u16 = opcode & 0x000F;
    let byte: u16 = opcode & 0x00FF;
    let addr: u16 = opcode & 0x0FFF;
    assert(opcode >> 12 == opcode / 0x1000 && opcode >> 12 < 16) by (bit_vector);
    assert((opcode & 0x0F00) >> 8 == (opcode / 0x100) % 0x10) by (bit_vector);
    assert((opcode & 0x00F0) >> 4 == (opcode / 0x10) % 0x10) by (bit_vector);
    assert(opcode & 0x000F == opcode % 0x10) by (bit_vector);
    assert(opcode & 0x00FF == opcode % 0x100) by (bit_vector);
    assert(opcode & 0x0FFF == opcode % 0x1000) by (bit_vector);
    Fields {
        opclass: opclass as u8,
        x: x as u8,
        y: y as u8,
        nibble: nibble as u8,
        byte: byte as u8,
        addr,
    }
}

/// The fields lose nothing: the four nibbles put the word together again, and
/// the byte and the address are made of the same nibbles.
pub proof fn lemma_fields_rebuild(opcode: u16)
    ensures
        ({
            let f = fields_of(opcode);
            &&& opcode == f.opclass * 0x1000 + f.x * 0x100 + f.y * 0x10 + f.nibble
            &&& f.byte == f.y * 0x10 + f.nibble
            &&& f.addr == f.x * 0x100 + f.byte
        }),
{
    assert(opcode == (opcode / 0x1000) * 0x1000 + ((opcode / 0x100) % 0x10) * 0x100 + ((opcode
        / 0x10) % 0x10) * 0x10 + opcode % 0x10) by (bit_vector);
    assert(opcode % 0x100 == ((opcode / 0x10) % 0x10) * 0x10 + opcode % 0x10) by (bit_vector);
    assert(opcode % 0x1000 == ((opcode / 0x100) % 0x10) * 0x100 + opcode % 0x100) by (bit_vector);
}

/// An instruction with its operands. `x` and `y` are register indices, below
/// 16 in every instruction that [`decode`] gives.
#[derive(Clone, Copy, Debug, PartialEq, Eq, Structural)]
pub enum Instruction {
    /// `0nnn`: a call into the host machine's own code. It has no effect here.
    Sys { addr: u16 },
    /// `00EE`: return from a subroutine.
    Return,
    /// `1nnn`: jump to `addr`.
    Jump { addr: u16 },
    /// `2nnn`: call the subroutine at `addr`.
    Call { addr: u16 },
    /// `3xkk`: skip the next instruction if `Vx == byte`.
    SkipEqual { x: u8, byte: u8 },
    /// `4xkk`: skip the next instruction if `Vx != byte`.
    SkipNotEqual { x: u8, byte: u8 },
    /// `5xy_`: skip the next instruction if `Vx == Vy`.
    SkipRegistersEqual { x: u8, y: u8 },
    /// `6xkk`: `Vx := byte`.
    Load { x: u8, byte: u8 },
    /// `7xkk`: `Vx := Vx + byte`, without a flag.
    AddByte { x: u8, byte: u8 },
    /// `8xy0`: `Vx := Vy`.
    Move { x: u8, y: u8 },
    /// `8xy1`: `Vx := Vx | Vy`.
    Or { x: u8, y: u8 },
    /// `8xy2`: `Vx := Vx & Vy`.
    And { x: u8, y: u8 },
    /// `8xy3`: `Vx := Vx ^ Vy`.
    Xor { x: u8, y: u8 },
    /// `8xy4`: `Vx := Vx + Vy`, `VF` := carry.
    Add { x: u8, y: u8 },
    /// `8xy5`: `Vx := Vx - Vy`, `VF` := no borrow.
    Sub { x: u8, y: u8 },
    /// `8xy6`: `Vx := Vx >> 1`, `VF` := the bit shifted out.
    ShiftRight { x: u8, y: u8 },
    /// `8xy7`: `Vx := Vy - Vx`, `VF` := no borrow.
    SubReversed { x: u8, y: u8 },
    /// `8xyE`: `Vx := Vx << 1`, `VF` := the bit shifted out.
    ShiftLeft { x: u8, y: u8 },
    /// `9xy_`: skip the next instruction if `Vx != Vy`.
    SkipRegistersNotEqual { x: u8, y: u8 },
    /// `Annn`: `I := addr`.
    LoadIndex { addr: u16 },
    /// `Bnnn`: jump to `addr + V0`.
    JumpOffset { addr: u16 },
    /// `Cxkk`: `Vx :=` a random byte `& byte`.
    Random { x: u8, byte: u8 },
    /// `Dxyn`: draw the `rows`-byte sprite at `I` at `(Vx, Vy)`, `VF` := collision.
    Draw { x: u8, y: u8, rows: u8 },
    /// `Ex9E`: skip the next instruction if the key `Vx` is held.
    SkipKeyPressed { x: u8 },
    /// `ExA1`: skip the next instruction if the key `Vx` is not held.
    SkipKeyNotPressed { x: u8 },
    /// `Fx07`: `Vx :=` the delay timer.
    LoadDelay { x: u8 },
    /// `Fx0A`: wait for a key press, `Vx :=` the key.
    WaitKey { x: u8 },
    /// `Fx15`: the delay timer `:= Vx`.
    SetDelay { x: u8 },
    /// `Fx18`: the sound timer `:= Vx`.
    SetSound { x: u8 },
    /// `Fx1E`: `I := I + Vx`.
    AddIndex { x: u8 },
    /// `Fx29`: `I :=` the address of the glyph of the digit `Vx`.
    LoadGlyph { x: u8 },
    /// `Fx33`: the three decimal digits of `Vx` go to memory at `I`.
    StoreBcd { x: u8 },
    /// `Fx55`: `V0` to `Vx` go to memory at `I`.
    StoreRegisters { x: u8 },
    /// `Fx65`: `V0` to `Vx` come from memory at `I`.
    LoadRegisters { x: u8 },
}

impl Instruction {
    /// Whether every register index in the instruction names a register.
    pub open spec fn well_formed(self) -> bool {
        match self {
            Instruction::Sys { .. }
            | Instruction::Return
            | Instruction::Jump { .. }
            | Instruction::Call { .. }
            | Instruction::LoadIndex { .. }
            | Instruction::JumpOffset { .. } => true,
            Instruction::SkipEqual { x, .. }
            | Instruction::SkipNotEqual { x, .. }
            | Instruction::Load { x, .. }
            | Instruction::AddByte { x, .. }
            | Instruction::Random { x, .. }
            | Instruction::SkipKeyPressed { x }
            | Instruction::SkipKeyNotPressed { x }
            | Instruction::LoadDelay { x }
            | Instruction::WaitKey { x }
            | Instruction::SetDelay { x }
            | Instruction::SetSound { x }
            | Instruction::AddIndex { x }
            | Instruction::LoadGlyph { x }
            | Instruction::StoreBcd { x }
            | Instruction::StoreRegisters { x }
            | Instruction::LoadRegisters { x } => x < 16,
            Instruction::SkipRegistersEqual { x, y }
            | Instruction::Move { x, y }
            | Instruction::Or { x, y }
            | Instruction::And { x, y }
            | Instruction::Xor { x, y }
            | Instruction::Add { x, y }
            | Instruction::Sub { x, y }
            | Instruction::ShiftRight { x, y }
            | Instruction::SubReversed { x, y }
            | Instruction::ShiftLeft { x, y }
            | Instruction::SkipRegistersNotEqual { x, y } => x < 16 && y < 16,
            Instruction::Draw { x, y, rows } => x < 16 && y < 16 && rows < 16,
        }
    }
}

/// The failure of a word that names no instruction.
pub open spec fn unknown(opcode: u16) -> Result<Instruction, Chip8Error> {
    Err(Chip8Error::UnknownOpcode { opcode })
}

/// The instruction that the low nibble selects among the register-to-register
/// operations. The nibbles 8 to D and F select none.
pub open spec fn decode_logical_spec(opcode: u16) -> Result<Instruction, Chip8Error> {
    let f = fields_of(opcode);
    let (x, y) = (f.x, f.y);
    if f.nibble == 0x0 {
        Ok(Instruction::Move { x, y })
    } else if f.nibble == 0x1 {
        Ok(Instruction::Or { x, y })
    } else if f.nibble == 0x2 {
        Ok(Instruction::And { x, y })
    } else if f.nibble == 0x3 {
        Ok(Instruction::Xor { x, y })
    } else if f.nibble == 0x4 {
        Ok(Instruction::Add { x, y })
    } else if f.nibble == 0x5 {
        Ok(Instruction::Sub { x, y })
    } else if f.nibble == 0x6 {
        Ok(Instruction::ShiftRight { x, y })
    } else if f.nibble == 0x7 {
        Ok(Instruction::SubReversed { x, y })
    } else if f.nibble == 0xE {
        Ok(Instruction::ShiftLeft { x, y })
    } else {
        unknown(opcode)
    }
}

/// The instruction that the low byte selects among the keypad skips. Only
/// `9E` and `A1` select one.
pub open spec fn decode_key_spec(opcode: u16) -> Result<Instruction, Chip8Error> {
    let f = fields_of(opcode);
    if f.byte == 0x9E {
        Ok(Instruction::SkipKeyPressed { x: f.x })
    } else if f.byte == 0xA1 {
        Ok(Instruction::SkipKeyNotPressed { x: f.x })
    } else {
        unknown(opcode)
    }
}

/// The instruction that the low byte selects among the timer, keypad, address
/// and block transfer operations.
pub open spec fn decode_fx_spec(opcode: u16) -> Result<Instruction, Chip8Error> {
    let f = fields_of(opcode);
    let x = f.x;
    if f.byte == 0x07 {
        Ok(Instruction::LoadDelay { x })
    } else if f.byte == 0x0A {
        Ok(Instruction::WaitKey { x })
    } else if f.byte == 0x15 {
        Ok(Instruction::SetDelay { x })
    } else if f.byte == 0x18 {
        Ok(Instruction::SetSound { x })
    } else if f.byte == 0x1E {
        Ok(Instruction::AddIndex { x })
    } else if f.byte == 0x29 {
        Ok(Instruction::LoadGlyph { x })
    } else if f.byte == 0x33 {
        Ok(Instruction::StoreBcd { x })
    } else if f.byte == 0x55 {
        Ok(Instruction::StoreRegisters { x })
    } else if f.byte == 0x65 {
        Ok(Instruction::LoadRegisters { x })
    } else {
        unknown(opcode)
    }
}

/// The instruction that `opcode` names: the class selects it, and in the
/// classes 8, E and F a second field does.
pub open spec fn decode_spec(opcode: u16) -> Result<Instruction, Chip8Error> {
    let f = fields_of(opcode);
    let (x, y, byte, addr) = (f.x, f.y, f.byte, f.addr);
    if f.opclass == 0x0 {
        if opcode == 0x00EE {
            Ok(Instruction::Return)
        } else {
            Ok(Instruction::Sys { addr })
        }
    } else if f.opclass == 0x1 {
        Ok(Instruction::Jump { addr })
    } else if f.opclass == 0x2 {
        Ok(Instruction::Call { addr })
    } else if f.opclass == 0x3 {
        Ok(Instruction::SkipEqual { x, byte })
    } else if f.opclass == 0x4 {
        Ok(Instruction::SkipNotEqual { x, byte })
    } else if f.opclass == 0x5 {
        Ok(Instruction::SkipRegistersEqual { x, y })
    } else if f.opclass == 0x6 {
        Ok(Instruction::Load { x, byte })
    } else if f.opclass == 0x7 {
        Ok(Instruction::AddByte { x, byte })
    } else if f.opclass == 0x8 {
        decode_logical_spec(opcode)
    } else if f.opclass == 0x9 {
        Ok(Instruction::SkipRegistersNotEqual { x, y })
    } else if f.opclass == 0xA {
        Ok(Instruction::LoadIndex { addr })
    } else if f.opclass == 0xB {
        Ok(Instruction::JumpOffset { addr })
    } else if f.opclass == 0xC {
        Ok(Instruction::Random { x, byte })
    } else if f.opclass == 0xD {
        Ok(Instruction::Draw { x, y, rows: f.nibble })
    } else if f.opclass == 0xE {
        decode_key_spec(opcode)
    } else {
        decode_fx_spec(opcode)
    }
}

/// Decodes a register-to-register operation by its low nibble.
pub fn decode_logical(opcode: u16) -> (r: Result<Instruction, Chip8Error>)
    ensures
        r == decode_logical_spec(opcode),
        r matches Ok(i) ==> i.well_formed(),
{
    let f = split(opcode);
    let x: u8 = f.x;
    let y: u8 = f.y;
    match f.nibble {
        0x0 => Ok(Instruction::Move { x, y }),
        0x1 => Ok(Instruction::Or { x, y }),
        0x2 => Ok(Instruction::And { x, y }),
        0x3 => Ok(Instruction::Xor { x, y }),
        0x4 => Ok(Instruction::Add { x, y }),
        0x5 => Ok(Instruction::Sub { x, y }),
        0x6 => Ok(Instruction::ShiftRight { x, y }),
        0x7 => Ok(Instruction::SubReversed { x, y }),
        0xE => Ok(Instruction::ShiftLeft { x, y }),
        _ => Err(Chip8Error::UnknownOpcode { opcode }),
    }
}

/// Decodes a keypad skip by its low byte.
pub fn decode_key(opcode: u16) -> (r: Result<Instruction, Chip8Error>)
    ensures
        r == decode_key_spec(opcode),
        r matches Ok(i) ==> i.well_formed(),
{
    let f = split(opcode);
    match f.byte {
        0x9E => Ok(Instruction::SkipKeyPressed { x: f.x }),
        0xA1 => Ok(Instruction::SkipKeyNotPressed { x: f.x }),
        _ => Err(Chip8Error::UnknownOpcode { opcode }),
    }
}

/// Decodes an operation of the class F by its low byte.
pub fn decode_fx(opcode: u16) -> (r: Result<Instruction, Chip8Error>)
    ensures
        r == decode_fx_spec(opcode),
        r matches Ok(i) ==> i.well_formed(),
{
    let f = split(opcode);
    let x: u8 = f.x;
    match f.byte {
        0x07 => Ok(Instruction::LoadDelay { x }),
        0x0A => Ok(Instruction::WaitKey { x }),
        0x15 => Ok(Instruction::SetDelay { x }),
        0x18 => Ok(Instruction::SetSound { x }),
        0x1E => Ok(Instruction::AddIndex { x }),
        0x29 => Ok(Instruction::LoadGlyph { x }),
        0x33 => Ok(Instruction::StoreBcd { x }),
        0x55 => Ok(Instruction::StoreRegisters { x }),
        0x65 => Ok(Instruction::LoadRegisters { x }),
        _ => Err(Chip8Error::UnknownOpcode { opcode }),
    }
}

/// Decodes an instruction word. Every word of the classes 0 to 7, 9 and A to D
/// names an instruction; in the classes 8, E and F only the listed ones do.
pub fn decode(opcode: u16) -> (r: Result<Instruction, Chip8Error>)
    ensures
        r == decode_spec(opcode),
        r matches Ok(i) ==> i.well_formed(),
        r matches Err(e) ==> e == (Chip8Error::UnknownOpcode { opcode }),
{
    let f = split(opcode);
    let x: u8 = f.x;
    let y: u8 = f.y;
    let byte: u8 = f.byte;
    let addr: u16 = f.addr;
    match f.opclass {
        0x0 => if opcode == 0x00EE {
            Ok(Instruction::Return)
        } else {
            Ok(Instruction::Sys { addr })
        },
        0x1 => Ok(Instruction::Jump { addr }),
        0x2 => Ok(Instruction::Call { addr }),
        0x3 => Ok(Instruction::SkipEqual { x, byte }),
        0x4 => Ok(Instruction::SkipNotEqual { x, byte }),
        0x5 => Ok(Instruction::SkipRegistersEqual { x, y }),
        0x6 => Ok(Instruction::Load { x, byte }),
        0x7 => Ok(Instruction::AddByte { x, byte }),
        0x8 => decode_logical(opcode),
        0x9 => Ok(Instruction::SkipRegistersNotEqual { x, y }),
        0xA => Ok(Instruction::LoadIndex { addr }),
        0xB => Ok(Instruction::JumpOffset { addr }),
        0xC => Ok(Instruction::Random { x, byte }),
        0xD => Ok(Instruction::Draw { x, y, rows: f.nibble }),
        0xE => decode_key(opcode),
        _ => decode_fx(opcode),
    }
}

/// A word fails to decode exactly when it belongs to the class 8, E or F and
/// its selector is not one of the listed ones; the failure carries the word.
pub proof fn lemma_unknown_opcodes(opcode: u16)
    ensures
        decode_spec(opcode) is Err <==> {
            let f = fields_of(opcode);
            ||| f.opclass == 0x8 && (0x8 <= f.nibble <= 0xD || f.nibble == 0xF)
            ||| f.opclass == 0xE && f.byte != 0x9E && f.byte != 0xA1
            ||| f.opclass == 0xF && f.byte != 0x07 && f.byte != 0x0A && f.byte != 0x15 && f.byte
                != 0x18 && f.byte != 0x1E && f.byte != 0x29 && f.byte != 0x33 && f.byte != 0x55
                && f.byte != 0x65
        },
        decode_spec(opcode) is Err ==> decode_spec(opcode) == unknown(opcode),
{
    assert(opcode / 0x1000 < 16) by (bit_vector);
    assert(opcode % 0x10 < 16) by (bit_vector);
}

} // verus!
