//! The machine as a mathematical value, and what each instruction makes of it.
//!
//! [`MachineState`] is the view of [`crate::cpu::Chip8`]. Every instruction is
//! a function from one state to the next, or to a failure that leaves the
//! state alone. The contracts of the executable machine are stated over these
//! functions, and so are the laws in [`crate::laws`].
//!
//! The program counter of a state points at the next instruction to fetch. A
//! step fetches, moves the counter past the instruction, and only then
//! performs it, so the functions here see the counter already moved: a skip
//! adds two more, a call saves it as the return address.

use vstd::prelude::*;
use crate::decoder::{
    decode_fx_spec,
    decode_key_spec,
    decode_logical_spec,
    decode_spec,
    Instruction,
};
use crate::display::{blank_display, blend, collides, DISPLAY_PIXELS};
use crate::error::Chip8Error;
use crate::keypad::KeypadState;
use crate::memory::{
    first_unreadable,
    first_unwritable,
    initial_memory,
    GLYPH_SIZE,
    MEMORY_SIZE,
    PROGRAM_START,
};
use crate::timers::ticked;

verus! {

/// The number of general registers.
pub const REGISTER_COUNT: usize = 16;

/// The number of return addresses that the call stack holds.
pub const STACK_DEPTH: usize = 16;

/// The index of `VF`, the register that takes the carry, borrow, shift and
/// collision flags.
pub const FLAG_REGISTER: u8 = 0xF;

/// The whole state of a machine.
pub ghost struct MachineState {
    /// The general registers `V0` to `VF`.
    pub v: Seq<u8>,
    /// The address register `I`.
    pub i: u16,
    /// The delay timer.
    pub delay: u8,
    /// The sound timer.
    pub sound: u8,
    /// The program counter.
    pub pc: u16,
    /// The stack pointer: the index of the newest return address.
    pub sp: u8,
    /// The call stack.
    pub stack: Seq<u16>,
    /// The memory, by address.
    pub memory: Seq<u8>,
    /// The display, row by row.
    pub display: Seq<bool>,
    /// The register that waits for a key, while the machine is suspended.
    pub waiting: Option<u8>,
}

/// A flag as a register value.
pub open spec fn flag(on: bool) -> u8 {
    if on {
        1
    } else {
        0
    }
}

/// The program counter two bytes further on. The counter is a 16-bit register
/// and wraps.
pub open spec fn next_pc(pc: u16) -> u16 {
    ((pc + 2) % 0x1_0000) as u16
}

/// What a state and a result say together. On success the machine is in the
/// state `s`. On failure it is as it was before, and reports the error.
pub open spec fn settles(
    expected: Result<MachineState, Chip8Error>,
    before: MachineState,
    after: MachineState,
    r: Result<(), Chip8Error>,
) -> bool {
    match expected {
        Ok(s) => r == Ok::<(), Chip8Error>(()) && after == s,
        Err(e) => r == Err::<(), Chip8Error>(e) && after == before,
    }
}

impl MachineState {
    /// The sizes are right, the stack pointer is on the stack, and a waiting
    /// register is a register.
    pub open spec fn well_formed(self) -> bool {
        &&& self.v.len() == REGISTER_COUNT
        &&& self.stack.len() == STACK_DEPTH
        &&& self.memory.len() == MEMORY_SIZE
        &&& self.display.len() == DISPLAY_PIXELS
        &&& self.sp < STACK_DEPTH
        &&& (self.waiting matches Some(x) ==> x < REGISTER_COUNT)
    }

    /// A machine that was just built: the font in memory, the display blank,
    /// every register zero, the program counter at the start of the program
    /// region.
    pub open spec fn initial() -> MachineState {
        MachineState {
            v: Seq::new(REGISTER_COUNT as nat, |r: int| 0u8),
            i: 0,
            delay: 0,
            sound: 0,
            pc: PROGRAM_START as u16,
            sp: 0,
            stack: Seq::new(STACK_DEPTH as nat, |k: int| 0u16),
            memory: initial_memory(),
            display: blank_display(),
            waiting: None,
        }
    }

    /// The state with `Vx` set to `value`.
    pub open spec fn with_v(self, x: u8, value: u8) -> MachineState {
        MachineState { v: self.v.update(x as int, value), ..self }
    }

    /// The state with the flag register set.
    pub open spec fn with_flag(self, on: bool) -> MachineState {
        self.with_v(FLAG_REGISTER, flag(on))
    }

    /// The next instruction is skipped if `cond` holds.
    pub open spec fn skip_when(self, cond: bool) -> MachineState {
        if cond {
            MachineState { pc: next_pc(self.pc), ..self }
        } else {
            self
        }
    }

    /// `1nnn`: execution goes on at `addr`.
    pub open spec fn jump(self, addr: u16) -> MachineState {
        MachineState { pc: addr, ..self }
    }

    /// `2nnn`: the stack pointer moves up by one, round the sixteen slots, the
    /// program counter is saved in the slot it then names, and execution goes
    /// on at `addr`. A seventeenth nested call lands on the slot of the first
    /// and overwrites it.
    pub open spec fn call(self, addr: u16) -> MachineState {
        let sp = ((self.sp + 1) % 16) as u8;
        MachineState { sp, stack: self.stack.update(sp as int, self.pc), pc: addr, ..self }
    }

    /// `00EE`: execution goes on at the newest return address, and the stack
    /// pointer moves down by one, round the sixteen slots.
    pub open spec fn ret(self) -> MachineState {
        MachineState { pc: self.stack[self.sp as int], sp: ((self.sp + 15) % 16) as u8, ..self }
    }

    /// `7xkk`: `Vx := Vx + byte` modulo 256. No flag.
    pub open spec fn add_byte(self, x: u8, byte: u8) -> MachineState {
        self.with_v(x, ((self.v[x as int] + byte) % 256) as u8)
    }

    /// `8xy0`: `Vx := Vy`.
    pub open spec fn move_register(self, x: u8, y: u8) -> MachineState {
        self.with_v(x, self.v[y as int])
    }

    /// `8xy1`: `Vx := Vx | Vy`.
    pub open spec fn or_registers(self, x: u8, y: u8) -> MachineState {
        self.with_v(x, self.v[x as int] | self.v[y as int])
    }

    /// `8xy2`: `Vx := Vx & Vy`.
    pub open spec fn and_registers(self, x: u8, y: u8) -> MachineState {
        self.with_v(x, self.v[x as int] & self.v[y as int])
    }

    /// `8xy3`: `Vx := Vx ^ Vy`.
    pub open spec fn xor_registers(self, x: u8, y: u8) -> MachineState {
        self.with_v(x, self.v[x as int] ^ self.v[y as int])
    }

    /// `8xy4`: `VF` := 1 if `Vx + Vy` is above 255, else 0; then
    /// `Vx := Vx + Vy` modulo 256. The flag is written first, so where `x` or
    /// `y` is `F` the sum is taken with the flag.
    pub open spec fn add_registers(self, x: u8, y: u8) -> MachineState {
        let s = self.with_flag(self.v[x as int] + self.v[y as int] > 255);
        s.with_v(x, ((s.v[x as int] + s.v[y as int]) % 256) as u8)
    }

    /// `8xy5`: `VF` := 1 if `Vx > Vy`, else 0; then `Vx := Vx - Vy` modulo 256.
    /// The flag is written first.
    pub open spec fn sub_registers(self, x: u8, y: u8) -> MachineState {
        let s = self.with_flag(self.v[x as int] > self.v[y as int]);
        s.with_v(x, ((s.v[x as int] - s.v[y as int]) % 256) as u8)
    }

    /// `8xy6`: `VF` := the lowest bit of `Vx`; then `Vx := Vx / 2`. The flag is
    /// written first.
    pub open spec fn shift_right(self, x: u8) -> MachineState {
        let s = self.with_v(FLAG_REGISTER, self.v[x as int] % 2);
        s.with_v(x, s.v[x as int] / 2)
    }

    /// `8xy7`: `VF` := 1 if `Vy > Vx`, else 0; then `Vx := Vy - Vx` modulo 256.
    /// The flag is written first.
    pub open spec fn sub_reversed(self, x: u8, y: u8) -> MachineState {
        let s = self.with_flag(self.v[y as int] > self.v[x as int]);
        s.with_v(x, ((s.v[y as int] - s.v[x as int]) % 256) as u8)
    }

    /// `8xyE`: `VF` := the highest bit of `Vx`; then `Vx := Vx * 2` modulo
    /// 256. The flag is written first.
    pub open spec fn shift_left(self, x: u8) -> MachineState {
        let s = self.with_v(FLAG_REGISTER, self.v[x as int] / 128);
        s.with_v(x, ((s.v[x as int] * 2) % 256) as u8)
    }

    /// `Annn`: `I := addr`.
    pub open spec fn load_index(self, addr: u16) -> MachineState {
        MachineState { i: addr, ..self }
    }

    /// `Bnnn`: execution goes on at `addr + V0`, in 16 bits.
    pub open spec fn jump_offset(self, addr: u16) -> MachineState {
        MachineState { pc: ((addr + self.v[0]) % 0x1_0000) as u16, ..self }
    }

    /// `Cxkk` with the drawn byte `random`: `Vx := random & byte`.
    pub open spec fn random(self, x: u8, byte: u8, random: u8) -> MachineState {
        self.with_v(x, random & byte)
    }

    /// The `rows` bytes at `I`, read as the rows of a sprite.
    pub open spec fn sprite(self, rows: u8) -> Seq<u8> {
        Seq::new(rows as nat, |r: int| self.memory[self.i + r])
    }

    /// `Dxyn`: the `rows` bytes at `I` are drawn as a sprite at `(Vx, Vy)`,
    /// and `VF` := 1 if a pixel went off, else 0. Fails, at the first address
    /// that does not exist, if the sprite is not all in memory.
    pub open spec fn draw(self, x: u8, y: u8, rows: u8) -> Result<MachineState, Chip8Error> {
        match first_unreadable(self.i as usize, rows as int) {
            Some(addr) => Err(Chip8Error::OutOfBounds { addr }),
            None => {
                let sprite = self.sprite(rows);
                let (ox, oy) = (self.v[x as int] as int, self.v[y as int] as int);
                Ok(
                    MachineState {
                        display: blend(self.display, sprite, ox, oy),
                        v: self.v.update(
                            FLAG_REGISTER as int,
                            flag(collides(self.display, sprite, ox, oy)),
                        ),
                        ..self
                    },
                )
            },
        }
    }

    /// `Fx07`: `Vx :=` the delay timer.
    pub open spec fn load_delay(self, x: u8) -> MachineState {
        self.with_v(x, self.delay)
    }

    /// `Fx0A`: if the keypad reports a key press, `Vx :=` that key. If not,
    /// the machine is suspended until one comes, and `Vx` waits for it.
    pub open spec fn wait_key(self, x: u8, keys: KeypadState) -> MachineState {
        match keys.pressed {
            Some(key) => MachineState { waiting: None, ..self.with_v(x, key) },
            None => MachineState { waiting: Some(x), ..self },
        }
    }

    /// `Fx15`: the delay timer `:= Vx`.
    pub open spec fn set_delay(self, x: u8) -> MachineState {
        MachineState { delay: self.v[x as int], ..self }
    }

    /// `Fx18`: the sound timer `:= Vx`.
    pub open spec fn set_sound(self, x: u8) -> MachineState {
        MachineState { sound: self.v[x as int], ..self }
    }

    /// `Fx1E`: `I := I + Vx` modulo 4096: addresses have twelve bits.
    pub open spec fn add_index(self, x: u8) -> MachineState {
        MachineState { i: ((self.i + self.v[x as int]) % 0x1000) as u16, ..self }
    }

    /// `Fx29`: `I :=` the address of the glyph of the digit in the low nibble
    /// of `Vx`.
    pub open spec fn load_glyph(self, x: u8) -> MachineState {
        MachineState { i: (GLYPH_SIZE * (self.v[x as int] % 16)) as u16, ..self }
    }

    /// `Fx33`: the hundreds, tens and ones of `Vx` go to memory at `I`, `I + 1`
    /// and `I + 2`. Fails, at the first address that cannot be written, if one
    /// of the three cannot.
    pub open spec fn store_bcd(self, x: u8) -> Result<MachineState, Chip8Error> {
        match first_unwritable(self.i as usize, 3) {
            Some(addr) => Err(Chip8Error::OutOfBounds { addr }),
            None => {
                let value = self.v[x as int];
                let i = self.i as int;
                Ok(
                    MachineState {
                        memory: self.memory.update(i, value / 100).update(
                            i + 1,
                            (value / 10) % 10,
                        ).update(i + 2, value % 10),
                        ..self
                    },
                )
            },
        }
    }

    /// `Fx55`: `V0` to `Vx` go to memory at `I` to `I + x`. Fails, at the first
    /// address that cannot be written, if one of them cannot.
    pub open spec fn store_registers(self, x: u8) -> Result<MachineState, Chip8Error> {
        match first_unwritable(self.i as usize, x + 1) {
            Some(addr) => Err(Chip8Error::OutOfBounds { addr }),
            None => Ok(
                MachineState {
                    memory: Seq::new(
                        MEMORY_SIZE as nat,
                        |a: int|
                            if self.i <= a <= self.i + x {
                                self.v[a - self.i]
                            } else {
                                self.memory[a]
                            },
                    ),
                    ..self
                },
            ),
        }
    }

    /// `Fx65`: `V0` to `Vx` come from memory at `I` to `I + x`. Fails, at the
    /// first address that does not exist, if one of them does not.
    pub open spec fn load_registers(self, x: u8) -> Result<MachineState, Chip8Error> {
        match first_unreadable(self.i as usize, x + 1) {
            Some(addr) => Err(Chip8Error::OutOfBounds { addr }),
            None => Ok(
                MachineState {
                    v: Seq::new(
                        REGISTER_COUNT as nat,
                        |r: int|
                            if r <= x {
                                self.memory[self.i + r]
                            } else {
                                self.v[r]
                            },
                    ),
                    ..self
                },
            ),
        }
    }

    /// What `instr` makes of the state, with the keypad as it is and with
    /// `random` as the byte that a `Cxkk` draws.
    pub open spec fn perform(self, instr: Instruction, keys: KeypadState, random: u8) -> Result<
        MachineState,
        Chip8Error,
    > {
        match instr {
            Instruction::Sys { addr } => Ok(self),
            Instruction::Return => Ok(self.ret()),
            Instruction::Jump { addr } => Ok(self.jump(addr)),
            Instruction::Call { addr } => Ok(self.call(addr)),
            Instruction::SkipEqual { x, byte } => Ok(self.skip_when(self.v[x as int] == byte)),
            Instruction::SkipNotEqual { x, byte } => Ok(self.skip_when(self.v[x as int] != byte)),
            Instruction::SkipRegistersEqual { x, y } => Ok(
                self.skip_when(self.v[x as int] == self.v[y as int]),
            ),
            Instruction::Load { x, byte } => Ok(self.with_v(x, byte)),
            Instruction::AddByte { x, byte } => Ok(self.add_byte(x, byte)),
            Instruction::Move { x, y } => Ok(self.move_register(x, y)),
            Instruction::Or { x, y } => Ok(self.or_registers(x, y)),
            Instruction::And { x, y } => Ok(self.and_registers(x, y)),
            Instruction::Xor { x, y } => Ok(self.xor_registers(x, y)),
            Instruction::Add { x, y } => Ok(self.add_registers(x, y)),
            Instruction::Sub { x, y } => Ok(self.sub_registers(x, y)),
            Instruction::ShiftRight { x, y } => Ok(self.shift_right(x)),
            Instruction::SubReversed { x, y } => Ok(self.sub_reversed(x, y)),
            Instruction::ShiftLeft { x, y } => Ok(self.shift_left(x)),
            Instruction::SkipRegistersNotEqual { x, y } => Ok(
                self.skip_when(self.v[x as int] != self.v[y as int]),
            ),
            Instruction::LoadIndex { addr } => Ok(self.load_index(addr)),
            Instruction::JumpOffset { addr } => Ok(self.jump_offset(addr)),
            Instruction::Random { x, byte } => Ok(self.random(x, byte, random)),
            Instruction::Draw { x, y, rows } => self.draw(x, y, rows),
            Instruction::SkipKeyPressed { x } => Ok(
                self.skip_when(keys.is_held(self.v[x as int])),
            ),
            Instruction::SkipKeyNotPressed { x } => Ok(
                self.skip_when(!keys.is_held(self.v[x as int])),
            ),
            Instruction::LoadDelay { x } => Ok(self.load_delay(x)),
            Instruction::WaitKey { x } => Ok(self.wait_key(x, keys)),
            Instruction::SetDelay { x } => Ok(self.set_delay(x)),
            Instruction::SetSound { x } => Ok(self.set_sound(x)),
            Instruction::AddIndex { x } => Ok(self.add_index(x)),
            Instruction::LoadGlyph { x } => Ok(self.load_glyph(x)),
            Instruction::StoreBcd { x } => self.store_bcd(x),
            Instruction::StoreRegisters { x } => self.store_registers(x),
            Instruction::LoadRegisters { x } => self.load_registers(x),
        }
    }

    /// What the register-to-register operation in `opcode` makes of the
    /// state. Only the fields `x`, `y` and the low nibble of the word count.
    pub open spec fn logical(self, opcode: u16) -> Result<MachineState, Chip8Error> {
        match decode_logical_spec(opcode) {
            Ok(instr) => self.perform(instr, KeypadState::idle(), 0),
            Err(e) => Err(e),
        }
    }

    /// What the keypad skip in `opcode` makes of the state. Only the field `x`
    /// and the low byte of the word count.
    pub open spec fn key_skip(self, opcode: u16, keys: KeypadState) -> Result<
        MachineState,
        Chip8Error,
    > {
        match decode_key_spec(opcode) {
            Ok(instr) => self.perform(instr, keys, 0),
            Err(e) => Err(e),
        }
    }

    /// What the operation of the class F in `opcode` makes of the state. Only
    /// the field `x` and the low byte of the word count.
    pub open spec fn fx(self, opcode: u16, keys: KeypadState) -> Result<MachineState, Chip8Error> {
        match decode_fx_spec(opcode) {
            Ok(instr) => self.perform(instr, keys, 0),
            Err(e) => Err(e),
        }
    }

    /// What the instruction word `opcode` makes of the state: a word that
    /// names no instruction fails, any other does what its instruction does.
    pub open spec fn execute(self, opcode: u16, keys: KeypadState, random: u8) -> Result<
        MachineState,
        Chip8Error,
    > {
        match decode_spec(opcode) {
            Ok(instr) => self.perform(instr, keys, random),
            Err(e) => Err(e),
        }
    }

    /// The instruction word at the program counter: two bytes, the high one
    /// first. Fails, at the first address that does not exist, if the two are
    /// not both in memory.
    pub open spec fn fetch(self) -> Result<u16, Chip8Error> {
        match first_unreadable(self.pc as usize, 2) {
            Some(addr) => Err(Chip8Error::OutOfBounds { addr }),
            None => Ok((self.memory[self.pc as int] * 256 + self.memory[self.pc + 1]) as u16),
        }
    }

    /// Whether the next step draws a random byte: the machine runs, and the
    /// instruction at the program counter is a `Cxkk`.
    pub open spec fn draws_random(self) -> bool {
        &&& self.waiting is None
        &&& self.fetch() matches Ok(opcode)
        &&& decode_spec(opcode) matches Ok(Instruction::Random { .. })
    }

    /// The state in which a step performs the instruction that it fetched:
    /// the program counter has moved past the instruction.
    pub open spec fn fetched(self) -> MachineState {
        MachineState { pc: next_pc(self.pc), ..self }
    }

    /// One step of the machine. A suspended machine takes the reported key
    /// press, if there is one, and goes on; without one it stays as it is. A
    /// running machine fetches the instruction at the program counter, moves
    /// the counter past it and performs it.
    pub open spec fn step(self, keys: KeypadState, random: u8) -> Result<MachineState, Chip8Error> {
        match self.waiting {
            Some(x) => Ok(
                match keys.pressed {
                    Some(key) => MachineState { waiting: None, ..self.with_v(x, key) },
                    None => self,
                },
            ),
            None => match self.fetch() {
                Ok(opcode) => self.fetched().execute(opcode, keys, random),
                Err(e) => Err(e),
            },
        }
    }

    /// One tick of the 60 Hz clock: each timer that is not zero loses one.
    pub open spec fn tick(self) -> MachineState {
        MachineState { delay: ticked(self.delay), sound: ticked(self.sound), ..self }
    }

    /// Whether the tone sounds: it does while the sound timer is not zero.
    pub open spec fn tone(self) -> bool {
        self.sound > 0
    }
}

} // verus!
