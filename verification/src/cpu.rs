//! The machine: registers, memory, display, and the execution unit.
//!
//! [`Chip8`] holds the whole state of a machine. [`Chip8::step`] runs one
//! instruction of the program in memory; [`Chip8::execute`] runs an
//! instruction word that the caller supplies; the other methods are the
//! single operations, one per instruction. [`Chip8::tick_timers`] is the
//! timers' clock, which the host drives on its own schedule.
//!
//! Every operation either succeeds or fails as a whole: after a failure the
//! machine is exactly as it was before. What an operation does is stated over
//! [`MachineState`], the view of the machine, by the function of the same
//! purpose in [`crate::model`].
//!
//! No operation has a precondition on the machine itself. Those that take a
//! register index ask for one below 16.

use vstd::prelude::*;
use rand::rngs::StdRng;
use crate::decoder::{decode_spec, split, Instruction};
use crate::display::Display;
use crate::error::Chip8Error;
use crate::keypad::Keypad;
use crate::memory::{
    first_unreadable,
    first_unwritable,
    write_spec,
    Memory,
    GLYPH_SIZE,
    MEMORY_SIZE,
    PROGRAM_START,
};
use crate::model::{settles, MachineState, REGISTER_COUNT};
use crate::rng::{next_byte, seeded};
use crate::timers::tick;

verus! {

broadcast use {Memory::lemma_size, Display::lemma_size};

/// A CHIP-8 machine: sixteen general registers `V0` to `VF`, the address
/// register `I`, the program counter, a call stack of sixteen return
/// addresses with its stack pointer, the delay and sound timers, 4096 bytes of
/// memory, a display of 64 by 32 pixels, and a seeded generator of random
/// bytes.
#[derive(Debug)]
pub struct Chip8 {
    v_registers: [u8; 16],
    i_register: u16,
    delay_timer: u8,
    sound_timer: u8,
    program_counter: u16,
    stack_pointer: u8,
    stack: [u16; 16],
    memory: Memory,
    display: Display,
    waiting: Option<u8>,
    rng: StdRng,
}

impl Chip8 {
    #[verifier::type_invariant]
    spec fn inv(self) -> bool {
        &&& self.stack_pointer < 16
        &&& (self.waiting matches Some(x) ==> x < 16)
    }

    /// The state of the machine. The generator of random bytes is not part of
    /// it.
    pub closed spec fn view(&self) -> MachineState {
        MachineState {
            v: self.v_registers@,
            i: self.i_register,
            delay: self.delay_timer,
            sound: self.sound_timer,
            pc: self.program_counter,
            sp: self.stack_pointer,
            stack: self.stack@,
            memory: self.memory@,
            display: self.display@,
            waiting: self.waiting,
        }
    }

    /// A machine with the font in memory, a blank display, every register
    /// zero and the program counter at `0x200`. Its random bytes are those
    /// that follow from `seed`.
    pub fn new(seed: u64) -> (chip: Chip8)
        ensures
            chip@ == MachineState::initial(),
            chip@.well_formed(),
    {
        let chip = Chip8 {
            v_registers: [0u8; 16],
            i_register: 0,
            delay_timer: 0,
            sound_timer: 0,
            program_counter: 0x200,
            stack_pointer: 0,
            stack: [0u16; 16],
            memory: Memory::new(),
            display: Display::new(),
            waiting: None,
            rng: seeded(seed),
        };
        assert(chip@.v =~= MachineState::initial().v);
        assert(chip@.stack =~= MachineState::initial().stack);
        chip
    }

    /// `1nnn`: jumps to `addr`.
    pub fn jump_to(&mut self, addr: u16)
        ensures
            final(self)@ == old(self)@.jump(addr),
            final(self)@.well_formed(),
    {
        proof {
            use_type_invariant(&*self);
        }
        self.program_counter = addr;
    }

    /// `2nnn`: calls the subroutine at `addr`.
    pub fn call_subroutine(&mut self, addr: u16)
        ensures
            final(self)@ == old(self)@.call(addr),
            final(self)@.well_formed(),
    {
        proof {
            use_type_invariant(&*self);
        }
        self.stack_pointer = (self.stack_pointer + 1) % 16;
        self.stack[self.stack_pointer as usize] = self.program_counter;
        self.program_counter = addr;
    }

    /// `00EE`: returns from a subroutine.
    pub fn return_from_subroutine(&mut self)
        ensures
            final(self)@ == old(self)@.ret(),
            final(self)@.well_formed(),
    {
        proof {
            use_type_invariant(&*self);
        }
        self.program_counter = self.stack[self.stack_pointer as usize];
        self.stack_pointer = (self.stack_pointer + 15) % 16;
    }

    /// `3xkk`: skips the next instruction if `Vx == byte`.
    pub fn skip_if_equal(&mut self, x: u8, byte: u8)
        requires
            x < 16,
        ensures
            final(self)@ == old(self)@.skip_when(old(self)@.v[x as int] == byte),
            final(self)@.well_formed(),
    {
        proof {
            use_type_invariant(&*self);
        }
        if self.v_registers[x as usize] == byte {
            self.program_counter = self.program_counter.wrapping_add(2);
        }
    }

    /// `4xkk`: skips the next instruction if `Vx != byte`.
    pub fn skip_if_not_equal(&mut self, x: u8, byte: u8)
        requires
            x < 16,
        ensures
            final(self)@ == old(self)@.skip_when(old(self)@.v[x as int] != byte),
            final(self)@.well_formed(),
    {
        proof {
            use_type_invariant(&*self);
        }
        if self.v_registers[x as usize] != byte {
            self.program_counter = self.program_counter.wrapping_add(2);
        }
    }

    /// `5xy_`: skips the next instruction if `Vx == Vy`.
    pub fn skip_if_registers_equal(&mut self, x: u8, y: u8)
        requires
            x < 16,
            y < 16,
        ensures
            final(self)@ == old(self)@.skip_when(old(self)@.v[x as int] == old(self)@.v[y as int]),
            final(self)@.well_formed(),
    {
        proof {
            use_type_invariant(&*self);
        }
        if self.v_registers[x as usize] == self.v_registers[y as usize] {
            self.program_counter = self.program_counter.wrapping_add(2);
        }
    }

    /// `6xkk`: `Vx := byte`.
    pub fn load_to_register(&mut self, x: u8, byte: u8)
        requires
            x < 16,
        ensures
            final(self)@ == old(self)@.with_v(x, byte),
            final(self)@.well_formed(),
    {
        proof {
            use_type_invariant(&*self);
        }
        self.v_registers[x as usize] = byte;
    }

    /// `7xkk`: `Vx := Vx + byte`, wrapping, without a flag.
    pub fn add_to_register(&mut self, x: u8, byte: u8)
        requires
            x < 16,
        ensures
            final(self)@ == old(self)@.add_byte(x, byte),
            final(self)@.well_formed(),
    {
        proof {
            use_type_invariant(&*self);
        }
        self.v_registers[x as usize] = self.v_registers[x as usize].wrapping_add(byte);
    }

    /// Performs the register-to-register operation that the low nibble of
    /// `opcode` selects, on the registers that its `x` and `y` fields name.
    /// The nibbles 8 to D and F select nothing and fail.
    pub fn logitcal_op(&mut self, opcode: u16) -> (r: Result<(), Chip8Error>)
        ensures
            settles(old(self)@.logical(opcode), old(self)@, final(self)@, r),
            final(self)@.well_formed(),
    {
        proof {
            use_type_invariant(&*self);
        }
        let f = split(opcode);
        let x: u8 = f.x;
        let y: u8 = f.y;
        match f.nibble {
            0x0 => self.load_from_to(x, y),
            0x1 => self.or(x, y),
            0x2 => self.and(x, y),
            0x3 => self.xor(x, y),
            0x4 => self.add(x, y),
            0x5 => self.sub(x, y),
            0x6 => self.shr(x, y),
            0x7 => self.subn(x, y),
            0xE => self.shl(x, y),
            _ => {
                return Err(Chip8Error::UnknownOpcode { opcode });
            },
        }
        Ok(())
    }

    /// `8xy0`: `Vx := Vy`.
    pub fn load_from_to(&mut self, x: u8, y: u8)
        requires
            x < 16,
            y < 16,
        ensures
            final(self)@ == old(self)@.move_register(x, y),
            final(self)@.well_formed(),
    {
        proof {
            use_type_invariant(&*self);
        }
        self.v_registers[x as usize] = self.v_registers[y as usize];
    }

    /// `8xy1`: `Vx := Vx | Vy`.
    pub fn or(&mut self, x: u8, y: u8)
        requires
            x < 16,
            y < 16,
        ensures
            final(self)@ == old(self)@.or_registers(x, y),
            final(self)@.well_formed(),
    {
        proof {
            use_type_invariant(&*self);
        }
        self.v_registers[x as usize] = self.v_registers[x as usize] | self.v_registers[y as usize];
    }

    /// `8xy2`: `Vx := Vx & Vy`.
    pub fn and(&mut self, x: u8, y: u8)
        requires
            x < 16,
            y < 16,
        ensures
            final(self)@ == old(self)@.and_registers(x, y),
            final(self)@.well_formed(),
    {
        proof {
            use_type_invariant(&*self);
        }
        self.v_registers[x as usize] = self.v_registers[x as usize] & self.v_registers[y as usize];
    }

    /// `8xy3`: `Vx := Vx ^ Vy`.
    pub fn xor(&mut self, x: u8, y: u8)
        requires
            x < 16,
            y < 16,
        ensures
            final(self)@ == old(self)@.xor_registers(x, y),
            final(self)@.well_formed(),
    {
        proof {
            use_type_invariant(&*self);
        }
        self.v_registers[x as usize] = self.v_registers[x as usize] ^ self.v_registers[y as usize];
    }

    /// `8xy4`: `Vx := Vx + Vy`, wrapping; `VF` := 1 if the sum was above 255,
    /// else 0.
    pub fn add(&mut self, x: u8, y: u8)
        requires
            x < 16,
            y < 16,
        ensures
            final(self)@ == old(self)@.add_registers(x, y),
            final(self)@.well_formed(),
    {
        proof {
            use_type_invariant(&*self);
        }
        self.v_registers[0xF] =
        if self.v_registers[x as usize] > 0xFF - self.v_registers[y as usize] {
            1
        } else {
            0
        };
        self.v_registers[x as usize] = self.v_registers[x as usize].wrapping_add(
            self.v_registers[y as usize],
        );
    }

    /// `8xy5`: `Vx := Vx - Vy`, wrapping; `VF` := 1 if `Vx` was above `Vy`,
    /// else 0.
    pub fn sub(&mut self, x: u8, y: u8)
        requires
            x < 16,
            y < 16,
        ensures
            final(self)@ == old(self)@.sub_registers(x, y),
            final(self)@.well_formed(),
    {
        proof {
            use_type_invariant(&*self);
        }
        self.v_registers[0xF] = if self.v_registers[x as usize] > self.v_registers[y as usize] {
            1
        } else {
            0
        };
        self.v_registers[x as usize] = self.v_registers[x as usize].wrapping_sub(
            self.v_registers[y as usize],
        );
    }

    /// `8xy6`: `Vx := Vx >> 1`; `VF` := the bit that fell out. `y` plays no
    /// part.
    pub fn shr(&mut self, x: u8, _y: u8)
        requires
            x < 16,
        ensures
            final(self)@ == old(self)@.shift_right(x),
            final(self)@.well_formed(),
    {
        proof {
            use_type_invariant(&*self);
        }
        let before: u8 = self.v_registers[x as usize];
        assert(before & 0x1 == before % 2) by (bit_vector);
        self.v_registers[0xF] = before & 0x1;
        let value: u8 = self.v_registers[x as usize];
        assert(value >> 1 == value / 2) by (bit_vector);
        self.v_registers[x as usize] = value >> 1;
    }

    /// `8xy7`: `Vx := Vy - Vx`, wrapping; `VF` := 1 if `Vy` was above `Vx`,
    /// else 0.
    pub fn subn(&mut self, x: u8, y: u8)
        requires
            x < 16,
            y < 16,
        ensures
            final(self)@ == old(self)@.sub_reversed(x, y),
            final(self)@.well_formed(),
    {
        proof {
            use_type_invariant(&*self);
        }
        self.v_registers[0xF] = if self.v_registers[y as usize] > self.v_registers[x as usize] {
            1
        } else {
            0
        };
        self.v_registers[x as usize] = self.v_registers[y as usize].wrapping_sub(
            self.v_registers[x as usize],
        );
    }

    /// `8xyE`: `Vx := Vx << 1`, in eight bits; `VF` := the bit that fell out.
    /// `y` plays no part.
    pub fn shl(&mut self, x: u8, _y: u8)
        requires
            x < 16,
        ensures
            final(self)@ == old(self)@.shift_left(x),
            final(self)@.well_formed(),
    {
        proof {
            use_type_invariant(&*self);
        }
        let before: u8 = self.v_registers[x as usize];
        let high: u8 = (before & 0x80) >> 7;
        assert((before & 0x80) >> 7 == before / 128) by (bit_vector);
        self.v_registers[0xF] = high;
        let value: u8 = self.v_registers[x as usize];
        assert(value << 1 == (value * 2) % 256) by (bit_vector);
        self.v_registers[x as usize] = value << 1;
    }

    /// `9xy_`: skips the next instruction if `Vx != Vy`.
    pub fn skip_if_registers_not_equal(&mut self, x: u8, y: u8)
        requires
            x < 16,
            y < 16,
        ensures
            final(self)@ == old(self)@.skip_when(old(self)@.v[x as int] != old(self)@.v[y as int]),
            final(self)@.well_formed(),
    {
        proof {
            use_type_invariant(&*self);
        }
        if self.v_registers[x as usize] != self.v_registers[y as usize] {
            self.program_counter = self.program_counter.wrapping_add(2);
        }
    }

    /// `Annn`: `I := nnn`.
    pub fn load_i(&mut self, nnn: u16)
        ensures
            final(self)@ == old(self)@.load_index(nnn),
            final(self)@.well_formed(),
    {
        proof {
            use_type_invariant(&*self);
        }
        self.i_register = nnn;
    }

    /// `Bnnn`: jumps to `nnn + V0`.
    pub fn jump_with_offset(&mut self, nnn: u16)
        ensures
            final(self)@ == old(self)@.jump_offset(nnn),
            final(self)@.well_formed(),
    {
        proof {
            use_type_invariant(&*self);
        }
        self.program_counter = nnn.wrapping_add(self.v_registers[0] as u16);
    }
    /// `Cxkk`: `Vx :=` a random byte `& kk`. The byte is the next one of the
    /// machine's generator.
    pub fn random_and(&mut self, x: u8, kk: u8)
        requires
            x < 16,
        ensures
            exists|byte: u8| final(self)@ == #[trigger] old(self)@.random(x, kk, byte),
            final(self)@.well_formed(),
    {
        proof {
            use_type_invariant(&*self);
        }
        let byte: u8 = next_byte(&mut self.rng);
        self.random_and_with(x, kk, byte);
        assert(self@ == old(self)@.random(x, kk, byte));
    }

    /// `Cxkk` with `byte` as the random byte: `Vx := byte & kk`.
    pub fn random_and_with(&mut self, x: u8, kk: u8, byte: u8)
        requires
            x < 16,
        ensures
            final(self)@ == old(self)@.random(x, kk, byte),
            final(self)@.well_formed(),
    {
        proof {
            use_type_invariant(&*self);
        }
        self.v_registers[x as usize] = byte & kk;
    }

    /// `Dxyn`: draws the sprite of `nibble` rows that lies in memory at `I`,
    /// with its top left corner at `(Vx, Vy)`; `VF` := 1 if a pixel went off,
    /// else 0. If the sprite is not all in memory, nothing is drawn.
    pub fn draw(&mut self, x: u8, y: u8, nibble: u8) -> (r: Result<(), Chip8Error>)
        requires
            x < 16,
            y < 16,
            nibble < 16,
        ensures
            settles(old(self)@.draw(x, y, nibble), old(self)@, final(self)@, r),
            final(self)@.well_formed(),
    {
        proof {
            use_type_invariant(&*self);
        }
        let start: usize = self.i_register as usize;
        let count: usize = nibble as usize;
        check_readable(start, count)?;
        let mut sprite: [u8; 15] = [0u8; 15];
        let mut k: usize = 0;
        while k < count
            invariant
                k <= count <= 15,
                start == old(self)@.i,
                *self == *old(self),
                count > 0 ==> start + count <= MEMORY_SIZE,
                forall|j: int| 0 <= j < k ==> sprite@[j] == self@.memory[start + j],
            decreases count - k,
        {
            sprite[k] = self.memory.address(start + k)?;
            k = k + 1;
        }
        assert(sprite@.take(count as int) =~= self@.sprite(nibble));
        let vx: u8 = self.v_registers[x as usize];
        let vy: u8 = self.v_registers[y as usize];
        let hit: bool = self.display.draw_sprite(vx, vy, &sprite, count);
        self.v_registers[0xF] = if hit {
            1
        } else {
            0
        };
        Ok(())
    }

    /// Performs the keypad skip that the low byte of `opcode` selects, on the
    /// register that its `x` field names. Only `9E` and `A1` select one.
    pub fn skip_with_key_status(&mut self, opcode: u16, keys: &Keypad) -> (r: Result<
        (),
        Chip8Error,
    >)
        ensures
            settles(old(self)@.key_skip(opcode, keys@), old(self)@, final(self)@, r),
            final(self)@.well_formed(),
    {
        proof {
            use_type_invariant(&*self);
        }
        let f = split(opcode);
        match f.byte {
            0x9E => self.skip_if_key_pressed(f.x, keys),
            0xA1 => self.skip_if_key_not_pressed(f.x, keys),
            _ => {
                return Err(Chip8Error::UnknownOpcode { opcode });
            },
        }
        Ok(())
    }

    /// `Ex9E`: skips the next instruction if the key with the value `Vx` is
    /// held down.
    pub fn skip_if_key_pressed(&mut self, x: u8, keys: &Keypad)
        requires
            x < 16,
        ensures
            final(self)@ == old(self)@.skip_when(keys@.is_held(old(self)@.v[x as int])),
            final(self)@.well_formed(),
    {
        proof {
            use_type_invariant(&*self);
        }
        if keys.is_held(self.v_registers[x as usize]) {
            self.program_counter = self.program_counter.wrapping_add(2);
        }
    }

    /// `ExA1`: skips the next instruction if the key with the value `Vx` is
    /// not held down.
    pub fn skip_if_key_not_pressed(&mut self, x: u8, keys: &Keypad)
        requires
            x < 16,
        ensures
            final(self)@ == old(self)@.skip_when(!keys@.is_held(old(self)@.v[x as int])),
            final(self)@.well_formed(),
    {
        proof {
            use_type_invariant(&*self);
        }
        if !keys.is_held(self.v_registers[x as usize]) {
            self.program_counter = self.program_counter.wrapping_add(2);
        }
    }

    /// Performs the operation of the class F that the low byte of `opcode`
    /// selects, on the register that its `x` field names.
    pub fn fx_inst(&mut self, opcode: u16, keys: &Keypad) -> (r: Result<(), Chip8Error>)
        ensures
            settles(old(self)@.fx(opcode, keys@), old(self)@, final(self)@, r),
            final(self)@.well_formed(),
    {
        proof {
            use_type_invariant(&*self);
        }
        let f = split(opcode);
        let x: u8 = f.x;
        match f.byte {
            0x07 => self.load_delay_timer(x),
            0x0A => self.wait_for_key_press(x, keys),
            0x15 => self.set_delay_timer(x),
            0x18 => self.set_sound_timer(x),
            0x1E => self.add_to_i_register(x),
            0x29 => self.set_i_register(x),
            0x33 => {
                return self.store_bcd(x);
            },
            0x55 => {
                return self.store_registers(x);
            },
            0x65 => {
                return self.load_registers(x);
            },
            _ => {
                return Err(Chip8Error::UnknownOpcode { opcode });
            },
        }
        Ok(())
    }

    /// `Fx07`: `Vx :=` the delay timer.
    pub fn load_delay_timer(&mut self, x: u8)
        requires
            x < 16,
        ensures
            final(self)@ == old(self)@.load_delay(x),
            final(self)@.well_formed(),
    {
        proof {
            use_type_invariant(&*self);
        }
        self.v_registers[x as usize] = self.delay_timer;
    }

    /// `Fx0A`: takes the key press that the keypad reports into `Vx`. If it
    /// reports none, the machine is suspended: [`Chip8::step`] performs no
    /// instruction until a key press comes, and then puts it into `Vx`.
    pub fn wait_for_key_press(&mut self, x: u8, keys: &Keypad)
        requires
            x < 16,
        ensures
            final(self)@ == old(self)@.wait_key(x, keys@),
            final(self)@.well_formed(),
    {
        proof {
            use_type_invariant(&*self);
        }
        match keys.pressed() {
            Some(key) => {
                self.v_registers[x as usize] = key;
                self.waiting = None;
            },
            None => {
                self.waiting = Some(x);
            },
        }
    }

    /// `Fx15`: the delay timer `:= Vx`.
    pub fn set_delay_timer(&mut self, x: u8)
        requires
            x < 16,
        ensures
            final(self)@ == old(self)@.set_delay(x),
            final(self)@.well_formed(),
    {
        proof {
            use_type_invariant(&*self);
        }
        self.delay_timer = self.v_registers[x as usize];
    }

    /// `Fx18`: the sound timer `:= Vx`.
    pub fn set_sound_timer(&mut self, x: u8)
        requires
            x < 16,
        ensures
            final(self)@ == old(self)@.set_sound(x),
            final(self)@.well_formed(),
    {
        proof {
            use_type_invariant(&*self);
        }
        self.sound_timer = self.v_registers[x as usize];
    }

    /// `Fx1E`: `I := I + Vx`, in twelve bits.
    pub fn add_to_i_register(&mut self, x: u8)
        requires
            x < 16,
        ensures
            final(self)@ == old(self)@.add_index(x),
            final(self)@.well_formed(),
    {
        proof {
            use_type_invariant(&*self);
        }
        let sum: u32 = self.i_register as u32 + self.v_registers[x as usize] as u32;
        self.i_register = (sum % 0x1000) as u16;
    }

    /// `Fx29`: `I :=` the address of the glyph of the digit in the low nibble
    /// of `Vx`.
    pub fn set_i_register(&mut self, x: u8)
        requires
            x < 16,
        ensures
            final(self)@ == old(self)@.load_glyph(x),
            final(self)@.well_formed(),
    {
        proof {
            use_type_invariant(&*self);
        }
        let digit: u8 = self.v_registers[x as usize] % 16;
        self.i_register = GLYPH_SIZE as u16 * digit as u16;
    }

    /// `Fx33`: writes the hundreds, tens and ones of `Vx` to memory at `I`,
    /// `I + 1` and `I + 2`. If one of the three cannot be written, none is.
    pub fn store_bcd(&mut self, x: u8) -> (r: Result<(), Chip8Error>)
        requires
            x < 16,
        ensures
            settles(old(self)@.store_bcd(x), old(self)@, final(self)@, r),
            final(self)@.well_formed(),
    {
        proof {
            use_type_invariant(&*self);
        }
        let start: usize = self.i_register as usize;
        check_writable(start, 3)?;
        let value: u8 = self.v_registers[x as usize];
        self.memory.assign(start, value / 100)?;
        self.memory.assign(start + 1, (value / 10) % 10)?;
        self.memory.assign(start + 2, value % 10)?;
        Ok(())
    }

    /// `Fx55`: writes `V0` to `Vx` to memory at `I` to `I + x`. If one of the
    /// addresses cannot be written, none is.
    pub fn store_registers(&mut self, x: u8) -> (r: Result<(), Chip8Error>)
        requires
            x < 16,
        ensures
            settles(old(self)@.store_registers(x), old(self)@, final(self)@, r),
            final(self)@.well_formed(),
    {
        proof {
            use_type_invariant(&*self);
        }
        let start: usize = self.i_register as usize;
        let count: usize = x as usize + 1;
        check_writable(start, count)?;
        let mut k: usize = 0;
        assert(self@.memory =~= Seq::new(
            MEMORY_SIZE as nat,
            |a: int|
                if start <= a < start + k {
                    old(self)@.v[a - start]
                } else {
                    old(self)@.memory[a]
                },
        ));
        while k < count
            invariant
                k <= count == x + 1,
                x < 16,
                start == old(self)@.i,
                PROGRAM_START <= start,
                start + count <= MEMORY_SIZE,
                self@.well_formed(),
                self@ == (MachineState {
                    memory: Seq::new(
                        MEMORY_SIZE as nat,
                        |a: int|
                            if start <= a < start + k {
                                old(self)@.v[a - start]
                            } else {
                                old(self)@.memory[a]
                            },
                    ),
                    ..old(self)@
                }),
            decreases count - k,
        {
            proof {
                use_type_invariant(&*self);
            }
            self.memory.assign(start + k, self.v_registers[k])?;
            k = k + 1;
            assert(self@.memory =~= Seq::new(
                MEMORY_SIZE as nat,
                |a: int|
                    if start <= a < start + k {
                        old(self)@.v[a - start]
                    } else {
                        old(self)@.memory[a]
                    },
            ));
        }
        assert(self@.memory =~= old(self)@.store_registers(x).unwrap().memory);
        Ok(())
    }

    /// `Fx65`: reads `V0` to `Vx` from memory at `I` to `I + x`. If one of the
    /// addresses does not exist, no register changes.
    pub fn load_registers(&mut self, x: u8) -> (r: Result<(), Chip8Error>)
        requires
            x < 16,
        ensures
            settles(old(self)@.load_registers(x), old(self)@, final(self)@, r),
            final(self)@.well_formed(),
    {
        proof {
            use_type_invariant(&*self);
        }
        let start: usize = self.i_register as usize;
        let count: usize = x as usize + 1;
        check_readable(start, count)?;
        let mut k: usize = 0;
        assert(self@.v =~= Seq::new(
            REGISTER_COUNT as nat,
            |r: int|
                if r < k {
                    old(self)@.memory[start + r]
                } else {
                    old(self)@.v[r]
                },
        ));
        while k < count
            invariant
                k <= count == x + 1,
                x < 16,
                start == old(self)@.i,
                start + count <= MEMORY_SIZE,
                self@.well_formed(),
                self@ == (MachineState {
                    v: Seq::new(
                        REGISTER_COUNT as nat,
                        |r: int|
                            if r < k {
                                old(self)@.memory[start + r]
                            } else {
                                old(self)@.v[r]
                            },
                    ),
                    ..old(self)@
                }),
            decreases count - k,
        {
            proof {
                use_type_invariant(&*self);
            }
            self.v_registers[k] = self.memory.address(start + k)?;
            k = k + 1;
            assert(self@.v =~= Seq::new(
                REGISTER_COUNT as nat,
                |r: int|
                    if r < k {
                        old(self)@.memory[start + r]
                    } else {
                        old(self)@.v[r]
                    },
            ));
        }
        assert(self@.v =~= old(self)@.load_registers(x).unwrap().v);
        Ok(())
    }
    /// Executes the instruction word `opcode`: the class selects the
    /// operation, and in the classes 8, E and F a second field does. A word
    /// that names no instruction fails with `UnknownOpcode`, a memory access
    /// out of bounds with `OutOfBounds`; in both cases the machine stays as it
    /// was. The program counter counts as already moved past the instruction:
    /// [`Chip8::step`] moves it.
    ///
    /// What `Cxkk` makes of the machine depends on the byte that the generator
    /// gives; every other instruction has one outcome.
    ///
    /// The word is executed whether the machine is suspended or not: it is
    /// [`Chip8::step`] that holds a suspended machine back.
    pub fn execute(&mut self, opcode: u16, keys: &Keypad) -> (r: Result<(), Chip8Error>)
        ensures
            exists|byte: u8|
                settles(
                    #[trigger] old(self)@.execute(opcode, keys@, byte),
                    old(self)@,
                    final(self)@,
                    r,
                ),
            !(decode_spec(opcode) matches Ok(Instruction::Random { .. })) ==> settles(
                old(self)@.execute(opcode, keys@, 0),
                old(self)@,
                final(self)@,
                r,
            ),
            final(self)@.well_formed(),
    {
        proof {
            use_type_invariant(&*self);
        }
        let f = split(opcode);
        let ghost mut drawn: u8 = 0;
        let r = match f.opclass {
            0x0 => {
                if opcode == 0x00EE {
                    self.return_from_subroutine();
                }
                Ok(())
            },
            0x1 => {
                self.jump_to(f.addr);
                Ok(())
            },
            0x2 => {
                self.call_subroutine(f.addr);
                Ok(())
            },
            0x3 => {
                self.skip_if_equal(f.x, f.byte);
                Ok(())
            },
            0x4 => {
                self.skip_if_not_equal(f.x, f.byte);
                Ok(())
            },
            0x5 => {
                self.skip_if_registers_equal(f.x, f.y);
                Ok(())
            },
            0x6 => {
                self.load_to_register(f.x, f.byte);
                Ok(())
            },
            0x7 => {
                self.add_to_register(f.x, f.byte);
                Ok(())
            },
            0x8 => self.logitcal_op(opcode),
            0x9 => {
                self.skip_if_registers_not_equal(f.x, f.y);
                Ok(())
            },
            0xA => {
                self.load_i(f.addr);
                Ok(())
            },
            0xB => {
                self.jump_with_offset(f.addr);
                Ok(())
            },
            0xC => {
                self.random_and(f.x, f.byte);
                proof {
                    drawn = choose|byte: u8|
                        self@ == #[trigger] old(self)@.random(f.x, f.byte, byte);
                }
                Ok(())
            },
            0xD => self.draw(f.x, f.y, f.nibble),
            0xE => self.skip_with_key_status(opcode, keys),
            _ => self.fx_inst(opcode, keys),
        };
        assert(settles(old(self)@.execute(opcode, keys@, drawn), old(self)@, self@, r));
        r
    }

    /// The instruction word at the program counter: the byte there and the
    /// next one, the high byte first.
    pub fn fetch(&self) -> (r: Result<u16, Chip8Error>)
        ensures
            r == self@.fetch(),
    {
        let pc: usize = self.program_counter as usize;
        let high: u8 = self.memory.address(pc)?;
        let low: u8 = self.memory.address(pc + 1)?;
        Ok(high as u16 * 256 + low as u16)
    }

    /// One step. A suspended machine takes the key press that the keypad
    /// reports, if there is one, into the waiting register and runs again;
    /// without one it stays as it is. A running machine fetches the
    /// instruction at the program counter, moves the counter past it and
    /// executes it. On a failure the machine stays as it was before the step.
    ///
    /// A step has one outcome, unless the instruction is a `Cxkk`: then it
    /// depends on the byte that the generator gives.
    pub fn step(&mut self, keys: &Keypad) -> (r: Result<(), Chip8Error>)
        ensures
            exists|byte: u8|
                settles(#[trigger] old(self)@.step(keys@, byte), old(self)@, final(self)@, r),
            !old(self)@.draws_random() ==> settles(
                old(self)@.step(keys@, 0),
                old(self)@,
                final(self)@,
                r,
            ),
            final(self)@.well_formed(),
    {
        proof {
            use_type_invariant(&*self);
        }
        match self.waiting {
            Some(x) => {
                match keys.pressed() {
                    Some(key) => {
                        self.v_registers[x as usize] = key;
                        self.waiting = None;
                    },
                    None => {},
                }
                assert(settles(old(self)@.step(keys@, 0), old(self)@, self@, Ok(())));
                Ok(())
            },
            None => {
                let opcode: u16 = self.fetch()?;
                let pc: u16 = self.program_counter;
                self.program_counter = pc + 2;
                let ghost moved = self@;
                let r = self.execute(opcode, keys);
                let ghost byte = choose|byte: u8|
                    settles(#[trigger] moved.execute(opcode, keys@, byte), moved, self@, r);
                if r.is_err() {
                    proof {
                        use_type_invariant(&*self);
                    }
                    self.program_counter = pc;
                }
                assert(settles(old(self)@.step(keys@, byte), old(self)@, self@, r));
                r
            },
        }
    }

    /// One tick of the 60 Hz clock: each timer that is not zero loses one.
    /// The host calls this at its own pace, whether the machine runs or waits
    /// for a key.
    pub fn tick_timers(&mut self)
        ensures
            final(self)@ == old(self)@.tick(),
            final(self)@.well_formed(),
    {
        proof {
            use_type_invariant(&*self);
        }
        self.delay_timer = tick(self.delay_timer);
        self.sound_timer = tick(self.sound_timer);
    }

    /// Whether the host should sound the tone: while the sound timer is not
    /// zero.
    pub fn tone_active(&self) -> (on: bool)
        ensures
            on == self@.tone(),
    {
        self.sound_timer > 0
    }

    /// Writes `value` to memory at `addr`, as all loading of programs does.
    /// Only the program region can be written.
    pub fn write_memory(&mut self, addr: usize, value: u8) -> (r: Result<(), Chip8Error>)
        ensures
            match write_spec(old(self)@.memory, addr, value) {
                Ok(m) => r == Ok::<(), Chip8Error>(()) && final(self)@ == (MachineState {
                    memory: m,
                    ..old(self)@
                }),
                Err(e) => r == Err::<(), Chip8Error>(e) && final(self)@ == old(self)@,
            },
            final(self)@.well_formed(),
    {
        proof {
            use_type_invariant(&*self);
        }
        self.memory.assign(addr, value)
    }

    /// The general register `Vx`.
    pub fn register(&self, x: u8) -> (value: u8)
        requires
            x < 16,
        ensures
            value == self@.v[x as int],
    {
        self.v_registers[x as usize]
    }

    /// The address register `I`.
    pub fn i_register(&self) -> (i: u16)
        ensures
            i == self@.i,
    {
        self.i_register
    }

    /// The program counter.
    pub fn program_counter(&self) -> (pc: u16)
        ensures
            pc == self@.pc,
    {
        self.program_counter
    }

    /// The stack pointer.
    pub fn stack_pointer(&self) -> (sp: u8)
        ensures
            sp == self@.sp,
            sp < 16,
    {
        proof {
            use_type_invariant(self);
        }
        self.stack_pointer
    }

    /// The delay timer.
    pub fn delay_timer(&self) -> (t: u8)
        ensures
            t == self@.delay,
    {
        self.delay_timer
    }

    /// The sound timer.
    pub fn sound_timer(&self) -> (t: u8)
        ensures
            t == self@.sound,
    {
        self.sound_timer
    }

    /// The register that waits for a key press, or `None` while the machine
    /// runs.
    pub fn waiting_register(&self) -> (x: Option<u8>)
        ensures
            x == self@.waiting,
            x matches Some(register) ==> register < 16,
    {
        proof {
            use_type_invariant(self);
        }
        self.waiting
    }

    /// The memory.
    pub fn memory(&self) -> (m: &Memory)
        ensures
            m@ == self@.memory,
    {
        &self.memory
    }

    /// The display.
    pub fn display(&self) -> (d: &Display)
        ensures
            d@ == self@.display,
    {
        &self.display
    }
}

/// Succeeds if `count` bytes can be read upwards from `start`, and fails with
/// the first address that does not exist otherwise.
fn check_readable(start: usize, count: usize) -> (r: Result<(), Chip8Error>)
    requires
        start <= 0xFFFF,
        count <= 16,
    ensures
        r == match first_unreadable(start, count as int) {
            Some(addr) => Err::<(), Chip8Error>(Chip8Error::OutOfBounds { addr }),
            None => Ok::<(), Chip8Error>(()),
        },
{
    if count > 0 && start + count > MEMORY_SIZE {
        let addr: usize = if start >= MEMORY_SIZE {
            start
        } else {
            MEMORY_SIZE
        };
        Err(Chip8Error::OutOfBounds { addr })
    } else {
        Ok(())
    }
}

/// Succeeds if `count` bytes can be written upwards from `start`, and fails
/// with the first address that cannot be written otherwise.
fn check_writable(start: usize, count: usize) -> (r: Result<(), Chip8Error>)
    requires
        start <= 0xFFFF,
        count <= 16,
    ensures
        r == match first_unwritable(start, count as int) {
            Some(addr) => Err::<(), Chip8Error>(Chip8Error::OutOfBounds { addr }),
            None => Ok::<(), Chip8Error>(()),
        },
{
    if count == 0 {
        Ok(())
    } else if start < PROGRAM_START {
        Err(Chip8Error::OutOfBounds { addr: start })
    } else {
        check_readable(start, count)
    }
}

} // verus!
