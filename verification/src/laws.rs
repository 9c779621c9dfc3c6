//! What holds of every machine.
//!
//! The functions here are theorems over the model in [`crate::model`]. Since
//! every executable operation of [`crate::cpu::Chip8`] is proved to do what
//! its model function says, they hold of the running machine too.

use vstd::prelude::*;
use crate::decoder::{decode_spec, lemma_unknown_opcodes, Instruction};
use crate::display::{
    blank_display,
    covers,
    has_set_bit,
    lemma_draw_twice_restores,
    lemma_redraw_on_blank,
    lemma_second_draw_collides,
    DISPLAY_PIXELS,
};
use crate::error::Chip8Error;
use crate::keypad::KeypadState;
use crate::model::{flag, next_pc, MachineState, FLAG_REGISTER};

verus! {

/// A call made from the address `from` to the subroutine at `to`.
pub ghost struct Frame {
    /// The program counter when the call is performed: the return address.
    pub from: u16,
    /// The address of the subroutine.
    pub to: u16,
}

/// The state after the calls `frames`, each nested in the one before it.
pub open spec fn after_calls(s: MachineState, frames: Seq<Frame>) -> MachineState
    decreases frames.len(),
{
    if frames.len() == 0 {
        s
    } else {
        after_calls(s, frames.drop_last()).jump(frames.last().from).call(frames.last().to)
    }
}

/// The state after `n` returns.
pub open spec fn after_returns(s: MachineState, n: nat) -> MachineState
    decreases n,
{
    if n == 0 {
        s
    } else {
        after_returns(s, (n - 1) as nat).ret()
    }
}

/// A call followed by a return brings back the program counter and the stack
/// pointer that were there before the call. Nothing else has changed but the
/// stack slot that held the return address.
pub proof fn lemma_call_then_return(s: MachineState, addr: u16)
    requires
        s.well_formed(),
    ensures
        s.call(addr).ret().pc == s.pc,
        s.call(addr).ret().sp == s.sp,
        s.call(addr).ret() == (MachineState { stack: s.call(addr).stack, ..s }),
{
}

/// Moving round the stack in two goes is moving round it in one.
proof fn lemma_slot_sum(a: int, b: int)
    ensures
        ((a % 16) + b) % 16 == (a + b) % 16,
{
}

/// Two slots less than sixteen apart are two slots.
proof fn lemma_slots_differ(base: int, m: int, n: int)
    requires
        m < n < m + 16,
    ensures
        (base + m) % 16 != (base + n) % 16,
{
}

/// Up to sixteen nested calls leave the stack pointer that many slots up,
/// with the return address of each call in its own slot.
proof fn lemma_after_calls(s: MachineState, frames: Seq<Frame>)
    requires
        s.well_formed(),
        frames.len() <= 16,
    ensures
        after_calls(s, frames).well_formed(),
        after_calls(s, frames).sp == (s.sp + frames.len()) % 16,
        forall|m: int|
            0 <= m < frames.len() ==> after_calls(s, frames).stack[(s.sp + m + 1) % 16]
                == #[trigger] frames[m].from,
        after_calls(s, frames) == (MachineState {
            pc: after_calls(s, frames).pc,
            sp: after_calls(s, frames).sp,
            stack: after_calls(s, frames).stack,
            ..s
        }),
    decreases frames.len(),
{
    if frames.len() > 0 {
        let n = frames.len() as int;
        let inner = frames.drop_last();
        lemma_after_calls(s, inner);
        let before = after_calls(s, inner);
        let after = after_calls(s, frames);
        let top = (s.sp + n) % 16;
        assert(after == before.jump(frames.last().from).call(frames.last().to));
        assert(after.sp == top) by {
            lemma_slot_sum(s.sp + n - 1, 1);
        }
        assert(after.stack == before.stack.update(top, frames.last().from));
        assert forall|m: int| 0 <= m < n implies after.stack[(s.sp + m + 1) % 16]
            == #[trigger] frames[m].from by {
            if m < n - 1 {
                assert(inner[m] == frames[m]);
                lemma_slots_differ(s.sp as int, m + 1, n);
            }
        }
    }
}

/// Returns take the stack pointer down and leave the stack as it is; each
/// goes to the address in the slot that the stack pointer named.
proof fn lemma_after_returns(s: MachineState, n: nat)
    requires
        s.well_formed(),
    ensures
        after_returns(s, n).well_formed(),
        after_returns(s, n).sp == (s.sp - n) % 16,
        after_returns(s, n).stack == s.stack,
        n > 0 ==> after_returns(s, n).pc == s.stack[(s.sp - n + 1) % 16],
        after_returns(s, n) == (MachineState {
            pc: after_returns(s, n).pc,
            sp: after_returns(s, n).sp,
            ..s
        }),
    decreases n,
{
    if n > 0 {
        lemma_after_returns(s, (n - 1) as nat);
        let before = after_returns(s, (n - 1) as nat);
        assert(after_returns(s, n) == before.ret());
        assert((before.sp + 15) % 16 == (s.sp - n) % 16) by {
            lemma_slot_sum(s.sp - (n - 1), 15);
        }
    }
}

/// After up to sixteen nested calls, the `k`-th return finds the stack
/// pointer `k` slots down and goes to the address of the `k`-th last call.
proof fn lemma_return_finds_frame(s: MachineState, frames: Seq<Frame>, k: nat)
    requires
        s.well_formed(),
        frames.len() <= 16,
        1 <= k <= frames.len(),
    ensures
        after_returns(after_calls(s, frames), k).pc == frames[frames.len() - k].from,
        after_returns(after_calls(s, frames), k).sp == (s.sp + frames.len() - k) % 16,
{
    let n = frames.len() as int;
    let called = after_calls(s, frames);
    lemma_after_calls(s, frames);
    lemma_after_returns(called, k);
    let slot = (s.sp + (n - k) + 1) % 16;
    assert((called.sp - k + 1) % 16 == slot) by {
        lemma_slot_sum(s.sp + n, 1 - k);
    }
    assert((called.sp - k) % 16 == (s.sp + n - k) % 16) by {
        lemma_slot_sum(s.sp + n, -k);
    }
    assert(called.stack[slot] == frames[n - k].from);
}

/// Calls and returns pair up, last in, first out, for up to sixteen nested
/// calls: after `n` calls, the `k`-th return goes back to the address from
/// which the `k`-th last call was made, and after `n` returns the stack
/// pointer is where it was before the first call. Nothing but the program
/// counter and the stack has changed.
pub proof fn lemma_nested_calls_return(s: MachineState, frames: Seq<Frame>, k: nat)
    requires
        s.well_formed(),
        frames.len() <= 16,
        1 <= k <= frames.len(),
    ensures
        after_returns(after_calls(s, frames), k).pc == frames[frames.len() - k].from,
        after_returns(after_calls(s, frames), k).sp == (s.sp + frames.len() - k) % 16,
        after_returns(after_calls(s, frames), frames.len()).sp == s.sp,
        after_returns(after_calls(s, frames), k) == (MachineState {
            pc: frames[frames.len() - k].from,
            sp: ((s.sp + frames.len() - k) % 16) as u8,
            stack: after_calls(s, frames).stack,
            ..s
        }),
{
    let called = after_calls(s, frames);
    lemma_return_finds_frame(s, frames, k);
    lemma_return_finds_frame(s, frames, frames.len());
    lemma_after_calls(s, frames);
    lemma_after_returns(called, k);
}

/// The seventeenth nested call wraps round: it takes the slot of the first
/// call and overwrites the first return address. The seventeenth return then
/// goes where the first one went, to the address from which the seventeenth
/// call was made, and the first return address is lost.
pub proof fn lemma_seventeenth_call_overwrites(s: MachineState, frames: Seq<Frame>)
    requires
        s.well_formed(),
        frames.len() == 17,
    ensures
        after_calls(s, frames).sp == (s.sp + 1) % 16,
        after_calls(s, frames).stack[(s.sp + 1) % 16] == frames[16].from,
        after_returns(after_calls(s, frames), 17).pc == frames[16].from,
{
    let inner = frames.drop_last();
    lemma_after_calls(s, inner);
    let before = after_calls(s, inner);
    let called = after_calls(s, frames);
    assert(called == before.jump(frames.last().from).call(frames.last().to));
    assert(called.sp == (s.sp + 1) % 16) by {
        lemma_slot_sum(s.sp + 16, 1);
    }
    lemma_after_returns(called, 17);
    assert((called.sp - 17 + 1) % 16 == (s.sp + 1) % 16) by {
        lemma_slot_sum(s.sp + 1, -16);
    }
}

/// A word that names no instruction fails with `UnknownOpcode` and the word,
/// whatever the state. (That the machine is then left as it was is part of
/// what `execute` and `step` ensure.)
pub proof fn lemma_unknown_opcode_fails(
    s: MachineState,
    opcode: u16,
    keys: KeypadState,
    random: u8,
)
    requires
        decode_spec(opcode) is Err,
    ensures
        s.execute(opcode, keys, random) == Err::<MachineState, Chip8Error>(
            Chip8Error::UnknownOpcode { opcode },
        ),
{
    lemma_unknown_opcodes(opcode);
}

/// The random byte plays a part in `Cxkk` only.
pub proof fn lemma_random_byte_only_in_random(
    s: MachineState,
    opcode: u16,
    keys: KeypadState,
    b1: u8,
    b2: u8,
)
    requires
        !(decode_spec(opcode) matches Ok(Instruction::Random { .. })),
    ensures
        s.execute(opcode, keys, b1) == s.execute(opcode, keys, b2),
{
}

/// Whatever `Cxkk` draws, `Vx` has no bit outside the mask afterwards.
pub proof fn lemma_random_within_mask(s: MachineState, x: u8, byte: u8, random: u8)
    requires
        s.well_formed(),
        x < 16,
    ensures
        s.random(x, byte, random).v[x as int] & !byte == 0,
{
    assert((random & byte) & !byte == 0) by (bit_vector);
}

/// Whether an instruction sets the program counter itself or may skip.
pub open spec fn moves_counter(instr: Instruction) -> bool {
    match instr {
        Instruction::Return
        | Instruction::Jump { .. }
        | Instruction::Call { .. }
        | Instruction::JumpOffset { .. }
        | Instruction::SkipEqual { .. }
        | Instruction::SkipNotEqual { .. }
        | Instruction::SkipRegistersEqual { .. }
        | Instruction::SkipRegistersNotEqual { .. }
        | Instruction::SkipKeyPressed { .. }
        | Instruction::SkipKeyNotPressed { .. } => true,
        _ => false,
    }
}

/// Whether an instruction is one of the six skips.
pub open spec fn is_skip(instr: Instruction) -> bool {
    match instr {
        Instruction::SkipEqual { .. }
        | Instruction::SkipNotEqual { .. }
        | Instruction::SkipRegistersEqual { .. }
        | Instruction::SkipRegistersNotEqual { .. }
        | Instruction::SkipKeyPressed { .. }
        | Instruction::SkipKeyNotPressed { .. } => true,
        _ => false,
    }
}

/// Whether an instruction is a skip whose condition holds in the state `s`.
pub open spec fn skip_taken(s: MachineState, instr: Instruction, keys: KeypadState) -> bool {
    match instr {
        Instruction::SkipEqual { x, byte } => s.v[x as int] == byte,
        Instruction::SkipNotEqual { x, byte } => s.v[x as int] != byte,
        Instruction::SkipRegistersEqual { x, y } => s.v[x as int] == s.v[y as int],
        Instruction::SkipRegistersNotEqual { x, y } => s.v[x as int] != s.v[y as int],
        Instruction::SkipKeyPressed { x } => keys.is_held(s.v[x as int]),
        Instruction::SkipKeyNotPressed { x } => !keys.is_held(s.v[x as int]),
        _ => false,
    }
}

/// An instruction that is not a jump, a call, a return or a skip leaves the
/// program counter alone, and so does a skip that is not taken. A skip that
/// is taken moves it on by one instruction.
pub proof fn lemma_perform_moves_counter(
    s: MachineState,
    instr: Instruction,
    keys: KeypadState,
    random: u8,
)
    requires
        s.perform(instr, keys, random) is Ok,
    ensures
        ({
            let after = s.perform(instr, keys, random).unwrap();
            &&& !moves_counter(instr) ==> after.pc == s.pc
            &&& skip_taken(s, instr, keys) ==> after.pc == next_pc(s.pc)
            &&& is_skip(instr) && !skip_taken(s, instr, keys) ==> after.pc == s.pc
        }),
{
}

/// What `lemma_step_moves_counter` says, of an instruction that is given
/// rather than decoded.
proof fn lemma_fetched_moves_counter(
    s: MachineState,
    instr: Instruction,
    keys: KeypadState,
    random: u8,
)
    requires
        s.pc + 2 <= 0x1000,
        s.fetched().perform(instr, keys, random) is Ok,
    ensures
        ({
            let after = s.fetched().perform(instr, keys, random).unwrap();
            &&& !moves_counter(instr) ==> after.pc == s.pc + 2
            &&& skip_taken(s, instr, keys) ==> after.pc == s.pc + 4
            &&& is_skip(instr) && !skip_taken(s, instr, keys) ==> after.pc == s.pc + 2
        }),
{
    assert(s.fetched().pc == s.pc + 2);
    assert(next_pc(s.fetched().pc) == s.pc + 4);
    assert(skip_taken(s.fetched(), instr, keys) == skip_taken(s, instr, keys));
    lemma_perform_moves_counter(s.fetched(), instr, keys, random);
}

/// A step of a running machine leaves the program counter two bytes further
/// on, unless the instruction is a jump, a call, a return or a skip. A skip
/// that is taken leaves it four bytes further on, one that is not taken two.
pub proof fn lemma_step_moves_counter(s: MachineState, keys: KeypadState, random: u8)
    requires
        s.waiting is None,
        s.step(keys, random) is Ok,
    ensures
        ({
            let instr = decode_spec(s.fetch().unwrap()).unwrap();
            let after = s.step(keys, random).unwrap();
            &&& !moves_counter(instr) ==> after.pc == s.pc + 2
            &&& skip_taken(s, instr, keys) ==> after.pc == s.pc + 4
            &&& is_skip(instr) && !skip_taken(s, instr, keys) ==> after.pc == s.pc + 2
        }),
{
    let opcode = s.fetch().unwrap();
    let decoded = decode_spec(opcode);
    assert(s.fetch() is Ok);
    assert(s.step(keys, random) == s.fetched().execute(opcode, keys, random));
    assert(decoded is Ok);
    assert(s.step(keys, random) == s.fetched().perform(decoded.unwrap(), keys, random));
    lemma_fetched_moves_counter(s, decoded.unwrap(), keys, random);
}

/// A suspended machine performs no instruction: without a key press a step
/// changes nothing, and with one it changes the waiting register and nothing
/// else, and the machine runs again.
pub proof fn lemma_suspended_step(s: MachineState, x: u8, keys: KeypadState, random: u8)
    requires
        s.waiting == Some(x),
    ensures
        keys.pressed is None ==> s.step(keys, random) == Ok::<MachineState, Chip8Error>(s),
        keys.pressed matches Some(key) ==> s.step(keys, random) == Ok::<
            MachineState,
            Chip8Error,
        >(MachineState { v: s.v.update(x as int, key), waiting: None, ..s }),
{
}

/// Every instruction takes a well formed state to a well formed state.
pub proof fn lemma_perform_keeps_well_formed(
    s: MachineState,
    instr: Instruction,
    keys: KeypadState,
    random: u8,
)
    requires
        s.well_formed(),
        instr.well_formed(),
        keys.well_formed(),
    ensures
        s.perform(instr, keys, random) matches Ok(after) ==> after.well_formed(),
{
}

/// The ticks of the timers and the steps of the machine do not get in each
/// other's way: a tick changes the two timers and nothing else.
pub proof fn lemma_tick_changes_timers_only(s: MachineState)
    ensures
        s.tick() == (MachineState { delay: s.tick().delay, sound: s.tick().sound, ..s }),
        s.tick().delay <= s.delay,
        s.tick().sound <= s.sound,
        s.tick().tone() ==> s.tone(),
{
}

/// Drawing the same sprite twice at the same place leaves the display as it
/// was. The second draw reports a collision exactly when the first one had
/// turned a pixel on. The registers that give the place must not be `VF`,
/// which the first draw overwrites.
pub proof fn lemma_draw_twice(s: MachineState, x: u8, y: u8, rows: u8)
    requires
        s.well_formed(),
        x < 15,
        y < 15,
        rows < 16,
        s.draw(x, y, rows) is Ok,
    ensures
        ({
            let once = s.draw(x, y, rows).unwrap();
            let sprite = s.sprite(rows);
            let (ox, oy) = (s.v[x as int] as int, s.v[y as int] as int);
            &&& once.draw(x, y, rows) matches Ok(twice)
            &&& twice.display == s.display
            &&& twice.v[FLAG_REGISTER as int] == flag(
                exists|k: int|
                    0 <= k < DISPLAY_PIXELS && !s.display[k] && #[trigger] covers(sprite, ox, oy, k),
            )
            &&& twice == (MachineState { v: twice.v, ..s })
        }),
{
    let once = s.draw(x, y, rows).unwrap();
    let sprite = s.sprite(rows);
    let (ox, oy) = (s.v[x as int] as int, s.v[y as int] as int);
    assert(once.sprite(rows) == sprite);
    lemma_draw_twice_restores(s.display, sprite, ox, oy);
    lemma_second_draw_collides(s.display, sprite, ox, oy);
}

/// On a blank display, a sprite with at least one set bit that is drawn twice
/// at the same place is gone again, and the second draw sets `VF` to 1.
pub proof fn lemma_draw_twice_on_blank(s: MachineState, x: u8, y: u8, rows: u8)
    requires
        s.well_formed(),
        s.display == blank_display(),
        x < 15,
        y < 15,
        rows < 16,
        s.draw(x, y, rows) is Ok,
        has_set_bit(s.sprite(rows)),
    ensures
        ({
            let once = s.draw(x, y, rows).unwrap();
            &&& once.v[FLAG_REGISTER as int] == 0
            &&& once.draw(x, y, rows) matches Ok(twice)
            &&& twice.display == blank_display()
            &&& twice.v[FLAG_REGISTER as int] == 1
        }),
{
    let once = s.draw(x, y, rows).unwrap();
    let sprite = s.sprite(rows);
    let (ox, oy) = (s.v[x as int] as int, s.v[y as int] as int);
    assert(once.sprite(rows) == sprite);
    lemma_redraw_on_blank(sprite, ox, oy);
}

/// The carry of `8xy4` and the sum it leaves make up the true sum, where
/// neither operand is `VF`.
pub proof fn lemma_add_carry(s: MachineState, x: u8, y: u8)
    requires
        s.well_formed(),
        x < 15,
        y < 15,
    ensures
        ({
            let after = s.add_registers(x, y);
            after.v[x as int] + 256 * after.v[FLAG_REGISTER as int] == s.v[x as int] + s.v[y as int]
        }),
{
}

/// The three digits that `Fx33` stores are decimal digits, and they make up
/// the value of `Vx`.
pub proof fn lemma_bcd_digits(s: MachineState, x: u8)
    requires
        s.well_formed(),
        x < 16,
        s.store_bcd(x) is Ok,
    ensures
        ({
            let m = s.store_bcd(x).unwrap().memory;
            let i = s.i as int;
            &&& m[i] < 10 && m[i + 1] < 10 && m[i + 2] < 10
            &&& 100 * m[i] + 10 * m[i + 1] + m[i + 2] == s.v[x as int]
        }),
{
}

} // verus!
