//! The machine's memory: 4096 bytes, of which the first 512 are reserved.
//!
//! ```text
//! 0x000 ..= 0x04F   the sixteen glyphs of the built-in font, five bytes each
//! 0x050 ..= 0x1FF   reserved, zero
//! 0x200 ..= 0xFFF   program and data
//! ```
//!
//! Every address below `0x1000` can be read, the font included, because
//! programs draw its glyphs. Only the program region can be written.

use vstd::prelude::*;
use crate::error::Chip8Error;

verus! {

/// The number of bytes of memory.
pub const MEMORY_SIZE: usize = 0x1000;

/// The first address of the program region.
pub const PROGRAM_START: usize = 0x200;

/// The number of bytes in one glyph of the font.
pub const GLYPH_SIZE: usize = 5;

/// The number of bytes in the whole font.
pub const FONT_SIZE: usize = 80;

/// The font: the glyphs of the hexadecimal digits `0` to `F`, in order, one
/// byte per row of pixels.
pub open spec fn font_data() -> Seq<u8> {
    seq![
        0xF0u8, 0x90u8, 0x90u8, 0x90u8, 0xF0u8,
        0x20u8, 0x60u8, 0x20u8, 0x20u8, 0x70u8,
        0xF0u8, 0x10u8, 0xF0u8, 0x80u8, 0xF0u8,
        0xF0u8, 0x10u8, 0xF0u8, 0x10u8, 0xF0u8,
        0x90u8, 0x90u8, 0xF0u8, 0x10u8, 0x10u8,
        0xF0u8, 0x80u8, 0xF0u8, 0x10u8, 0xF0u8,
        0xF0u8, 0x80u8, 0xF0u8, 0x90u8, 0xF0u8,
        0xF0u8, 0x10u8, 0x20u8, 0x40u8, 0x40u8,
        0xF0u8, 0x90u8, 0xF0u8, 0x90u8, 0xF0u8,
        0xF0u8, 0x90u8, 0xF0u8, 0x10u8, 0xF0u8,
        0xF0u8, 0x90u8, 0xF0u8, 0x90u8, 0x90u8,
        0xE0u8, 0x90u8, 0xE0u8, 0x90u8, 0xE0u8,
        0xF0u8, 0x80u8, 0x80u8, 0x80u8, 0xF0u8,
        0xE0u8, 0x90u8, 0x90u8, 0x90u8, 0xE0u8,
        0xF0u8, 0x80u8, 0xF0u8, 0x80u8, 0xF0u8,
        0xF0u8, 0x80u8, 0xF0u8, 0x80u8, 0x80u8,
    ]
}

/// Memory as it is when the machine is built: the font at address 0, zero
/// everywhere else.
pub open spec fn initial_memory() -> Seq<u8> {
    Seq::new(MEMORY_SIZE as nat, |a: int| if a < FONT_SIZE { font_data()[a] } else { 0u8 })
}

/// Whether `addr` exists.
pub open spec fn readable(addr: int) -> bool {
    0 <= addr < MEMORY_SIZE
}

/// Whether `addr` lies in the program region.
pub open spec fn writable(addr: int) -> bool {
    PROGRAM_START <= addr < MEMORY_SIZE
}

/// What reading `addr` from the bytes `m` gives.
pub open spec fn read_spec(m: Seq<u8>, addr: usize) -> Result<u8, Chip8Error> {
    if readable(addr as int) {
        Ok(m[addr as int])
    } else {
        Err(Chip8Error::OutOfBounds { addr })
    }
}

/// What writing `value` to `addr` makes of the bytes `m`.
pub open spec fn write_spec(m: Seq<u8>, addr: usize, value: u8) -> Result<Seq<u8>, Chip8Error> {
    if writable(addr as int) {
        Ok(m.update(addr as int, value))
    } else {
        Err(Chip8Error::OutOfBounds { addr })
    }
}

/// The first address at which reading `count` bytes upwards from `start`
/// fails, or `None` if every one of them can be read.
pub open spec fn first_unreadable(start: usize, count: int) -> Option<usize> {
    if count > 0 && start + count > MEMORY_SIZE {
        Some(
            if start >= MEMORY_SIZE {
                start
            } else {
                MEMORY_SIZE
            },
        )
    } else {
        None
    }
}

/// The first address at which writing `count` bytes upwards from `start`
/// fails, or `None` if every one of them can be written.
pub open spec fn first_unwritable(start: usize, count: int) -> Option<usize> {
    if count <= 0 {
        None
    } else if start < PROGRAM_START {
        Some(start)
    } else {
        first_unreadable(start, count)
    }
}

/// The bytes of the font.
fn glyphs() -> (font: [u8; 80])
    ensures
        font@ == font_data(),
{
    let font: [u8; 80] = [
        0xF0, 0x90, 0x90, 0x90, 0xF0,
        0x20, 0x60, 0x20, 0x20, 0x70,
        0xF0, 0x10, 0xF0, 0x80, 0xF0,
        0xF0, 0x10, 0xF0, 0x10, 0xF0,
        0x90, 0x90, 0xF0, 0x10, 0x10,
        0xF0, 0x80, 0xF0, 0x10, 0xF0,
        0xF0, 0x80, 0xF0, 0x90, 0xF0,
        0xF0, 0x10, 0x20, 0x40, 0x40,
        0xF0, 0x90, 0xF0, 0x90, 0xF0,
        0xF0, 0x90, 0xF0, 0x10, 0xF0,
        0xF0, 0x90, 0xF0, 0x90, 0x90,
        0xE0, 0x90, 0xE0, 0x90, 0xE0,
        0xF0, 0x80, 0x80, 0x80, 0xF0,
        0xE0, 0x90, 0x90, 0x90, 0xE0,
        0xF0, 0x80, 0xF0, 0x80, 0xF0,
        0xF0, 0x80, 0xF0, 0x80, 0x80,
    ];
    assert(font@ =~= font_data());
    font
}

/// The 4096 bytes of the machine.
#[derive(Debug)]
pub struct Memory {
    data: [u8; 4096],
}

impl Memory {
    /// The bytes, by address.
    pub closed spec fn view(&self) -> Seq<u8> {
        self.data@
    }

    /// There are always exactly `MEMORY_SIZE` bytes.
    pub broadcast proof fn lemma_size(&self)
        ensures
            #![trigger self@]
            self@.len() == MEMORY_SIZE,
    {
    }

    /// Memory with the font in place and nothing else.
    pub fn new() -> (m: Memory)
        ensures
            m@ == initial_memory(),
    {
        let font = glyphs();
        let mut data: [u8; 4096] = [0u8; 4096];
        let mut i: usize = 0;
        while i < FONT_SIZE
            invariant
                i <= FONT_SIZE,
                font@ == font_data(),
                forall|a: int| 0 <= a < i ==> data@[a] == font_data()[a],
                forall|a: int| i <= a < MEMORY_SIZE ==> data@[a] == 0u8,
            decreases FONT_SIZE - i,
        {
            data[i] = font[i];
            i = i + 1;
        }
        assert(data@ =~= initial_memory());
        Memory { data }
    }

    /// Reads the byte at `addr`. Any address that exists can be read.
    pub fn address(&self, addr: usize) -> (r: Result<u8, Chip8Error>)
        ensures
            r == read_spec(self@, addr),
    {
        if addr < MEMORY_SIZE {
            Ok(self.data[addr])
        } else {
            Err(Chip8Error::OutOfBounds { addr })
        }
    }

    /// Writes `value` at `addr`. Only the program region can be written; on
    /// any other address nothing changes.
    pub fn assign(&mut self, addr: usize, value: u8) -> (r: Result<(), Chip8Error>)
        ensures
            match write_spec(old(self)@, addr, value) {
                Ok(m) => r == Ok::<(), Chip8Error>(()) && final(self)@ == m,
                Err(e) => r == Err::<(), Chip8Error>(e) && final(self)@ == old(self)@,
            },
        no_unwind
    {
        if addr >= PROGRAM_START && addr < MEMORY_SIZE {
            self.data[addr] = value;
            Ok(())
        } else {
            Err(Chip8Error::OutOfBounds { addr })
        }
    }
}

/// A byte written to the program region is the byte read back from the same
/// address.
pub proof fn lemma_write_then_read(m: Seq<u8>, addr: usize, value: u8)
    requires
        m.len() == MEMORY_SIZE,
        writable(addr as int),
    ensures
        write_spec(m, addr, value) is Ok,
        read_spec(write_spec(m, addr, value).unwrap(), addr) == Ok::<u8, Chip8Error>(value),
{
}

/// A write touches one byte: every other address reads as before.
pub proof fn lemma_write_is_local(m: Seq<u8>, addr: usize, value: u8, other: usize)
    requires
        m.len() == MEMORY_SIZE,
        writable(addr as int),
        other != addr,
    ensures
        read_spec(write_spec(m, addr, value).unwrap(), other) == read_spec(m, other),
{
}

/// Outside the program region every write is refused, and the error names the
/// address.
pub proof fn lemma_write_outside_fails(m: Seq<u8>, addr: usize, value: u8)
    requires
        !writable(addr as int),
    ensures
        write_spec(m, addr, value) == Err::<Seq<u8>, Chip8Error>(
            Chip8Error::OutOfBounds { addr },
        ),
{
}

/// Every byte of the font can be read, and reads as the font's byte.
pub proof fn lemma_font_readable(addr: usize)
    requires
        addr < FONT_SIZE,
    ensures
        read_spec(initial_memory(), addr) == Ok::<u8, Chip8Error>(font_data()[addr as int]),
{
}

/// `first_unreadable` is what its name says: `None` when the whole block can
/// be read, and otherwise the lowest address of the block that cannot.
pub proof fn lemma_first_unreadable(start: usize, count: int)
    requires
        0 <= count,
    ensures
        first_unreadable(start, count) is None <==> forall|a: int|
            start <= a < start + count ==> readable(a),
        first_unreadable(start, count) matches Some(bad) ==> {
            &&& start <= bad < start + count
            &&& !readable(bad as int)
            &&& forall|a: int| start <= a < bad ==> readable(a)
        },
{
    if first_unreadable(start, count) is None && count > 0 {
        assert forall|a: int| start <= a < start + count implies readable(a) by {}
    }
    if first_unreadable(start, count) is Some {
        let bad = first_unreadable(start, count).unwrap() as int;
        assert(!readable(bad));
    }
}

/// `first_unwritable` is what its name says: `None` when the whole block can
/// be written, and otherwise the lowest address of the block that cannot.
pub proof fn lemma_first_unwritable(start: usize, count: int)
    requires
        0 <= count,
    ensures
        first_unwritable(start, count) is None <==> forall|a: int|
            start <= a < start + count ==> writable(a),
        first_unwritable(start, count) matches Some(bad) ==> {
            &&& start <= bad < start + count
            &&& !writable(bad as int)
            &&& forall|a: int| start <= a < bad ==> writable(a)
        },
{
    if first_unwritable(start, count) is Some {
        let bad = first_unwritable(start, count).unwrap() as int;
        assert(!writable(bad));
    }
}

} // verus!
