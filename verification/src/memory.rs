use vstd::prelude::*;
use vstd::slice::slice_subrange;

verus! {

/// Memory address where the built-in font sprites are loaded.
pub const FONT_START_ADDRESS: usize = 0x50;

/// Number of bytes in the font table: 16 glyphs of 5 bytes each.
pub const FONT_SET_LEN: usize = 80;

/// Total number of addressable bytes of RAM.
pub const RAM_SIZE: usize = 4096;

/// The built-in font: one 8x5 sprite for each hexadecimal digit 0-F,
/// five bytes per glyph, one byte per row.
pub open spec fn font_seq() -> Seq<u8> {
    seq![
        0xF0u8, 0x90, 0x90, 0x90, 0xF0, // 0
        0x20, 0x60, 0x20, 0x20, 0x70, // 1
        0xF0, 0x10, 0xF0, 0x80, 0xF0, // 2
        0xF0, 0x10, 0xF0, 0x10, 0xF0, // 3
        0x90, 0x90, 0xF0, 0x10, 0x10, // 4
        0xF0, 0x80, 0xF0, 0x10, 0xF0, // 5
        0xF0, 0x80, 0xF0, 0x90, 0xF0, // 6
        0xF0, 0x10, 0x20, 0x40, 0x40, // 7
        0xF0, 0x90, 0xF0, 0x90, 0xF0, // 8
        0xF0, 0x90, 0xF0, 0x10, 0xF0, // 9
        0xF0, 0x90, 0xF0, 0x90, 0x90, // A
        0xE0, 0x90, 0xE0, 0x90, 0xE0, // B
        0xF0, 0x80, 0x80, 0x80, 0xF0, // C
        0xE0, 0x90, 0x90, 0x90, 0xE0, // D
        0xF0, 0x80, 0xF0, 0x80, 0xF0, // E
        0xF0, 0x80, 0xF0, 0x80, 0x80, // F
    ]
}

/// Memory contents right after construction or reset: all zeroes except
/// for the font table, which sits at `FONT_START_ADDRESS`.
pub open spec fn mem_init() -> Seq<u8> {
    Seq::new(
        RAM_SIZE as nat,
        |a: int|
            if FONT_START_ADDRESS <= a < FONT_START_ADDRESS + FONT_SET_LEN {
                font_seq()[a - FONT_START_ADDRESS]
            } else {
                0u8
            },
    )
}

/// The CHIP-8's 4KB of RAM.
///
/// The memory map is:
/// - `0x000-0x1FF`: reserved for the interpreter (holds the font set),
/// - `0x050-0x09F`: the built-in font set for digits 0-F,
/// - `0x200-0xFFF`: program ROM and work RAM.
pub struct Memory {
    ram: Vec<u8>,
}

/// Failures of the raw memory store.
#[derive(Debug)]
pub enum MemoryError {
    /// An internal invariant was broken; carries a description.
    Unrecoverable(String),
    /// A read or write fell outside the fixed 4096-byte capacity.
    OutOfMemory,
}

impl View for Memory {
    type V = Seq<u8>;

    closed spec fn view(&self) -> Seq<u8> {
        self.ram@
    }
}

impl Memory {
    /// The capacity never changes after construction.
    pub open spec fn inv(&self) -> bool {
        self@.len() == RAM_SIZE
    }

    /// Creates a zeroed memory with the font set loaded at its fixed offset.
    pub fn try_new() -> (r: Result<Memory, MemoryError>)
        ensures
            r matches Ok(m) && m@ == mem_init() && m.inv(),
    {
        let ram: Vec<u8> = vec![0u8; RAM_SIZE];
        proof {
            assert forall|k: int| 0 <= k < RAM_SIZE implies ram@[k] == 0u8 by {
                assert(cloned(0u8, ram@[k]));
            }
        }
        let mut mem = Memory { ram };
        match mem.load_font() {
            Ok(()) => {
                proof {
                    assert(mem@ =~= mem_init());
                }
                Ok(mem)
            },
            Err(e) => Err(e),
        }
    }

    /// Reads a single byte; `None` when the address is out of bounds.
    pub fn read_byte(&self, address: usize) -> (r: Option<u8>)
        ensures
            address < self@.len() ==> r == Some(self@[address as int]),
            address >= self@.len() ==> r is None,
    {
        if address < self.ram.len() {
            Some(self.ram[address])
        } else {
            None
        }
    }

    /// Reads a big-endian 16-bit word: the byte at `address` is the high
    /// byte. `None` when the two bytes are not both in bounds.
    pub fn read_word(&self, address: usize) -> (r: Option<u16>)
        ensures
            address + 2 <= self@.len() ==> r == Some(word_at(self@, address as int)),
            address + 2 > self@.len() ==> r is None,
    {
        if address < self.ram.len() && address + 1 < self.ram.len() {
            let hi = self.ram[address];
            let lo = self.ram[address + 1];
            Some((hi as u16) * 256 + (lo as u16))
        } else {
            None
        }
    }

    /// Writes a single byte; fails without touching memory when the address
    /// is out of bounds.
    pub fn write_byte(&mut self, address: usize, value: u8) -> (r: Result<(), MemoryError>)
        ensures
            address < old(self)@.len() ==> r is Ok && final(self)@ == old(self)@.update(
                address as int,
                value,
            ),
            address >= old(self)@.len() ==> (r matches Err(MemoryError::OutOfMemory)
                && final(self)@ == old(self)@),
            final(self)@.len() == old(self)@.len(),
    {
        if address >= self.ram.len() {
            return Err(MemoryError::OutOfMemory);
        }
        self.ram[address] = value;
        Ok(())
    }

    /// Writes a whole slice starting at `offset`. The write is atomic:
    /// either every byte fits and all are written, or memory is unchanged.
    pub fn write_at(&mut self, buf: &[u8], offset: usize) -> (r: Result<(), MemoryError>)
        ensures
            offset + buf@.len() <= old(self)@.len() ==> r is Ok,
            offset + buf@.len() > old(self)@.len() ==> r matches Err(MemoryError::OutOfMemory),
            r is Ok ==> final(self)@ == write_range(old(self)@, offset as int, buf@),
            r is Err ==> final(self)@ == old(self)@,
            final(self)@.len() == old(self)@.len(),
    {
        if offset > self.ram.len() || buf.len() > self.ram.len() - offset {
            return Err(MemoryError::OutOfMemory);
        }
        let mut k: usize = 0;
        while k < buf.len()
            invariant
                k <= buf@.len(),
                offset + buf@.len() <= old(self)@.len(),
                offset + buf@.len() <= usize::MAX,
                self@.len() == old(self)@.len(),
                forall|a: int|
                    0 <= a < self@.len() ==> self@[a] == if offset <= a < offset + k {
                        buf@[a - offset]
                    } else {
                        old(self)@[a]
                    },
            decreases buf@.len() - k,
        {
            self.ram[offset + k] = buf[k];
            k = k + 1;
        }
        proof {
            assert(self@ =~= write_range(old(self)@, offset as int, buf@));
        }
        Ok(())
    }

    /// Borrows the bytes in `start..end`; `None` when the range does not
    /// lie inside memory.
    pub fn get(&self, start: usize, end: usize) -> (r: Option<&[u8]>)
        ensures
            start <= end <= self@.len() ==> (r matches Some(s) && s@ == self@.subrange(
                start as int,
                end as int,
            )),
            !(start <= end <= self@.len()) ==> r is None,
    {
        if start <= end && end <= self.ram.len() {
            Some(slice_subrange(self.ram.as_slice(), start, end))
        } else {
            None
        }
    }

    /// Loads the font set at its fixed offset.
    fn load_font(&mut self) -> (r: Result<(), MemoryError>)
        requires
            old(self).inv(),
        ensures
            r is Ok,
            final(self)@ == write_range(old(self)@, FONT_START_ADDRESS as int, font_seq()),
    {
        let font: Vec<u8> = font_table();
        self.write_at(font.as_slice(), FONT_START_ADDRESS)
    }

    /// The fixed capacity in bytes.
    pub fn size(&self) -> (r: usize)
        ensures
            r == RAM_SIZE,
    {
        RAM_SIZE
    }

    /// Whether `address` is inside the fixed capacity.
    pub fn is_valid_address(&self, address: usize) -> (r: bool)
        ensures
            r == (address < RAM_SIZE),
    {
        address < RAM_SIZE
    }
}

/// A 16-bit big-endian word read out of two consecutive memory bytes.
pub open spec fn word_at(mem: Seq<u8>, a: int) -> u16 {
    ((mem[a] as u16) * 256 + (mem[a + 1] as u16)) as u16
}

/// `base` with the bytes of `buf` laid over it starting at `offset`.
pub open spec fn write_range(base: Seq<u8>, offset: int, buf: Seq<u8>) -> Seq<u8> {
    Seq::new(
        base.len(),
        |a: int|
            if offset <= a < offset + buf.len() {
                buf[a - offset]
            } else {
                base[a]
            },
    )
}

/// The executable copy of the font table.
fn font_table() -> (r: Vec<u8>)
    ensures
        r@ == font_seq(),
        r@.len() == FONT_SET_LEN,
{
    let r: Vec<u8> = vec![
        0xF0u8, 0x90, 0x90, 0x90, 0xF0, // 0
        0x20, 0x60, 0x20, 0x20, 0x70, // 1
        0xF0, 0x10, 0xF0, 0x80, 0xF0, // 2
        0xF0, 0x10, 0xF0, 0x10, 0xF0, // 3
        0x90, 0x90, 0xF0, 0x10, 0x10, // 4
        0xF0, 0x80, 0xF0, 0x10, 0xF0, // 5
        0xF0, 0x80, 0xF0, 0x90, 0xF0, // 6
        0xF0, 0x10, 0x20, 0x40, 0x40, // 7
        0xF0, 0x90, 0xF0, 0x90, 0xF0, // 8
        0xF0, 0x90, 0xF0, 0x10, 0xF0, // 9
        0xF0, 0x90, 0xF0, 0x90, 0x90, // A
        0xE0, 0x90, 0xE0, 0x90, 0xE0, // B
        0xF0, 0x80, 0x80, 0x80, 0xF0, // C
        0xE0, 0x90, 0x90, 0x90, 0xE0, // D
        0xF0, 0x80, 0xF0, 0x80, 0xF0, // E
        0xF0, 0x80, 0xF0, 0x80, 0x80, // F
    ];
    proof {
        assert(r@ =~= font_seq());
    }
    r
}

} // verus!
