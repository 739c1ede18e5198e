//! A verified CHIP-8 virtual machine core.
//!
//! The crate implements the canonical 35-instruction CHIP-8 set: 4KB of
//! byte-addressable memory with a built-in font table, sixteen 8-bit
//! registers, a 16-level call stack, a 64x32 monochrome framebuffer, a
//! 16-key keypad, and two 8-bit countdown timers. Every operation is a
//! pure state transition with a contract; pacing, rendering, audio and
//! input mapping belong to the embedding application.
//!
//! Each call to [`Chip8::run`] performs exactly one fetch-decode-execute
//! cycle. The two timers are decremented only by [`Chip8::tick_timers`],
//! which the embedding application must invoke at 60Hz.

pub mod arithmetic;
pub mod dispatch;
pub mod display;
pub mod flow_control;
pub mod input;
pub mod instruction;
pub mod laws;
pub mod mem_ops;
pub mod memory;
pub mod semantics;

use vstd::prelude::*;

use crate::instruction::Instruction;
use crate::memory::{write_range, Memory, MemoryError};
use crate::semantics::Chip8View;

verus! {

/// Memory address where programs are loaded.
pub const ROM_START_ADDRESS: usize = 0x200;

/// Width of the monochrome display in pixels.
pub const FRAMEBUFFER_WIDTH: usize = 64;

/// Height of the monochrome display in pixels.
pub const FRAMEBUFFER_HEIGHT: usize = 32;

/// The display width, for an embedding application sizing a window.
pub fn framebuffer_width() -> (r: usize)
    ensures
        r == FRAMEBUFFER_WIDTH,
{
    FRAMEBUFFER_WIDTH
}

/// The display height, for an embedding application sizing a window.
pub fn framebuffer_height() -> (r: usize)
    ensures
        r == FRAMEBUFFER_HEIGHT,
{
    FRAMEBUFFER_HEIGHT
}

/// The CHIP-8 virtual machine: memory, registers, timers, call stack,
/// framebuffer and keyboard state.
///
/// The fields are public so that an embedding application (or a test
/// harness) can inspect and prepare machine state directly; the verified
/// operations require and preserve [`Chip8View::wf`].
pub struct Chip8 {
    /// The 4KB RAM, with the font table loaded at its fixed offset.
    pub memory: Memory,
    /// Sixteen general purpose 8-bit registers V0-VF. VF doubles as the
    /// flag output of the arithmetic, shift and draw instructions.
    pub registers: Vec<u8>,
    /// The 16-bit index register I; instructions treat only its low 12
    /// bits as meaningful but it wraps as a full 16-bit value.
    pub i: u16,
    /// The program counter.
    pub pc: u16,
    /// The stack pointer: the number of occupied stack slots (0-16).
    pub sp: u8,
    /// The 16-level call stack.
    pub stack: Vec<u16>,
    /// The delay timer.
    pub dt: u8,
    /// The sound timer.
    pub st: u8,
    /// The 64x32 framebuffer, row-major, one byte per pixel (0 or 1).
    pub framebuffer: Vec<u8>,
    /// One flag per key of the 16-key keypad: nonzero means pressed.
    pub keyboard: Vec<u8>,
    /// Set by every instruction that mutates the framebuffer; cleared
    /// only by the consumer through `clear_display_updated_flag`.
    pub display_updated: bool,
}

/// The possible failures of the CHIP-8 core.
#[derive(Debug)]
pub enum Chip8Error {
    /// A raw memory operation failed (ROM too large, range write out of
    /// bounds).
    MemoryError(MemoryError),
    /// The program counter points where a full 2-byte instruction cannot
    /// be fetched; carries the offending program counter.
    PCError(u16),
    /// No dispatch arm matches the decoded instruction; carries the
    /// decoded fields.
    InvalidOpCode(Instruction),
    /// The stack pointer is outside its valid range; carries the pointer.
    SPError(u8),
    /// A stack push or pop would overflow or underflow; carries the
    /// pointer.
    SPOverflow(u8),
    /// A computed pixel index fell outside the framebuffer.
    FrameBufferOverflow(usize),
    /// The index register points at memory that an instruction cannot
    /// use; carries the register value.
    IndexError(u16),
    /// An instruction referenced a register outside V0-VF.
    InvalidRegister(usize),
    /// An instruction referenced a keyboard key outside 0-15.
    InvalidKey(u8),
}

impl View for Chip8 {
    type V = Chip8View;

    open spec fn view(&self) -> Chip8View {
        Chip8View {
            mem: self.memory@,
            regs: self.registers@,
            i: self.i,
            pc: self.pc,
            sp: self.sp,
            stack: self.stack@,
            dt: self.dt,
            st: self.st,
            fb: self.framebuffer@,
            keys: self.keyboard@,
            updated: self.display_updated,
        }
    }
}

/// A vector of `n` zero bytes.
pub(crate) fn zeroed_bytes(n: usize) -> (r: Vec<u8>)
    ensures
        r@ == Seq::new(n as nat, |k: int| 0u8),
{
    let r: Vec<u8> = vec![0u8; n];
    proof {
        assert forall|k: int| 0 <= k < n implies r@[k] == 0u8 by {
            assert(cloned(0u8, r@[k]));
        }
        assert(r@ =~= Seq::new(n as nat, |k: int| 0u8));
    }
    r
}

/// A vector of `n` zero words.
pub(crate) fn zeroed_words(n: usize) -> (r: Vec<u16>)
    ensures
        r@ == Seq::new(n as nat, |k: int| 0u16),
{
    let r: Vec<u16> = vec![0u16; n];
    proof {
        assert forall|k: int| 0 <= k < n implies r@[k] == 0u16 by {
            assert(cloned(0u16, r@[k]));
        }
        assert(r@ =~= Seq::new(n as nat, |k: int| 0u16));
    }
    r
}

impl Chip8 {
    /// Creates a machine in its initial configuration: everything zeroed,
    /// the program counter at the program start address, and the font
    /// table loaded.
    pub fn new() -> (r: Result<Self, Chip8Error>)
        ensures
            r matches Ok(c) && c@ == semantics::init_view(),
    {
        let memory = match Memory::try_new() {
            Ok(m) => m,
            Err(e) => {
                return Err(Chip8Error::MemoryError(e));
            },
        };
        let c = Self {
            memory,
            registers: zeroed_bytes(16),
            pc: 0x200,
            sp: 0,
            i: 0,
            stack: zeroed_words(16),
            dt: 0,
            st: 0,
            framebuffer: zeroed_bytes(FRAMEBUFFER_WIDTH * FRAMEBUFFER_HEIGHT),
            keyboard: zeroed_bytes(16),
            display_updated: false,
        };
        proof {
            assert(c@ =~= semantics::init_view());
        }
        Ok(c)
    }

    /// Wipes the machine back to the exact post-construction state:
    /// memory (font reloaded), registers, stack, timers, keyboard and
    /// framebuffer are all reset, whatever state the machine was in.
    /// Because the outcome does not depend on the prior state, resetting
    /// is idempotent ([`laws::lemma_reset_idempotent`]).
    pub fn reset(&mut self) -> (r: Result<(), Chip8Error>)
        ensures
            r is Ok,
            final(self)@ == semantics::reset_view(old(self)@),
    {
        let memory = match Memory::try_new() {
            Ok(m) => m,
            Err(e) => {
                return Err(Chip8Error::MemoryError(e));
            },
        };
        self.memory = memory;
        self.registers = zeroed_bytes(16);
        self.pc = 0x200;
        self.sp = 0;
        self.i = 0;
        self.stack = zeroed_words(16);
        self.dt = 0;
        self.st = 0;
        self.framebuffer = zeroed_bytes(FRAMEBUFFER_WIDTH * FRAMEBUFFER_HEIGHT);
        self.keyboard = zeroed_bytes(16);
        self.display_updated = false;
        proof {
            assert(self@ =~= semantics::init_view());
        }
        Ok(())
    }

    /// Copies a program into memory starting at the program start
    /// address. The write is atomic: a ROM that does not fit leaves
    /// memory untouched and yields a memory error.
    pub fn load_rom(&mut self, rom: &[u8]) -> (r: Result<(), Chip8Error>)
        ensures
            ROM_START_ADDRESS + rom@.len() <= old(self)@.mem.len() ==> r is Ok && final(self)@
                == (Chip8View {
                mem: write_range(old(self)@.mem, ROM_START_ADDRESS as int, rom@),
                ..old(self)@
            }),
            ROM_START_ADDRESS + rom@.len() > old(self)@.mem.len() ==> (r matches Err(
                Chip8Error::MemoryError(MemoryError::OutOfMemory),
            ) && final(self)@ == old(self)@),
    {
        match self.memory.write_at(rom, ROM_START_ADDRESS) {
            Ok(()) => Ok(()),
            Err(e) => Err(Chip8Error::MemoryError(e)),
        }
    }

    /// A read-only borrow of the framebuffer: 64x32 bytes in row-major
    /// order, one byte per pixel, `1` for a lit pixel.
    pub fn framebuffer(&self) -> (r: &[u8])
        ensures
            r@ == self@.fb,
    {
        self.framebuffer.as_slice()
    }

    /// Whether an instruction has mutated the display since the flag was
    /// last cleared.
    pub fn is_display_updated(&self) -> (r: bool)
        ensures
            r == self@.updated,
    {
        self.display_updated
    }

    /// Clears the display-updated flag; everything else is untouched.
    pub fn clear_display_updated_flag(&mut self)
        ensures
            final(self)@ == (Chip8View { updated: false, ..old(self)@ }),
    {
        self.display_updated = false;
    }

    /// Marks the key with the given index as pressed. Indices outside
    /// 0-15 are silently ignored.
    pub fn key_press(&mut self, key_index: u8)
        ensures
            key_index < old(self)@.keys.len() ==> final(self)@ == (Chip8View {
                keys: old(self)@.keys.update(key_index as int, 1u8),
                ..old(self)@
            }),
            key_index >= old(self)@.keys.len() ==> final(self)@ == old(self)@,
    {
        if (key_index as usize) < self.keyboard.len() {
            self.keyboard[key_index as usize] = 1;
        }
    }

    /// Marks the key with the given index as released. Indices outside
    /// 0-15 are silently ignored.
    pub fn key_release(&mut self, key_index: u8)
        ensures
            key_index < old(self)@.keys.len() ==> final(self)@ == (Chip8View {
                keys: old(self)@.keys.update(key_index as int, 0u8),
                ..old(self)@
            }),
            key_index >= old(self)@.keys.len() ==> final(self)@ == old(self)@,
    {
        if (key_index as usize) < self.keyboard.len() {
            self.keyboard[key_index as usize] = 0;
        }
    }

    /// Decrements each timer that is nonzero; a timer already at zero
    /// stays at zero. To honour the CHIP-8 timing model the embedding
    /// application must call this at 60Hz; the core never calls it.
    pub fn tick_timers(&mut self)
        ensures
            final(self)@ == (Chip8View {
                dt: if old(self)@.dt > 0 {
                    (old(self)@.dt - 1) as u8
                } else {
                    0u8
                },
                st: if old(self)@.st > 0 {
                    (old(self)@.st - 1) as u8
                } else {
                    0u8
                },
                ..old(self)@
            }),
    {
        if self.dt > 0 {
            self.dt = self.dt - 1;
        }
        if self.st > 0 {
            self.st = self.st - 1;
        }
    }

    /// Whether the sound timer says a beep should be playing.
    pub fn should_beep(&self) -> (r: bool)
        ensures
            r == (self@.st > 0),
    {
        self.st > 0
    }

    /// The current delay timer value.
    pub fn delay_timer(&self) -> (r: u8)
        ensures
            r == self@.dt,
    {
        self.dt
    }

    /// The current sound timer value.
    pub fn sound_timer(&self) -> (r: u8)
        ensures
            r == self@.st,
    {
        self.st
    }

    /// Whether the delay timer has counted down to zero.
    pub fn delay_timer_finished(&self) -> (r: bool)
        ensures
            r == (self@.dt == 0),
    {
        self.dt == 0
    }

    /// Executes a single instruction cycle: fetch the word at the
    /// program counter, advance the counter, decode, and apply the
    /// instruction. The machine takes exactly the step that
    /// [`semantics::step`] describes for the fetched instruction, for
    /// some byte `rb` drawn by the random instruction; when no full
    /// word can be fetched the program counter stays put and the call
    /// fails with a program counter error.
    pub fn run(&mut self) -> (r: Result<(), Chip8Error>)
        requires
            old(self)@.wf(),
        ensures
            final(self)@.wf(),
            !semantics::fetch_ok(old(self)@) ==> (r matches Err(Chip8Error::PCError(p)) && p
                == old(self)@.pc && final(self)@ == old(self)@),
            semantics::fetch_ok(old(self)@) ==> exists|rb: u8|
                semantics::step_matches(
                    semantics::after_fetch(old(self)@),
                    semantics::fetched(old(self)@),
                    rb,
                    final(self)@,
                    r,
                ),
            semantics::fetch_ok(old(self)@) && semantics::fetched(old(self)@).instr != 0xC
                ==> semantics::step_matches(
                semantics::after_fetch(old(self)@),
                semantics::fetched(old(self)@),
                0u8,
                final(self)@,
                r,
            ),
    {
        let instruction = match self.fetch() {
            Ok(d) => d,
            Err(e) => {
                return Err(e);
            },
        };
        self.execute_instruction(&instruction)
    }

    /// Reads the 2-byte word at the program counter, advances the
    /// program counter past it, and decodes it. Fails, without moving
    /// the program counter, when a full word is not available.
    pub fn fetch(&mut self) -> (r: Result<Instruction, Chip8Error>)
        requires
            old(self)@.wf(),
        ensures
            final(self)@.wf(),
            semantics::fetch_ok(old(self)@) ==> (r matches Ok(d) && d == semantics::fetched(
                old(self)@,
            ) && d.wf() && final(self)@ == semantics::after_fetch(old(self)@)),
            !semantics::fetch_ok(old(self)@) ==> (r matches Err(Chip8Error::PCError(p)) && p
                == old(self)@.pc && final(self)@ == old(self)@),
    {
        let word = match self.memory.read_word(self.pc as usize) {
            Some(w) => w,
            None => {
                return Err(Chip8Error::PCError(self.pc));
            },
        };
        self.pc = self.pc + 2;
        proof {
            assert(self@ =~= semantics::after_fetch(old(self)@));
        }
        Ok(Instruction::new(word))
    }

    /// Pushes the current program counter onto the call stack. Fails
    /// when all 16 slots are occupied.
    pub(crate) fn push_stack(&mut self) -> (r: Result<(), Chip8Error>)
        requires
            old(self)@.wf(),
        ensures
            final(self)@.wf(),
            old(self)@.sp < 16 ==> r is Ok && final(self)@ == (Chip8View {
                stack: old(self)@.stack.update(old(self)@.sp as int, old(self)@.pc),
                sp: (old(self)@.sp + 1) as u8,
                ..old(self)@
            }),
            old(self)@.sp >= 16 ==> (r matches Err(Chip8Error::SPError(s)) && s == old(self)@.sp
                && final(self)@ == old(self)@),
    {
        if (self.sp as usize) < self.stack.len() {
            let pc = self.pc;
            self.stack[self.sp as usize] = pc;
            self.sp = self.sp + 1;
            Ok(())
        } else {
            Err(Chip8Error::SPError(self.sp))
        }
    }

    /// Pops the top of the call stack into the program counter. Fails
    /// when the stack is empty.
    pub(crate) fn pop_stack(&mut self) -> (r: Result<(), Chip8Error>)
        requires
            old(self)@.wf(),
        ensures
            final(self)@.wf(),
            old(self)@.sp > 0 ==> r is Ok && final(self)@ == (Chip8View {
                pc: old(self)@.stack[old(self)@.sp - 1],
                sp: (old(self)@.sp - 1) as u8,
                ..old(self)@
            }),
            old(self)@.sp == 0 ==> (r matches Err(Chip8Error::SPOverflow(s)) && s == 0
                && final(self)@ == old(self)@),
    {
        if self.sp == 0 {
            return Err(Chip8Error::SPOverflow(self.sp));
        }
        self.sp = self.sp - 1;
        self.pc = self.stack[self.sp as usize];
        Ok(())
    }
}

} // verus!
