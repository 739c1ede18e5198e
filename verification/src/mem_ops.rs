//! Index register operations, timer access, font addressing, BCD
//! storage and the register block transfers.

use vstd::prelude::*;

use crate::memory::RAM_SIZE;
use crate::semantics::{
    agrees, bcd_digits, op_add_i, op_bcd, op_font, op_get_dt, op_load_regs, op_set_dt, op_set_i,
    op_set_st, op_store_regs,
};
use crate::{Chip8, Chip8Error};

verus! {

impl Chip8 {
    /// ANNN: load an address into the index register.
    pub(crate) fn set_i_to_nnn(&mut self, nnn: u16) -> (r: Result<(), Chip8Error>)
        requires
            old(self)@.wf(),
        ensures
            final(self)@.wf(),
            r is Ok,
            final(self)@ == op_set_i(old(self)@, nnn),
    {
        self.i = nnn;
        proof {
            assert(self@ =~= op_set_i(old(self)@, nnn));
        }
        Ok(())
    }

    /// FX07: read the delay timer into Vx.
    pub(crate) fn set_vx_to_delay_timer(&mut self, x: usize) -> (r: Result<(), Chip8Error>)
        requires
            old(self)@.wf(),
        ensures
            final(self)@.wf(),
            x < 16 ==> r is Ok && final(self)@ == op_get_dt(old(self)@, x as int),
            x >= 16 ==> (r matches Err(Chip8Error::InvalidRegister(j)) && j == x && final(self)@
                == old(self)@),
    {
        if x >= self.registers.len() {
            return Err(Chip8Error::InvalidRegister(x));
        }
        let dt = self.dt;
        self.registers[x] = dt;
        proof {
            assert(self@ =~= op_get_dt(old(self)@, x as int));
        }
        Ok(())
    }

    /// FX15: set the delay timer from Vx.
    pub(crate) fn set_delay_timer_to_vx(&mut self, x: usize) -> (r: Result<(), Chip8Error>)
        requires
            old(self)@.wf(),
        ensures
            final(self)@.wf(),
            x < 16 ==> r is Ok && final(self)@ == op_set_dt(old(self)@, x as int),
            x >= 16 ==> (r matches Err(Chip8Error::InvalidRegister(j)) && j == x && final(self)@
                == old(self)@),
    {
        if x >= self.registers.len() {
            return Err(Chip8Error::InvalidRegister(x));
        }
        self.dt = self.registers[x];
        proof {
            assert(self@ =~= op_set_dt(old(self)@, x as int));
        }
        Ok(())
    }

    /// FX18: set the sound timer from Vx.
    pub(crate) fn set_sound_timer_to_vx(&mut self, x: usize) -> (r: Result<(), Chip8Error>)
        requires
            old(self)@.wf(),
        ensures
            final(self)@.wf(),
            x < 16 ==> r is Ok && final(self)@ == op_set_st(old(self)@, x as int),
            x >= 16 ==> (r matches Err(Chip8Error::InvalidRegister(j)) && j == x && final(self)@
                == old(self)@),
    {
        if x >= self.registers.len() {
            return Err(Chip8Error::InvalidRegister(x));
        }
        self.st = self.registers[x];
        proof {
            assert(self@ =~= op_set_st(old(self)@, x as int));
        }
        Ok(())
    }

    /// FX1E: add Vx to the index register, wrapping as a 16-bit value;
    /// no flag is touched.
    pub(crate) fn add_vx_to_i(&mut self, x: usize) -> (r: Result<(), Chip8Error>)
        requires
            old(self)@.wf(),
        ensures
            final(self)@.wf(),
            x < 16 ==> r is Ok && final(self)@ == op_add_i(old(self)@, x as int),
            x >= 16 ==> (r matches Err(Chip8Error::InvalidRegister(j)) && j == x && final(self)@
                == old(self)@),
    {
        if x >= self.registers.len() {
            return Err(Chip8Error::InvalidRegister(x));
        }
        let vx = self.registers[x];
        self.i = self.i.wrapping_add(vx as u16);
        proof {
            assert(self@ =~= op_add_i(old(self)@, x as int));
        }
        Ok(())
    }

    /// FX29: point the index register at the 5-byte font glyph for the
    /// value in Vx. The register is deliberately not masked to 4 bits:
    /// values above 15 address past the font table, exactly as the
    /// hardware convention has it.
    pub(crate) fn set_i_to_font_location(&mut self, x: usize) -> (r: Result<(), Chip8Error>)
        requires
            old(self)@.wf(),
        ensures
            final(self)@.wf(),
            x < 16 ==> r is Ok && final(self)@ == op_font(old(self)@, x as int),
            x >= 16 ==> (r matches Err(Chip8Error::InvalidRegister(j)) && j == x && final(self)@
                == old(self)@),
    {
        if x >= self.registers.len() {
            return Err(Chip8Error::InvalidRegister(x));
        }
        let vx = self.registers[x];
        // Each font glyph is 5 bytes, starting at the font base address.
        self.i = (crate::memory::FONT_START_ADDRESS as u16) + (vx as u16) * 5;
        proof {
            assert(self@ =~= op_font(old(self)@, x as int));
        }
        Ok(())
    }

    /// FX33: write the hundreds, tens and ones digits of Vx to memory
    /// at I, I+1 and I+2; fails with an index error, memory untouched,
    /// when the three bytes do not fit.
    pub(crate) fn store_bcd_of_vx(&mut self, x: usize) -> (r: Result<(), Chip8Error>)
        requires
            old(self)@.wf(),
        ensures
            final(self)@.wf(),
            x < 16 ==> final(self)@ == op_bcd(old(self)@, x as int).post && agrees(
                r,
                op_bcd(old(self)@, x as int).err,
            ),
            x >= 16 ==> (r matches Err(Chip8Error::InvalidRegister(j)) && j == x && final(self)@
                == old(self)@),
    {
        if x >= self.registers.len() {
            return Err(Chip8Error::InvalidRegister(x));
        }
        let vx = self.registers[x];
        let base = self.i as usize;
        if base + 3 > RAM_SIZE {
            return Err(Chip8Error::IndexError(self.i));
        }
        let mut digits: Vec<u8> = Vec::new();
        digits.push(vx / 100);
        digits.push((vx % 100) / 10);
        digits.push(vx % 10);
        proof {
            assert(digits@ =~= bcd_digits(vx));
        }
        match self.memory.write_at(digits.as_slice(), base) {
            Ok(()) => {
                proof {
                    assert(self@ =~= op_bcd(old(self)@, x as int).post);
                }
                Ok(())
            },
            Err(e) => {
                proof {
                    assert(false);
                }
                Err(Chip8Error::MemoryError(e))
            },
        }
    }

    /// FX55: copy registers V0 through Vx inclusive into memory
    /// starting at I; the write is atomic and I is left unchanged.
    pub(crate) fn store_registers_to_memory(&mut self, x: usize) -> (r: Result<(), Chip8Error>)
        requires
            old(self)@.wf(),
        ensures
            final(self)@.wf(),
            x < 16 ==> final(self)@ == op_store_regs(old(self)@, x as int).post && agrees(
                r,
                op_store_regs(old(self)@, x as int).err,
            ),
            x >= 16 ==> final(self)@ == op_store_regs(old(self)@, 15).post && agrees(
                r,
                op_store_regs(old(self)@, 15).err,
            ),
    {
        let count: usize = if x >= 15 {
            16
        } else {
            x + 1
        };
        let base = self.i as usize;
        if base + count > RAM_SIZE {
            return Err(Chip8Error::IndexError(self.i));
        }
        let mut buf: Vec<u8> = Vec::new();
        let mut j: usize = 0;
        while j < count
            invariant
                old(self)@.wf(),
                self@ == old(self)@,
                j <= count,
                count <= 16,
                buf@ == old(self)@.regs.subrange(0, j as int),
            decreases count - j,
        {
            let value = self.registers[j];
            buf.push(value);
            proof {
                assert(buf@ =~= old(self)@.regs.subrange(0, j + 1));
            }
            j = j + 1;
        }
        match self.memory.write_at(buf.as_slice(), base) {
            Ok(()) => {
                proof {
                    if x < 16 {
                        assert(self@ =~= op_store_regs(old(self)@, x as int).post);
                    } else {
                        assert(self@ =~= op_store_regs(old(self)@, 15).post);
                    }
                }
                Ok(())
            },
            Err(e) => {
                proof {
                    assert(false);
                }
                Err(Chip8Error::MemoryError(e))
            },
        }
    }

    /// FX65: load registers V0 through Vx inclusive from memory
    /// starting at I; I is left unchanged. Fails with an index error,
    /// registers untouched, when the source range is out of bounds.
    pub(crate) fn load_registers_from_memory(&mut self, x: usize) -> (r: Result<(), Chip8Error>)
        requires
            old(self)@.wf(),
        ensures
            final(self)@.wf(),
            final(self)@ == op_load_regs(old(self)@, x as int).post,
            agrees(r, op_load_regs(old(self)@, x as int).err),
    {
        let base = self.i as usize;
        if x >= RAM_SIZE || base + x + 1 > RAM_SIZE {
            return Err(Chip8Error::IndexError(self.i));
        }
        let count: usize = if x >= 15 {
            16
        } else {
            x + 1
        };
        let mut j: usize = 0;
        while j < count
            invariant
                old(self)@.wf(),
                base == old(self)@.i,
                base + x + 1 <= RAM_SIZE,
                count <= 16,
                count <= x + 1,
                j <= count,
                self@.mem == old(self)@.mem,
                self@.regs.len() == 16,
                forall|k: int|
                    0 <= k < 16 ==> self@.regs[k] == if k < j {
                        old(self)@.mem[old(self)@.i + k]
                    } else {
                        old(self)@.regs[k]
                    },
                self@.i == old(self)@.i,
                self@.pc == old(self)@.pc,
                self@.sp == old(self)@.sp,
                self@.stack == old(self)@.stack,
                self@.dt == old(self)@.dt,
                self@.st == old(self)@.st,
                self@.fb == old(self)@.fb,
                self@.keys == old(self)@.keys,
                self@.updated == old(self)@.updated,
            decreases count - j,
        {
            let value = match self.memory.read_byte(base + j) {
                Some(b) => b,
                None => {
                    proof {
                        assert(false);
                    }
                    return Err(Chip8Error::IndexError(self.i));
                },
            };
            self.registers[j] = value;
            j = j + 1;
        }
        proof {
            assert(self@.regs =~= op_load_regs(old(self)@, x as int).post.regs);
            assert(self@ =~= op_load_regs(old(self)@, x as int).post);
        }
        Ok(())
    }
}

} // verus!
