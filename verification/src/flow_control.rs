//! Flow control: screen clear, jumps, subroutine calls and returns, and
//! the conditional skips over register values.

use vstd::prelude::*;

use crate::semantics::{op_call, op_cls, op_jump, op_jump_v0, op_ret, skip2};
use crate::{Chip8, Chip8Error, FRAMEBUFFER_HEIGHT, FRAMEBUFFER_WIDTH};

verus! {

impl Chip8 {
    /// 00E0: clear every framebuffer cell and raise the updated flag.
    pub(crate) fn clear_screen(&mut self) -> (r: Result<(), Chip8Error>)
        requires
            old(self)@.wf(),
        ensures
            final(self)@.wf(),
            r is Ok,
            final(self)@ == op_cls(old(self)@),
    {
        self.framebuffer = crate::zeroed_bytes(FRAMEBUFFER_WIDTH * FRAMEBUFFER_HEIGHT);
        self.display_updated = true;
        proof {
            assert(self@ =~= op_cls(old(self)@));
        }
        Ok(())
    }

    /// 00EE: pop the return address into the program counter; fails on
    /// an empty stack.
    pub(crate) fn return_from_subroutine(&mut self) -> (r: Result<(), Chip8Error>)
        requires
            old(self)@.wf(),
        ensures
            final(self)@.wf(),
            final(self)@ == op_ret(old(self)@).post,
            crate::semantics::agrees(r, op_ret(old(self)@).err),
    {
        self.pop_stack()
    }

    /// 1NNN: set the program counter to the target address.
    pub(crate) fn jump_to_address(&mut self, nnn: u16) -> (r: Result<(), Chip8Error>)
        requires
            old(self)@.wf(),
        ensures
            final(self)@.wf(),
            r is Ok,
            final(self)@ == op_jump(old(self)@, nnn),
    {
        self.pc = nnn;
        proof {
            assert(self@ =~= op_jump(old(self)@, nnn));
        }
        Ok(())
    }

    /// 2NNN: push the current (already advanced) program counter, then
    /// jump to the target; fails when the stack is full.
    pub(crate) fn call_subroutine(&mut self, nnn: u16) -> (r: Result<(), Chip8Error>)
        requires
            old(self)@.wf(),
        ensures
            final(self)@.wf(),
            final(self)@ == op_call(old(self)@, nnn).post,
            crate::semantics::agrees(r, op_call(old(self)@, nnn).err),
    {
        match self.push_stack() {
            Ok(()) => {},
            Err(e) => {
                return Err(e);
            },
        }
        self.pc = nnn;
        proof {
            assert(self@ =~= op_call(old(self)@, nnn).post);
        }
        Ok(())
    }

    /// 3XNN: skip the next instruction when Vx equals NN.
    pub(crate) fn skip_if_vx_equals_nn(&mut self, x: usize, nn: u8) -> (r: Result<(), Chip8Error>)
        requires
            old(self)@.wf(),
        ensures
            final(self)@.wf(),
            x < 16 ==> r is Ok && final(self)@ == if old(self)@.regs[x as int] == nn {
                skip2(old(self)@)
            } else {
                old(self)@
            },
            x >= 16 ==> (r matches Err(Chip8Error::InvalidRegister(j)) && j == x && final(self)@
                == old(self)@),
    {
        if x >= self.registers.len() {
            return Err(Chip8Error::InvalidRegister(x));
        }
        if self.registers[x] == nn {
            self.pc = self.pc.wrapping_add(2);
        }
        proof {
            if old(self)@.regs[x as int] == nn {
                assert(self@ =~= skip2(old(self)@));
            }
        }
        Ok(())
    }

    /// 4XNN: skip the next instruction when Vx differs from NN.
    pub(crate) fn skip_if_vx_not_equals_nn(&mut self, x: usize, nn: u8) -> (r: Result<
        (),
        Chip8Error,
    >)
        requires
            old(self)@.wf(),
        ensures
            final(self)@.wf(),
            x < 16 ==> r is Ok && final(self)@ == if old(self)@.regs[x as int] != nn {
                skip2(old(self)@)
            } else {
                old(self)@
            },
            x >= 16 ==> (r matches Err(Chip8Error::InvalidRegister(j)) && j == x && final(self)@
                == old(self)@),
    {
        if x >= self.registers.len() {
            return Err(Chip8Error::InvalidRegister(x));
        }
        if self.registers[x] != nn {
            self.pc = self.pc.wrapping_add(2);
        }
        proof {
            if old(self)@.regs[x as int] != nn {
                assert(self@ =~= skip2(old(self)@));
            }
        }
        Ok(())
    }

    /// 5XY0: skip the next instruction when Vx equals Vy.
    pub(crate) fn skip_if_vx_equals_vy(&mut self, x: usize, y: usize) -> (r: Result<
        (),
        Chip8Error,
    >)
        requires
            old(self)@.wf(),
        ensures
            final(self)@.wf(),
            x < 16 && y < 16 ==> r is Ok && final(self)@ == if old(self)@.regs[x as int]
                == old(self)@.regs[y as int] {
                skip2(old(self)@)
            } else {
                old(self)@
            },
            x >= 16 ==> (r matches Err(Chip8Error::InvalidRegister(j)) && j == x && final(self)@
                == old(self)@),
            x < 16 && y >= 16 ==> (r matches Err(Chip8Error::InvalidRegister(j)) && j == y
                && final(self)@ == old(self)@),
    {
        if x >= self.registers.len() {
            return Err(Chip8Error::InvalidRegister(x));
        }
        if y >= self.registers.len() {
            return Err(Chip8Error::InvalidRegister(y));
        }
        if self.registers[x] == self.registers[y] {
            self.pc = self.pc.wrapping_add(2);
        }
        proof {
            if old(self)@.regs[x as int] == old(self)@.regs[y as int] {
                assert(self@ =~= skip2(old(self)@));
            }
        }
        Ok(())
    }

    /// 9XY0: skip the next instruction when Vx differs from Vy.
    pub(crate) fn skip_if_vx_not_equals_vy(&mut self, x: usize, y: usize) -> (r: Result<
        (),
        Chip8Error,
    >)
        requires
            old(self)@.wf(),
        ensures
            final(self)@.wf(),
            x < 16 && y < 16 ==> r is Ok && final(self)@ == if old(self)@.regs[x as int]
                != old(self)@.regs[y as int] {
                skip2(old(self)@)
            } else {
                old(self)@
            },
            x >= 16 ==> (r matches Err(Chip8Error::InvalidRegister(j)) && j == x && final(self)@
                == old(self)@),
            x < 16 && y >= 16 ==> (r matches Err(Chip8Error::InvalidRegister(j)) && j == y
                && final(self)@ == old(self)@),
    {
        if x >= self.registers.len() {
            return Err(Chip8Error::InvalidRegister(x));
        }
        if y >= self.registers.len() {
            return Err(Chip8Error::InvalidRegister(y));
        }
        if self.registers[x] != self.registers[y] {
            self.pc = self.pc.wrapping_add(2);
        }
        proof {
            if old(self)@.regs[x as int] != old(self)@.regs[y as int] {
                assert(self@ =~= skip2(old(self)@));
            }
        }
        Ok(())
    }

    /// BNNN: jump to NNN plus V0, wrapping as a 16-bit value.
    pub(crate) fn jump_to_v0_plus_nnn(&mut self, nnn: u16) -> (r: Result<(), Chip8Error>)
        requires
            old(self)@.wf(),
        ensures
            final(self)@.wf(),
            r is Ok,
            final(self)@ == op_jump_v0(old(self)@, nnn),
    {
        let v0 = self.registers[0];
        self.pc = nnn.wrapping_add(v0 as u16);
        proof {
            assert(self@ =~= op_jump_v0(old(self)@, nnn));
        }
        Ok(())
    }
}

} // verus!
