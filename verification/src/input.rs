//! Keyboard interaction: the key-conditional skips and the key-wait
//! instruction.
//!
//! The key wait is not a real block: when no key is pressed it rewinds
//! the program counter so the same instruction is fetched again on the
//! next cycle, and progress resumes only once the embedding application
//! has reported a key press.

use vstd::prelude::*;

use crate::semantics::{first_key, op_wait_key, pc_rewound, skip2, Chip8View};
use crate::{Chip8, Chip8Error};

verus! {

impl Chip8 {
    /// EX9E: skip the next instruction when the key whose index is in
    /// Vx is pressed; a value above 15 in Vx is an invalid key.
    pub(crate) fn skip_if_key_pressed(&mut self, x: usize) -> (r: Result<(), Chip8Error>)
        requires
            old(self)@.wf(),
        ensures
            final(self)@.wf(),
            x < 16 && old(self)@.regs[x as int] > 15 ==> (r matches Err(Chip8Error::InvalidKey(k))
                && k == old(self)@.regs[x as int] && final(self)@ == old(self)@),
            x < 16 && old(self)@.regs[x as int] <= 15 ==> r is Ok && final(self)@
                == if old(self)@.keys[old(self)@.regs[x as int] as int] != 0 {
                skip2(old(self)@)
            } else {
                old(self)@
            },
            x >= 16 ==> (r matches Err(Chip8Error::InvalidRegister(j)) && j == x && final(self)@
                == old(self)@),
    {
        if x >= self.registers.len() {
            return Err(Chip8Error::InvalidRegister(x));
        }
        let vx = self.registers[x];
        if (vx as usize) >= self.keyboard.len() {
            return Err(Chip8Error::InvalidKey(vx));
        }
        if self.keyboard[vx as usize] != 0 {
            self.pc = self.pc.wrapping_add(2);
            proof {
                assert(self@ =~= skip2(old(self)@));
            }
        }
        Ok(())
    }

    /// EXA1: skip the next instruction when the key whose index is in
    /// Vx is not pressed; a value above 15 in Vx is an invalid key.
    pub(crate) fn skip_if_key_not_pressed(&mut self, x: usize) -> (r: Result<(), Chip8Error>)
        requires
            old(self)@.wf(),
        ensures
            final(self)@.wf(),
            x < 16 && old(self)@.regs[x as int] > 15 ==> (r matches Err(Chip8Error::InvalidKey(k))
                && k == old(self)@.regs[x as int] && final(self)@ == old(self)@),
            x < 16 && old(self)@.regs[x as int] <= 15 ==> r is Ok && final(self)@
                == if old(self)@.keys[old(self)@.regs[x as int] as int] == 0 {
                skip2(old(self)@)
            } else {
                old(self)@
            },
            x >= 16 ==> (r matches Err(Chip8Error::InvalidRegister(j)) && j == x && final(self)@
                == old(self)@),
    {
        if x >= self.registers.len() {
            return Err(Chip8Error::InvalidRegister(x));
        }
        let vx = self.registers[x];
        if (vx as usize) >= self.keyboard.len() {
            return Err(Chip8Error::InvalidKey(vx));
        }
        if self.keyboard[vx as usize] == 0 {
            self.pc = self.pc.wrapping_add(2);
            proof {
                assert(self@ =~= skip2(old(self)@));
            }
        }
        Ok(())
    }

    /// FX0A: scan the keypad in ascending order. The first pressed
    /// key's index lands in Vx and the program counter keeps its normal
    /// advance; with no key pressed the program counter is rewound by
    /// one instruction so the wait repeats on the next cycle.
    pub(crate) fn wait_for_key_press(&mut self, x: usize) -> (r: Result<(), Chip8Error>)
        requires
            old(self)@.wf(),
        ensures
            final(self)@.wf(),
            x < 16 ==> r is Ok && final(self)@ == op_wait_key(old(self)@, x as int),
            x >= 16 && first_key(old(self)@.keys, 0) < 16 ==> (r matches Err(
                Chip8Error::InvalidRegister(j),
            ) && j == x && final(self)@ == old(self)@),
            x >= 16 && first_key(old(self)@.keys, 0) == 16 ==> r is Ok && final(self)@
                == (Chip8View { pc: pc_rewound(old(self)@.pc), ..old(self)@ }),
    {
        let mut idx: usize = 0;
        while idx < 16
            invariant
                old(self)@.wf(),
                self@ == old(self)@,
                idx <= 16,
                first_key(old(self)@.keys, 0) == first_key(old(self)@.keys, idx as int),
            decreases 16 - idx,
        {
            if self.keyboard[idx] != 0 {
                proof {
                    assert(first_key(old(self)@.keys, 0) == idx);
                }
                if x >= self.registers.len() {
                    return Err(Chip8Error::InvalidRegister(x));
                }
                self.registers[x] = idx as u8;
                proof {
                    assert(self@ =~= op_wait_key(old(self)@, x as int));
                }
                return Ok(());
            }
            idx = idx + 1;
        }
        proof {
            assert(first_key(old(self)@.keys, 0) == 16);
        }
        // No key pressed: repeat this instruction by moving the program
        // counter back.
        self.pc = self.pc.wrapping_sub(2);
        proof {
            assert(self@ =~= (Chip8View { pc: pc_rewound(old(self)@.pc), ..old(self)@ }));
            if x < 16 {
                assert(self@ =~= op_wait_key(old(self)@, x as int));
            }
        }
        Ok(())
    }
}

} // verus!
