//! Arithmetic and logical register operations.
//!
//! The handlers for 6XNN, 7XNN, the 8XY_ group and CXNN. Each contract
//! states that the handler realizes the corresponding transition of
//! [`crate::semantics`], and that a register index outside V0-VF is
//! rejected without touching the machine.

use vstd::prelude::*;

use rand::Rng;

use crate::semantics::{
    op_add_nn, op_add_vxvy, op_and, op_mov, op_or, op_rand, op_set_vx, op_shl, op_shr, op_sub_vxvy,
    op_subn, op_xor,
};
use crate::{Chip8, Chip8Error};

verus! {

/// Relies on `rand::rng` and `Rng::random_range` over `0..=255`: returns
/// a byte. The range is never empty, so the call does not panic;
/// nothing can be promised about which byte a random draw yields.
#[verifier::external_body]
fn random_byte() -> u8 {
    rand::rng().random_range(0..=255)
}

impl Chip8 {
    /// 6XNN: set register Vx to the immediate value NN.
    pub(crate) fn set_vx_to_nn(&mut self, x: usize, nn: u8) -> (r: Result<(), Chip8Error>)
        requires
            old(self)@.wf(),
        ensures
            final(self)@.wf(),
            x < 16 ==> r is Ok && final(self)@ == op_set_vx(old(self)@, x as int, nn),
            x >= 16 ==> (r matches Err(Chip8Error::InvalidRegister(j)) && j == x && final(self)@
                == old(self)@),
    {
        if x >= self.registers.len() {
            return Err(Chip8Error::InvalidRegister(x));
        }
        self.registers[x] = nn;
        proof {
            assert(self@ =~= op_set_vx(old(self)@, x as int, nn));
        }
        Ok(())
    }

    /// 7XNN: add the immediate value NN to Vx, wrapping on overflow; no
    /// flag is touched.
    pub(crate) fn add_nn_to_vx(&mut self, x: usize, nn: u8) -> (r: Result<(), Chip8Error>)
        requires
            old(self)@.wf(),
        ensures
            final(self)@.wf(),
            x < 16 ==> r is Ok && final(self)@ == op_add_nn(old(self)@, x as int, nn),
            x >= 16 ==> (r matches Err(Chip8Error::InvalidRegister(j)) && j == x && final(self)@
                == old(self)@),
    {
        if x >= self.registers.len() {
            return Err(Chip8Error::InvalidRegister(x));
        }
        let vx = self.registers[x];
        self.registers[x] = vx.wrapping_add(nn);
        proof {
            assert(self@ =~= op_add_nn(old(self)@, x as int, nn));
        }
        Ok(())
    }

    /// 8XY0: copy the value of Vy into Vx.
    pub(crate) fn set_vx_to_vy(&mut self, x: usize, y: usize) -> (r: Result<(), Chip8Error>)
        requires
            old(self)@.wf(),
        ensures
            final(self)@.wf(),
            x < 16 && y < 16 ==> r is Ok && final(self)@ == op_mov(old(self)@, x as int, y as int),
            y >= 16 ==> (r matches Err(Chip8Error::InvalidRegister(j)) && j == y && final(self)@
                == old(self)@),
            y < 16 && x >= 16 ==> (r matches Err(Chip8Error::InvalidRegister(j)) && j == x
                && final(self)@ == old(self)@),
    {
        if y >= self.registers.len() {
            return Err(Chip8Error::InvalidRegister(y));
        }
        if x >= self.registers.len() {
            return Err(Chip8Error::InvalidRegister(x));
        }
        let vy = self.registers[y];
        self.registers[x] = vy;
        proof {
            assert(self@ =~= op_mov(old(self)@, x as int, y as int));
        }
        Ok(())
    }

    /// 8XY1: Vx := Vx | Vy.
    pub(crate) fn or_vx_vy(&mut self, x: usize, y: usize) -> (r: Result<(), Chip8Error>)
        requires
            old(self)@.wf(),
        ensures
            final(self)@.wf(),
            x < 16 && y < 16 ==> r is Ok && final(self)@ == op_or(old(self)@, x as int, y as int),
            y >= 16 ==> (r matches Err(Chip8Error::InvalidRegister(j)) && j == y && final(self)@
                == old(self)@),
            y < 16 && x >= 16 ==> (r matches Err(Chip8Error::InvalidRegister(j)) && j == x
                && final(self)@ == old(self)@),
    {
        if y >= self.registers.len() {
            return Err(Chip8Error::InvalidRegister(y));
        }
        if x >= self.registers.len() {
            return Err(Chip8Error::InvalidRegister(x));
        }
        let vy = self.registers[y];
        let vx = self.registers[x];
        self.registers[x] = vx | vy;
        proof {
            assert(self@ =~= op_or(old(self)@, x as int, y as int));
        }
        Ok(())
    }

    /// 8XY2: Vx := Vx & Vy.
    pub(crate) fn and_vx_vy(&mut self, x: usize, y: usize) -> (r: Result<(), Chip8Error>)
        requires
            old(self)@.wf(),
        ensures
            final(self)@.wf(),
            x < 16 && y < 16 ==> r is Ok && final(self)@ == op_and(old(self)@, x as int, y as int),
            y >= 16 ==> (r matches Err(Chip8Error::InvalidRegister(j)) && j == y && final(self)@
                == old(self)@),
            y < 16 && x >= 16 ==> (r matches Err(Chip8Error::InvalidRegister(j)) && j == x
                && final(self)@ == old(self)@),
    {
        if y >= self.registers.len() {
            return Err(Chip8Error::InvalidRegister(y));
        }
        if x >= self.registers.len() {
            return Err(Chip8Error::InvalidRegister(x));
        }
        let vy = self.registers[y];
        let vx = self.registers[x];
        self.registers[x] = vx & vy;
        proof {
            assert(self@ =~= op_and(old(self)@, x as int, y as int));
        }
        Ok(())
    }

    /// 8XY3: Vx := Vx ^ Vy.
    pub(crate) fn xor_vx_vy(&mut self, x: usize, y: usize) -> (r: Result<(), Chip8Error>)
        requires
            old(self)@.wf(),
        ensures
            final(self)@.wf(),
            x < 16 && y < 16 ==> r is Ok && final(self)@ == op_xor(old(self)@, x as int, y as int),
            y >= 16 ==> (r matches Err(Chip8Error::InvalidRegister(j)) && j == y && final(self)@
                == old(self)@),
            y < 16 && x >= 16 ==> (r matches Err(Chip8Error::InvalidRegister(j)) && j == x
                && final(self)@ == old(self)@),
    {
        if y >= self.registers.len() {
            return Err(Chip8Error::InvalidRegister(y));
        }
        if x >= self.registers.len() {
            return Err(Chip8Error::InvalidRegister(x));
        }
        let vy = self.registers[y];
        let vx = self.registers[x];
        self.registers[x] = vx ^ vy;
        proof {
            assert(self@ =~= op_xor(old(self)@, x as int, y as int));
        }
        Ok(())
    }

    /// 8XY4: Vx := Vx + Vy with wraparound; VF := 1 exactly when the
    /// 8-bit addition overflows, else 0.
    pub(crate) fn add_vx_vy(&mut self, x: usize, y: usize) -> (r: Result<(), Chip8Error>)
        requires
            old(self)@.wf(),
        ensures
            final(self)@.wf(),
            x < 16 && y < 16 ==> r is Ok && final(self)@ == op_add_vxvy(
                old(self)@,
                x as int,
                y as int,
            ),
            y >= 16 ==> (r matches Err(Chip8Error::InvalidRegister(j)) && j == y && final(self)@
                == old(self)@),
            y < 16 && x >= 16 ==> (r matches Err(Chip8Error::InvalidRegister(j)) && j == x
                && final(self)@ == old(self)@),
    {
        if y >= self.registers.len() {
            return Err(Chip8Error::InvalidRegister(y));
        }
        if x >= self.registers.len() {
            return Err(Chip8Error::InvalidRegister(x));
        }
        let vy = self.registers[y];
        let vx = self.registers[x];
        let carry: u8 = if (vx as u16) + (vy as u16) > 255 {
            1
        } else {
            0
        };
        self.registers[x] = vx.wrapping_add(vy);
        self.registers[15] = carry;
        proof {
            assert(self@ =~= op_add_vxvy(old(self)@, x as int, y as int));
        }
        Ok(())
    }

    /// 8XY5: Vx := Vx - Vy with wraparound; VF := 1 exactly when no
    /// borrow occurs (Vx >= Vy), else 0.
    pub(crate) fn sub_vx_vy(&mut self, x: usize, y: usize) -> (r: Result<(), Chip8Error>)
        requires
            old(self)@.wf(),
        ensures
            final(self)@.wf(),
            x < 16 && y < 16 ==> r is Ok && final(self)@ == op_sub_vxvy(
                old(self)@,
                x as int,
                y as int,
            ),
            y >= 16 ==> (r matches Err(Chip8Error::InvalidRegister(j)) && j == y && final(self)@
                == old(self)@),
            y < 16 && x >= 16 ==> (r matches Err(Chip8Error::InvalidRegister(j)) && j == x
                && final(self)@ == old(self)@),
    {
        if y >= self.registers.len() {
            return Err(Chip8Error::InvalidRegister(y));
        }
        if x >= self.registers.len() {
            return Err(Chip8Error::InvalidRegister(x));
        }
        let vy = self.registers[y];
        let vx = self.registers[x];
        let no_borrow: u8 = if vx >= vy {
            1
        } else {
            0
        };
        self.registers[x] = vx.wrapping_sub(vy);
        self.registers[15] = no_borrow;
        proof {
            assert(self@ =~= op_sub_vxvy(old(self)@, x as int, y as int));
        }
        Ok(())
    }

    /// 8XY6: shift Vx right by one; VF receives the bit shifted out.
    pub(crate) fn shift_vx_right(&mut self, x: usize) -> (r: Result<(), Chip8Error>)
        requires
            old(self)@.wf(),
        ensures
            final(self)@.wf(),
            x < 16 ==> r is Ok && final(self)@ == op_shr(old(self)@, x as int),
            x >= 16 ==> (r matches Err(Chip8Error::InvalidRegister(j)) && j == x && final(self)@
                == old(self)@),
    {
        if x >= self.registers.len() {
            return Err(Chip8Error::InvalidRegister(x));
        }
        let vx = self.registers[x];
        // The bit that will be shifted out
        let shifted_out: u8 = vx % 2;
        self.registers[x] = vx / 2;
        self.registers[15] = shifted_out;
        proof {
            assert(self@ =~= op_shr(old(self)@, x as int));
        }
        Ok(())
    }

    /// 8XY7: Vx := Vy - Vx with wraparound; VF := 1 exactly when no
    /// borrow occurs (Vy >= Vx), else 0.
    pub(crate) fn sub_vy_vx(&mut self, x: usize, y: usize) -> (r: Result<(), Chip8Error>)
        requires
            old(self)@.wf(),
        ensures
            final(self)@.wf(),
            x < 16 && y < 16 ==> r is Ok && final(self)@ == op_subn(old(self)@, x as int, y as int),
            y >= 16 ==> (r matches Err(Chip8Error::InvalidRegister(j)) && j == y && final(self)@
                == old(self)@),
            y < 16 && x >= 16 ==> (r matches Err(Chip8Error::InvalidRegister(j)) && j == x
                && final(self)@ == old(self)@),
    {
        if y >= self.registers.len() {
            return Err(Chip8Error::InvalidRegister(y));
        }
        if x >= self.registers.len() {
            return Err(Chip8Error::InvalidRegister(x));
        }
        let vy = self.registers[y];
        let vx = self.registers[x];
        let no_borrow: u8 = if vy >= vx {
            1
        } else {
            0
        };
        self.registers[x] = vy.wrapping_sub(vx);
        self.registers[15] = no_borrow;
        proof {
            assert(self@ =~= op_subn(old(self)@, x as int, y as int));
        }
        Ok(())
    }

    /// 8XYE: shift Vx left by one; VF receives the bit shifted out.
    pub(crate) fn shift_vx_left(&mut self, x: usize) -> (r: Result<(), Chip8Error>)
        requires
            old(self)@.wf(),
        ensures
            final(self)@.wf(),
            x < 16 ==> r is Ok && final(self)@ == op_shl(old(self)@, x as int),
            x >= 16 ==> (r matches Err(Chip8Error::InvalidRegister(j)) && j == x && final(self)@
                == old(self)@),
    {
        if x >= self.registers.len() {
            return Err(Chip8Error::InvalidRegister(x));
        }
        let vx = self.registers[x];
        // The bit that will be shifted out (MSB)
        let shifted_out: u8 = vx / 128;
        self.registers[x] = vx.wrapping_mul(2);
        self.registers[15] = shifted_out;
        proof {
            assert(self@ =~= op_shl(old(self)@, x as int));
        }
        Ok(())
    }

    /// CXNN: draw a random byte, mask it with NN, and store it in Vx.
    /// Which byte was drawn cannot be promised; the mask is exact.
    pub(crate) fn set_vx_to_random_and_nn(&mut self, x: usize, nn: u8) -> (r: Result<
        (),
        Chip8Error,
    >)
        requires
            old(self)@.wf(),
        ensures
            final(self)@.wf(),
            x < 16 ==> r is Ok && (exists|rb: u8|
                final(self)@ == op_rand(old(self)@, x as int, nn, rb)),
            x >= 16 ==> (r matches Err(Chip8Error::InvalidRegister(j)) && j == x && final(self)@
                == old(self)@),
    {
        if x >= self.registers.len() {
            return Err(Chip8Error::InvalidRegister(x));
        }
        let rb = random_byte();
        self.registers[x] = rb & nn;
        proof {
            assert(self@ =~= op_rand(old(self)@, x as int, nn, rb));
        }
        Ok(())
    }
}

} // verus!
