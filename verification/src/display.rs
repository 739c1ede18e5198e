//! Sprite drawing.
//!
//! DXYN reads an 8-pixel-wide, N-row-tall sprite from memory at the
//! index register and XORs it onto the framebuffer. The origin wraps
//! modulo the screen size once, on entry; pixels that would fall past
//! the right or bottom edge are clipped, not wrapped. VF reports
//! whether any pixel was turned off by the XOR.

use vstd::prelude::*;

use crate::memory::RAM_SIZE;
use crate::semantics::{agrees, draw_row, draw_rows, op_draw};
use crate::{Chip8, Chip8Error};

verus! {

impl Chip8 {
    /// DXYN: draw the N-byte sprite at memory address I at the screen
    /// position given by registers Vx and Vy. Realizes
    /// [`op_draw`]: on success the updated flag is raised and VF holds
    /// the collision bit; a sprite row whose byte lies outside memory
    /// stops the draw with an index error, the rows before it staying
    /// drawn.
    pub(crate) fn draw_sprite(&mut self, x: usize, y: usize, n: u8) -> (r: Result<(), Chip8Error>)
        requires
            old(self)@.wf(),
        ensures
            final(self)@.wf(),
            x < 16 && y < 16 ==> final(self)@ == op_draw(old(self)@, x as int, y as int, n).post
                && agrees(r, op_draw(old(self)@, x as int, y as int, n).err),
            x >= 16 ==> (r matches Err(Chip8Error::InvalidRegister(j)) && j == x && final(self)@
                == old(self)@),
            x < 16 && y >= 16 ==> (r matches Err(Chip8Error::InvalidRegister(j)) && j == y
                && final(self)@ == old(self)@),
    {
        if x >= self.registers.len() {
            return Err(Chip8Error::InvalidRegister(x));
        }
        if y >= self.registers.len() {
            return Err(Chip8Error::InvalidRegister(y));
        }
        let vx = self.registers[x];
        let vy = self.registers[y];

        // The origin wraps modulo the screen size once, on entry.
        let x_coord: usize = (vx % 64) as usize;
        let y_coord: usize = (vy % 32) as usize;
        let height: usize = n as usize;

        // Rows that would fall below the bottom edge are clipped.
        let fit: usize = if height > 32 - y_coord {
            32 - y_coord
        } else {
            height
        };

        self.registers[15] = 0;

        let mut row: usize = 0;
        while row < fit
            invariant
                old(self)@.wf(),
                x < 16,
                y < 16,
                x_coord == old(self)@.regs[x as int] % 64,
                y_coord == old(self)@.regs[y as int] % 32,
                fit == vstd::math::min(n as int, 32 - y_coord),
                y_coord + fit <= 32,
                row <= fit,
                row > 0 ==> old(self)@.i + row <= RAM_SIZE,
                self@.fb.len() == old(self)@.fb.len(),
                self@.fb == draw_rows(
                    (old(self)@.fb, false),
                    old(self)@.mem,
                    old(self)@.i as int,
                    x_coord as int,
                    y_coord as int,
                    row as int,
                ).0,
                self@.regs == old(self)@.regs.update(
                    15,
                    if draw_rows(
                        (old(self)@.fb, false),
                        old(self)@.mem,
                        old(self)@.i as int,
                        x_coord as int,
                        y_coord as int,
                        row as int,
                    ).1 {
                        1u8
                    } else {
                        0u8
                    },
                ),
                self@.mem == old(self)@.mem,
                self@.i == old(self)@.i,
                self@.pc == old(self)@.pc,
                self@.sp == old(self)@.sp,
                self@.stack == old(self)@.stack,
                self@.dt == old(self)@.dt,
                self@.st == old(self)@.st,
                self@.keys == old(self)@.keys,
                self@.updated == old(self)@.updated,
            decreases fit - row,
        {
            let sprite_byte = match self.memory.read_byte(self.i as usize + row) {
                Some(b) => b,
                None => {
                    // This row's byte lies outside memory: the draw
                    // stops here, with the rows so far applied.
                    proof {
                        assert(self@ =~= op_draw(old(self)@, x as int, y as int, n).post);
                    }
                    return Err(Chip8Error::IndexError(self.i + row as u16));
                },
            };
            let y_pos = y_coord + row;

            let mut col: usize = 0;
            while col < 8
                invariant
                    old(self)@.wf(),
                    x < 16,
                    y < 16,
                    x_coord == old(self)@.regs[x as int] % 64,
                    y_coord == old(self)@.regs[y as int] % 32,
                    fit == vstd::math::min(n as int, 32 - y_coord),
                    y_coord + fit <= 32,
                    row < fit,
                    old(self)@.i + row + 1 <= RAM_SIZE,
                    sprite_byte == old(self)@.mem[old(self)@.i + row],
                    y_pos == y_coord + row,
                    y_pos < 32,
                    col <= 8,
                    self@.fb.len() == old(self)@.fb.len(),
                    self@.fb == draw_row(
                        draw_rows(
                            (old(self)@.fb, false),
                            old(self)@.mem,
                            old(self)@.i as int,
                            x_coord as int,
                            y_coord as int,
                            row as int,
                        ),
                        sprite_byte,
                        x_coord as int,
                        y_pos as int,
                        col as int,
                    ).0,
                    self@.regs == old(self)@.regs.update(
                        15,
                        if draw_row(
                            draw_rows(
                                (old(self)@.fb, false),
                                old(self)@.mem,
                                old(self)@.i as int,
                                x_coord as int,
                                y_coord as int,
                                row as int,
                            ),
                            sprite_byte,
                            x_coord as int,
                            y_pos as int,
                            col as int,
                        ).1 {
                            1u8
                        } else {
                            0u8
                        },
                    ),
                    self@.mem == old(self)@.mem,
                    self@.i == old(self)@.i,
                    self@.pc == old(self)@.pc,
                    self@.sp == old(self)@.sp,
                    self@.stack == old(self)@.stack,
                    self@.dt == old(self)@.dt,
                    self@.st == old(self)@.st,
                    self@.keys == old(self)@.keys,
                    self@.updated == old(self)@.updated,
                decreases 8 - col,
            {
                let x_pos = x_coord + col;
                // Columns past the right edge are clipped.
                if x_pos < 64 {
                    if sprite_byte & (0x80u8 >> (col as u8)) != 0 {
                        let pixel_index = y_pos * 64 + x_pos;
                        if pixel_index >= self.framebuffer.len() {
                            // Unreachable given the clipping above, but
                            // checked defensively.
                            return Err(Chip8Error::FrameBufferOverflow(pixel_index));
                        }
                        let pixel = self.framebuffer[pixel_index];
                        if pixel == 1 {
                            // Collision: an on-pixel is being toggled.
                            self.registers[15] = 1;
                        }
                        self.framebuffer[pixel_index] = pixel ^ 1;
                        proof {
                            let prev = draw_row(
                                draw_rows(
                                    (old(self)@.fb, false),
                                    old(self)@.mem,
                                    old(self)@.i as int,
                                    x_coord as int,
                                    y_coord as int,
                                    row as int,
                                ),
                                sprite_byte,
                                x_coord as int,
                                y_pos as int,
                                col as int,
                            );
                            if pixel == 1 {
                                assert(self@.regs =~= old(self)@.regs.update(15, 1u8));
                            }
                            assert(prev.1 ==> self@.regs == old(self)@.regs.update(15, 1u8));
                        }
                    }
                }
                col = col + 1;
            }
            row = row + 1;
        }

        self.display_updated = true;
        proof {
            assert(self@ =~= op_draw(old(self)@, x as int, y as int, n).post);
        }
        Ok(())
    }
}

} // verus!
