//! The mathematical model of the machine.
//!
//! [`Chip8View`] is the abstraction of a [`crate::Chip8`]: sequences and
//! plain integers in place of vectors. Every instruction's effect is
//! written here as a pure function from view to view; the executable
//! handlers' contracts state that they realize these functions.

use vstd::prelude::*;

use crate::instruction::{spec_decode, spec_instruction_type, Instruction, InstructionType};
use crate::memory::{mem_init, word_at, write_range, FONT_START_ADDRESS, RAM_SIZE};
use crate::Chip8Error;
use crate::{FRAMEBUFFER_HEIGHT, FRAMEBUFFER_WIDTH};

verus! {

/// The abstract state of the machine: one field per component.
#[verifier::ext_equal]
pub ghost struct Chip8View {
    /// The 4096 bytes of RAM.
    pub mem: Seq<u8>,
    /// The sixteen registers V0-VF.
    pub regs: Seq<u8>,
    /// The index register I.
    pub i: u16,
    /// The program counter.
    pub pc: u16,
    /// The stack pointer: how many stack slots are occupied.
    pub sp: u8,
    /// The sixteen call-stack slots.
    pub stack: Seq<u16>,
    /// The delay timer.
    pub dt: u8,
    /// The sound timer.
    pub st: u8,
    /// The 2048 framebuffer cells, row-major.
    pub fb: Seq<u8>,
    /// The sixteen key flags.
    pub keys: Seq<u8>,
    /// The display-updated flag.
    pub updated: bool,
}

impl Chip8View {
    /// Every component has its fixed size and the stack pointer is in
    /// range.
    pub open spec fn wf(self) -> bool {
        &&& self.mem.len() == RAM_SIZE
        &&& self.regs.len() == 16
        &&& self.stack.len() == 16
        &&& self.fb.len() == FRAMEBUFFER_WIDTH * FRAMEBUFFER_HEIGHT
        &&& self.keys.len() == 16
        &&& self.sp <= 16
    }
}

/// The state right after construction or reset: everything zeroed, the
/// program counter at the program start, the font table in memory.
pub open spec fn init_view() -> Chip8View {
    Chip8View {
        mem: mem_init(),
        regs: Seq::new(16, |k: int| 0u8),
        i: 0u16,
        pc: 0x200u16,
        sp: 0u8,
        stack: Seq::new(16, |k: int| 0u16),
        dt: 0u8,
        st: 0u8,
        fb: Seq::new((FRAMEBUFFER_WIDTH * FRAMEBUFFER_HEIGHT) as nat, |k: int| 0u8),
        keys: Seq::new(16, |k: int| 0u8),
        updated: false,
    }
}

/// Resetting lands in the initial state no matter where the machine was.
pub open spec fn reset_view(v: Chip8View) -> Chip8View {
    init_view()
}

/// 8-bit addition that wraps around past 255.
pub open spec fn add8(a: u8, b: u8) -> u8 {
    if a + b > 255 {
        (a + b - 256) as u8
    } else {
        (a + b) as u8
    }
}

/// 8-bit subtraction that wraps around below 0.
pub open spec fn sub8(a: u8, b: u8) -> u8 {
    if a >= b {
        (a - b) as u8
    } else {
        (a + 256 - b) as u8
    }
}

/// 16-bit addition that wraps around past 0xFFFF.
pub open spec fn add16(a: u16, b: u16) -> u16 {
    if a + b > 0xFFFF {
        (a + b - 0x10000) as u16
    } else {
        (a + b) as u16
    }
}

/// The program counter stepped back one instruction, wrapping below 0.
pub open spec fn pc_rewound(pc: u16) -> u16 {
    if pc >= 2 {
        (pc - 2) as u16
    } else {
        (pc + 0x10000 - 2) as u16
    }
}

/// Whether a full 2-byte instruction can be fetched at the program
/// counter.
pub open spec fn fetch_ok(v: Chip8View) -> bool {
    v.pc + 2 <= v.mem.len()
}

/// The instruction that fetching decodes: the big-endian word at the
/// program counter.
pub open spec fn fetched(v: Chip8View) -> Instruction {
    spec_decode(word_at(v.mem, v.pc as int))
}

/// The state after a successful fetch: only the program counter moved.
pub open spec fn after_fetch(v: Chip8View) -> Chip8View {
    Chip8View { pc: (v.pc + 2) as u16, ..v }
}

/// What executing one decoded instruction yields: the state afterwards,
/// and the error if the instruction failed.
#[verifier::ext_equal]
pub ghost struct StepOutcome {
    /// The machine state after the attempt.
    pub post: Chip8View,
    /// `None` on success; otherwise the reported error.
    pub err: Option<Chip8Error>,
}

/// A successful outcome.
pub open spec fn ok_step(post: Chip8View) -> StepOutcome {
    StepOutcome { post, err: None }
}

/// A failed outcome.
pub open spec fn fail_step(post: Chip8View, e: Chip8Error) -> StepOutcome {
    StepOutcome { post, err: Some(e) }
}

/// Whether an execution result agrees with a modelled outcome.
pub open spec fn agrees(r: Result<(), Chip8Error>, e: Option<Chip8Error>) -> bool {
    match e {
        None => r is Ok,
        Some(err) => r matches Err(a) && a == err,
    }
}

/// The one relation every execution step satisfies: the final state and
/// result are those of `step` for some byte `rb` drawn by the random
/// instruction (`rb` is irrelevant to every other instruction).
pub open spec fn step_matches(
    pre: Chip8View,
    d: Instruction,
    rb: u8,
    post: Chip8View,
    r: Result<(), Chip8Error>,
) -> bool {
    &&& post == step(pre, d, rb).post
    &&& agrees(r, step(pre, d, rb).err)
}

// Per-instruction transitions. Register indices are mathematical
// integers here; the dispatcher guarantees they are below 16.

/// 00E0: every framebuffer cell zeroed, the updated flag raised.
pub open spec fn op_cls(v: Chip8View) -> Chip8View {
    Chip8View { fb: Seq::new(v.fb.len(), |k: int| 0u8), updated: true, ..v }
}

/// 00EE: return from a subroutine; fails on an empty stack.
pub open spec fn op_ret(v: Chip8View) -> StepOutcome {
    if v.sp == 0 {
        fail_step(v, Chip8Error::SPOverflow(0))
    } else {
        ok_step(Chip8View { pc: v.stack[v.sp - 1], sp: (v.sp - 1) as u8, ..v })
    }
}

/// 1NNN: jump.
pub open spec fn op_jump(v: Chip8View, nnn: u16) -> Chip8View {
    Chip8View { pc: nnn, ..v }
}

/// 2NNN: call a subroutine, pushing the already-advanced program
/// counter; fails when all 16 stack slots are occupied.
pub open spec fn op_call(v: Chip8View, nnn: u16) -> StepOutcome {
    if v.sp >= 16 {
        fail_step(v, Chip8Error::SPError(v.sp))
    } else {
        ok_step(
            Chip8View {
                stack: v.stack.update(v.sp as int, v.pc),
                sp: (v.sp + 1) as u8,
                pc: nnn,
                ..v
            },
        )
    }
}

/// BNNN: jump to NNN plus V0, wrapping as a 16-bit value.
pub open spec fn op_jump_v0(v: Chip8View, nnn: u16) -> Chip8View {
    Chip8View { pc: add16(nnn, v.regs[0] as u16), ..v }
}

/// The program counter advanced over one extra instruction.
pub open spec fn skip2(v: Chip8View) -> Chip8View {
    Chip8View { pc: add16(v.pc, 2), ..v }
}

/// 6XNN: load an immediate.
pub open spec fn op_set_vx(v: Chip8View, x: int, nn: u8) -> Chip8View {
    Chip8View { regs: v.regs.update(x, nn), ..v }
}

/// 7XNN: add an immediate, wrapping, no flag.
pub open spec fn op_add_nn(v: Chip8View, x: int, nn: u8) -> Chip8View {
    Chip8View { regs: v.regs.update(x, add8(v.regs[x], nn)), ..v }
}

/// 8XY0: copy Vy into Vx.
pub open spec fn op_mov(v: Chip8View, x: int, y: int) -> Chip8View {
    Chip8View { regs: v.regs.update(x, v.regs[y]), ..v }
}

/// 8XY1: bitwise or.
pub open spec fn op_or(v: Chip8View, x: int, y: int) -> Chip8View {
    Chip8View { regs: v.regs.update(x, v.regs[x] | v.regs[y]), ..v }
}

/// 8XY2: bitwise and.
pub open spec fn op_and(v: Chip8View, x: int, y: int) -> Chip8View {
    Chip8View { regs: v.regs.update(x, v.regs[x] & v.regs[y]), ..v }
}

/// 8XY3: bitwise xor.
pub open spec fn op_xor(v: Chip8View, x: int, y: int) -> Chip8View {
    Chip8View { regs: v.regs.update(x, v.regs[x] ^ v.regs[y]), ..v }
}

/// 8XY4: add with carry: the sum wraps and VF reports the carry.
pub open spec fn op_add_vxvy(v: Chip8View, x: int, y: int) -> Chip8View {
    let carry: u8 = if v.regs[x] + v.regs[y] > 255 {
        1u8
    } else {
        0u8
    };
    Chip8View { regs: v.regs.update(x, add8(v.regs[x], v.regs[y])).update(15, carry), ..v }
}

/// 8XY5: subtract with not-borrow: VF is 1 exactly when Vx >= Vy.
pub open spec fn op_sub_vxvy(v: Chip8View, x: int, y: int) -> Chip8View {
    let no_borrow: u8 = if v.regs[x] >= v.regs[y] {
        1u8
    } else {
        0u8
    };
    Chip8View { regs: v.regs.update(x, sub8(v.regs[x], v.regs[y])).update(15, no_borrow), ..v }
}

/// 8XY6: shift right; VF receives the bit shifted out.
pub open spec fn op_shr(v: Chip8View, x: int) -> Chip8View {
    Chip8View { regs: v.regs.update(x, v.regs[x] / 2).update(15, v.regs[x] % 2), ..v }
}

/// 8XY7: reverse subtract: Vx := Vy - Vx, VF is 1 exactly when Vy >= Vx.
pub open spec fn op_subn(v: Chip8View, x: int, y: int) -> Chip8View {
    let no_borrow: u8 = if v.regs[y] >= v.regs[x] {
        1u8
    } else {
        0u8
    };
    Chip8View { regs: v.regs.update(x, sub8(v.regs[y], v.regs[x])).update(15, no_borrow), ..v }
}

/// 8XYE: shift left; VF receives the bit shifted out.
pub open spec fn op_shl(v: Chip8View, x: int) -> Chip8View {
    Chip8View { regs: v.regs.update(x, mul2_trunc(v.regs[x])).update(15, v.regs[x] / 128), ..v }
}

/// An 8-bit value doubled, with the high bit discarded.
pub open spec fn mul2_trunc(a: u8) -> u8 {
    ((a * 2) % 256) as u8
}

/// CXNN: the drawn byte masked by NN lands in Vx.
pub open spec fn op_rand(v: Chip8View, x: int, nn: u8, rb: u8) -> Chip8View {
    Chip8View { regs: v.regs.update(x, rb & nn), ..v }
}

/// ANNN: set the index register.
pub open spec fn op_set_i(v: Chip8View, nnn: u16) -> Chip8View {
    Chip8View { i: nnn, ..v }
}

/// FX1E: add Vx to the index register, wrapping as a 16-bit value, no
/// flag.
pub open spec fn op_add_i(v: Chip8View, x: int) -> Chip8View {
    Chip8View { i: add16(v.i, v.regs[x] as u16), ..v }
}

/// FX29: point the index register at the font glyph for Vx. The
/// register is not masked to 4 bits: values above 15 address past the
/// font table.
pub open spec fn op_font(v: Chip8View, x: int) -> Chip8View {
    Chip8View { i: (FONT_START_ADDRESS + v.regs[x] * 5) as u16, ..v }
}

/// FX07: read the delay timer into Vx.
pub open spec fn op_get_dt(v: Chip8View, x: int) -> Chip8View {
    Chip8View { regs: v.regs.update(x, v.dt), ..v }
}

/// FX15: set the delay timer from Vx.
pub open spec fn op_set_dt(v: Chip8View, x: int) -> Chip8View {
    Chip8View { dt: v.regs[x], ..v }
}

/// FX18: set the sound timer from Vx.
pub open spec fn op_set_st(v: Chip8View, x: int) -> Chip8View {
    Chip8View { st: v.regs[x], ..v }
}

/// The three decimal digits of an 8-bit value, most significant first.
pub open spec fn bcd_digits(vx: u8) -> Seq<u8> {
    seq![vx / 100, (vx % 100) / 10, vx % 10]
}

/// FX33: write the decimal digits of Vx at I, I+1, I+2; fails when the
/// three bytes do not fit, leaving memory untouched.
pub open spec fn op_bcd(v: Chip8View, x: int) -> StepOutcome {
    if v.i + 3 <= v.mem.len() {
        ok_step(Chip8View { mem: write_range(v.mem, v.i as int, bcd_digits(v.regs[x])), ..v })
    } else {
        fail_step(v, Chip8Error::IndexError(v.i))
    }
}

/// FX55: copy V0..=Vx into memory at I; atomic, I unchanged.
pub open spec fn op_store_regs(v: Chip8View, x: int) -> StepOutcome {
    if v.i + x + 1 <= v.mem.len() {
        ok_step(Chip8View { mem: write_range(v.mem, v.i as int, v.regs.subrange(0, x + 1)), ..v })
    } else {
        fail_step(v, Chip8Error::IndexError(v.i))
    }
}

/// FX65: load V0..=Vx from memory at I; I unchanged.
pub open spec fn op_load_regs(v: Chip8View, x: int) -> StepOutcome {
    if v.i + x + 1 <= v.mem.len() {
        ok_step(
            Chip8View {
                regs: Seq::new(
                    v.regs.len(),
                    |k: int|
                        if k <= x {
                            v.mem[v.i + k]
                        } else {
                            v.regs[k]
                        },
                ),
                ..v
            },
        )
    } else {
        fail_step(v, Chip8Error::IndexError(v.i))
    }
}

/// The lowest pressed key index, or 16 when none is pressed, scanning
/// from `k` upward.
pub open spec fn first_key(keys: Seq<u8>, k: int) -> int
    decreases 16 - k,
{
    if k >= 16 {
        16
    } else if keys[k] != 0 {
        k
    } else {
        first_key(keys, k + 1)
    }
}

/// FX0A: when a key is pressed, the lowest pressed index lands in Vx;
/// otherwise the program counter is rewound so the instruction repeats
/// on the next cycle.
pub open spec fn op_wait_key(v: Chip8View, x: int) -> Chip8View {
    let k = first_key(v.keys, 0);
    if k < 16 {
        Chip8View { regs: v.regs.update(x, k as u8), ..v }
    } else {
        Chip8View { pc: pc_rewound(v.pc), ..v }
    }
}

// Sprite drawing, in the order the machine performs it: rows from the
// top, columns from the left, each sprite bit XORed onto its pixel.

/// One column step of a sprite row folded over (framebuffer, collision):
/// columns `0..ncols` of `byte` applied at row `ypos`, columns whose
/// pixel would fall right of the screen skipped.
pub open spec fn draw_row(
    st: (Seq<u8>, bool),
    byte: u8,
    xc: int,
    ypos: int,
    ncols: int,
) -> (Seq<u8>, bool)
    decreases ncols,
{
    if ncols <= 0 {
        st
    } else {
        let prev = draw_row(st, byte, xc, ypos, ncols - 1);
        let col = ncols - 1;
        let xpos = xc + col;
        if xpos < 64 && byte & (0x80u8 >> (col as u8)) != 0 {
            let p = ypos * 64 + xpos;
            (prev.0.update(p, prev.0[p] ^ 1), prev.1 || prev.0[p] == 1)
        } else {
            prev
        }
    }
}

/// Rows `0..nrows` of the sprite at memory address `i` applied at origin
/// `(xc, yc)`.
pub open spec fn draw_rows(
    st: (Seq<u8>, bool),
    mem: Seq<u8>,
    i: int,
    xc: int,
    yc: int,
    nrows: int,
) -> (Seq<u8>, bool)
    decreases nrows,
{
    if nrows <= 0 {
        st
    } else {
        let prev = draw_rows(st, mem, i, xc, yc, nrows - 1);
        draw_row(prev, mem[i + nrows - 1], xc, yc + nrows - 1, 8)
    }
}

/// How many sprite rows fit on the screen: the origin wraps modulo the
/// screen size, and rows below the bottom edge are clipped.
pub open spec fn draw_rows_fit(v: Chip8View, x: int, y: int, n: u8) -> int {
    vstd::math::min(n as int, 32 - (v.regs[y] % 32))
}

/// How many sprite rows have their byte inside memory.
pub open spec fn draw_rows_readable(v: Chip8View) -> int {
    if v.i >= RAM_SIZE {
        0
    } else {
        RAM_SIZE - v.i
    }
}

/// DXYN: XOR an 8-wide, N-tall sprite read from memory at I onto the
/// framebuffer at origin (Vx mod 64, Vy mod 32). Pixels past the right
/// or bottom edge are clipped. VF reports whether any pixel was turned
/// off. Fails with an index error when a row's byte lies outside
/// memory; the rows before it stay drawn and the updated flag is left
/// alone, while on success it is raised.
pub open spec fn op_draw(v: Chip8View, x: int, y: int, n: u8) -> StepOutcome {
    let xc = (v.regs[x] % 64) as int;
    let yc = (v.regs[y] % 32) as int;
    let fit = draw_rows_fit(v, x, y, n);
    let readable = draw_rows_readable(v);
    let m = vstd::math::min(fit, readable);
    let st = draw_rows((v.fb, false), v.mem, v.i as int, xc, yc, m);
    let vf: u8 = if st.1 {
        1u8
    } else {
        0u8
    };
    if fit <= readable {
        ok_step(Chip8View { fb: st.0, regs: v.regs.update(15, vf), updated: true, ..v })
    } else {
        fail_step(
            Chip8View { fb: st.0, regs: v.regs.update(15, vf), ..v },
            Chip8Error::IndexError((v.i + readable) as u16),
        )
    }
}

/// Whether the pixel at framebuffer index `p` lies under a set bit of
/// the sprite row `byte` placed at column `xc` on screen row `ypos`,
/// among the first `ncols` columns.
pub open spec fn row_hit(byte: u8, xc: int, ypos: int, ncols: int, p: int) -> bool {
    &&& p / 64 == ypos
    &&& xc <= p % 64 < xc + ncols
    &&& byte & (0x80u8 >> ((p % 64 - xc) as u8)) != 0
}

/// Whether the pixel at framebuffer index `p` lies under a set bit of
/// the `nrows`-row sprite at memory address `i`, drawn at `(xc, yc)`.
/// Pixels right of the screen edge never satisfy this: `p % 64` is
/// always below 64, which is the clipping rule itself.
pub open spec fn sprite_hit(mem: Seq<u8>, i: int, xc: int, yc: int, nrows: int, p: int) -> bool {
    &&& yc <= p / 64 < yc + nrows
    &&& xc <= p % 64 < xc + 8
    &&& mem[i + (p / 64 - yc)] & (0x80u8 >> ((p % 64 - xc) as u8)) != 0
}

/// What one sprite row does, pixel by pixel: exactly the pixels under a
/// set bit are flipped, and the collision flag accumulates whether any
/// flipped pixel was lit beforehand.
pub proof fn lemma_draw_row_pointwise(
    st: (Seq<u8>, bool),
    byte: u8,
    xc: int,
    ypos: int,
    ncols: int,
)
    requires
        st.0.len() == 2048,
        0 <= xc < 64,
        0 <= ypos < 32,
        0 <= ncols <= 8,
    ensures
        draw_row(st, byte, xc, ypos, ncols).0.len() == 2048,
        forall|p: int|
            0 <= p < 2048 ==> draw_row(st, byte, xc, ypos, ncols).0[p] == (if row_hit(
                byte,
                xc,
                ypos,
                ncols,
                p,
            ) {
                st.0[p] ^ 1
            } else {
                st.0[p]
            }),
        draw_row(st, byte, xc, ypos, ncols).1 <==> (st.1 || exists|p: int|
            0 <= p < 2048 && row_hit(byte, xc, ypos, ncols, p) && st.0[p] == 1),
    decreases ncols,
{
    if ncols > 0 {
        lemma_draw_row_pointwise(st, byte, xc, ypos, ncols - 1);
        let prev = draw_row(st, byte, xc, ypos, ncols - 1);
        let out = draw_row(st, byte, xc, ypos, ncols);
        let col = ncols - 1;
        let xpos = xc + col;
        if xpos < 64 && byte & (0x80u8 >> (col as u8)) != 0 {
            let p0 = ypos * 64 + xpos;
            assert(p0 / 64 == ypos && p0 % 64 == xpos) by (nonlinear_arith)
                requires
                    0 <= xpos < 64,
                    0 <= ypos,
                    p0 == ypos * 64 + xpos,
            ;
            assert(0 <= p0 < 2048);
            // The earlier columns never touched this pixel.
            assert(!row_hit(byte, xc, ypos, ncols - 1, p0));
            assert(prev.0[p0] == st.0[p0]);
            assert(row_hit(byte, xc, ypos, ncols, p0));
            assert forall|p: int| 0 <= p < 2048 implies out.0[p] == (if row_hit(
                byte,
                xc,
                ypos,
                ncols,
                p,
            ) {
                st.0[p] ^ 1
            } else {
                st.0[p]
            }) by {
                vstd::arithmetic::div_mod::lemma_fundamental_div_mod(p, 64);
                if p != p0 {
                    // A pixel of this row in this column would be p0
                    // itself, so the hit sets for ncols and ncols - 1
                    // agree away from p0.
                    assert(row_hit(byte, xc, ypos, ncols, p) == row_hit(
                        byte,
                        xc,
                        ypos,
                        ncols - 1,
                        p,
                    ));
                }
            }
            // The collision flag: the new column tests the pixel's
            // original value.
            if out.1 {
                if prev.1 {
                    if !st.1 {
                        let q = choose|q: int|
                            0 <= q < 2048 && row_hit(byte, xc, ypos, ncols - 1, q) && st.0[q] == 1;
                        assert(row_hit(byte, xc, ypos, ncols, q) && st.0[q] == 1);
                    }
                } else {
                    assert(st.0[p0] == 1);
                }
            }
            if st.1 || (exists|p: int|
                0 <= p < 2048 && row_hit(byte, xc, ypos, ncols, p) && st.0[p] == 1) {
                if !st.1 && !prev.1 {
                    let q = choose|q: int|
                        0 <= q < 2048 && row_hit(byte, xc, ypos, ncols, q) && st.0[q] == 1;
                    vstd::arithmetic::div_mod::lemma_fundamental_div_mod(q, 64);
                    if q != p0 {
                        assert(row_hit(byte, xc, ypos, ncols - 1, q));
                    }
                    assert(out.1);
                }
            }
        } else {
            // This column is clipped or its bit is clear: nothing
            // changes, and no pixel is newly hit.
            assert forall|p: int| 0 <= p < 2048 implies row_hit(byte, xc, ypos, ncols, p)
                == row_hit(byte, xc, ypos, ncols - 1, p) by {
                vstd::arithmetic::div_mod::lemma_fundamental_div_mod(p, 64);
            }
        }
    }
}

/// What a whole draw does, pixel by pixel: exactly the pixels under a
/// set sprite bit are flipped, and the collision flag says whether any
/// of them was lit beforehand.
pub proof fn lemma_draw_rows_pointwise(
    st: (Seq<u8>, bool),
    mem: Seq<u8>,
    i: int,
    xc: int,
    yc: int,
    nrows: int,
)
    requires
        st.0.len() == 2048,
        0 <= xc < 64,
        0 <= yc,
        yc + nrows <= 32,
    ensures
        draw_rows(st, mem, i, xc, yc, nrows).0.len() == 2048,
        forall|p: int|
            0 <= p < 2048 ==> draw_rows(st, mem, i, xc, yc, nrows).0[p] == (if sprite_hit(
                mem,
                i,
                xc,
                yc,
                nrows,
                p,
            ) {
                st.0[p] ^ 1
            } else {
                st.0[p]
            }),
        draw_rows(st, mem, i, xc, yc, nrows).1 <==> (st.1 || exists|p: int|
            0 <= p < 2048 && sprite_hit(mem, i, xc, yc, nrows, p) && st.0[p] == 1),
    decreases nrows,
{
    if nrows > 0 {
        lemma_draw_rows_pointwise(st, mem, i, xc, yc, nrows - 1);
        let prev = draw_rows(st, mem, i, xc, yc, nrows - 1);
        let ypos = yc + nrows - 1;
        let byte = mem[i + nrows - 1];
        lemma_draw_row_pointwise(prev, byte, xc, ypos, 8);
        let out = draw_rows(st, mem, i, xc, yc, nrows);
        // The pixels of the last row were untouched by the earlier
        // rows, and hitting the last row is exactly hitting the sprite
        // on that screen row.
        assert forall|p: int| 0 <= p < 2048 implies out.0[p] == (if sprite_hit(
            mem,
            i,
            xc,
            yc,
            nrows,
            p,
        ) {
            st.0[p] ^ 1
        } else {
            st.0[p]
        }) by {
            if row_hit(byte, xc, ypos, 8, p) {
                assert(!sprite_hit(mem, i, xc, yc, nrows - 1, p));
                assert(prev.0[p] == st.0[p]);
                assert(sprite_hit(mem, i, xc, yc, nrows, p));
            } else {
                assert(out.0[p] == prev.0[p]);
                assert(sprite_hit(mem, i, xc, yc, nrows, p) == sprite_hit(
                    mem,
                    i,
                    xc,
                    yc,
                    nrows - 1,
                    p,
                ));
            }
        }
        if out.1 {
            if prev.1 {
                if !st.1 {
                    let q = choose|q: int|
                        0 <= q < 2048 && sprite_hit(mem, i, xc, yc, nrows - 1, q) && st.0[q] == 1;
                    assert(sprite_hit(mem, i, xc, yc, nrows, q) && st.0[q] == 1);
                }
            } else {
                let q = choose|q: int|
                    0 <= q < 2048 && row_hit(byte, xc, ypos, 8, q) && prev.0[q] == 1;
                assert(!sprite_hit(mem, i, xc, yc, nrows - 1, q));
                assert(sprite_hit(mem, i, xc, yc, nrows, q) && st.0[q] == 1);
            }
        }
        if st.1 || (exists|p: int|
            0 <= p < 2048 && sprite_hit(mem, i, xc, yc, nrows, p) && st.0[p] == 1) {
            if !st.1 && !out.1 {
                let q = choose|q: int|
                    0 <= q < 2048 && sprite_hit(mem, i, xc, yc, nrows, q) && st.0[q] == 1;
                if sprite_hit(mem, i, xc, yc, nrows - 1, q) {
                    assert(prev.1);
                } else {
                    assert(q / 64 == ypos);
                    assert(row_hit(byte, xc, ypos, 8, q) && prev.0[q] == 1);
                }
                assert(false);
            }
        }
    }
}

/// Applying one sprite row never changes the framebuffer's length.
pub proof fn lemma_draw_row_len(st: (Seq<u8>, bool), byte: u8, xc: int, ypos: int, ncols: int)
    requires
        st.0.len() == 2048,
        0 <= xc,
        0 <= ypos < 32,
    ensures
        draw_row(st, byte, xc, ypos, ncols).0.len() == st.0.len(),
    decreases ncols,
{
    if ncols > 0 {
        lemma_draw_row_len(st, byte, xc, ypos, ncols - 1);
    }
}

/// Drawing any number of sprite rows never changes the framebuffer's
/// length.
pub proof fn lemma_draw_rows_len(
    st: (Seq<u8>, bool),
    mem: Seq<u8>,
    i: int,
    xc: int,
    yc: int,
    nrows: int,
)
    requires
        st.0.len() == 2048,
        0 <= xc,
        0 <= yc,
        yc + nrows <= 32,
    ensures
        draw_rows(st, mem, i, xc, yc, nrows).0.len() == st.0.len(),
    decreases nrows,
{
    if nrows > 0 {
        lemma_draw_rows_len(st, mem, i, xc, yc, nrows - 1);
        lemma_draw_row_len(
            draw_rows(st, mem, i, xc, yc, nrows - 1),
            mem[i + nrows - 1],
            xc,
            yc + nrows - 1,
            8,
        );
    }
}

// Group transitions, mirroring the two-stage dispatch.

/// Flow control: 00EE, 1NNN, 2NNN, BNNN.
pub open spec fn step_flow(v: Chip8View, d: Instruction) -> StepOutcome {
    if d.instr == 0 && d.x == 0 && d.y == 0xE && d.n == 0xE {
        op_ret(v)
    } else if d.instr == 1 {
        ok_step(op_jump(v, d.nnn))
    } else if d.instr == 2 {
        op_call(v, d.nnn)
    } else if d.instr == 0xB {
        ok_step(op_jump_v0(v, d.nnn))
    } else {
        fail_step(v, Chip8Error::InvalidOpCode(d))
    }
}

/// Conditional skips: 3XNN, 4XNN, 5XY0, 9XY0, EX9E, EXA1.
pub open spec fn step_skip(v: Chip8View, d: Instruction) -> StepOutcome {
    if d.instr == 3 {
        ok_step(
            if v.regs[d.x as int] == d.nn {
                skip2(v)
            } else {
                v
            },
        )
    } else if d.instr == 4 {
        ok_step(
            if v.regs[d.x as int] != d.nn {
                skip2(v)
            } else {
                v
            },
        )
    } else if d.instr == 5 && d.n == 0 {
        ok_step(
            if v.regs[d.x as int] == v.regs[d.y as int] {
                skip2(v)
            } else {
                v
            },
        )
    } else if d.instr == 9 && d.n == 0 {
        ok_step(
            if v.regs[d.x as int] != v.regs[d.y as int] {
                skip2(v)
            } else {
                v
            },
        )
    } else if d.instr == 0xE && d.y == 0x9 && d.n == 0xE {
        if v.regs[d.x as int] > 15 {
            fail_step(v, Chip8Error::InvalidKey(v.regs[d.x as int]))
        } else {
            ok_step(
                if v.keys[v.regs[d.x as int] as int] != 0 {
                    skip2(v)
                } else {
                    v
                },
            )
        }
    } else if d.instr == 0xE && d.y == 0xA && d.n == 0x1 {
        if v.regs[d.x as int] > 15 {
            fail_step(v, Chip8Error::InvalidKey(v.regs[d.x as int]))
        } else {
            ok_step(
                if v.keys[v.regs[d.x as int] as int] == 0 {
                    skip2(v)
                } else {
                    v
                },
            )
        }
    } else {
        fail_step(v, Chip8Error::InvalidOpCode(d))
    }
}

/// Register operations: 6XNN, 7XNN and the 8XY_ group.
pub open spec fn step_reg(v: Chip8View, d: Instruction) -> StepOutcome {
    if d.instr == 6 {
        ok_step(op_set_vx(v, d.x as int, d.nn))
    } else if d.instr == 7 {
        ok_step(op_add_nn(v, d.x as int, d.nn))
    } else if d.instr == 8 && d.n == 0 {
        ok_step(op_mov(v, d.x as int, d.y as int))
    } else if d.instr == 8 && d.n == 1 {
        ok_step(op_or(v, d.x as int, d.y as int))
    } else if d.instr == 8 && d.n == 2 {
        ok_step(op_and(v, d.x as int, d.y as int))
    } else if d.instr == 8 && d.n == 3 {
        ok_step(op_xor(v, d.x as int, d.y as int))
    } else if d.instr == 8 && d.n == 4 {
        ok_step(op_add_vxvy(v, d.x as int, d.y as int))
    } else if d.instr == 8 && d.n == 5 {
        ok_step(op_sub_vxvy(v, d.x as int, d.y as int))
    } else if d.instr == 8 && d.n == 6 {
        ok_step(op_shr(v, d.x as int))
    } else if d.instr == 8 && d.n == 7 {
        ok_step(op_subn(v, d.x as int, d.y as int))
    } else if d.instr == 8 && d.n == 0xE {
        ok_step(op_shl(v, d.x as int))
    } else {
        fail_step(v, Chip8Error::InvalidOpCode(d))
    }
}

/// Memory operations: ANNN, FX1E, FX29, FX33, FX55, FX65.
pub open spec fn step_mem(v: Chip8View, d: Instruction) -> StepOutcome {
    if d.instr == 0xA {
        ok_step(op_set_i(v, d.nnn))
    } else if d.instr == 0xF && d.y == 0x1 && d.n == 0xE {
        ok_step(op_add_i(v, d.x as int))
    } else if d.instr == 0xF && d.y == 0x2 && d.n == 0x9 {
        ok_step(op_font(v, d.x as int))
    } else if d.instr == 0xF && d.y == 0x3 && d.n == 0x3 {
        op_bcd(v, d.x as int)
    } else if d.instr == 0xF && d.y == 0x5 && d.n == 0x5 {
        op_store_regs(v, d.x as int)
    } else if d.instr == 0xF && d.y == 0x6 && d.n == 0x5 {
        op_load_regs(v, d.x as int)
    } else {
        fail_step(v, Chip8Error::InvalidOpCode(d))
    }
}

/// Display operations: 00E0 and DXYN.
pub open spec fn step_display(v: Chip8View, d: Instruction) -> StepOutcome {
    if d.instr == 0 && d.x == 0 && d.y == 0xE && d.n == 0 {
        ok_step(op_cls(v))
    } else if d.instr == 0xD {
        op_draw(v, d.x as int, d.y as int, d.n)
    } else {
        fail_step(v, Chip8Error::InvalidOpCode(d))
    }
}

/// Input/output operations: FX0A.
pub open spec fn step_io(v: Chip8View, d: Instruction) -> StepOutcome {
    if d.instr == 0xF && d.y == 0x0 && d.n == 0xA {
        ok_step(op_wait_key(v, d.x as int))
    } else {
        fail_step(v, Chip8Error::InvalidOpCode(d))
    }
}

/// Timer operations: FX07, FX15, FX18.
pub open spec fn step_timer(v: Chip8View, d: Instruction) -> StepOutcome {
    if d.instr == 0xF && d.y == 0x0 && d.n == 0x7 {
        ok_step(op_get_dt(v, d.x as int))
    } else if d.instr == 0xF && d.y == 0x1 && d.n == 0x5 {
        ok_step(op_set_dt(v, d.x as int))
    } else if d.instr == 0xF && d.y == 0x1 && d.n == 0x8 {
        ok_step(op_set_st(v, d.x as int))
    } else {
        fail_step(v, Chip8Error::InvalidOpCode(d))
    }
}

/// Random operations: CXNN, with `rb` the byte the generator drew.
pub open spec fn step_rand(v: Chip8View, d: Instruction, rb: u8) -> StepOutcome {
    if d.instr == 0xC {
        ok_step(op_rand(v, d.x as int, d.nn, rb))
    } else {
        fail_step(v, Chip8Error::InvalidOpCode(d))
    }
}

/// Executing one decoded instruction: classify, then apply the group's
/// transition. An unmatched combination yields an invalid-opcode error
/// and leaves the state untouched.
pub open spec fn step(v: Chip8View, d: Instruction, rb: u8) -> StepOutcome {
    match spec_instruction_type(d) {
        InstructionType::FlowControl => step_flow(v, d),
        InstructionType::ConditionalSkip => step_skip(v, d),
        InstructionType::RegisterOp => step_reg(v, d),
        InstructionType::MemoryOp => step_mem(v, d),
        InstructionType::Display => step_display(v, d),
        InstructionType::InputOutput => step_io(v, d),
        InstructionType::Timer => step_timer(v, d),
        InstructionType::Random => step_rand(v, d, rb),
    }
}

} // verus!
