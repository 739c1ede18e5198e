//! General laws of the machine, proved from the model in
//! [`crate::semantics`].

use vstd::prelude::*;

use crate::instruction::Instruction;
use crate::semantics::{
    after_fetch, draw_rows, fetch_ok, fetched, first_key, init_view, lemma_draw_rows_pointwise,
    op_call, op_ret, reset_view, sprite_hit, step, Chip8View,
};
use crate::Chip8Error;

verus! {

/// Resetting is idempotent: resetting twice in a row lands in exactly
/// the state one reset produces, whatever state the machine started in.
pub proof fn lemma_reset_idempotent(v: Chip8View)
    ensures
        reset_view(reset_view(v)) == reset_view(v),
        reset_view(v) == init_view(),
{
}

/// A call followed by a return is a round trip: with room on the stack,
/// calling a subroutine and returning restores the program counter and
/// the stack pointer, and touches nothing else but the slot the call
/// wrote. Since the fetch that precedes the call has already advanced
/// the program counter past the call instruction, the restored counter
/// is the address of the instruction after the call.
pub proof fn lemma_call_then_return(v: Chip8View, nnn: u16)
    requires
        v.wf(),
        v.sp < 16,
    ensures
        op_call(v, nnn).err is None,
        op_call(v, nnn).post.pc == nnn,
        op_call(v, nnn).post.stack[v.sp as int] == v.pc,
        op_ret(op_call(v, nnn).post).err is None,
        op_ret(op_call(v, nnn).post).post == (Chip8View {
            stack: v.stack.update(v.sp as int, v.pc),
            ..v
        }),
{
    assert(op_ret(op_call(v, nnn).post).post =~= (Chip8View {
        stack: v.stack.update(v.sp as int, v.pc),
        ..v
    }));
}

/// Nested calls return in LIFO order: after two calls, the first
/// return restores the site of the second call, and the second return
/// restores the site of the first.
pub proof fn lemma_nested_calls_unwind_in_order(v: Chip8View, nnn1: u16, nnn2: u16)
    requires
        v.wf(),
        v.sp + 2 <= 16,
    ensures
        ({
            let once = op_call(v, nnn1).post;
            let twice = op_call(once, nnn2).post;
            &&& op_call(v, nnn1).err is None
            &&& op_call(once, nnn2).err is None
            &&& op_ret(twice).post.pc == once.pc
            &&& op_ret(op_ret(twice).post).post.pc == v.pc
        }),
{
}

/// An invalid opcode mutates nothing: whenever a step reports an
/// invalid-opcode error, the state after the step is exactly the state
/// before it.
pub proof fn lemma_invalid_opcode_preserves_state(v: Chip8View, d: Instruction, rb: u8)
    requires
        step(v, d, rb).err matches Some(e) && e matches Chip8Error::InvalidOpCode(f),
    ensures
        step(v, d, rb).post == v,
{
}

/// `first_key` finds the lowest pressed key: scanning from `k`, the
/// result is 16 exactly when no key at or above `k` is pressed, and
/// otherwise it is a pressed index with every lower index (at or above
/// `k`) unpressed.
pub proof fn lemma_first_key_is_least(keys: Seq<u8>, k: int)
    requires
        0 <= k <= 16,
    ensures
        k <= first_key(keys, k) <= 16,
        first_key(keys, k) < 16 ==> keys[first_key(keys, k)] != 0,
        forall|j: int| k <= j < first_key(keys, k) ==> keys[j] == 0,
        first_key(keys, k) == 16 ==> forall|j: int| k <= j < 16 ==> keys[j] == 0,
    decreases 16 - k,
{
    if k < 16 && keys[k] == 0 {
        lemma_first_key_is_least(keys, k + 1);
    }
}

/// The key-wait instruction is a poll, not a block: when no key is
/// pressed, one whole cycle on it leaves the program counter exactly
/// where it started (the fetch advance and the rewind cancel), and
/// every other component untouched, so the same instruction is fetched
/// again on the next cycle.
pub proof fn lemma_key_wait_polls(v: Chip8View, rb: u8)
    requires
        v.wf(),
        fetch_ok(v),
        fetched(v).instr == 0xF,
        fetched(v).y == 0x0,
        fetched(v).n == 0xA,
        forall|k: int| 0 <= k < 16 ==> v.keys[k] == 0,
    ensures
        step(after_fetch(v), fetched(v), rb).err is None,
        step(after_fetch(v), fetched(v), rb).post == v,
{
    lemma_first_key_is_least(v.keys, 0);
    assert(first_key(v.keys, 0) == 16);
    assert(step(after_fetch(v), fetched(v), rb).post =~= v);
}

/// When some key is pressed, one whole cycle on the key-wait
/// instruction stores the lowest pressed key index in Vx and lets the
/// program counter keep its normal advance.
pub proof fn lemma_key_wait_captures_lowest(v: Chip8View, rb: u8)
    requires
        v.wf(),
        fetch_ok(v),
        fetched(v).instr == 0xF,
        fetched(v).y == 0x0,
        fetched(v).n == 0xA,
        exists|k: int| 0 <= k < 16 && v.keys[k] != 0,
    ensures
        ({
            let low = first_key(v.keys, 0);
            let out = step(after_fetch(v), fetched(v), rb);
            &&& out.err is None
            &&& 0 <= low < 16
            &&& v.keys[low] != 0
            &&& forall|j: int| 0 <= j < low ==> v.keys[j] == 0
            &&& out.post == (Chip8View {
                pc: (v.pc + 2) as u16,
                regs: v.regs.update(fetched(v).x as int, low as u8),
                ..v
            })
        }),
{
    lemma_first_key_is_least(v.keys, 0);
    let low = first_key(v.keys, 0);
    if low == 16 {
        let k = choose|k: int| 0 <= k < 16 && v.keys[k] != 0;
        assert(v.keys[k] == 0);
    }
    assert(step(after_fetch(v), fetched(v), rb).post =~= (Chip8View {
        pc: (v.pc + 2) as u16,
        regs: v.regs.update(fetched(v).x as int, low as u8),
        ..v
    }));
}

/// Sprite drawing is a screen XOR: the first draw lights exactly the
/// pixels under visible set sprite bits and reports a collision
/// exactly when one of them was already lit; drawing the same sprite
/// again at the same spot restores the framebuffer, and that second
/// draw reports a collision exactly when the first draw turned some
/// pixel on.
pub proof fn lemma_draw_twice_restores(
    fb: Seq<u8>,
    mem: Seq<u8>,
    i: int,
    xc: int,
    yc: int,
    nrows: int,
)
    requires
        fb.len() == 2048,
        0 <= xc < 64,
        0 <= yc,
        yc + nrows <= 32,
    ensures
        ({
            let first = draw_rows((fb, false), mem, i, xc, yc, nrows);
            let second = draw_rows((first.0, false), mem, i, xc, yc, nrows);
            &&& (first.1 <==> exists|p: int|
                0 <= p < 2048 && sprite_hit(mem, i, xc, yc, nrows, p) && fb[p] == 1)
            &&& second.0 == fb
            &&& (second.1 <==> exists|p: int|
                0 <= p < 2048 && sprite_hit(mem, i, xc, yc, nrows, p) && fb[p] == 0)
        }),
{
    lemma_draw_rows_pointwise((fb, false), mem, i, xc, yc, nrows);
    let first = draw_rows((fb, false), mem, i, xc, yc, nrows);
    lemma_draw_rows_pointwise((first.0, false), mem, i, xc, yc, nrows);
    let second = draw_rows((first.0, false), mem, i, xc, yc, nrows);

    assert forall|p: int| 0 <= p < 2048 implies second.0[p] == fb[p] by {
        let a = fb[p];
        assert((a ^ 1) ^ 1 == a) by (bit_vector);
    }
    assert(second.0 =~= fb);

    // The second draw collides exactly on the pixels the first draw
    // turned on: a flipped dark pixel.
    if second.1 {
        let q = choose|q: int|
            0 <= q < 2048 && sprite_hit(mem, i, xc, yc, nrows, q) && first.0[q] == 1;
        let a = fb[q];
        assert((a ^ 1 == 1) <==> a == 0) by (bit_vector);
        assert(fb[q] == 0);
    }
    if exists|p: int| 0 <= p < 2048 && sprite_hit(mem, i, xc, yc, nrows, p) && fb[p] == 0 {
        let q = choose|q: int| 0 <= q < 2048 && sprite_hit(mem, i, xc, yc, nrows, q) && fb[q] == 0;
        let a = fb[q];
        assert((a ^ 1 == 1) <==> a == 0) by (bit_vector);
        assert(first.0[q] == 1);
        assert(second.1);
    }
}

/// Every step preserves well-formedness: component sizes and the stack
/// pointer's range survive every instruction, whether it succeeds or
/// fails.
pub proof fn lemma_step_preserves_wf(v: Chip8View, d: Instruction, rb: u8)
    requires
        v.wf(),
        d.wf(),
    ensures
        step(v, d, rb).post.wf(),
{
    if d.instr == 0xD {
        let xc = (v.regs[d.x as int] % 64) as int;
        let yc = (v.regs[d.y as int] % 32) as int;
        let fit = crate::semantics::draw_rows_fit(v, d.x as int, d.y as int, d.n);
        let readable = crate::semantics::draw_rows_readable(v);
        let m = vstd::math::min(fit, readable);
        crate::semantics::lemma_draw_rows_len((v.fb, false), v.mem, v.i as int, xc, yc, m);
    }
}

} // verus!
