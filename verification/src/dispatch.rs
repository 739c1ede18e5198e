//! The two-stage opcode dispatch.
//!
//! An instruction is first classified by
//! [`crate::instruction::Instruction::instruction_type`], then routed to
//! the matching group of handlers. A combination that no arm matches
//! yields an invalid-opcode error carrying the decoded fields, before
//! any state is written.

use vstd::prelude::*;

use crate::instruction::{Instruction, InstructionType};
use crate::semantics::{
    agrees, op_rand, step_display, step_flow, step_io, step_matches, step_mem, step_rand,
    step_reg, step_skip, step_timer,
};
use crate::{Chip8, Chip8Error};

verus! {

impl Chip8 {
    /// Executes one decoded instruction: the machine takes exactly the
    /// step that [`crate::semantics::step`] describes, for some byte
    /// `rb` drawn by the random instruction.
    pub(crate) fn execute_instruction(&mut self, instruction: &Instruction) -> (r: Result<
        (),
        Chip8Error,
    >)
        requires
            old(self)@.wf(),
            instruction.wf(),
        ensures
            final(self)@.wf(),
            exists|rb: u8| step_matches(old(self)@, *instruction, rb, final(self)@, r),
            instruction.instr != 0xC ==> step_matches(
                old(self)@,
                *instruction,
                0u8,
                final(self)@,
                r,
            ),
    {
        match instruction.instruction_type() {
            InstructionType::FlowControl => {
                let r = self.execute_flow_control(instruction);
                proof {
                    assert(step_matches(old(self)@, *instruction, 0u8, self@, r));
                }
                r
            },
            InstructionType::ConditionalSkip => {
                let r = self.execute_conditional_skip(instruction);
                proof {
                    assert(step_matches(old(self)@, *instruction, 0u8, self@, r));
                }
                r
            },
            InstructionType::RegisterOp => {
                let r = self.execute_register_operation(instruction);
                proof {
                    assert(step_matches(old(self)@, *instruction, 0u8, self@, r));
                }
                r
            },
            InstructionType::MemoryOp => {
                let r = self.execute_memory_operation(instruction);
                proof {
                    assert(step_matches(old(self)@, *instruction, 0u8, self@, r));
                }
                r
            },
            InstructionType::Display => {
                let r = self.execute_display_operation(instruction);
                proof {
                    assert(step_matches(old(self)@, *instruction, 0u8, self@, r));
                }
                r
            },
            InstructionType::InputOutput => {
                let r = self.execute_input_output(instruction);
                proof {
                    assert(step_matches(old(self)@, *instruction, 0u8, self@, r));
                }
                r
            },
            InstructionType::Timer => {
                let r = self.execute_timer_operation(instruction);
                proof {
                    assert(step_matches(old(self)@, *instruction, 0u8, self@, r));
                }
                r
            },
            InstructionType::Random => {
                let r = self.execute_random_operation(instruction);
                proof {
                    let rb = choose|rb: u8|
                        self@ == step_rand(old(self)@, *instruction, rb).post && agrees(
                            r,
                            step_rand(old(self)@, *instruction, rb).err,
                        );
                    assert(step_matches(old(self)@, *instruction, rb, self@, r));
                }
                r
            },
        }
    }

    /// 00EE, 1NNN, 2NNN, BNNN: realizes [`step_flow`].
    pub(crate) fn execute_flow_control(&mut self, instruction: &Instruction) -> (r: Result<
        (),
        Chip8Error,
    >)
        requires
            old(self)@.wf(),
            instruction.wf(),
        ensures
            final(self)@.wf(),
            final(self)@ == step_flow(old(self)@, *instruction).post,
            agrees(r, step_flow(old(self)@, *instruction).err),
    {
        let (instr, x, y, n) = (
            instruction.instruction(),
            instruction.x(),
            instruction.y(),
            instruction.n(),
        );
        let nnn = instruction.nnn();

        match (instr, x, y, n) {
            (0, 0, 0xE, 0xE) => self.return_from_subroutine(),
            (1, _, _, _) => self.jump_to_address(nnn),
            (2, _, _, _) => self.call_subroutine(nnn),
            (0xB, _, _, _) => self.jump_to_v0_plus_nnn(nnn),
            _ => Err(Chip8Error::InvalidOpCode(*instruction)),
        }
    }

    /// 3XNN, 4XNN, 5XY0, 9XY0, EX9E, EXA1: realizes [`step_skip`].
    pub(crate) fn execute_conditional_skip(&mut self, instruction: &Instruction) -> (r: Result<
        (),
        Chip8Error,
    >)
        requires
            old(self)@.wf(),
            instruction.wf(),
        ensures
            final(self)@.wf(),
            final(self)@ == step_skip(old(self)@, *instruction).post,
            agrees(r, step_skip(old(self)@, *instruction).err),
    {
        let (instr, x, y, n) = (
            instruction.instruction(),
            instruction.x(),
            instruction.y(),
            instruction.n(),
        );
        let nn = instruction.nn();

        match (instr, x, y, n) {
            (3, _, _, _) => self.skip_if_vx_equals_nn(x, nn),
            (4, _, _, _) => self.skip_if_vx_not_equals_nn(x, nn),
            (5, _, _, 0) => self.skip_if_vx_equals_vy(x, y),
            (9, _, _, 0) => self.skip_if_vx_not_equals_vy(x, y),
            (0xE, _, 0x9, 0xE) => self.skip_if_key_pressed(x),
            (0xE, _, 0xA, 0x1) => self.skip_if_key_not_pressed(x),
            _ => Err(Chip8Error::InvalidOpCode(*instruction)),
        }
    }

    /// 6XNN, 7XNN and the 8XY_ group: realizes [`step_reg`].
    pub(crate) fn execute_register_operation(&mut self, instruction: &Instruction) -> (r: Result<
        (),
        Chip8Error,
    >)
        requires
            old(self)@.wf(),
            instruction.wf(),
        ensures
            final(self)@.wf(),
            final(self)@ == step_reg(old(self)@, *instruction).post,
            agrees(r, step_reg(old(self)@, *instruction).err),
    {
        let (instr, x, y, n) = (
            instruction.instruction(),
            instruction.x(),
            instruction.y(),
            instruction.n(),
        );
        let nn = instruction.nn();

        match (instr, x, y, n) {
            (6, _, _, _) => self.set_vx_to_nn(x, nn),
            (7, _, _, _) => self.add_nn_to_vx(x, nn),
            (8, _, _, 0) => self.set_vx_to_vy(x, y),
            (8, _, _, 1) => self.or_vx_vy(x, y),
            (8, _, _, 2) => self.and_vx_vy(x, y),
            (8, _, _, 3) => self.xor_vx_vy(x, y),
            (8, _, _, 4) => self.add_vx_vy(x, y),
            (8, _, _, 5) => self.sub_vx_vy(x, y),
            (8, _, _, 6) => self.shift_vx_right(x),
            (8, _, _, 7) => self.sub_vy_vx(x, y),
            (8, _, _, 0xE) => self.shift_vx_left(x),
            _ => Err(Chip8Error::InvalidOpCode(*instruction)),
        }
    }

    /// ANNN, FX1E, FX29, FX33, FX55, FX65: realizes [`step_mem`].
    pub(crate) fn execute_memory_operation(&mut self, instruction: &Instruction) -> (r: Result<
        (),
        Chip8Error,
    >)
        requires
            old(self)@.wf(),
            instruction.wf(),
        ensures
            final(self)@.wf(),
            final(self)@ == step_mem(old(self)@, *instruction).post,
            agrees(r, step_mem(old(self)@, *instruction).err),
    {
        let (instr, x, y, n) = (
            instruction.instruction(),
            instruction.x(),
            instruction.y(),
            instruction.n(),
        );
        let nnn = instruction.nnn();

        match (instr, x, y, n) {
            (0xA, _, _, _) => self.set_i_to_nnn(nnn),
            (0xF, _, 0x1, 0xE) => self.add_vx_to_i(x),
            (0xF, _, 0x2, 0x9) => self.set_i_to_font_location(x),
            (0xF, _, 0x3, 0x3) => self.store_bcd_of_vx(x),
            (0xF, _, 0x5, 0x5) => self.store_registers_to_memory(x),
            (0xF, _, 0x6, 0x5) => self.load_registers_from_memory(x),
            _ => Err(Chip8Error::InvalidOpCode(*instruction)),
        }
    }

    /// 00E0 and DXYN: realizes [`step_display`].
    pub(crate) fn execute_display_operation(&mut self, instruction: &Instruction) -> (r: Result<
        (),
        Chip8Error,
    >)
        requires
            old(self)@.wf(),
            instruction.wf(),
        ensures
            final(self)@.wf(),
            final(self)@ == step_display(old(self)@, *instruction).post,
            agrees(r, step_display(old(self)@, *instruction).err),
    {
        let (instr, x, y, n) = (
            instruction.instruction(),
            instruction.x(),
            instruction.y(),
            instruction.n(),
        );

        match (instr, x, y, n) {
            (0, 0, 0xE, 0) => self.clear_screen(),
            (0xD, _, _, _) => self.draw_sprite(x, y, n),
            _ => Err(Chip8Error::InvalidOpCode(*instruction)),
        }
    }

    /// FX0A: realizes [`step_io`].
    pub(crate) fn execute_input_output(&mut self, instruction: &Instruction) -> (r: Result<
        (),
        Chip8Error,
    >)
        requires
            old(self)@.wf(),
            instruction.wf(),
        ensures
            final(self)@.wf(),
            final(self)@ == step_io(old(self)@, *instruction).post,
            agrees(r, step_io(old(self)@, *instruction).err),
    {
        let (instr, x, y, n) = (
            instruction.instruction(),
            instruction.x(),
            instruction.y(),
            instruction.n(),
        );

        match (instr, x, y, n) {
            (0xF, _, 0x0, 0xA) => self.wait_for_key_press(x),
            _ => Err(Chip8Error::InvalidOpCode(*instruction)),
        }
    }

    /// FX07, FX15, FX18: realizes [`step_timer`].
    pub(crate) fn execute_timer_operation(&mut self, instruction: &Instruction) -> (r: Result<
        (),
        Chip8Error,
    >)
        requires
            old(self)@.wf(),
            instruction.wf(),
        ensures
            final(self)@.wf(),
            final(self)@ == step_timer(old(self)@, *instruction).post,
            agrees(r, step_timer(old(self)@, *instruction).err),
    {
        let (instr, x, y, n) = (
            instruction.instruction(),
            instruction.x(),
            instruction.y(),
            instruction.n(),
        );

        match (instr, x, y, n) {
            (0xF, _, 0x0, 0x7) => self.set_vx_to_delay_timer(x),
            (0xF, _, 0x1, 0x5) => self.set_delay_timer_to_vx(x),
            (0xF, _, 0x1, 0x8) => self.set_sound_timer_to_vx(x),
            _ => Err(Chip8Error::InvalidOpCode(*instruction)),
        }
    }

    /// CXNN: realizes [`step_rand`] for the byte the generator drew.
    pub(crate) fn execute_random_operation(&mut self, instruction: &Instruction) -> (r: Result<
        (),
        Chip8Error,
    >)
        requires
            old(self)@.wf(),
            instruction.wf(),
        ensures
            final(self)@.wf(),
            exists|rb: u8|
                final(self)@ == step_rand(old(self)@, *instruction, rb).post && agrees(
                    r,
                    step_rand(old(self)@, *instruction, rb).err,
                ),
    {
        let (instr, x, y, n) = (
            instruction.instruction(),
            instruction.x(),
            instruction.y(),
            instruction.n(),
        );
        let nn = instruction.nn();

        match (instr, x, y, n) {
            (0xC, _, _, _) => {
                let r = self.set_vx_to_random_and_nn(x, nn);
                proof {
                    let rb = choose|rb: u8| self@ == op_rand(old(self)@, x as int, nn, rb);
                    assert(self@ == step_rand(old(self)@, *instruction, rb).post && agrees(
                        r,
                        step_rand(old(self)@, *instruction, rb).err,
                    ));
                }
                r
            },
            _ => {
                proof {
                    assert(agrees(
                        Err::<(), Chip8Error>(Chip8Error::InvalidOpCode(*instruction)),
                        step_rand(old(self)@, *instruction, 0u8).err,
                    ));
                }
                Err(Chip8Error::InvalidOpCode(*instruction))
            },
        }
    }
}

} // verus!
