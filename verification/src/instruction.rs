use vstd::prelude::*;

verus! {

/// Categories of CHIP-8 instructions based on their functionality.
///
/// This is a high-level classification of a decoded opcode; the
/// dispatcher routes each category to its group of handlers.
#[derive(Debug, PartialEq, Eq, Clone, Copy, Structural)]
pub enum InstructionType {
    /// Instructions that change program execution flow:
    /// 00EE (ret), 1NNN (jmp), 2NNN (call), BNNN (jmp+V0).
    FlowControl,
    /// Instructions that may skip the next instruction:
    /// 3XNN, 4XNN, 5XY0, 9XY0, EX9E, EXA1.
    ConditionalSkip,
    /// Instructions that manipulate register values directly:
    /// 6XNN, 7XNN and the 8XY_ arithmetic group.
    RegisterOp,
    /// Instructions that involve memory access:
    /// ANNN, FX1E, FX29, FX33, FX55, FX65.
    MemoryOp,
    /// Display instructions: 00E0 (cls) and DXYN (draw).
    Display,
    /// Keyboard interaction: FX0A (wait for key).
    InputOutput,
    /// Timer access: FX07, FX15, FX18.
    Timer,
    /// Random number generation: CXNN.
    Random,
}

/// Decoded representation of a single 16-bit CHIP-8 opcode.
///
/// The parts are:
/// - `instr`: the most significant 4 bits, identifying the instruction group,
/// - `x`: the lower 4 bits of the high byte, typically a register index,
/// - `y`: the upper 4 bits of the low byte, typically another register index,
/// - `n`: the lowest 4 bits, an immediate nibble,
/// - `nn`: the lowest 8 bits, an immediate byte,
/// - `nnn`: the lowest 12 bits, an address.
#[derive(Debug, PartialEq, Eq, Clone, Copy, Structural)]
pub struct Instruction {
    /// The most significant 4 bits of the opcode.
    pub instr: u8,
    /// The second nibble, usually the index of register Vx.
    pub x: usize,
    /// The third nibble, usually the index of register Vy.
    pub y: usize,
    /// The fourth nibble, a 4-bit immediate value.
    pub n: u8,
    /// The low byte, an 8-bit immediate value.
    pub nn: u8,
    /// The low 12 bits, a memory address.
    pub nnn: u16,
}

/// What decoding a 16-bit opcode yields: each field is a direct
/// mask-and-shift of the word.
pub open spec fn spec_decode(opcode: u16) -> Instruction {
    Instruction {
        instr: ((opcode & 0xF000) >> 12) as u8,
        x: ((opcode & 0x0F00) >> 8) as usize,
        y: ((opcode & 0x00F0) >> 4) as usize,
        n: (opcode & 0x000F) as u8,
        nn: (opcode & 0x00FF) as u8,
        nnn: opcode & 0x0FFF,
    }
}

impl Instruction {
    /// Every field of a decoded opcode lies in its nibble/byte/address range.
    pub open spec fn wf(self) -> bool {
        &&& self.instr < 16
        &&& self.x < 16
        &&& self.y < 16
        &&& self.n < 16
        &&& self.nnn < 0x1000
    }

    /// Decodes a 16-bit opcode into its constituent fields.
    pub fn new(opcode: u16) -> (r: Self)
        ensures
            r == spec_decode(opcode),
            r.wf(),
    {
        let instr: u8 = ((opcode & 0xF000) >> 12) as u8;
        let x: usize = ((opcode & 0x0F00) >> 8) as usize;
        let y: usize = ((opcode & 0x00F0) >> 4) as usize;
        let n: u8 = (opcode & 0x000F) as u8;
        let nn: u8 = (opcode & 0x00FF) as u8;
        let nnn: u16 = opcode & 0x0FFF;
        proof {
            lemma_decode_wf(opcode);
        }
        Self { instr, x, y, n, nn, nnn }
    }

    /// Returns the primary 4-bit instruction identifier.
    pub fn instruction(&self) -> (r: u8)
        ensures
            r == self.instr,
    {
        self.instr
    }

    /// Returns the `x` component, typically a register index.
    pub fn x(&self) -> (r: usize)
        ensures
            r == self.x,
    {
        self.x
    }

    /// Returns the `y` component, typically a register index.
    pub fn y(&self) -> (r: usize)
        ensures
            r == self.y,
    {
        self.y
    }

    /// Returns the `n` component, a 4-bit immediate value.
    pub fn n(&self) -> (r: u8)
        ensures
            r == self.n,
    {
        self.n
    }

    /// Returns the `nn` component, an 8-bit immediate value.
    pub fn nn(&self) -> (r: u8)
        ensures
            r == self.nn,
    {
        self.nn
    }

    /// Returns the `nnn` component, a 12-bit address.
    pub fn nnn(&self) -> (r: u16)
        ensures
            r == self.nnn,
    {
        self.nnn
    }

    /// Returns the classification of this instruction.
    pub fn instruction_type(&self) -> (r: InstructionType)
        ensures
            r == spec_instruction_type(*self),
    {
        match (self.instr, self.x, self.y, self.n) {
            // Flow control instructions
            (0, 0, 0xE, 0xE) => InstructionType::FlowControl,  // Return from subroutine
            (1, _, _, _) => InstructionType::FlowControl,  // Jump to address
            (2, _, _, _) => InstructionType::FlowControl,  // Call subroutine
            (0xB, _, _, _) => InstructionType::FlowControl,  // Jump to V0 + NNN
            // Conditional skip instructions
            (3, _, _, _) => InstructionType::ConditionalSkip,  // Skip if Vx == NN
            (4, _, _, _) => InstructionType::ConditionalSkip,  // Skip if Vx != NN
            (5, _, _, 0) => InstructionType::ConditionalSkip,  // Skip if Vx == Vy
            (9, _, _, 0) => InstructionType::ConditionalSkip,  // Skip if Vx != Vy
            (0xE, _, 0x9, 0xE) => InstructionType::ConditionalSkip,  // Skip if key pressed
            (0xE, _, 0xA, 0x1) => InstructionType::ConditionalSkip,  // Skip if key not pressed
            // Register operation instructions
            (6, _, _, _) => InstructionType::RegisterOp,  // Set Vx = NN
            (7, _, _, _) => InstructionType::RegisterOp,  // Add NN to Vx
            (8, _, _, _) => InstructionType::RegisterOp,  // All arithmetic operations
            // Memory operation instructions
            (0xA, _, _, _) => InstructionType::MemoryOp,  // Set I = NNN
            (0xF, _, 0x1, 0xE) => InstructionType::MemoryOp,  // Add Vx to I
            (0xF, _, 0x2, 0x9) => InstructionType::MemoryOp,  // Set I to font location
            (0xF, _, 0x3, 0x3) => InstructionType::MemoryOp,  // Store BCD of Vx
            (0xF, _, 0x5, 0x5) => InstructionType::MemoryOp,  // Store registers to memory
            (0xF, _, 0x6, 0x5) => InstructionType::MemoryOp,  // Load registers from memory
            // Display instructions
            (0, 0, 0xE, 0) => InstructionType::Display,  // Clear screen
            (0xD, _, _, _) => InstructionType::Display,  // Draw sprite
            // Input/output instructions
            (0xF, _, 0x0, 0xA) => InstructionType::InputOutput,  // Wait for key press
            // Timer instructions
            (0xF, _, 0x0, 0x7) => InstructionType::Timer,  // Set Vx to delay timer
            (0xF, _, 0x1, 0x5) => InstructionType::Timer,  // Set delay timer to Vx
            (0xF, _, 0x1, 0x8) => InstructionType::Timer,  // Set sound timer to Vx
            // Random number generation
            (0xC, _, _, _) => InstructionType::Random,  // Set Vx to random & NN
            // Unmatched patterns fall back to flow control; the dispatcher
            // rejects them there as invalid opcodes.
            _ => InstructionType::FlowControl,
        }
    }
}

/// The classification that `instruction_type` computes, as a function of
/// the decoded fields.
pub open spec fn spec_instruction_type(d: Instruction) -> InstructionType {
    if d.instr == 0 && d.x == 0 && d.y == 0xE && d.n == 0xE {
        InstructionType::FlowControl
    } else if d.instr == 1 || d.instr == 2 || d.instr == 0xB {
        InstructionType::FlowControl
    } else if d.instr == 3 || d.instr == 4 {
        InstructionType::ConditionalSkip
    } else if (d.instr == 5 || d.instr == 9) && d.n == 0 {
        InstructionType::ConditionalSkip
    } else if d.instr == 0xE && ((d.y == 0x9 && d.n == 0xE) || (d.y == 0xA && d.n == 0x1)) {
        InstructionType::ConditionalSkip
    } else if d.instr == 6 || d.instr == 7 || d.instr == 8 {
        InstructionType::RegisterOp
    } else if d.instr == 0xA {
        InstructionType::MemoryOp
    } else if d.instr == 0xF && ((d.y == 0x1 && d.n == 0xE) || (d.y == 0x2 && d.n == 0x9) || (d.y
        == 0x3 && d.n == 0x3) || (d.y == 0x5 && d.n == 0x5) || (d.y == 0x6 && d.n == 0x5)) {
        InstructionType::MemoryOp
    } else if (d.instr == 0 && d.x == 0 && d.y == 0xE && d.n == 0) || d.instr == 0xD {
        InstructionType::Display
    } else if d.instr == 0xF && d.y == 0x0 && d.n == 0xA {
        InstructionType::InputOutput
    } else if d.instr == 0xF && ((d.y == 0x0 && d.n == 0x7) || (d.y == 0x1 && d.n == 0x5) || (d.y
        == 0x1 && d.n == 0x8)) {
        InstructionType::Timer
    } else if d.instr == 0xC {
        InstructionType::Random
    } else {
        InstructionType::FlowControl
    }
}

/// Decoded fields always fit their nibble, byte and address ranges.
pub proof fn lemma_decode_wf(opcode: u16)
    ensures
        spec_decode(opcode).wf(),
        spec_decode(opcode).nn < 0x100,
{
    assert(((opcode & 0xF000) >> 12) < 16 && ((opcode & 0x0F00) >> 8) < 16 && ((opcode & 0x00F0)
        >> 4) < 16 && (opcode & 0x000F) < 16 && (opcode & 0x00FF) < 0x100 && (opcode & 0x0FFF)
        < 0x1000) by (bit_vector);
}

} // verus!
