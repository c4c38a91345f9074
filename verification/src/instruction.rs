//! The CHIP-8 instruction set and the opcode decoder.

use vstd::prelude::*;

verus! {

/// One decoded CHIP-8 instruction. Register operands are the 4-bit nibbles of
/// the opcode, immediates are its low byte, addresses its low 12 bits.
#[derive(Debug, Clone, Copy, PartialEq, Eq, Structural)]
pub enum Instruction {
    /// 0x00E0 - Clear the display
    Cls,
    /// 0x00EE - Return from a subroutine
    Ret,
    /// 0x0NNN - Jump to a machine code routine at NNN (ignored by this machine)
    Sys(u16),
    /// 0x1NNN - Jump to address NNN
    Jump(u16),
    /// 0x2NNN - Call subroutine at NNN
    Call(u16),
    /// 0x3XNN - Skip next instruction if VX equals NN
    SkipEqByte(u8, u8),
    /// 0x4XNN - Skip next instruction if VX does not equal NN
    SkipNeByte(u8, u8),
    /// 0x5XY0 - Skip next instruction if VX equals VY
    SkipEqReg(u8, u8),
    /// 0x6XNN - Set VX to NN
    LoadByte(u8, u8),
    /// 0x7XNN - Add NN to VX, wrapping modulo 256
    AddByte(u8, u8),
    /// 0x8XY0 - Set VX to the value of VY
    LoadReg(u8, u8),
    /// 0x8XY1 - Set VX to VX OR VY
    OrReg(u8, u8),
    /// 0x8XY2 - Set VX to VX AND VY
    AndReg(u8, u8),
    /// 0x8XY3 - Set VX to VX XOR VY
    XorReg(u8, u8),
    /// 0x8XY4 - Add VY to VX; VF becomes 1 on carry, else 0
    AddReg(u8, u8),
    /// 0x8XY5 - Subtract VY from VX; VF becomes 1 when no borrow occurs, else 0
    SubReg(u8, u8),
    /// 0x8XY6 - Shift VX right by one; VF becomes the least significant bit of VX before the shift
    ShrReg(u8, u8),
    /// 0x8XY7 - Set VX to VY minus VX; VF becomes 1 when no borrow occurs, else 0
    SubnReg(u8, u8),
    /// 0x8XYE - Shift VX left by one; VF becomes the most significant bit of VX before the shift
    ShlReg(u8, u8),
    /// 0x9XY0 - Skip next instruction if VX does not equal VY
    SkipNeReg(u8, u8),
    /// 0xANNN - Set I to address NNN
    LoadI(u16),
    /// 0xBNNN - Jump to address NNN plus V0
    JumpV0(u16),
    /// 0xCXNN - Set VX to a random byte AND NN
    Rand(u8, u8),
    /// 0xDXYN - Draw the N-byte sprite at address I at position (VX, VY)
    Draw(u8, u8, u8),
    /// 0xEX9E - Skip next instruction if the key with the value of VX is pressed
    SkipIfKey(u8),
    /// 0xEXA1 - Skip next instruction if the key with the value of VX is not pressed
    SkipIfNotKey(u8),
    /// 0xFX07 - Set VX to the value of the delay timer
    LoadDT(u8),
    /// 0xFX0A - Wait for a key press and store the value of the key in VX
    WaitKey(u8),
    /// 0xFX15 - Set the delay timer to VX
    SetDT(u8),
    /// 0xFX18 - Set the sound timer to VX
    SetST(u8),
    /// 0xFX1E - Add VX to I
    AddI(u8),
    /// 0xFX29 - Set I to the address of the font sprite for the digit in VX
    LoadSprite(u8),
    /// 0xFX33 - Store the binary-coded decimal digits of VX at I, I+1 and I+2
    Bcd(u8),
    /// 0xFX55 - Store registers V0 through VX in memory starting at I
    DumpRegs(u8),
    /// 0xFX65 - Read registers V0 through VX from memory starting at I
    LoadRegs(u8),
    /// Any opcode that matches none of the patterns above
    NoOp,
}

/// The X field of an opcode: bits 8-11, the first register operand.
pub open spec fn op_x(opcode: u16) -> u8 {
    ((opcode & 0x0F00) >> 8) as u8
}

/// The Y field of an opcode: bits 4-7, the second register operand.
pub open spec fn op_y(opcode: u16) -> u8 {
    ((opcode & 0x00F0) >> 4) as u8
}

/// The N field of an opcode: bits 0-3, a 4-bit immediate.
pub open spec fn op_n(opcode: u16) -> u8 {
    (opcode & 0x000F) as u8
}

/// The NN field of an opcode: bits 0-7, a byte immediate.
pub open spec fn op_kk(opcode: u16) -> u8 {
    (opcode & 0x00FF) as u8
}

/// The NNN field of an opcode: bits 0-11, an address.
pub open spec fn op_nnn(opcode: u16) -> u16 {
    opcode & 0x0FFF
}

/// The decoding table: the opcode is matched against bit patterns in order of
/// decreasing mask specificity (exact words, then the 0xF000 class masks, then
/// the 0xF00F and 0xF0FF sub-op masks), and the operand fields are cut out of
/// the opcode's nibbles.
pub open spec fn spec_decode(opcode: u16) -> Instruction {
    if opcode == 0x00E0 {
        Instruction::Cls
    } else if opcode == 0x00EE {
        Instruction::Ret
    } else if opcode & 0xF000 == 0x0000 {
        Instruction::Sys(op_nnn(opcode))
    } else if opcode & 0xF000 == 0x1000 {
        Instruction::Jump(op_nnn(opcode))
    } else if opcode & 0xF000 == 0x2000 {
        Instruction::Call(op_nnn(opcode))
    } else if opcode & 0xF000 == 0x3000 {
        Instruction::SkipEqByte(op_x(opcode), op_kk(opcode))
    } else if opcode & 0xF000 == 0x4000 {
        Instruction::SkipNeByte(op_x(opcode), op_kk(opcode))
    } else if opcode & 0xF00F == 0x5000 {
        Instruction::SkipEqReg(op_x(opcode), op_y(opcode))
    } else if opcode & 0xF000 == 0x6000 {
        Instruction::LoadByte(op_x(opcode), op_kk(opcode))
    } else if opcode & 0xF000 == 0x7000 {
        Instruction::AddByte(op_x(opcode), op_kk(opcode))
    } else if opcode & 0xF00F == 0x8000 {
        Instruction::LoadReg(op_x(opcode), op_y(opcode))
    } else if opcode & 0xF00F == 0x8001 {
        Instruction::OrReg(op_x(opcode), op_y(opcode))
    } else if opcode & 0xF00F == 0x8002 {
        Instruction::AndReg(op_x(opcode), op_y(opcode))
    } else if opcode & 0xF00F == 0x8003 {
        Instruction::XorReg(op_x(opcode), op_y(opcode))
    } else if opcode & 0xF00F == 0x8004 {
        Instruction::AddReg(op_x(opcode), op_y(opcode))
    } else if opcode & 0xF00F == 0x8005 {
        Instruction::SubReg(op_x(opcode), op_y(opcode))
    } else if opcode & 0xF00F == 0x8006 {
        Instruction::ShrReg(op_x(opcode), op_y(opcode))
    } else if opcode & 0xF00F == 0x8007 {
        Instruction::SubnReg(op_x(opcode), op_y(opcode))
    } else if opcode & 0xF00F == 0x800E {
        Instruction::ShlReg(op_x(opcode), op_y(opcode))
    } else if opcode & 0xF00F == 0x9000 {
        Instruction::SkipNeReg(op_x(opcode), op_y(opcode))
    } else if opcode & 0xF000 == 0xA000 {
        Instruction::LoadI(op_nnn(opcode))
    } else if opcode & 0xF000 == 0xB000 {
        Instruction::JumpV0(op_nnn(opcode))
    } else if opcode & 0xF000 == 0xC000 {
        Instruction::Rand(op_x(opcode), op_kk(opcode))
    } else if opcode & 0xF000 == 0xD000 {
        Instruction::Draw(op_x(opcode), op_y(opcode), op_n(opcode))
    } else if opcode & 0xF0FF == 0xE09E {
        Instruction::SkipIfKey(op_x(opcode))
    } else if opcode & 0xF0FF == 0xE0A1 {
        Instruction::SkipIfNotKey(op_x(opcode))
    } else if opcode & 0xF0FF == 0xF007 {
        Instruction::LoadDT(op_x(opcode))
    } else if opcode & 0xF0FF == 0xF00A {
        Instruction::WaitKey(op_x(opcode))
    } else if opcode & 0xF0FF == 0xF015 {
        Instruction::SetDT(op_x(opcode))
    } else if opcode & 0xF0FF == 0xF018 {
        Instruction::SetST(op_x(opcode))
    } else if opcode & 0xF0FF == 0xF01E {
        Instruction::AddI(op_x(opcode))
    } else if opcode & 0xF0FF == 0xF029 {
        Instruction::LoadSprite(op_x(opcode))
    } else if opcode & 0xF0FF == 0xF033 {
        Instruction::Bcd(op_x(opcode))
    } else if opcode & 0xF0FF == 0xF055 {
        Instruction::DumpRegs(op_x(opcode))
    } else if opcode & 0xF0FF == 0xF065 {
        Instruction::LoadRegs(op_x(opcode))
    } else {
        Instruction::NoOp
    }
}

impl Instruction {
    /// Every operand an instruction can carry is bounded by the width of the
    /// opcode field it was cut from: register operands and the draw height fit
    /// in a nibble, addresses in 12 bits.
    pub open spec fn wf(self) -> bool {
        match self {
            Instruction::Cls => true,
            Instruction::Ret => true,
            Instruction::Sys(addr) => addr <= 0xFFF,
            Instruction::Jump(addr) => addr <= 0xFFF,
            Instruction::Call(addr) => addr <= 0xFFF,
            Instruction::SkipEqByte(x, _) => x <= 0xF,
            Instruction::SkipNeByte(x, _) => x <= 0xF,
            Instruction::SkipEqReg(x, y) => x <= 0xF && y <= 0xF,
            Instruction::LoadByte(x, _) => x <= 0xF,
            Instruction::AddByte(x, _) => x <= 0xF,
            Instruction::LoadReg(x, y) => x <= 0xF && y <= 0xF,
            Instruction::OrReg(x, y) => x <= 0xF && y <= 0xF,
            Instruction::AndReg(x, y) => x <= 0xF && y <= 0xF,
            Instruction::XorReg(x, y) => x <= 0xF && y <= 0xF,
            Instruction::AddReg(x, y) => x <= 0xF && y <= 0xF,
            Instruction::SubReg(x, y) => x <= 0xF && y <= 0xF,
            Instruction::ShrReg(x, y) => x <= 0xF && y <= 0xF,
            Instruction::SubnReg(x, y) => x <= 0xF && y <= 0xF,
            Instruction::ShlReg(x, y) => x <= 0xF && y <= 0xF,
            Instruction::SkipNeReg(x, y) => x <= 0xF && y <= 0xF,
            Instruction::LoadI(addr) => addr <= 0xFFF,
            Instruction::JumpV0(addr) => addr <= 0xFFF,
            Instruction::Rand(x, _) => x <= 0xF,
            Instruction::Draw(x, y, n) => x <= 0xF && y <= 0xF && n <= 0xF,
            Instruction::SkipIfKey(x) => x <= 0xF,
            Instruction::SkipIfNotKey(x) => x <= 0xF,
            Instruction::LoadDT(x) => x <= 0xF,
            Instruction::WaitKey(x) => x <= 0xF,
            Instruction::SetDT(x) => x <= 0xF,
            Instruction::SetST(x) => x <= 0xF,
            Instruction::AddI(x) => x <= 0xF,
            Instruction::LoadSprite(x) => x <= 0xF,
            Instruction::Bcd(x) => x <= 0xF,
            Instruction::DumpRegs(x) => x <= 0xF,
            Instruction::LoadRegs(x) => x <= 0xF,
            Instruction::NoOp => true,
        }
    }

    /// Decoding is total and deterministic: every 16-bit opcode maps to
    /// exactly the instruction given by the decoding table, with operand
    /// fields cut out of the opcode, and unmatched patterns fall to `NoOp`.
    pub fn decode(opcode: u16) -> (ins: Instruction)
        ensures
            ins == spec_decode(opcode),
            ins.wf(),
    {
        proof {
            lemma_op_fields_bounded(opcode);
        }
        if opcode == 0x00E0 {
            Instruction::Cls
        } else if opcode == 0x00EE {
            Instruction::Ret
        } else if opcode & 0xF000 == 0x0000 {
            Instruction::Sys(opcode & 0x0FFF)
        } else if opcode & 0xF000 == 0x1000 {
            Instruction::Jump(opcode & 0x0FFF)
        } else if opcode & 0xF000 == 0x2000 {
            Instruction::Call(opcode & 0x0FFF)
        } else if opcode & 0xF000 == 0x3000 {
            Instruction::SkipEqByte(((opcode & 0x0F00) >> 8) as u8, (opcode & 0x00FF) as u8)
        } else if opcode & 0xF000 == 0x4000 {
            Instruction::SkipNeByte(((opcode & 0x0F00) >> 8) as u8, (opcode & 0x00FF) as u8)
        } else if opcode & 0xF00F == 0x5000 {
            Instruction::SkipEqReg(((opcode & 0x0F00) >> 8) as u8, ((opcode & 0x00F0) >> 4) as u8)
        } else if opcode & 0xF000 == 0x6000 {
            Instruction::LoadByte(((opcode & 0x0F00) >> 8) as u8, (opcode & 0x00FF) as u8)
        } else if opcode & 0xF000 == 0x7000 {
            Instruction::AddByte(((opcode & 0x0F00) >> 8) as u8, (opcode & 0x00FF) as u8)
        } else if opcode & 0xF00F == 0x8000 {
            Instruction::LoadReg(((opcode & 0x0F00) >> 8) as u8, ((opcode & 0x00F0) >> 4) as u8)
        } else if opcode & 0xF00F == 0x8001 {
            Instruction::OrReg(((opcode & 0x0F00) >> 8) as u8, ((opcode & 0x00F0) >> 4) as u8)
        } else if opcode & 0xF00F == 0x8002 {
            Instruction::AndReg(((opcode & 0x0F00) >> 8) as u8, ((opcode & 0x00F0) >> 4) as u8)
        } else if opcode & 0xF00F == 0x8003 {
            Instruction::XorReg(((opcode & 0x0F00) >> 8) as u8, ((opcode & 0x00F0) >> 4) as u8)
        } else if opcode & 0xF00F == 0x8004 {
            Instruction::AddReg(((opcode & 0x0F00) >> 8) as u8, ((opcode & 0x00F0) >> 4) as u8)
        } else if opcode & 0xF00F == 0x8005 {
            Instruction::SubReg(((opcode & 0x0F00) >> 8) as u8, ((opcode & 0x00F0) >> 4) as u8)
        } else if opcode & 0xF00F == 0x8006 {
            Instruction::ShrReg(((opcode & 0x0F00) >> 8) as u8, ((opcode & 0x00F0) >> 4) as u8)
        } else if opcode & 0xF00F == 0x8007 {
            Instruction::SubnReg(((opcode & 0x0F00) >> 8) as u8, ((opcode & 0x00F0) >> 4) as u8)
        } else if opcode & 0xF00F == 0x800E {
            Instruction::ShlReg(((opcode & 0x0F00) >> 8) as u8, ((opcode & 0x00F0) >> 4) as u8)
        } else if opcode & 0xF00F == 0x9000 {
            Instruction::SkipNeReg(((opcode & 0x0F00) >> 8) as u8, ((opcode & 0x00F0) >> 4) as u8)
        } else if opcode & 0xF000 == 0xA000 {
            Instruction::LoadI(opcode & 0x0FFF)
        } else if opcode & 0xF000 == 0xB000 {
            Instruction::JumpV0(opcode & 0x0FFF)
        } else if opcode & 0xF000 == 0xC000 {
            Instruction::Rand(((opcode & 0x0F00) >> 8) as u8, (opcode & 0x00FF) as u8)
        } else if opcode & 0xF000 == 0xD000 {
            Instruction::Draw(
                ((opcode & 0x0F00) >> 8) as u8,
                ((opcode & 0x00F0) >> 4) as u8,
                (opcode & 0x000F) as u8,
            )
        } else if opcode & 0xF0FF == 0xE09E {
            Instruction::SkipIfKey(((opcode & 0x0F00) >> 8) as u8)
        } else if opcode & 0xF0FF == 0xE0A1 {
            Instruction::SkipIfNotKey(((opcode & 0x0F00) >> 8) as u8)
        } else if opcode & 0xF0FF == 0xF007 {
            Instruction::LoadDT(((opcode & 0x0F00) >> 8) as u8)
        } else if opcode & 0xF0FF == 0xF00A {
            Instruction::WaitKey(((opcode & 0x0F00) >> 8) as u8)
        } else if opcode & 0xF0FF == 0xF015 {
            Instruction::SetDT(((opcode & 0x0F00) >> 8) as u8)
        } else if opcode & 0xF0FF == 0xF018 {
            Instruction::SetST(((opcode & 0x0F00) >> 8) as u8)
        } else if opcode & 0xF0FF == 0xF01E {
            Instruction::AddI(((opcode & 0x0F00) >> 8) as u8)
        } else if opcode & 0xF0FF == 0xF029 {
            Instruction::LoadSprite(((opcode & 0x0F00) >> 8) as u8)
        } else if opcode & 0xF0FF == 0xF033 {
            Instruction::Bcd(((opcode & 0x0F00) >> 8) as u8)
        } else if opcode & 0xF0FF == 0xF055 {
            Instruction::DumpRegs(((opcode & 0x0F00) >> 8) as u8)
        } else if opcode & 0xF0FF == 0xF065 {
            Instruction::LoadRegs(((opcode & 0x0F00) >> 8) as u8)
        } else {
            Instruction::NoOp
        }
    }
}

/// The operand fields of an opcode never exceed the width of the bits they
/// are cut from.
pub proof fn lemma_op_fields_bounded(opcode: u16)
    ensures
        op_x(opcode) <= 0xF,
        op_y(opcode) <= 0xF,
        op_n(opcode) <= 0xF,
        op_nnn(opcode) <= 0xFFF,
{
    assert((opcode & 0x0F00) >> 8 <= 0xF) by (bit_vector);
    assert((opcode & 0x00F0) >> 4 <= 0xF) by (bit_vector);
    assert(opcode & 0x000F <= 0xF) by (bit_vector);
    assert(opcode & 0x0FFF <= 0xFFF) by (bit_vector);
}

} // verus!
