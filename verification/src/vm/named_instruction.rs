//! The opcode table: one byte per instruction.

use vstd::prelude::*;

verus! {

/// An instruction named by its opcode byte, before its operands are decoded.
#[derive(Clone, Copy, Debug, PartialEq, Eq, Structural)]
pub enum NamedInstruction {
    Nop,
    Hlt,
    Mov,
    Or,
    And,
    Xor,
    Not,
    Shl,
    Shr,
    Add,
    Sub,
    Mul,
    IMul,
    Div,
    IDiv,
    Rem,
    Cmp,
    Jmp,
    Jz,
    Jnz,
}

/// How many operands follow an opcode.
#[derive(Clone, Copy, Debug, PartialEq, Eq, Structural)]
pub enum Shape {
    /// The opcode stands alone.
    ZeroOperand,
    /// The opcode is followed by a packet that describes one operand.
    OneOperand,
    /// The opcode is followed by a packet that describes a destination and a source.
    TwoOperand,
}

impl NamedInstruction {
    /// The opcode byte of this instruction.
    pub open spec fn opcode(self) -> u8 {
        match self {
            NamedInstruction::Nop => 0x00,
            NamedInstruction::Hlt => 0x01,
            NamedInstruction::Mov => 0x02,
            NamedInstruction::Or => 0x03,
            NamedInstruction::And => 0x04,
            NamedInstruction::Xor => 0x05,
            NamedInstruction::Not => 0x06,
            NamedInstruction::Shl => 0x07,
            NamedInstruction::Shr => 0x08,
            NamedInstruction::Add => 0x09,
            NamedInstruction::Sub => 0x0A,
            NamedInstruction::Mul => 0x0B,
            NamedInstruction::IMul => 0x0C,
            NamedInstruction::Div => 0x0D,
            NamedInstruction::IDiv => 0x0E,
            NamedInstruction::Rem => 0x0F,
            NamedInstruction::Cmp => 0x10,
            NamedInstruction::Jmp => 0x11,
            NamedInstruction::Jz => 0x12,
            NamedInstruction::Jnz => 0x13,
        }
    }

    /// The instruction that an opcode byte names, if any.
    pub open spec fn of_opcode(byte: u8) -> Option<NamedInstruction> {
        if byte == 0x00 {
            Some(NamedInstruction::Nop)
        } else if byte == 0x01 {
            Some(NamedInstruction::Hlt)
        } else if byte == 0x02 {
            Some(NamedInstruction::Mov)
        } else if byte == 0x03 {
            Some(NamedInstruction::Or)
        } else if byte == 0x04 {
            Some(NamedInstruction::And)
        } else if byte == 0x05 {
            Some(NamedInstruction::Xor)
        } else if byte == 0x06 {
            Some(NamedInstruction::Not)
        } else if byte == 0x07 {
            Some(NamedInstruction::Shl)
        } else if byte == 0x08 {
            Some(NamedInstruction::Shr)
        } else if byte == 0x09 {
            Some(NamedInstruction::Add)
        } else if byte == 0x0A {
            Some(NamedInstruction::Sub)
        } else if byte == 0x0B {
            Some(NamedInstruction::Mul)
        } else if byte == 0x0C {
            Some(NamedInstruction::IMul)
        } else if byte == 0x0D {
            Some(NamedInstruction::Div)
        } else if byte == 0x0E {
            Some(NamedInstruction::IDiv)
        } else if byte == 0x0F {
            Some(NamedInstruction::Rem)
        } else if byte == 0x10 {
            Some(NamedInstruction::Cmp)
        } else if byte == 0x11 {
            Some(NamedInstruction::Jmp)
        } else if byte == 0x12 {
            Some(NamedInstruction::Jz)
        } else if byte == 0x13 {
            Some(NamedInstruction::Jnz)
        } else {
            None
        }
    }

    /// The operand shape of this instruction.
    pub open spec fn shape(self) -> Shape {
        match self {
            NamedInstruction::Nop | NamedInstruction::Hlt => Shape::ZeroOperand,
            NamedInstruction::Not | NamedInstruction::Jmp => Shape::OneOperand,
            _ => Shape::TwoOperand,
        }
    }

    /// Names the instruction of an opcode byte; a byte outside the table is handed back.
    pub fn try_from(value: u8) -> (named: Result<NamedInstruction, u8>)
        ensures
            match NamedInstruction::of_opcode(value) {
                Some(instruction) => named == Ok::<NamedInstruction, u8>(instruction),
                None => named == Err::<NamedInstruction, u8>(value),
            },
    {
        match value {
            0x00 => Ok(NamedInstruction::Nop),
            0x01 => Ok(NamedInstruction::Hlt),
            0x02 => Ok(NamedInstruction::Mov),
            0x03 => Ok(NamedInstruction::Or),
            0x04 => Ok(NamedInstruction::And),
            0x05 => Ok(NamedInstruction::Xor),
            0x06 => Ok(NamedInstruction::Not),
            0x07 => Ok(NamedInstruction::Shl),
            0x08 => Ok(NamedInstruction::Shr),
            0x09 => Ok(NamedInstruction::Add),
            0x0A => Ok(NamedInstruction::Sub),
            0x0B => Ok(NamedInstruction::Mul),
            0x0C => Ok(NamedInstruction::IMul),
            0x0D => Ok(NamedInstruction::Div),
            0x0E => Ok(NamedInstruction::IDiv),
            0x0F => Ok(NamedInstruction::Rem),
            0x10 => Ok(NamedInstruction::Cmp),
            0x11 => Ok(NamedInstruction::Jmp),
            0x12 => Ok(NamedInstruction::Jz),
            0x13 => Ok(NamedInstruction::Jnz),
            instruction => Err(instruction),
        }
    }

    /// The opcode byte of this instruction.
    pub fn byte(&self) -> (byte: u8)
        ensures
            byte == self.opcode(),
            NamedInstruction::of_opcode(byte) == Some(*self),
    {
        match self {
            NamedInstruction::Nop => 0x00,
            NamedInstruction::Hlt => 0x01,
            NamedInstruction::Mov => 0x02,
            NamedInstruction::Or => 0x03,
            NamedInstruction::And => 0x04,
            NamedInstruction::Xor => 0x05,
            NamedInstruction::Not => 0x06,
            NamedInstruction::Shl => 0x07,
            NamedInstruction::Shr => 0x08,
            NamedInstruction::Add => 0x09,
            NamedInstruction::Sub => 0x0A,
            NamedInstruction::Mul => 0x0B,
            NamedInstruction::IMul => 0x0C,
            NamedInstruction::Div => 0x0D,
            NamedInstruction::IDiv => 0x0E,
            NamedInstruction::Rem => 0x0F,
            NamedInstruction::Cmp => 0x10,
            NamedInstruction::Jmp => 0x11,
            NamedInstruction::Jz => 0x12,
            NamedInstruction::Jnz => 0x13,
        }
    }
}

} // verus!
