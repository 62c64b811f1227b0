//! What one step of the machine does, as a function from state to state.

use crate::encoding::Register;
use crate::vm::alu::Action;
use crate::vm::instruction::{
    decode, ConditionalJmpConfig, ConditionalJmpVariant, Config, Decoded, Instruction, JmpConfig,
    JmpVariant, MathOpVariant, NotConfig,
};
use crate::vm::state::{Operand, VmError, VmState};
use crate::word::{signed, wrap, Word};
use vstd::prelude::*;

verus! {

impl ConditionalJmpVariant {
    /// Whether a jump of this variant is taken on `condition`.
    pub open spec fn taken(self, condition: Word) -> bool {
        match self {
            ConditionalJmpVariant::Jz => condition == 0,
            ConditionalJmpVariant::Jnz => condition != 0,
        }
    }
}

impl JmpVariant {
    /// The program counter after a jump of this variant to `target`, from an
    /// instruction whose opcode is at `origin`.
    pub open spec fn landing(self, origin: Word, target: Word) -> Word {
        match self {
            JmpVariant::Absolute => target,
            JmpVariant::Relative => wrap(origin + signed(target)),
        }
    }
}

impl Instruction {
    /// The operands and the action of a two-operand instruction that is no jump.
    pub open spec fn action(self) -> Option<(Config, Action)> {
        match self {
            Instruction::Mov(config) => Some((config, Action::Mov)),
            Instruction::Or(config) => Some((config, Action::Math(MathOpVariant::Or))),
            Instruction::And(config) => Some((config, Action::Math(MathOpVariant::And))),
            Instruction::Xor(config) => Some((config, Action::Math(MathOpVariant::Xor))),
            Instruction::Shl(config) => Some((config, Action::Math(MathOpVariant::Shl))),
            Instruction::Shr(config) => Some((config, Action::Math(MathOpVariant::Shr))),
            Instruction::Mul(config) => Some((config, Action::Math(MathOpVariant::Mul))),
            Instruction::IMul(config) => Some((config, Action::Math(MathOpVariant::IMul))),
            Instruction::Div(config) => Some((config, Action::Math(MathOpVariant::Div))),
            Instruction::IDiv(config) => Some((config, Action::Math(MathOpVariant::IDiv))),
            Instruction::Rem(config) => Some((config, Action::Math(MathOpVariant::Rem))),
            Instruction::Add(config) => Some((config, Action::Add)),
            Instruction::Sub(config) => Some((config, Action::Sub)),
            Instruction::Cmp(config) => Some((config, Action::Cmp)),
            _ => None,
        }
    }
}

impl VmState {
    /// The values of a destination and a source, the destination read first.
    pub open spec fn operands(self, destination: Operand, source: Operand) -> Result<
        (Word, Word),
        VmError,
    > {
        match self.value(destination) {
            Err(error) => Err(error),
            Ok(first) => match self.value(source) {
                Err(error) => Err(error),
                Ok(second) => Ok((first, second)),
            },
        }
    }

    /// The state after a two-operand instruction: both operands are read,
    /// then the destination is written, then the flag register. A failed
    /// read or a refused operation leaves the state as it is.
    pub open spec fn after_action(self, config: Config, action: Action) -> (
        VmState,
        Result<(), VmError>,
    ) {
        match self.operands(config.destination(), config.source()) {
            Err(error) => (self, Err(error)),
            Ok((destination, source)) => match action.outcome(
                self.registers.flag,
                destination,
                source,
            ) {
                Err(error) => (self, Err(error)),
                Ok(outcome) => {
                    let written = match outcome.value {
                        Some(value) => self.store(config.destination(), value),
                        None => self,
                    };
                    let flagged = match outcome.flag {
                        Some(flags) => written.write_register(Register::Flag, flags),
                        None => written,
                    };
                    (flagged, Ok(()))
                },
            },
        }
    }

    /// The state after NOT: the operand holds the complement of what it held.
    pub open spec fn after_not(self, config: NotConfig) -> (VmState, Result<(), VmError>) {
        match self.value(config.operand()) {
            Err(error) => (self, Err(error)),
            Ok(value) => (self.store(config.operand(), !value), Ok(())),
        }
    }

    /// The state after JMP from an instruction whose opcode is at `origin`.
    pub open spec fn after_jmp(self, config: JmpConfig, variant: JmpVariant, origin: Word) -> (
        VmState,
        Result<(), VmError>,
    ) {
        match self.value(config.operand()) {
            Err(error) => (self, Err(error)),
            Ok(target) => (self.with_pc(variant.landing(origin, target)), Ok(())),
        }
    }

    /// The state after JZ or JNZ: where the jump is taken the target becomes
    /// the program counter, as an absolute address. Both operands are read
    /// whether or not it is taken.
    pub open spec fn after_conditional_jmp(
        self,
        config: ConditionalJmpConfig,
        variant: ConditionalJmpVariant,
    ) -> (VmState, Result<(), VmError>) {
        match self.operands(config.destination(), config.source()) {
            Err(error) => (self, Err(error)),
            Ok((target, condition)) => if variant.taken(condition) {
                (self.with_pc(target), Ok(()))
            } else {
                (self, Ok(()))
            },
        }
    }

    /// The state after `instruction`, whose opcode was at `origin`, in a
    /// state whose program counter already points past the instruction.
    pub open spec fn after(self, instruction: Instruction, origin: Word) -> (
        VmState,
        Result<(), VmError>,
    ) {
        match instruction {
            Instruction::Nop => (self, Ok(())),
            Instruction::Hlt => (VmState { hlt_location: Some(self.pc()), ..self }, Ok(())),
            Instruction::Not(config) => self.after_not(config),
            Instruction::Jmp(config, variant) => self.after_jmp(config, variant, origin),
            Instruction::Jz(config) => self.after_conditional_jmp(config, ConditionalJmpVariant::Jz),
            Instruction::Jnz(config) => self.after_conditional_jmp(
                config,
                ConditionalJmpVariant::Jnz,
            ),
            _ => {
                let (config, action) = instruction.action().unwrap();
                self.after_action(config, action)
            },
        }
    }

    /// Whether the machine is halted: a HLT was executed and the program
    /// counter still stands where the HLT left it.
    pub open spec fn halted(self) -> bool {
        self.hlt_location == Some(self.pc())
    }

    /// Whether the program counter points inside memory.
    pub open spec fn has_instruction(self) -> bool {
        self.pc() < self.memory.len()
    }

    /// One step. With the program counter outside memory the step fails and
    /// nothing changes. A halted machine stays as it is. Otherwise a halt
    /// that is over is forgotten, the instruction at the program counter is
    /// decoded, which moves the program counter past it or, on failure, to
    /// the byte that is to blame, and the instruction is executed.
    pub open spec fn step(self) -> (VmState, Result<(), VmError>) {
        if !self.has_instruction() {
            (self, Err(VmError::OutOfInstructions))
        } else if self.halted() {
            (self, Ok(()))
        } else {
            let running = VmState { hlt_location: None, ..self };
            match decode(self.memory, self.pc()) {
                Decoded::Failure { error, at } => (running.with_pc(at), Err(error)),
                Decoded::Instruction { instruction, next } => running.with_pc(next).after(
                    instruction,
                    self.pc(),
                ),
            }
        }
    }

    /// The state after `steps` steps, stopping early at the first step that
    /// fails or finds the machine halted, and how many steps were taken.
    pub open spec fn run(self, steps: nat) -> (VmState, nat, Result<(), VmError>)
        decreases steps,
    {
        if steps == 0 || (self.has_instruction() && self.halted()) {
            (self, 0, Ok(()))
        } else {
            let (next, result) = self.step();
            match result {
                Err(error) => (next, 0, Err(error)),
                Ok(()) => {
                    let (last, taken, outcome) = next.run((steps - 1) as nat);
                    (last, taken + 1, outcome)
                },
            }
        }
    }

    /// The state of a machine that was just loaded: the image from address 0
    /// on, zeroes after it, every register zero, not halted.
    pub open spec fn fresh(image: Seq<u8>, memory_size: nat) -> VmState {
        VmState {
            memory: Seq::new(
                memory_size,
                |i: int|
                    if i < image.len() {
                        image[i]
                    } else {
                        0u8
                    },
            ),
            registers: crate::vm::state::VmRegisters {
                general_purpose_0: 0,
                general_purpose_1: 0,
                flag: 0,
                program_counter: 0,
            },
            hlt_location: None,
        }
    }
}

} // verus!
