//! The player's program: a capacity-bounded list of instructions.
use vstd::prelude::*;

use crate::error::RejectedCommand;
use crate::instruction::Instruction;

verus! {

/// The largest capacity; doubling stops here.
pub open spec fn doubled_capacity(c: usize) -> usize {
    if 2 * c <= usize::MAX {
        (2 * c) as usize
    } else {
        usize::MAX
    }
}

/// The instructions in execution order, and how many the program may hold.
#[derive(Debug)]
pub struct ProgramCode {
    pub code: Vec<Instruction>,
    pub max_instructions: usize,
}

impl ProgramCode {
    /// The program never holds more instructions than its capacity.
    pub open spec fn wf(&self) -> bool {
        self.code@.len() <= self.max_instructions
    }

    /// An empty program with room for one instruction.
    pub fn empty() -> (r: ProgramCode)
        ensures
            r.wf(),
            r.code@ == Seq::<Instruction>::empty(),
            r.max_instructions == 1,
    {
        ProgramCode { code: Vec::new(), max_instructions: 1 }
    }

    /// The program a play session starts with: a single `MoveForward`.
    pub fn starting() -> (r: ProgramCode)
        ensures
            r.wf(),
            r.code@ == seq![Instruction::MoveForward],
            r.max_instructions == 1,
    {
        let mut code: Vec<Instruction> = Vec::new();
        code.push(Instruction::MoveForward);
        ProgramCode { code, max_instructions: 1 }
    }

    pub fn len(&self) -> (r: usize)
        ensures
            r == self.code@.len(),
    {
        self.code.len()
    }

    /// Appends an instruction if there is room for it.
    pub fn add_instruction(&mut self, instruction: Instruction) -> (r: Result<(), RejectedCommand>)
        requires
            old(self).wf(),
        ensures
            final(self).wf(),
            final(self).max_instructions == old(self).max_instructions,
            r is Ok <==> old(self).code@.len() < old(self).max_instructions,
            r is Ok ==> final(self).code@ == old(self).code@.push(instruction),
            r is Err ==> r == Err::<(), _>(RejectedCommand::ProgramFull),
            r is Err ==> final(self).code@ == old(self).code@,
    {
        if self.code.len() < self.max_instructions {
            self.code.push(instruction);
            Ok(())
        } else {
            Err(RejectedCommand::ProgramFull)
        }
    }

    /// Removes the instruction at `idx`, shifting the later ones down.
    pub fn remove_instruction(&mut self, idx: usize) -> (r: Result<Instruction, RejectedCommand>)
        requires
            old(self).wf(),
        ensures
            final(self).wf(),
            final(self).max_instructions == old(self).max_instructions,
            r is Ok <==> idx < old(self).code@.len(),
            r matches Ok(i) ==> i == old(self).code@[idx as int],
            r is Ok ==> final(self).code@ == old(self).code@.remove(idx as int),
            r is Err ==> r == Err::<Instruction, _>(RejectedCommand::NoSuchSlot),
            r is Err ==> final(self).code@ == old(self).code@,
    {
        if idx < self.code.len() {
            Ok(self.code.remove(idx))
        } else {
            Err(RejectedCommand::NoSuchSlot)
        }
    }

    /// Doubles the capacity, stopping at the largest `usize`.
    pub fn double_capacity(&mut self)
        requires
            old(self).wf(),
        ensures
            final(self).wf(),
            final(self).code@ == old(self).code@,
            final(self).max_instructions == doubled_capacity(old(self).max_instructions),
            final(self).max_instructions >= old(self).max_instructions,
    {
        self.max_instructions = match self.max_instructions.checked_mul(2) {
            Some(c) => c,
            None => usize::MAX,
        };
    }
}

} // verus!
