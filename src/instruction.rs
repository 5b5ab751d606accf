//! The instruction set and the effect of each instruction on the actor.
use vstd::prelude::*;

use crate::grid::{step_coord, Actor, GridCoords};

verus! {

/// The category under which an instruction is offered to the player.
#[derive(Debug, Clone, Copy, PartialEq, Eq, Structural, Hash)]
pub enum InstructionType {
    Movement,
    Control,
    Scanning,
}

impl InstructionType {
    /// A small integer naming the category; distinct categories get distinct codes.
    pub open spec fn spec_code(self) -> u8 {
        match self {
            InstructionType::Movement => 0,
            InstructionType::Control => 1,
            InstructionType::Scanning => 2,
        }
    }

    pub fn code(&self) -> (r: u8)
        ensures
            r == self.spec_code(),
    {
        match self {
            InstructionType::Movement => 0,
            InstructionType::Control => 1,
            InstructionType::Scanning => 2,
        }
    }
}

/// One step of a player-authored program.
#[derive(Debug, Clone, Copy, PartialEq, Eq, Structural)]
pub enum Instruction {
    /// Advance one cell along the current facing.
    MoveForward,
    /// Turn a quarter to the left. Despite the name there is no gap test:
    /// the turn happens every time.
    IfGapTurnLeft,
}

impl Instruction {
    pub open spec fn category(self) -> InstructionType {
        match self {
            Instruction::MoveForward => InstructionType::Movement,
            Instruction::IfGapTurnLeft => InstructionType::Scanning,
        }
    }

    /// What executing this instruction does to the actor.
    pub open spec fn effect(self, a: Actor) -> Actor {
        match self {
            Instruction::MoveForward => a.spec_moved_forward(),
            Instruction::IfGapTurnLeft => a.spec_turned_left(),
        }
    }

    pub fn inst_type(&self) -> (r: InstructionType)
        ensures
            r == self.category(),
    {
        match self {
            Instruction::MoveForward => InstructionType::Movement,
            Instruction::IfGapTurnLeft => InstructionType::Scanning,
        }
    }

    /// A short name for display.
    pub fn name(&self) -> (r: &'static str) {
        match self {
            Instruction::MoveForward => "MoveForward",
            Instruction::IfGapTurnLeft => "IfGapTurnLeft",
        }
    }
}

/// The actors after applying every instruction of `prog` in order, starting at `a`.
pub open spec fn run_all(prog: Seq<Instruction>, a: Actor) -> Actor
    decreases prog.len(),
{
    if prog.len() == 0 {
        a
    } else {
        run_all(prog.drop_first(), prog[0].effect(a))
    }
}

fn step_axis(c: i32, d: i32) -> (r: i32)
    requires
        -1 <= d <= 1,
    ensures
        r == step_coord(c, d as int),
{
    let n: i64 = c as i64 + d as i64;
    if i32::MIN as i64 <= n && n <= i32::MAX as i64 {
        n as i32
    } else {
        c
    }
}

/// Advances the actor one cell along its facing.
pub fn move_forward(actor: &mut Actor)
    ensures
        *final(actor) == old(actor).spec_moved_forward(),
{
    let step: GridCoords = actor.direction.step();
    let x: i32 = step_axis(actor.coords.x, step.x);
    let y: i32 = step_axis(actor.coords.y, step.y);
    actor.coords = GridCoords { x, y };
}

/// Turns the actor a quarter to the left, whatever lies ahead.
pub fn if_gap_turn_left(actor: &mut Actor)
    ensures
        *final(actor) == old(actor).spec_turned_left(),
{
    actor.direction = actor.direction.turned_left();
}

/// Executes one instruction on the actor.
pub fn handle_instruction(instruction: Instruction, actor: &mut Actor)
    ensures
        *final(actor) == instruction.effect(*old(actor)),
{
    match instruction {
        Instruction::MoveForward => move_forward(actor),
        Instruction::IfGapTurnLeft => if_gap_turn_left(actor),
    }
}

} // verus!
