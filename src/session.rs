//! A play session: the long-lived state and the commands that act on it.
use vstd::prelude::*;

use crate::cpu::{CpuOptions, TimeToBomb, BASE_TIME_TO_BOMB};
use crate::error::RejectedCommand;
use crate::grid::{Actor, GridCoords};
use crate::instruction::{Instruction, InstructionType};
use crate::program::ProgramCode;
use crate::run::{FrameEvent, ProgramState, Runner};
use crate::unlocks::UnlockedInstructions;
use crate::upgrades::{
    apply_upgrade, seed_edges, seed_nodes, upgrade_effect, Upgrade, UpgradeBought, UpgradeTree,
    UpgradeType,
};
use crate::wallet::{gems_at, Wallet};

verus! {

/// Everything a play session owns. Created when play starts, dropped when it
/// ends. Only the editing phase changes the program; a run only reads it.
#[derive(Debug)]
pub struct Session {
    pub wallet: Wallet,
    pub unlocked: UnlockedInstructions,
    pub options: CpuOptions,
    pub program: ProgramCode,
    pub tree: UpgradeTree,
    pub time_to_bomb: TimeToBomb,
    pub runner: Runner,
}

impl Session {
    pub open spec fn wf(&self) -> bool {
        &&& self.options.wf()
        &&& self.program.wf()
        &&& self.unlocked.wf()
        &&& self.tree.wf()
        &&& self.runner.wf(self.program.code@.len())
    }

    /// Both sessions have the same unlock set, upgrade graph, interpreter
    /// parameters and countdown.
    pub open spec fn same_progress(&self, other: &Session) -> bool {
        &&& self.unlocked@ == other.unlocked@
        &&& self.tree.nodes() == other.tree.nodes()
        &&& self.tree.edges() == other.tree.edges()
        &&& self.tree.roots() == other.tree.roots()
        &&& self.options == other.options
        &&& self.time_to_bomb == other.time_to_bomb
    }

    pub open spec fn running(&self) -> bool {
        self.runner.state == ProgramState::Running
    }

    /// A session as play starts: an empty wallet, `MoveForward` unlocked, a
    /// one-slot program holding `MoveForward`, the base parameters, the seed
    /// upgrade graph, and the editing phase.
    pub fn new(player: Actor) -> (r: Session)
        ensures
            r.wf(),
            r.wallet.gems == 0,
            r.program.code@ == seq![Instruction::MoveForward],
            r.program.max_instructions == 1,
            r.options == CpuOptions::starting_spec(),
            r.time_to_bomb.duration == BASE_TIME_TO_BOMB,
            r.runner.state == ProgramState::Buying,
            r.runner.player == player,
            r.runner.outcome is None,
            r.unlocked@ == UnlockedInstructions::starting_spec(),
            r.tree.nodes() == seed_nodes(),
            r.tree.edges() == seed_edges(),
            r.tree.roots() == seq![0usize],
            r.tree.roots().contains(0),
            forall|j: usize| #[trigger] r.tree.revealed(j) <==> j == 0,
    {
        let r = Session {
            wallet: Wallet::new(),
            unlocked: UnlockedInstructions::starting(),
            options: CpuOptions::starting(),
            program: ProgramCode::starting(),
            tree: UpgradeTree::seeded(),
            time_to_bomb: TimeToBomb { duration: BASE_TIME_TO_BOMB },
            runner: Runner::new(player),
        };
        proof {
            assert(r.tree.roots()[0] == 0);
        }
        r
    }

    /// Begins a run. Refused while a run is in progress; otherwise the run
    /// state is reset, the timers armed, and the first tick taken at once.
    pub fn start_run(&mut self) -> (r: Result<FrameEvent, RejectedCommand>)
        requires
            old(self).wf(),
        ensures
            final(self).wf(),
            final(self).wallet == old(self).wallet,
            final(self).same_progress(old(self)),
            final(self).program.code@ == old(self).program.code@,
            final(self).program.max_instructions == old(self).program.max_instructions,
            old(self).running() ==> r == Err::<FrameEvent, _>(RejectedCommand::AlreadyRunning)
                && final(self).runner == old(self).runner,
            !old(self).running() ==> r is Ok && (final(self).runner, r->Ok_0) == old(
                self,
            ).runner.spec_start(old(self).options, old(self).time_to_bomb, old(self).program.code@),
    {
        if self.runner.state == ProgramState::Running {
            return Err(RejectedCommand::AlreadyRunning);
        }
        Ok(self.runner.begin_running_program(&self.options, &self.time_to_bomb, &self.program.code))
    }

    /// Cancels the run in progress. Refused outside a run. Only the run
    /// state is discarded; wallet, unlocks, program and upgrades stay.
    pub fn reset_to_buying(&mut self) -> (r: Result<(), RejectedCommand>)
        requires
            old(self).wf(),
        ensures
            final(self).wf(),
            final(self).wallet == old(self).wallet,
            final(self).same_progress(old(self)),
            final(self).program.code@ == old(self).program.code@,
            final(self).program.max_instructions == old(self).program.max_instructions,
            !old(self).running() ==> r == Err::<(), _>(RejectedCommand::NotRunning)
                && final(self).runner == old(self).runner,
            old(self).running() ==> r is Ok && final(self).runner == old(self).runner.spec_reset(),
    {
        if self.runner.state != ProgramState::Running {
            return Err(RejectedCommand::NotRunning);
        }
        self.runner.reset();
        Ok(())
    }

    /// Whether the control that starts a run is active: only while editing.
    pub fn start_active(&self) -> (r: bool)
        ensures
            r == !self.running(),
    {
        self.runner.state != ProgramState::Running
    }

    /// Whether the control that cancels a run is active: only during a run.
    pub fn reset_active(&self) -> (r: bool)
        ensures
            r == self.running(),
    {
        self.runner.state == ProgramState::Running
    }

    /// One frame of `delta` nanoseconds: the countdown first, then the tick
    /// scheduler. Outside a run nothing happens.
    pub fn advance(&mut self, delta: u64) -> (e: FrameEvent)
        requires
            old(self).wf(),
        ensures
            final(self).wf(),
            final(self).wallet == old(self).wallet,
            final(self).same_progress(old(self)),
            final(self).program.code@ == old(self).program.code@,
            final(self).program.max_instructions == old(self).program.max_instructions,
            (final(self).runner, e) == old(self).runner.spec_frame(old(self).program.code@, delta),
    {
        self.runner.frame(&self.program.code, delta)
    }

    /// Appends an instruction to the program. Refused during a run, for an
    /// instruction not unlocked, and when the program is full.
    pub fn add_instruction(&mut self, instruction: Instruction) -> (r: Result<(), RejectedCommand>)
        requires
            old(self).wf(),
        ensures
            final(self).wf(),
            final(self).runner == old(self).runner,
            final(self).wallet == old(self).wallet,
            final(self).same_progress(old(self)),
            final(self).program.max_instructions == old(self).program.max_instructions,
            old(self).running() ==> r == Err::<(), _>(RejectedCommand::ProgramRunning),
            !old(self).running() && !old(self).unlocked.is_unlocked(instruction) ==> r == Err::<
                (),
                _,
            >(RejectedCommand::NotUnlocked),
            !old(self).running() && old(self).unlocked.is_unlocked(instruction)
                && old(self).program.code@.len() >= old(self).program.max_instructions ==> r
                == Err::<(), _>(RejectedCommand::ProgramFull),
            r is Ok <==> !old(self).running() && old(self).unlocked.is_unlocked(instruction)
                && old(self).program.code@.len() < old(self).program.max_instructions,
            r is Ok ==> final(self).program.code@ == old(self).program.code@.push(instruction),
            r is Err ==> final(self).program.code@ == old(self).program.code@,
    {
        if self.runner.state == ProgramState::Running {
            return Err(RejectedCommand::ProgramRunning);
        }
        if !self.unlocked.contains(instruction) {
            return Err(RejectedCommand::NotUnlocked);
        }
        self.program.add_instruction(instruction)
    }

    /// Removes the instruction at `idx`. Refused during a run and for a slot
    /// that holds no instruction.
    pub fn remove_instruction(&mut self, idx: usize) -> (r: Result<Instruction, RejectedCommand>)
        requires
            old(self).wf(),
        ensures
            final(self).wf(),
            final(self).runner == old(self).runner,
            final(self).wallet == old(self).wallet,
            final(self).same_progress(old(self)),
            final(self).program.max_instructions == old(self).program.max_instructions,
            old(self).running() ==> r == Err::<Instruction, _>(RejectedCommand::ProgramRunning),
            !old(self).running() && idx >= old(self).program.code@.len() ==> r == Err::<
                Instruction,
                _,
            >(RejectedCommand::NoSuchSlot),
            r is Ok <==> !old(self).running() && idx < old(self).program.code@.len(),
            r matches Ok(i) ==> i == old(self).program.code@[idx as int],
            r is Ok ==> final(self).program.code@ == old(self).program.code@.remove(idx as int),
            r is Err ==> final(self).program.code@ == old(self).program.code@,
    {
        if self.runner.state == ProgramState::Running {
            return Err(RejectedCommand::ProgramRunning);
        }
        self.program.remove_instruction(idx)
    }

    /// Buys upgrade `idx` and applies its effect. Refused, changing nothing,
    /// as `UpgradeTree::purchase` refuses.
    pub fn purchase(&mut self, idx: usize) -> (r: Result<UpgradeBought, RejectedCommand>)
        requires
            old(self).wf(),
        ensures
            final(self).wf(),
            final(self).runner == old(self).runner,
            final(self).program.code@ == old(self).program.code@,
            final(self).program.max_instructions >= old(self).program.max_instructions,
            final(self).tree.edges() == old(self).tree.edges(),
            idx >= old(self).tree.nodes().len() ==> r == Err::<UpgradeBought, _>(
                RejectedCommand::UnknownUpgrade,
            ),
            idx < old(self).tree.nodes().len() && old(self).tree.nodes()[idx as int].bought ==> r
                == Err::<UpgradeBought, _>(RejectedCommand::AlreadyPurchased),
            idx < old(self).tree.nodes().len() && !old(self).tree.nodes()[idx as int].bought && !old(
                self,
            ).tree.revealed(idx) ==> r == Err::<UpgradeBought, _>(RejectedCommand::NotRevealed),
            idx < old(self).tree.nodes().len() && !old(self).tree.nodes()[idx as int].bought && old(
                self,
            ).tree.revealed(idx) && old(self).wallet.gems < old(self).tree.nodes()[idx as int].cost
                ==> r == Err::<UpgradeBought, _>(RejectedCommand::InsufficientFunds),
            r is Ok <==> idx < old(self).tree.nodes().len() && !old(self).tree.nodes()[idx as int].bought
                && old(self).tree.revealed(idx) && old(self).wallet.gems >= old(self).tree.nodes()[idx as int].cost,
            r is Ok ==> {
                let u = old(self).tree.nodes()[idx as int];
                &&& r == Ok::<UpgradeBought, RejectedCommand>(
                    UpgradeBought { upgrade_type: u.upgrade_type },
                )
                &&& final(self).wallet.gems == old(self).wallet.gems - u.cost
                &&& final(self).tree.nodes() == old(self).tree.nodes().update(
                    idx as int,
                    Upgrade { bought: true, ..u },
                )
                &&& forall|j: usize| #[trigger]
                    final(self).tree.revealed(j) <==> old(self).tree.revealed(j) || old(self).tree.is_edge(idx, j)
                &&& (final(self).options, final(self).program.max_instructions) == upgrade_effect(
                    u.upgrade_type,
                    old(self).options,
                    old(self).program.max_instructions,
                )
            },
            final(self).tree.roots() == old(self).tree.roots(),
            final(self).time_to_bomb == old(self).time_to_bomb,
            r is Ok ==> {
                let u = old(self).tree.nodes()[idx as int];
                &&& u.upgrade_type == UpgradeType::UnlockIf ==> forall|i: Instruction| #[trigger]
                    final(self).unlocked.is_unlocked(i) <==> old(self).unlocked.is_unlocked(i) || i
                        == Instruction::IfGapTurnLeft
                &&& u.upgrade_type == UpgradeType::UnlockIf ==> forall|c: u8| #[trigger]
                    old(self).unlocked@.contains_key(c) ==> final(self).unlocked@.contains_key(c)
                        && old(self).unlocked@[c].is_prefix_of(final(self).unlocked@[c])
                &&& u.upgrade_type == UpgradeType::UnlockIf ==> final(self).unlocked@.remove(
                    InstructionType::Scanning.spec_code(),
                ) == old(self).unlocked@.remove(InstructionType::Scanning.spec_code())
                &&& u.upgrade_type != UpgradeType::UnlockIf ==> final(self).unlocked@ == old(
                    self,
                ).unlocked@
            },
            r is Err ==> {
                &&& final(self).wallet == old(self).wallet
                &&& final(self).same_progress(old(self))
                &&& final(self).program.max_instructions == old(self).program.max_instructions
            },
    {
        let bought = self.tree.purchase(idx, &mut self.wallet)?;
        apply_upgrade(bought, &mut self.options, &mut self.program, &mut self.unlocked);
        Ok(bought)
    }

    /// Adds gems picked up by the player; the balance stops at the largest `usize`.
    pub fn pickup_currency(&mut self, amount: usize)
        requires
            old(self).wf(),
        ensures
            final(self).wf(),
            final(self).wallet.gems == if old(self).wallet.gems + amount <= usize::MAX {
                old(self).wallet.gems + amount
            } else {
                usize::MAX as int
            },
            final(self).runner == old(self).runner,
            final(self).same_progress(old(self)),
            final(self).program.code@ == old(self).program.code@,
            final(self).program.max_instructions == old(self).program.max_instructions,
    {
        self.wallet.pickup_currency(amount);
    }

    /// During a run, collects the gems lying on the player's cell: returns
    /// their indices and credits one gem for each. Outside a run nothing is
    /// collected.
    pub fn pickup_gems(&mut self, gems: &Vec<GridCoords>) -> (r: Vec<usize>)
        requires
            old(self).wf(),
        ensures
            final(self).wf(),
            final(self).runner == old(self).runner,
            final(self).same_progress(old(self)),
            final(self).program.code@ == old(self).program.code@,
            final(self).program.max_instructions == old(self).program.max_instructions,
            !old(self).running() ==> r@.len() == 0 && final(self).wallet == old(self).wallet,
            old(self).running() ==> {
                &&& forall|k: int| 0 <= k < r@.len() ==> (#[trigger] r@[k]) < gems@.len() && gems@[r@[k] as int] == old(self).runner.player.coords
                &&& forall|j: int| 0 <= j < gems@.len() && gems@[j] == old(self).runner.player.coords ==> r@.contains(j as usize)
                &&& forall|a: int, b: int| 0 <= a < b < r@.len() ==> r@[a] < r@[b]
                &&& final(self).wallet.gems == if old(self).wallet.gems + r@.len() <= usize::MAX {
                    old(self).wallet.gems + r@.len()
                } else {
                    usize::MAX as int
                }
            },
    {
        if self.runner.state != ProgramState::Running {
            return Vec::new();
        }
        let r = gems_at(self.runner.player.coords, gems);
        self.wallet.pickup_currency(r.len());
        r
    }
}

/// The handler of the "run" control: refused while the control is inactive,
/// otherwise `Session::start_run`.
pub fn start_simulation(session: &mut Session, inactive: bool) -> (r: Result<FrameEvent, RejectedCommand>)
    requires
        old(session).wf(),
    ensures
        final(session).wf(),
        inactive ==> r == Err::<FrameEvent, _>(RejectedCommand::ControlInactive) && final(session).runner == old(session).runner,
        !inactive && old(session).running() ==> r == Err::<FrameEvent, _>(RejectedCommand::AlreadyRunning) && final(session).runner == old(session).runner,
        !inactive && !old(session).running() ==> r is Ok && (final(session).runner, r->Ok_0) == old(
            session,
        ).runner.spec_start(old(session).options, old(session).time_to_bomb, old(session).program.code@),
        final(session).wallet == old(session).wallet,
        final(session).same_progress(old(session)),
        final(session).program.code@ == old(session).program.code@,
        final(session).program.max_instructions == old(session).program.max_instructions,
{
    if inactive {
        return Err(RejectedCommand::ControlInactive);
    }
    session.start_run()
}

/// The handler of the "reset" control: refused while the control is
/// inactive, otherwise `Session::reset_to_buying`.
pub fn reset_simulation(session: &mut Session, inactive: bool) -> (r: Result<(), RejectedCommand>)
    requires
        old(session).wf(),
    ensures
        final(session).wf(),
        inactive ==> r == Err::<(), _>(RejectedCommand::ControlInactive) && final(session).runner == old(session).runner,
        !inactive && !old(session).running() ==> r == Err::<(), _>(RejectedCommand::NotRunning) && final(session).runner == old(session).runner,
        !inactive && old(session).running() ==> r is Ok && final(session).runner == old(session).runner.spec_reset(),
        final(session).wallet == old(session).wallet,
        final(session).same_progress(old(session)),
        final(session).program.code@ == old(session).program.code@,
        final(session).program.max_instructions == old(session).program.max_instructions,
{
    if inactive {
        return Err(RejectedCommand::ControlInactive);
    }
    session.reset_to_buying()
}

} // verus!
