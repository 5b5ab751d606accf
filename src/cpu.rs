//! The interpreter: its parameters, its program counter, and one tick of it.
use vstd::prelude::*;

use crate::grid::Actor;
use crate::instruction::{handle_instruction, run_all, Instruction};

verus! {

/// Interval between two ticks at the start of a session: 100 ms.
pub const BASE_CPU_TICK: u64 = 100_000_000;

/// Countdown of a run at the start of a session, before scaling: 200 ms.
pub const BASE_TIME_TO_BOMB: u64 = 200_000_000;

/// `d * m`, or the largest `u64` where the product does not fit.
pub open spec fn scaled(d: u64, m: u64) -> u64 {
    if d * m <= u64::MAX {
        (d * m) as u64
    } else {
        u64::MAX
    }
}

/// The interpreter's parameters. Durations are in nanoseconds.
#[derive(Debug, Clone, Copy, PartialEq, Eq, Structural)]
pub struct CpuOptions {
    /// The unscaled interval between two ticks.
    pub cpu_tick: u64,
    /// The factor applied to the tick interval and to the countdown when a run
    /// starts. It starts at one and only ever doubles, so it stays a whole number.
    pub multiplier: u64,
}

impl CpuOptions {
    /// Both parameters are positive.
    pub open spec fn wf(self) -> bool {
        self.cpu_tick > 0 && self.multiplier > 0
    }

    /// The interval between two ticks of a run.
    pub open spec fn spec_tick_period(self) -> u64 {
        scaled(self.cpu_tick, self.multiplier)
    }

    /// The parameters a play session starts with.
    pub open spec fn starting_spec() -> CpuOptions {
        CpuOptions { cpu_tick: BASE_CPU_TICK, multiplier: 1 }
    }

    /// The parameters a play session starts with.
    pub fn starting() -> (r: CpuOptions)
        ensures
            r.wf(),
            r == CpuOptions::starting_spec(),
            r.cpu_tick == BASE_CPU_TICK,
            r.multiplier == 1,
    {
        CpuOptions { cpu_tick: BASE_CPU_TICK, multiplier: 1 }
    }

    /// Scales a duration by the multiplier.
    pub fn scale(&self, d: u64) -> (r: u64)
        ensures
            r == scaled(d, self.multiplier),
    {
        match d.checked_mul(self.multiplier) {
            Some(p) => p,
            None => u64::MAX,
        }
    }

    /// The interval between two ticks of a run.
    pub fn tick_period(&self) -> (r: u64)
        requires
            self.wf(),
        ensures
            r == self.spec_tick_period(),
            r > 0,
    {
        let r = self.scale(self.cpu_tick);
        proof {
            assert(self.cpu_tick * self.multiplier >= 1) by (nonlinear_arith)
                requires
                    self.cpu_tick >= 1,
                    self.multiplier >= 1,
            ;
        }
        r
    }

    /// Halves the tick interval; an interval of one nanosecond stays as it is.
    pub fn halve_tick(&mut self)
        requires
            old(self).wf(),
        ensures
            final(self).wf(),
            final(self).multiplier == old(self).multiplier,
            final(self).cpu_tick == if old(self).cpu_tick >= 2 {
                old(self).cpu_tick / 2
            } else {
                old(self).cpu_tick
            },
    {
        if self.cpu_tick >= 2 {
            self.cpu_tick = self.cpu_tick / 2;
        }
    }

    /// Doubles the multiplier, stopping at the largest `u64`.
    pub fn double_multiplier(&mut self)
        requires
            old(self).wf(),
        ensures
            final(self).wf(),
            final(self).cpu_tick == old(self).cpu_tick,
            final(self).multiplier == scaled(old(self).multiplier, 2),
    {
        self.multiplier = self.scale(2);
        proof {
            assert(2 * old(self).multiplier == old(self).multiplier * 2);
        }
    }
}

/// The countdown of a run, before scaling, in nanoseconds.
#[derive(Debug, Clone, Copy, PartialEq, Eq, Structural)]
pub struct TimeToBomb {
    pub duration: u64,
}

/// The interpreter's program counter: the index of the next instruction.
#[derive(Debug, Clone, Copy, PartialEq, Eq, Structural)]
pub struct CpuState {
    pub pc: usize,
}

/// What one tick did.
#[derive(Debug, Clone, Copy, PartialEq, Eq, Structural)]
pub enum TickOutcome {
    /// The instruction at the program counter ran.
    Executed(Instruction),
    /// The program counter had reached the end of the program.
    Completed,
}

/// One tick: run the instruction at `pc` and advance, or report the end.
pub open spec fn tick_spec(cpu: CpuState, prog: Seq<Instruction>, a: Actor) -> (
    CpuState,
    Actor,
    TickOutcome,
) {
    if cpu.pc < prog.len() {
        (
            CpuState { pc: (cpu.pc + 1) as usize },
            prog[cpu.pc as int].effect(a),
            TickOutcome::Executed(prog[cpu.pc as int]),
        )
    } else {
        (cpu, a, TickOutcome::Completed)
    }
}

/// Consumes one tick: executes `program[pc]` and advances `pc`, or, once
/// `pc` has reached the end, reports completion and changes nothing.
pub fn handle_tick(cpu: &mut CpuState, program: &Vec<Instruction>, actor: &mut Actor) -> (r:
    TickOutcome)
    requires
        old(cpu).pc <= program@.len(),
    ensures
        (*final(cpu), *final(actor), r) == tick_spec(*old(cpu), program@, *old(actor)),
        final(cpu).pc <= program@.len(),
{
    if cpu.pc < program.len() {
        let instruction = program[cpu.pc];
        handle_instruction(instruction, actor);
        cpu.pc = cpu.pc + 1;
        TickOutcome::Executed(instruction)
    } else {
        TickOutcome::Completed
    }
}

/// `n` ticks in a row: the state after them and what each one did.
pub open spec fn ticks_spec(cpu: CpuState, prog: Seq<Instruction>, a: Actor, n: nat) -> (
    CpuState,
    Actor,
    Seq<TickOutcome>,
)
    decreases n,
{
    if n == 0 {
        (cpu, a, Seq::empty())
    } else {
        let (c1, a1, t) = tick_spec(cpu, prog, a);
        let (c2, a2, ts) = ticks_spec(c1, prog, a1, (n - 1) as nat);
        (c2, a2, seq![t] + ts)
    }
}

/// From program counter `k`, the next `len - k + 1` ticks execute the
/// remaining instructions once each and in order, then report completion.
proof fn lemma_ticks_from(prog: Seq<Instruction>, k: usize, a: Actor)
    requires
        k <= prog.len() <= usize::MAX,
    ensures
        ({
            let (c, a2, ts) = ticks_spec(CpuState { pc: k }, prog, a, (prog.len() - k + 1) as nat);
            &&& c.pc == prog.len()
            &&& a2 == run_all(prog.subrange(k as int, prog.len() as int), a)
            &&& ts.len() == prog.len() - k + 1
            &&& forall|m: int| 0 <= m < prog.len() - k ==> ts[m] == TickOutcome::Executed(prog[k + m])
            &&& ts[prog.len() - k] == TickOutcome::Completed
        }),
    decreases prog.len() - k,
{
    let n = (prog.len() - k + 1) as nat;
    let (c, a2, ts) = ticks_spec(CpuState { pc: k }, prog, a, n);
    if k == prog.len() {
        assert(prog.subrange(k as int, k as int) =~= Seq::<Instruction>::empty());
        assert(ticks_spec(CpuState { pc: k }, prog, a, 0).2 =~= Seq::<TickOutcome>::empty());
    } else {
        let a1 = prog[k as int].effect(a);
        let k1 = (k + 1) as usize;
        lemma_ticks_from(prog, k1, a1);
        let (c3, a3, ts3) = ticks_spec(CpuState { pc: k1 }, prog, a1, (n - 1) as nat);
        assert(ts == seq![TickOutcome::Executed(prog[k as int])] + ts3);
        assert(prog.subrange(k as int, prog.len() as int).drop_first() =~= prog.subrange(
            k1 as int,
            prog.len() as int,
        ));
        assert forall|m: int| 0 <= m < prog.len() - k implies ts[m] == TickOutcome::Executed(
            prog[k + m],
        ) by {
            if m > 0 {
                assert(ts[m] == ts3[m - 1]);
            }
        }
        assert(ts[prog.len() - k] == ts3[prog.len() - k1]);
    }
}

/// A program run from a zeroed program counter, one tick at a time, takes
/// exactly `len + 1` ticks: the first `len` execute the instructions once
/// each in program order, moving the actor as they say, and the last reports
/// completion with the counter at the end of the program.
pub proof fn lemma_ticks_run_program(prog: Seq<Instruction>, a: Actor)
    requires
        prog.len() <= usize::MAX,
    ensures
        ({
            let (c, a2, ts) = ticks_spec(CpuState { pc: 0 }, prog, a, prog.len() + 1);
            &&& c.pc == prog.len()
            &&& a2 == run_all(prog, a)
            &&& ts.len() == prog.len() + 1
            &&& forall|m: int| 0 <= m < prog.len() ==> ts[m] == TickOutcome::Executed(prog[m])
            &&& ts[prog.len() as int] == TickOutcome::Completed
            &&& forall|m: int| 0 <= m < prog.len() ==> ts[m] != TickOutcome::Completed
        }),
{
    lemma_ticks_from(prog, 0, a);
    assert(prog.subrange(0, prog.len() as int) =~= prog);
}

} // verus!
