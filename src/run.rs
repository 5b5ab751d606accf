//! The phase machine of a run: the tick scheduler, the countdown, and the
//! interpreter they drive.
use vstd::prelude::*;

use crate::cpu::{handle_tick, scaled, tick_spec, CpuOptions, CpuState, TickOutcome, TimeToBomb};
use crate::grid::Actor;
use crate::instruction::{run_all, Instruction};
use crate::timer::{OnceTimer, RepeatingTimer};

verus! {

/// The screen the game shows.
#[derive(Debug, Clone, Copy, PartialEq, Eq, Structural, Hash)]
pub enum GameState {
    Loading,
    Menu,
    Playing,
    Paused,
}

/// The phase of a play session.
#[derive(Debug, Clone, Copy, PartialEq, Eq, Structural, Hash)]
pub enum ProgramState {
    /// The player edits the program and buys upgrades.
    Buying,
    /// The program runs; the player watches.
    Running,
}

/// How a run ended.
#[derive(Debug, Clone, Copy, PartialEq, Eq, Structural)]
pub enum RunOutcome {
    /// The program ran to its end.
    Success,
    /// The countdown ran out first.
    Failure,
}

/// What happened in one step of a run.
#[derive(Debug, Clone, Copy, PartialEq, Eq, Structural)]
pub enum FrameEvent {
    /// No tick and no countdown expiry.
    Idle,
    /// A tick executed this instruction.
    Executed(Instruction),
    /// A tick found the program finished; the run ended in success.
    Completed,
    /// The countdown ran out; the run ended in failure.
    BombExploded,
}

/// The scheduler of ticks during a run.
#[derive(Debug, Clone, Copy, PartialEq, Eq, Structural)]
pub struct TickTimer {
    pub timer: RepeatingTimer,
}

/// The countdown of a run.
#[derive(Debug, Clone, Copy, PartialEq, Eq, Structural)]
pub struct BombTimer {
    pub timer: OnceTimer,
}

/// The phase of a session together with the run-scoped state (program
/// counter, tick scheduler, countdown), the outcome of the last run, and the
/// actor the program steers.
#[derive(Debug, Clone, Copy, PartialEq, Eq, Structural)]
pub struct Runner {
    pub state: ProgramState,
    pub cpu: CpuState,
    pub tick_timer: TickTimer,
    pub bomb_timer: BombTimer,
    pub outcome: Option<RunOutcome>,
    pub player: Actor,
}

/// The instructions executed by a series of frame events, in order.
pub open spec fn executed(evs: Seq<FrameEvent>) -> Seq<Instruction>
    decreases evs.len(),
{
    if evs.len() == 0 {
        Seq::empty()
    } else {
        let rest = executed(evs.drop_first());
        match evs[0] {
            FrameEvent::Executed(i) => seq![i] + rest,
            _ => rest,
        }
    }
}

impl Runner {
    /// The timers are well formed and, during a run, the program counter lies
    /// within a program of `len` instructions.
    pub open spec fn wf(self, len: nat) -> bool {
        &&& self.tick_timer.timer.wf()
        &&& self.bomb_timer.timer.wf()
        &&& (self.state == ProgramState::Running ==> self.cpu.pc <= len)
    }

    /// The runner after one tick of the interpreter.
    pub open spec fn spec_after_tick(self, prog: Seq<Instruction>) -> (Runner, FrameEvent) {
        let (cpu, player, t) = tick_spec(self.cpu, prog, self.player);
        match t {
            TickOutcome::Executed(i) => (Runner { cpu, player, ..self }, FrameEvent::Executed(i)),
            TickOutcome::Completed => (
                Runner {
                    state: ProgramState::Buying,
                    outcome: Some(RunOutcome::Success),
                    ..self
                },
                FrameEvent::Completed,
            ),
        }
    }

    /// A fresh run: counter at zero, timers armed from the scaled durations,
    /// and the first tick taken at once.
    pub open spec fn spec_start(
        self,
        options: CpuOptions,
        time_to_bomb: TimeToBomb,
        prog: Seq<Instruction>,
    ) -> (Runner, FrameEvent) {
        Runner {
            state: ProgramState::Running,
            cpu: CpuState { pc: 0 },
            tick_timer: TickTimer {
                timer: RepeatingTimer { period: options.spec_tick_period(), elapsed: 0 },
            },
            bomb_timer: BombTimer {
                timer: OnceTimer {
                    duration: scaled(time_to_bomb.duration, options.multiplier),
                    elapsed: 0,
                    finished: false,
                },
            },
            outcome: None,
            player: self.player,
        }.spec_after_tick(prog)
    }

    /// One frame of `delta` nanoseconds. Outside a run nothing happens. In a
    /// run the countdown is checked first: if it runs out the run fails and
    /// no tick is taken; otherwise the tick scheduler may fire one tick.
    pub open spec fn spec_frame(self, prog: Seq<Instruction>, delta: u64) -> (Runner, FrameEvent) {
        if self.state != ProgramState::Running {
            (self, FrameEvent::Idle)
        } else {
            let (bomb, exploded) = self.bomb_timer.timer.spec_tick(delta);
            if exploded {
                (
                    Runner {
                        state: ProgramState::Buying,
                        outcome: Some(RunOutcome::Failure),
                        bomb_timer: BombTimer { timer: bomb },
                        ..self
                    },
                    FrameEvent::BombExploded,
                )
            } else {
                let (tick, fired) = self.tick_timer.timer.spec_tick(delta);
                let r = Runner {
                    bomb_timer: BombTimer { timer: bomb },
                    tick_timer: TickTimer { timer: tick },
                    ..self
                };
                if fired {
                    r.spec_after_tick(prog)
                } else {
                    (r, FrameEvent::Idle)
                }
            }
        }
    }

    /// A series of frames, and the events they produced.
    pub open spec fn spec_frames(self, prog: Seq<Instruction>, deltas: Seq<u64>) -> (
        Runner,
        Seq<FrameEvent>,
    )
        decreases deltas.len(),
    {
        if deltas.len() == 0 {
            (self, Seq::empty())
        } else {
            let (r1, e) = self.spec_frame(prog, deltas[0]);
            let (r2, es) = r1.spec_frames(prog, deltas.drop_first());
            (r2, seq![e] + es)
        }
    }

    /// The runner after a cancelled run: back to editing, no outcome.
    pub open spec fn spec_reset(self) -> Runner {
        Runner { state: ProgramState::Buying, outcome: None, ..self }
    }

    /// A runner in the editing phase, before any run.
    pub fn new(player: Actor) -> (r: Runner)
        ensures
            r.wf(0),
            r.state == ProgramState::Buying,
            r.cpu.pc == 0,
            r.outcome is None,
            r.player == player,
    {
        Runner {
            state: ProgramState::Buying,
            cpu: CpuState { pc: 0 },
            tick_timer: TickTimer { timer: RepeatingTimer::new(1) },
            bomb_timer: BombTimer { timer: OnceTimer::new(0) },
            outcome: None,
            player,
        }
    }

    fn after_tick(&mut self, program: &Vec<Instruction>) -> (e: FrameEvent)
        requires
            old(self).wf(program@.len()),
            old(self).state == ProgramState::Running,
        ensures
            final(self).wf(program@.len()),
            (*final(self), e) == old(self).spec_after_tick(program@),
    {
        match handle_tick(&mut self.cpu, program, &mut self.player) {
            TickOutcome::Executed(i) => FrameEvent::Executed(i),
            TickOutcome::Completed => {
                self.state = ProgramState::Buying;
                self.outcome = Some(RunOutcome::Success);
                FrameEvent::Completed
            },
        }
    }

    /// Enters a run: resets the program counter, arms the tick scheduler with
    /// the scaled tick interval and the countdown with the scaled bomb
    /// duration, and takes the first tick at once.
    pub fn begin_running_program(
        &mut self,
        options: &CpuOptions,
        time_to_bomb: &TimeToBomb,
        program: &Vec<Instruction>,
    ) -> (e: FrameEvent)
        requires
            options.wf(),
        ensures
            final(self).wf(program@.len()),
            (*final(self), e) == old(self).spec_start(*options, *time_to_bomb, program@),
    {
        self.tick_timer = TickTimer { timer: RepeatingTimer::new(options.tick_period()) };
        self.bomb_timer = BombTimer { timer: OnceTimer::new(options.scale(time_to_bomb.duration)) };
        self.cpu = CpuState { pc: 0 };
        self.state = ProgramState::Running;
        self.outcome = None;
        self.after_tick(program)
    }

    /// Advances a run by one frame of `delta` nanoseconds.
    pub fn frame(&mut self, program: &Vec<Instruction>, delta: u64) -> (e: FrameEvent)
        requires
            old(self).wf(program@.len()),
        ensures
            final(self).wf(program@.len()),
            (*final(self), e) == old(self).spec_frame(program@, delta),
    {
        if self.state != ProgramState::Running {
            return FrameEvent::Idle;
        }
        if self.bomb_timer.timer.tick(delta) {
            self.state = ProgramState::Buying;
            self.outcome = Some(RunOutcome::Failure);
            return FrameEvent::BombExploded;
        }
        if self.tick_timer.timer.tick(delta) {
            self.after_tick(program)
        } else {
            FrameEvent::Idle
        }
    }

    /// Cancels a run: back to editing; the run-scoped state no longer counts.
    pub fn reset(&mut self)
        ensures
            *final(self) == old(self).spec_reset(),
    {
        self.state = ProgramState::Buying;
        self.outcome = None;
    }
}

proof fn lemma_executed_prepend(e: FrameEvent, evs: Seq<FrameEvent>)
    ensures
        executed(seq![e] + evs) == match e {
            FrameEvent::Executed(i) => seq![i] + executed(evs),
            _ => executed(evs),
        },
{
    assert((seq![e] + evs).drop_first() =~= evs);
}

/// Outside a run, frames change nothing and report nothing.
proof fn lemma_frames_idle(r: Runner, prog: Seq<Instruction>, deltas: Seq<u64>)
    requires
        r.state != ProgramState::Running,
    ensures
        r.spec_frames(prog, deltas).0 == r,
        forall|k: int|
            0 <= k < deltas.len() ==> #[trigger] r.spec_frames(prog, deltas).1[k]
                == FrameEvent::Idle,
        r.spec_frames(prog, deltas).1.len() == deltas.len(),
    decreases deltas.len(),
{
    if deltas.len() > 0 {
        lemma_frames_idle(r, prog, deltas.drop_first());
        let es = r.spec_frames(prog, deltas.drop_first()).1;
        assert forall|k: int| 0 <= k < deltas.len() implies #[trigger] r.spec_frames(
            prog,
            deltas,
        ).1[k] == FrameEvent::Idle by {
            if k > 0 {
                assert((seq![FrameEvent::Idle] + es)[k] == es[k - 1]);
            }
        }
    }
}

/// Over any series of frames, the instructions executed are exactly the
/// program's instructions from the program counter onwards, each once and in
/// order; the actor ends where those instructions take it; a completion
/// leaves the run in the editing phase with outcome success, having executed
/// the whole program; and a run only ends by completing or by the countdown.
pub proof fn lemma_frames_execute_in_order(r: Runner, prog: Seq<Instruction>, deltas: Seq<u64>)
    requires
        r.wf(prog.len()),
        prog.len() <= usize::MAX,
    ensures
        ({
            let (r2, evs) = r.spec_frames(prog, deltas);
            &&& r2.wf(prog.len())
            &&& r.state == ProgramState::Running ==> {
                &&& r.cpu.pc <= r2.cpu.pc <= prog.len()
                &&& executed(evs) == prog.subrange(r.cpu.pc as int, r2.cpu.pc as int)
                &&& r2.player == run_all(
                    prog.subrange(r.cpu.pc as int, r2.cpu.pc as int),
                    r.player,
                )
                &&& evs.contains(FrameEvent::Completed) ==> r2.state == ProgramState::Buying
                    && r2.outcome == Some(RunOutcome::Success) && r2.cpu.pc == prog.len()
                &&& evs.contains(FrameEvent::BombExploded) ==> r2.state == ProgramState::Buying
                    && r2.outcome == Some(RunOutcome::Failure)
                &&& r2.state == ProgramState::Buying ==> evs.contains(FrameEvent::Completed)
                    || evs.contains(FrameEvent::BombExploded)
            }
            &&& r.state != ProgramState::Running ==> r2 == r && executed(evs)
                == Seq::<Instruction>::empty()
        }),
    decreases deltas.len(),
{
    let (r2, evs) = r.spec_frames(prog, deltas);
    if deltas.len() == 0 {
        if r.state == ProgramState::Running {
            assert(prog.subrange(r.cpu.pc as int, r.cpu.pc as int) =~= Seq::<Instruction>::empty());
        }
        assert(!evs.contains(FrameEvent::Completed));
        assert(!evs.contains(FrameEvent::BombExploded));
    } else if r.state != ProgramState::Running {
        lemma_frames_idle(r, prog, deltas);
        lemma_frames_execute_in_order(r, prog, deltas.drop_first());
        lemma_executed_prepend(FrameEvent::Idle, r.spec_frames(prog, deltas.drop_first()).1);
    } else {
        let (r1, e) = r.spec_frame(prog, deltas[0]);
        let (r3, es) = r1.spec_frames(prog, deltas.drop_first());
        assert(r2 == r3 && evs == seq![e] + es);
        lemma_frames_execute_in_order(r1, prog, deltas.drop_first());
        lemma_executed_prepend(e, es);
        assert(evs[0] == e);
        assert forall|x: FrameEvent| es.contains(x) implies evs.contains(x) by {
            let k = choose|k: int| 0 <= k < es.len() && es[k] == x;
            assert(evs[k + 1] == x);
        }
        assert forall|x: FrameEvent| evs.contains(x) && x != e implies es.contains(x) by {
            let k = choose|k: int| 0 <= k < evs.len() && evs[k] == x;
            assert(k > 0);
            assert(es[k - 1] == x);
        }
        assert(evs.contains(e));
        let pc = r.cpu.pc as int;
        match e {
            FrameEvent::Executed(i) => {
                let (bomb, exploded) = r.bomb_timer.timer.spec_tick(deltas[0]);
                let (tick, fired) = r.tick_timer.timer.spec_tick(deltas[0]);
                let rr = Runner {
                    bomb_timer: BombTimer { timer: bomb },
                    tick_timer: TickTimer { timer: tick },
                    ..r
                };
                assert(!exploded && fired);
                assert((r1, e) == rr.spec_after_tick(prog));
                assert(pc < prog.len());
                assert(tick_spec(rr.cpu, prog, rr.player).2 == TickOutcome::Executed(prog[pc]));
                assert(r1.state == ProgramState::Running);
                assert(i == prog[pc] && r1.cpu.pc == pc + 1);
                assert(prog.subrange(pc, r2.cpu.pc as int) =~= seq![i] + prog.subrange(
                    pc + 1,
                    r2.cpu.pc as int,
                ));
                assert(run_all(prog.subrange(pc, r2.cpu.pc as int), r.player) == run_all(
                    prog.subrange(pc + 1, r2.cpu.pc as int),
                    i.effect(r.player),
                )) by {
                    assert(prog.subrange(pc, r2.cpu.pc as int).drop_first() =~= prog.subrange(
                        pc + 1,
                        r2.cpu.pc as int,
                    ));
                }
            },
            FrameEvent::Idle => {
                assert(r1.state == ProgramState::Running);
                assert(r1.cpu == r.cpu && r1.player == r.player);
            },
            _ => {
                assert(r1.state == ProgramState::Buying);
                lemma_frames_idle(r1, prog, deltas.drop_first());
                assert(r2 == r1);
                assert(r1.cpu == r.cpu && r1.player == r.player);
                assert(prog.subrange(pc, pc) =~= Seq::<Instruction>::empty());
                if e == FrameEvent::Completed {
                    assert(r.cpu.pc == prog.len());
                    assert(!es.contains(FrameEvent::BombExploded)) by {
                        if es.contains(FrameEvent::BombExploded) {
                            let k = choose|k: int|
                                0 <= k < es.len() && es[k] == FrameEvent::BombExploded;
                        }
                    }
                } else {
                    assert(!es.contains(FrameEvent::Completed)) by {
                        if es.contains(FrameEvent::Completed) {
                            let k = choose|k: int|
                                0 <= k < es.len() && es[k] == FrameEvent::Completed;
                        }
                    }
                }
            },
        }
    }
}

/// A run started on a program executes, over the start and any series of
/// frames after it, exactly the program's leading instructions, each once and
/// in order, moving the actor accordingly. If it completes, it has executed
/// the whole program and is back in the editing phase with outcome success;
/// it can only stop otherwise by the countdown running out.
pub proof fn lemma_run_executes_program(
    r: Runner,
    options: CpuOptions,
    time_to_bomb: TimeToBomb,
    prog: Seq<Instruction>,
    deltas: Seq<u64>,
)
    requires
        options.wf(),
        prog.len() <= usize::MAX,
    ensures
        ({
            let (r1, e0) = r.spec_start(options, time_to_bomb, prog);
            let (r2, evs) = r1.spec_frames(prog, deltas);
            let all = seq![e0] + evs;
            &&& r2.cpu.pc <= prog.len()
            &&& executed(all) == prog.subrange(0, r2.cpu.pc as int)
            &&& r2.player == run_all(prog.subrange(0, r2.cpu.pc as int), r.player)
            &&& all.contains(FrameEvent::Completed) ==> r2.state == ProgramState::Buying
                && r2.outcome == Some(RunOutcome::Success) && executed(all) == prog
            &&& r2.state == ProgramState::Buying ==> all.contains(FrameEvent::Completed)
                || all.contains(FrameEvent::BombExploded)
        }),
{
    let (r1, e0) = r.spec_start(options, time_to_bomb, prog);
    let (r2, evs) = r1.spec_frames(prog, deltas);
    let all = seq![e0] + evs;
    assert(options.cpu_tick * options.multiplier >= 1) by (nonlinear_arith)
        requires
            options.cpu_tick >= 1,
            options.multiplier >= 1,
    ;
    lemma_frames_execute_in_order(r1, prog, deltas);
    lemma_executed_prepend(e0, evs);
    assert(all[0] == e0);
    assert forall|x: FrameEvent| evs.contains(x) implies all.contains(x) by {
        let k = choose|k: int| 0 <= k < evs.len() && evs[k] == x;
        assert(all[k + 1] == x);
    }
    assert forall|x: FrameEvent| all.contains(x) && x != e0 implies evs.contains(x) by {
        let k = choose|k: int| 0 <= k < all.len() && all[k] == x;
        assert(k > 0);
        assert(evs[k - 1] == x);
    }
    assert(all.contains(e0));
    if prog.len() == 0 {
        assert(e0 == FrameEvent::Completed);
        assert(r1.state == ProgramState::Buying);
        assert(prog.subrange(0, 0) =~= prog);
    } else {
        assert(e0 == FrameEvent::Executed(prog[0]));
        assert(r1.state == ProgramState::Running && r1.cpu.pc == 1);
        assert(prog.subrange(0, r2.cpu.pc as int) =~= seq![prog[0]] + prog.subrange(
            1,
            r2.cpu.pc as int,
        ));
        assert(prog.subrange(0, r2.cpu.pc as int).drop_first() =~= prog.subrange(
            1,
            r2.cpu.pc as int,
        ));
        if all.contains(FrameEvent::Completed) {
            assert(prog.subrange(0, prog.len() as int) =~= prog);
        }
    }
}

/// Once the countdown's remaining time is used up during a run, that frame
/// ends the run with outcome failure before any tick, the program counter and
/// the actor stay where they were, and no later frame advances them.
pub proof fn lemma_countdown_stops_program(
    r: Runner,
    prog: Seq<Instruction>,
    delta: u64,
    deltas: Seq<u64>,
)
    requires
        r.state == ProgramState::Running,
        !r.bomb_timer.timer.finished,
        r.bomb_timer.timer.elapsed + delta >= r.bomb_timer.timer.duration,
    ensures
        ({
            let (r1, e) = r.spec_frame(prog, delta);
            &&& e == FrameEvent::BombExploded
            &&& r1.state == ProgramState::Buying
            &&& r1.outcome == Some(RunOutcome::Failure)
            &&& r1.cpu == r.cpu
            &&& r1.player == r.player
            &&& r1.spec_frames(prog, deltas).0 == r1
            &&& executed(r1.spec_frames(prog, deltas).1) == Seq::<Instruction>::empty()
        }),
{
    let (r1, e) = r.spec_frame(prog, delta);
    lemma_frames_idle(r1, prog, deltas);
    lemma_executed_idle(r1.spec_frames(prog, deltas).1);
}

proof fn lemma_executed_idle(evs: Seq<FrameEvent>)
    requires
        forall|k: int| 0 <= k < evs.len() ==> evs[k] == FrameEvent::Idle,
    ensures
        executed(evs) == Seq::<Instruction>::empty(),
    decreases evs.len(),
{
    if evs.len() > 0 {
        lemma_executed_idle(evs.drop_first());
    }
}

} // verus!
