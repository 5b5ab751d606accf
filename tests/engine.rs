use program_engine::cpu::{CpuOptions, TimeToBomb, BASE_CPU_TICK, BASE_TIME_TO_BOMB};
use program_engine::error::RejectedCommand;
use program_engine::grid::{Actor, GridCoords, PlayerDirection};
use program_engine::instruction::{Instruction, InstructionType};
use program_engine::program::ProgramCode;
use program_engine::run::{FrameEvent, ProgramState, RunOutcome, Runner};
use program_engine::session::{reset_simulation, start_simulation, Session};

const MS: u64 = 1_000_000;

fn origin_actor() -> Actor {
    Actor::new(GridCoords::new(0, 0), PlayerDirection::from_step(GridCoords::new(1, 0)).unwrap())
}

#[test]
fn empty_program_completes_at_once() {
    let mut s = Session::new(origin_actor());
    assert_eq!(s.remove_instruction(0), Ok(Instruction::MoveForward));
    assert_eq!(s.start_run(), Ok(FrameEvent::Completed));
    assert_eq!(s.runner.state, ProgramState::Buying);
    assert_eq!(s.runner.outcome, Some(RunOutcome::Success));
    assert_eq!(s.runner.cpu.pc, 0);
    assert_eq!(s.runner.player, origin_actor());
}

#[test]
fn single_move_forward_then_success() {
    let mut s = Session::new(origin_actor());
    assert_eq!(s.start_run(), Ok(FrameEvent::Executed(Instruction::MoveForward)));
    assert_eq!(s.runner.player.coords, GridCoords::new(1, 0));
    assert_eq!(s.runner.state, ProgramState::Running);
    assert_eq!(s.advance(BASE_CPU_TICK), FrameEvent::Completed);
    assert_eq!(s.runner.player.coords, GridCoords::new(1, 0));
    assert_eq!(s.runner.state, ProgramState::Buying);
    assert_eq!(s.runner.outcome, Some(RunOutcome::Success));
}

fn runner_with(code: Vec<Instruction>, bomb_ms: u64) -> (Runner, ProgramCode, CpuOptions, TimeToBomb) {
    let len = code.len();
    let program = ProgramCode { code, max_instructions: len.max(1) };
    (
        Runner::new(origin_actor()),
        program,
        CpuOptions::starting(),
        TimeToBomb { duration: bomb_ms * MS },
    )
}

#[test]
fn program_runs_each_instruction_once_in_order() {
    let code = vec![
        Instruction::MoveForward,
        Instruction::IfGapTurnLeft,
        Instruction::MoveForward,
        Instruction::MoveForward,
    ];
    let (mut r, program, options, bomb) = runner_with(code.clone(), 10_000);
    let mut events = vec![r.begin_running_program(&options, &bomb, &program.code)];
    for _ in 0..20 {
        events.push(r.frame(&program.code, 25 * MS));
    }
    let executed: Vec<Instruction> = events
        .iter()
        .filter_map(|e| match e {
            FrameEvent::Executed(i) => Some(*i),
            _ => None,
        })
        .collect();
    assert_eq!(executed, code);
    assert_eq!(events.iter().filter(|e| **e == FrameEvent::Completed).count(), 1);
    assert!(!events.contains(&FrameEvent::BombExploded));
    assert_eq!(r.state, ProgramState::Buying);
    assert_eq!(r.outcome, Some(RunOutcome::Success));
    assert_eq!(r.cpu.pc, 4);
    // (0,0) -> (1,0), turn counter-clockwise to (0,1), then two steps up.
    assert_eq!(r.player.coords, GridCoords::new(1, 2));
    assert_eq!(r.player.direction.step(), GridCoords::new(0, 1));
}

#[test]
fn countdown_preempts_long_program() {
    let code = vec![Instruction::MoveForward; 6];
    let (mut r, program, options, bomb) = runner_with(code, 200);
    assert_eq!(r.begin_running_program(&options, &bomb, &program.code), FrameEvent::Executed(Instruction::MoveForward));
    let mut elapsed = 0u64;
    let mut executed = 1usize;
    let mut last = FrameEvent::Idle;
    while r.state == ProgramState::Running {
        elapsed += 50 * MS;
        last = r.frame(&program.code, 50 * MS);
        if let FrameEvent::Executed(_) = last {
            executed += 1;
        }
    }
    assert_eq!(last, FrameEvent::BombExploded);
    assert_eq!(elapsed, 200 * MS);
    assert_eq!(r.outcome, Some(RunOutcome::Failure));
    assert_eq!(executed, 2);
    assert!(executed < program.code.len());
    assert_eq!(r.cpu.pc, 2);
}

#[test]
fn counter_stays_after_countdown() {
    let code = vec![Instruction::MoveForward; 6];
    let (mut r, program, options, bomb) = runner_with(code, 50);
    r.begin_running_program(&options, &bomb, &program.code);
    assert_eq!(r.frame(&program.code, 60 * MS), FrameEvent::BombExploded);
    let pc = r.cpu.pc;
    let player = r.player;
    for _ in 0..10 {
        assert_eq!(r.frame(&program.code, 100 * MS), FrameEvent::Idle);
    }
    assert_eq!(r.cpu.pc, pc);
    assert_eq!(r.player, player);
    assert_eq!(r.outcome, Some(RunOutcome::Failure));
}

#[test]
fn bomb_checked_before_tick_in_same_frame() {
    // Tick every 100 ms, bomb at 100 ms: the frame that reaches 100 ms ends the run.
    let code = vec![Instruction::MoveForward; 3];
    let (mut r, program, options, bomb) = runner_with(code, 100);
    r.begin_running_program(&options, &bomb, &program.code);
    assert_eq!(r.frame(&program.code, 100 * MS), FrameEvent::BombExploded);
    assert_eq!(r.cpu.pc, 1);
}

#[test]
fn multiplier_scales_tick_and_countdown() {
    let code = vec![Instruction::MoveForward; 3];
    let (mut r, program, mut options, bomb) = runner_with(code, 200);
    options.double_multiplier();
    assert_eq!(options.multiplier, 2);
    assert_eq!(options.tick_period(), 200 * MS);
    r.begin_running_program(&options, &bomb, &program.code);
    assert_eq!(r.tick_timer.timer.period, 200 * MS);
    assert_eq!(r.bomb_timer.timer.duration, 400 * MS);
}

#[test]
fn purchase_with_enough_gems() {
    let mut s = Session::new(origin_actor());
    s.pickup_currency(15);
    assert_eq!(s.tree.visible_upgrades(), vec![0]);
    let bought = s.purchase(0).unwrap();
    assert_eq!(bought.upgrade_type, program_engine::upgrades::UpgradeType::MaxInstructions);
    assert_eq!(s.wallet.gems, 5);
    assert!(s.tree.node(0).unwrap().bought);
    assert!(s.tree.is_revealed(4));
    assert_eq!(s.tree.visible_upgrades(), vec![4]);
}

#[test]
fn purchase_rejected_without_enough_gems() {
    let mut s = Session::new(origin_actor());
    s.pickup_currency(5);
    assert_eq!(s.purchase(0), Err(RejectedCommand::InsufficientFunds));
    assert_eq!(s.wallet.gems, 5);
    assert!(!s.tree.node(0).unwrap().bought);
    assert!(!s.tree.is_revealed(4));
}

#[test]
fn purchase_twice_is_refused_and_keeps_wallet() {
    let mut s = Session::new(origin_actor());
    s.pickup_currency(100);
    assert!(s.purchase(0).is_ok());
    assert_eq!(s.wallet.gems, 90);
    assert_eq!(s.purchase(0), Err(RejectedCommand::AlreadyPurchased));
    assert_eq!(s.wallet.gems, 90);
    assert_eq!(s.purchase(99), Err(RejectedCommand::UnknownUpgrade));
    assert_eq!(s.wallet.gems, 90);
}

#[test]
fn purchase_reveals_only_direct_successors() {
    let mut s = Session::new(origin_actor());
    s.pickup_currency(1000);
    assert_eq!(s.purchase(5), Err(RejectedCommand::NotRevealed));
    s.purchase(0).unwrap();
    s.purchase(4).unwrap();
    assert_eq!(s.wallet.gems, 1000 - 10 - 30);
    assert_eq!(s.tree.visible_upgrades(), vec![1, 5]);
    for hidden in [2, 3, 6, 7, 8, 9] {
        assert!(!s.tree.is_revealed(hidden));
    }
    assert_eq!(s.purchase(6), Err(RejectedCommand::NotRevealed));
    s.purchase(5).unwrap();
    assert_eq!(s.tree.visible_upgrades(), vec![1, 2, 6, 9]);
    assert!(!s.tree.is_revealed(7));
}

#[test]
fn successors_come_most_recent_first() {
    let s = Session::new(origin_actor());
    assert_eq!(s.tree.successors(5), vec![9, 2, 6]);
    assert_eq!(s.tree.successors(4), vec![1, 5]);
    assert_eq!(s.tree.successors(8), Vec::<usize>::new());
}

#[test]
fn seed_graph_costs() {
    let s = Session::new(origin_actor());
    let costs: Vec<usize> = (0..s.tree.len()).map(|i| s.tree.node(i).unwrap().cost).collect();
    assert_eq!(costs, vec![10, 30, 70, 150, 30, 90, 270, 810, 2430, 100]);
    assert_eq!(s.tree.len(), 10);
    assert!(s.tree.node(10).is_none());
}

#[test]
fn capacity_upgrade_doubles_capacity() {
    let mut s = Session::new(origin_actor());
    s.pickup_currency(1000);
    assert_eq!(s.program.max_instructions, 1);
    s.purchase(0).unwrap();
    assert_eq!(s.program.max_instructions, 2);
    s.purchase(4).unwrap();
    assert_eq!(s.program.max_instructions, 2);
    assert_eq!(s.options.cpu_tick, BASE_CPU_TICK / 2);
    s.purchase(1).unwrap();
    assert_eq!(s.program.max_instructions, 4);
    assert_eq!(s.remove_instruction(0), Ok(Instruction::MoveForward));
    assert_eq!(s.program.max_instructions, 4);
}

#[test]
fn unlock_if_upgrade_unlocks_turn() {
    let mut s = Session::new(origin_actor());
    s.pickup_currency(1000);
    s.purchase(0).unwrap();
    assert_eq!(s.add_instruction(Instruction::IfGapTurnLeft), Err(RejectedCommand::NotUnlocked));
    s.purchase(4).unwrap();
    s.purchase(5).unwrap();
    assert!(s.unlocked.get_vec(InstructionType::Scanning).is_none());
    s.purchase(9).unwrap();
    assert_eq!(s.unlocked.get_vec(InstructionType::Scanning), Some(vec![Instruction::IfGapTurnLeft]));
    assert!(s.unlocked.contains(Instruction::IfGapTurnLeft));
    assert_eq!(s.add_instruction(Instruction::IfGapTurnLeft), Ok(()));
    assert_eq!(s.program.code, vec![Instruction::MoveForward, Instruction::IfGapTurnLeft]);
}

#[test]
fn starting_unlocks_and_palette() {
    let s = Session::new(origin_actor());
    assert_eq!(s.unlocked.get_vec(InstructionType::Movement), Some(vec![Instruction::MoveForward]));
    assert!(s.unlocked.get_vec(InstructionType::Control).is_none());
    assert!(!s.unlocked.contains(Instruction::IfGapTurnLeft));
    assert_eq!(
        s.unlocked.palette(),
        vec![(InstructionType::Movement, vec![Instruction::MoveForward])]
    );
}

#[test]
fn editing_rules() {
    let mut s = Session::new(origin_actor());
    assert_eq!(s.add_instruction(Instruction::MoveForward), Err(RejectedCommand::ProgramFull));
    assert_eq!(s.remove_instruction(3), Err(RejectedCommand::NoSuchSlot));
    assert_eq!(s.start_run(), Ok(FrameEvent::Executed(Instruction::MoveForward)));
    assert_eq!(s.remove_instruction(0), Err(RejectedCommand::ProgramRunning));
    assert_eq!(s.add_instruction(Instruction::MoveForward), Err(RejectedCommand::ProgramRunning));
    assert_eq!(s.program.code.len(), 1);
}

#[test]
fn phase_commands() {
    let mut s = Session::new(origin_actor());
    assert!(s.start_active());
    assert!(!s.reset_active());
    assert_eq!(s.reset_to_buying(), Err(RejectedCommand::NotRunning));
    assert_eq!(start_simulation(&mut s, true), Err(RejectedCommand::ControlInactive));
    assert_eq!(s.runner.state, ProgramState::Buying);
    assert!(start_simulation(&mut s, false).is_ok());
    assert!(!s.start_active());
    assert!(s.reset_active());
    assert_eq!(s.start_run(), Err(RejectedCommand::AlreadyRunning));
    assert_eq!(reset_simulation(&mut s, true), Err(RejectedCommand::ControlInactive));
    assert_eq!(reset_simulation(&mut s, false), Ok(()));
    assert_eq!(s.runner.state, ProgramState::Buying);
    assert_eq!(s.runner.outcome, None);
    assert_eq!(s.advance(BASE_CPU_TICK), FrameEvent::Idle);
    assert_eq!(s.time_to_bomb.duration, BASE_TIME_TO_BOMB);
}

#[test]
fn reset_keeps_wallet_and_upgrades() {
    let mut s = Session::new(origin_actor());
    s.pickup_currency(12);
    s.purchase(0).unwrap();
    s.start_run().unwrap();
    s.reset_to_buying().unwrap();
    assert_eq!(s.wallet.gems, 2);
    assert!(s.tree.node(0).unwrap().bought);
    assert_eq!(s.program.max_instructions, 2);
}

#[test]
fn gems_picked_up_during_run() {
    let mut s = Session::new(origin_actor());
    let gems = vec![GridCoords::new(1, 0), GridCoords::new(2, 0), GridCoords::new(1, 0)];
    assert_eq!(s.pickup_gems(&gems), Vec::<usize>::new());
    s.start_run().unwrap();
    assert_eq!(s.pickup_gems(&gems), vec![0, 2]);
    assert_eq!(s.wallet.gems, 2);
}

#[test]
fn wallet_saturates() {
    let mut s = Session::new(origin_actor());
    s.pickup_currency(usize::MAX - 1);
    s.pickup_currency(5);
    assert_eq!(s.wallet.gems, usize::MAX);
}

#[test]
fn four_capacity_upgrades_reach_sixteen() {
    let mut s = Session::new(origin_actor());
    s.pickup_currency(10_000);
    for idx in [0, 4, 1, 5, 2, 6, 3] {
        s.purchase(idx).unwrap();
    }
    assert_eq!(s.program.max_instructions, 16);
    assert_eq!(s.options.cpu_tick, BASE_CPU_TICK / 8);
    assert_eq!(s.wallet.gems, 10_000 - 10 - 30 - 30 - 90 - 70 - 270 - 150);
}
