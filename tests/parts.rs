use program_engine::animation::{PlayerAnimation, PlayerAnimationState, WALKING_INTERVAL};
use program_engine::cpu::{handle_tick, CpuOptions, CpuState, TickOutcome};
use program_engine::grid::{Actor, GridCoords, PlayerDirection};
use program_engine::instruction::{handle_instruction, if_gap_turn_left, move_forward, Instruction, InstructionType};
use program_engine::program::ProgramCode;
use program_engine::timer::{OnceTimer, RepeatingTimer};
use program_engine::unlocks::UnlockedInstructions;
use program_engine::error::ConfigurationError;
use program_engine::topology::topological_order;
use program_engine::upgrades::{apply_upgrade, Upgrade, UpgradeBought, UpgradeTree, UpgradeType};
use program_engine::wallet::gems_at;

#[test]
fn repeating_timer_keeps_remainder() {
    let mut t = RepeatingTimer::new(100);
    assert!(!t.tick(30));
    assert_eq!(t.elapsed, 30);
    assert!(t.tick(250));
    assert_eq!(t.elapsed, 80);
    assert!(t.tick(20));
    assert_eq!(t.elapsed, 0);
    let mut big = RepeatingTimer::new(u64::MAX);
    assert!(!big.tick(u64::MAX - 1));
    assert!(big.tick(5));
    assert_eq!(big.elapsed, 4);
}

#[test]
fn once_timer_fires_once() {
    let mut t = OnceTimer::new(100);
    assert!(!t.tick(60));
    assert!(t.tick(60));
    assert_eq!(t.elapsed, 100);
    assert!(!t.tick(1000));
    let mut zero = OnceTimer::new(0);
    assert!(zero.tick(0));
    assert!(!zero.tick(0));
}

#[test]
fn options_arithmetic() {
    let mut o = CpuOptions::starting();
    assert_eq!(o.tick_period(), 100_000_000);
    o.halve_tick();
    assert_eq!(o.cpu_tick, 50_000_000);
    o.double_multiplier();
    o.double_multiplier();
    assert_eq!(o.multiplier, 4);
    assert_eq!(o.tick_period(), 200_000_000);
    assert_eq!(o.scale(u64::MAX), u64::MAX);
    let mut small = CpuOptions { cpu_tick: 1, multiplier: u64::MAX };
    small.halve_tick();
    assert_eq!(small.cpu_tick, 1);
    small.double_multiplier();
    assert_eq!(small.multiplier, u64::MAX);
}

#[test]
fn instruction_effects() {
    let mut a = Actor::new(GridCoords::new(0, 0), PlayerDirection::default_facing());
    move_forward(&mut a);
    assert_eq!(a.coords, GridCoords::new(1, 0));
    if_gap_turn_left(&mut a);
    assert_eq!(a.direction.step(), GridCoords::new(0, 1));
    handle_instruction(Instruction::MoveForward, &mut a);
    assert_eq!(a.coords, GridCoords::new(1, 1));
    if_gap_turn_left(&mut a);
    assert_eq!(a.direction.step(), GridCoords::new(-1, 0));
    if_gap_turn_left(&mut a);
    assert_eq!(a.direction.step(), GridCoords::new(0, -1));
    if_gap_turn_left(&mut a);
    assert_eq!(a.direction.step(), GridCoords::new(1, 0));
    assert_eq!(a.coords, GridCoords::new(1, 1));
    if_gap_turn_left(&mut a);
    for _ in 0..3 {
        handle_instruction(Instruction::IfGapTurnLeft, &mut a);
    }
    assert_eq!(a.direction, PlayerDirection::PlusX);
    let mut edge = Actor::new(GridCoords::new(i32::MAX, 3), PlayerDirection::PlusX);
    move_forward(&mut edge);
    assert_eq!(edge.coords, GridCoords::new(i32::MAX, 3));
    assert_eq!(PlayerDirection::from_step(GridCoords::new(1, 1)), None);
    assert_eq!(PlayerDirection::from_step(GridCoords::new(0, 1)), Some(PlayerDirection::PlusY));
}

#[test]
fn instruction_categories() {
    assert_eq!(Instruction::MoveForward.inst_type(), InstructionType::Movement);
    assert_eq!(Instruction::IfGapTurnLeft.inst_type(), InstructionType::Scanning);
    assert_eq!(Instruction::IfGapTurnLeft.name(), "IfGapTurnLeft");
}

#[test]
fn tick_runs_then_completes() {
    let program = vec![Instruction::MoveForward, Instruction::IfGapTurnLeft];
    let mut cpu = CpuState { pc: 0 };
    let mut a = Actor::new(GridCoords::new(0, 0), PlayerDirection::PlusX);
    assert_eq!(handle_tick(&mut cpu, &program, &mut a), TickOutcome::Executed(Instruction::MoveForward));
    assert_eq!(handle_tick(&mut cpu, &program, &mut a), TickOutcome::Executed(Instruction::IfGapTurnLeft));
    assert_eq!(cpu.pc, 2);
    assert_eq!(handle_tick(&mut cpu, &program, &mut a), TickOutcome::Completed);
    assert_eq!(cpu.pc, 2);
    assert_eq!(a, Actor::new(GridCoords::new(1, 0), PlayerDirection::PlusY));
}

#[test]
fn program_code_edits() {
    let mut p = ProgramCode::empty();
    assert_eq!(p.len(), 0);
    assert!(p.add_instruction(Instruction::MoveForward).is_ok());
    assert!(p.add_instruction(Instruction::MoveForward).is_err());
    p.double_capacity();
    assert_eq!(p.max_instructions, 2);
    assert!(p.add_instruction(Instruction::IfGapTurnLeft).is_ok());
    assert_eq!(p.remove_instruction(0), Ok(Instruction::MoveForward));
    assert_eq!(p.code, vec![Instruction::IfGapTurnLeft]);
    let mut huge = ProgramCode { code: vec![], max_instructions: usize::MAX - 1 };
    huge.double_capacity();
    assert_eq!(huge.max_instructions, usize::MAX);
    assert_eq!(ProgramCode::starting().code, vec![Instruction::MoveForward]);
}

#[test]
fn upgrade_effects() {
    let mut o = CpuOptions::starting();
    let mut p = ProgramCode::starting();
    let mut u = UnlockedInstructions::starting();
    apply_upgrade(UpgradeBought { upgrade_type: UpgradeType::CpuMultiplier }, &mut o, &mut p, &mut u);
    assert_eq!(o.multiplier, 2);
    apply_upgrade(UpgradeBought { upgrade_type: UpgradeType::CpuSpeed }, &mut o, &mut p, &mut u);
    assert_eq!(o.cpu_tick, 50_000_000);
    apply_upgrade(UpgradeBought { upgrade_type: UpgradeType::MaxInstructions }, &mut o, &mut p, &mut u);
    assert_eq!(p.max_instructions, 2);
    apply_upgrade(UpgradeBought { upgrade_type: UpgradeType::UnlockIf }, &mut o, &mut p, &mut u);
    apply_upgrade(UpgradeBought { upgrade_type: UpgradeType::UnlockIf }, &mut o, &mut p, &mut u);
    assert_eq!(u.get_vec(InstructionType::Scanning), Some(vec![Instruction::IfGapTurnLeft]));
    assert_eq!(UpgradeType::CpuSpeed.label(), "CPU Speed x2");
}

#[test]
fn gems_on_cell() {
    let gems = vec![GridCoords::new(0, 0), GridCoords::new(3, 4), GridCoords::new(3, 4)];
    assert_eq!(gems_at(GridCoords::new(3, 4), &gems), vec![1, 2]);
    assert_eq!(gems_at(GridCoords::new(9, 9), &gems), Vec::<usize>::new());
}

#[test]
fn animation_frames() {
    let mut a = PlayerAnimation::new();
    assert_eq!(a.state, PlayerAnimationState::Idling);
    a.update_state(PlayerAnimationState::Walking);
    assert_eq!(a.state, PlayerAnimationState::Walking);
    a.update_timer(WALKING_INTERVAL - 1);
    assert!(!a.changed());
    assert_eq!(a.get_atlas_index(), 0);
    a.update_timer(1);
    assert!(a.changed());
    assert_eq!(a.get_atlas_index(), 1);
    a.update_timer(WALKING_INTERVAL);
    assert_eq!(a.get_atlas_index(), 0);
    a.update_timer(10);
    a.update_state(PlayerAnimationState::Walking);
    assert_eq!(a.timer.elapsed, 10);
    a.update_state(PlayerAnimationState::Idling);
    assert_eq!(a.timer.elapsed, 0);
    assert_eq!(a.get_atlas_index(), 0);
}

fn seed_schedule() -> (Vec<Upgrade>, Vec<(usize, usize)>, Vec<usize>) {
    let nodes = vec![
        Upgrade::max_instructions(1, 10),
        Upgrade::max_instructions(2, 30),
        Upgrade::max_instructions(3, 70),
        Upgrade::max_instructions(4, 150),
        Upgrade::cpu_speed(1, 30),
        Upgrade::cpu_speed(2, 90),
        Upgrade::cpu_speed(3, 270),
        Upgrade::cpu_speed(4, 810),
        Upgrade::cpu_speed(5, 2430),
        Upgrade::new(UpgradeType::UnlockIf, 1, 100),
    ];
    let edges = vec![(0, 4), (4, 5), (4, 1), (5, 6), (5, 2), (5, 9), (6, 7), (6, 3), (7, 8)];
    (nodes, edges, vec![0])
}

#[test]
fn seed_schedule_builds_same_graph() {
    let (nodes, edges, roots) = seed_schedule();
    let built = UpgradeTree::from_schedule(nodes.clone(), edges, roots).unwrap();
    let seeded = UpgradeTree::seeded();
    assert_eq!(built.len(), seeded.len());
    for i in 0..built.len() {
        assert_eq!(built.node(i), seeded.node(i));
        assert_eq!(built.successors(i), seeded.successors(i));
    }
    assert_eq!(built.visible_upgrades(), vec![0]);
}

#[test]
fn schedule_errors() {
    let (nodes, edges, roots) = seed_schedule();
    let mut dangling = edges.clone();
    dangling.push((9, 10));
    assert_eq!(
        UpgradeTree::from_schedule(nodes.clone(), dangling, roots.clone()).err(),
        Some(ConfigurationError::DanglingEdge)
    );
    assert_eq!(
        UpgradeTree::from_schedule(nodes.clone(), edges.clone(), vec![10]).err(),
        Some(ConfigurationError::DanglingRoot)
    );
    let mut cyclic = edges.clone();
    cyclic.push((8, 0));
    assert_eq!(
        UpgradeTree::from_schedule(nodes.clone(), cyclic, roots.clone()).err(),
        Some(ConfigurationError::Cycle)
    );
    let mut self_loop = edges.clone();
    self_loop.push((3, 3));
    assert_eq!(
        UpgradeTree::from_schedule(nodes, self_loop, roots).err(),
        Some(ConfigurationError::Cycle)
    );
}

#[test]
fn topological_order_of_small_graphs() {
    let order = topological_order(4, &vec![(2, 0), (0, 1), (3, 1)]).unwrap();
    let pos = |v: usize| order.iter().position(|x| *x == v).unwrap();
    assert_eq!(order.len(), 4);
    assert!(pos(2) < pos(0) && pos(0) < pos(1) && pos(3) < pos(1));
    assert_eq!(topological_order(3, &vec![(0, 1), (1, 2), (2, 0)]), None);
    assert_eq!(topological_order(0, &vec![]), Some(vec![]));
}

#[test]
fn schedule_with_unoffered_purchase_is_refused() {
    let (mut nodes, edges, roots) = seed_schedule();
    nodes[5].bought = true;
    assert_eq!(
        UpgradeTree::from_schedule(nodes.clone(), edges.clone(), roots.clone()).err(),
        Some(ConfigurationError::UnrevealedPurchase)
    );
    nodes[0].bought = true;
    nodes[4].bought = true;
    let t = UpgradeTree::from_schedule(nodes, edges, roots).unwrap();
    assert_eq!(t.visible_upgrades(), vec![1, 2, 6, 9]);
}
