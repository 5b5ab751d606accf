//! Commands that the engine refuses. Each is a no-op on the state it was
//! aimed at and never ends the session.
use vstd::prelude::*;

verus! {

#[derive(Debug, Clone, Copy, PartialEq, Eq, Structural)]
pub enum RejectedCommand {
    /// The program already holds as many instructions as its capacity allows.
    ProgramFull,
    /// No instruction stands at the given program slot.
    NoSuchSlot,
    /// The instruction has not been unlocked yet.
    NotUnlocked,
    /// The program cannot be edited while it runs.
    ProgramRunning,
    /// A run was requested while one is already in progress.
    AlreadyRunning,
    /// A reset was requested while no run is in progress.
    NotRunning,
    /// The control that issued the command is inactive.
    ControlInactive,
    /// The upgrade graph has no node with the given index.
    UnknownUpgrade,
    /// The upgrade has been bought before.
    AlreadyPurchased,
    /// The upgrade is not offered yet: no predecessor of it has been bought.
    NotRevealed,
    /// The wallet holds less than the upgrade costs.
    InsufficientFunds,
}

/// A seed topology that cannot make an upgrade graph.
#[derive(Debug, Clone, Copy, PartialEq, Eq, Structural)]
pub enum ConfigurationError {
    /// More nodes or edges than the graph's `u32` indices can name.
    TooLarge,
    /// An edge names a node that does not exist.
    DanglingEdge,
    /// A root names a node that does not exist.
    DanglingRoot,
    /// The edges form a cycle.
    Cycle,
    /// A node is marked bought although it is not offered: it is no root and
    /// none of its direct predecessors is bought.
    UnrevealedPurchase,
}

} // verus!
