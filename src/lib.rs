//! Program-execution and progression engine of a grid puzzle game: a tiny
//! instruction interpreter driven by a tick timer and a countdown, an
//! edit/run phase machine, and a purchasable upgrade graph that reshapes the
//! interpreter's parameters.
pub mod animation;
pub mod cpu;
pub mod error;
pub mod grid;
pub mod instruction;
pub mod program;
pub mod run;
pub mod session;
pub mod timer;
pub mod topology;
pub mod unlocks;
pub mod upgrades;
pub mod wallet;
