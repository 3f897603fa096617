//! A small finite-state-machine engine: single machines with per-state hooks,
//! parallel composition over one action stream, and undo/redo history.

mod machine;
mod parallel;
mod history;

pub use machine::{Machine, Transition};
pub use parallel::ParallelMachine;
pub use history::HistoryMachine;
