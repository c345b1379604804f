//! Drives console programs through scripted conversations and checks what
//! they print, line by line.
//!
//! The library holds the decisions: the step-by-step protocol of one
//! interaction, the reconciliation of its verdict with the way the child
//! process exited, the bookkeeping of a bounded pool of concurrent runs, and
//! the rendering of diagnostics. Spawning processes, reading with timeouts and
//! running threads are left to the caller.
pub mod text;
pub mod script;
pub mod outcome;
pub mod engine;
pub mod laws;
pub mod scheduler;
pub mod render;
pub mod parser;
pub mod config;

pub use script::{
    InteractionLine, InteractionLineKind, InteractionParseError, InteractionTest, RunnerConfig,
};
pub use outcome::RunnerError;
pub use engine::{Action, ChildExit, Event, Protocol, Step, Verdict, input_exhausted, reconcile};
pub use scheduler::{InteractionResult, Run, Schedule, run_interactions};
pub use parser::parse;
pub use config::{OcdArgs, OcdConfig, OcdInteractionConfig, OcdRunnerConfig};
