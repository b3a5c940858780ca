//! A single-tape, two-symbol deterministic Turing machine: an unbounded
//! bit-packed tape, an immutable transition table, and a stepper that runs a
//! table over the tape until it halts.

pub mod computation;
pub mod machine;
pub mod random;
pub mod symbol;
pub mod tape;
pub mod text;

pub use computation::{ComputationView, TuringMachineComputation};
pub use machine::{TransitionRule, TuringMachine};
pub use random::{action_from_draws, random_turing_machine};
pub use symbol::{Action, Direction, StateID, Symbol, NUM_SYMBOLS};
pub use tape::Tape;
