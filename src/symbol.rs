use vstd::prelude::*;

verus! {

/// The number of symbols of the alphabet.
pub const NUM_SYMBOLS: usize = 2;

/// A tape symbol; never-written cells read as `Zero`.
#[derive(Clone, Copy, Debug, PartialEq, Eq, Structural)]
pub enum Symbol {
    Zero,
    One,
}

/// A head movement.
#[derive(Clone, Copy, Debug, PartialEq, Eq, Structural)]
pub enum Direction {
    Left,
    Right,
}

/// A state of a machine: an index into its transition table.
#[derive(Clone, Copy, Debug, PartialEq, Eq, Structural)]
pub struct StateID(pub u32);

/// What a machine does on reading a symbol in a state.
#[derive(Clone, Copy, Debug, PartialEq, Eq, Structural)]
pub enum Action {
    Halt,
    Transition { write: Symbol, movement: Direction, next_state: StateID },
}

impl Symbol {
    /// The symbol's code: 0 for `Zero`, 1 for `One`.
    pub open spec fn code(self) -> nat {
        match self {
            Symbol::Zero => 0,
            Symbol::One => 1,
        }
    }

    pub fn from_int(n: u32) -> (r: Symbol)
        requires
            n < NUM_SYMBOLS,
        ensures
            r.code() == n,
    {
        if n == 0 {
            Symbol::Zero
        } else {
            Symbol::One
        }
    }

    pub fn to_int(self) -> (r: u32)
        ensures
            r == self.code(),
    {
        match self {
            Symbol::Zero => 0,
            Symbol::One => 1,
        }
    }
}

impl Direction {
    /// The head displacement of a move: -1 or +1.
    pub open spec fn delta(self) -> int {
        match self {
            Direction::Left => -1,
            Direction::Right => 1,
        }
    }

    pub fn from_int(n: u32) -> (r: Direction)
        requires
            n < 2,
        ensures
            r == (if n == 0 {
                Direction::Left
            } else {
                Direction::Right
            }),
    {
        if n == 0 {
            Direction::Left
        } else {
            Direction::Right
        }
    }

    pub fn to_int(self) -> (r: i32)
        ensures
            r == self.delta(),
    {
        match self {
            Direction::Left => -1,
            Direction::Right => 1,
        }
    }
}

impl Action {
    /// The action refers to no state at or beyond `num_states`.
    pub open spec fn targets_below(self, num_states: nat) -> bool {
        match self {
            Action::Halt => true,
            Action::Transition { next_state, .. } => next_state.0 < num_states,
        }
    }
}

} // verus!
