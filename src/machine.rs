use vstd::prelude::*;

use crate::symbol::{Action, StateID, Symbol, NUM_SYMBOLS};

verus! {

/// The two actions of one state, indexed by the symbol read.
pub type TransitionRule = [Action; NUM_SYMBOLS];

/// An immutable transition table with its initial state.
#[derive(Debug, PartialEq, Eq)]
pub struct TuringMachine {
    initial_state: StateID,
    transition_rules: Vec<TransitionRule>,
}

impl TuringMachine {
    /// The state a computation starts in.
    pub closed spec fn start_state(&self) -> StateID {
        self.initial_state
    }

    /// The number of states, one row of the table each.
    pub closed spec fn state_count(&self) -> nat {
        self.transition_rules@.len()
    }

    /// The action of `state` on reading `symb`.
    pub closed spec fn action(&self, state: nat, symb: Symbol) -> Action {
        self.transition_rules@[state as int][symb.code() as int]
    }

    /// The table can run: its initial state and every state that an action
    /// moves to have a row.
    pub open spec fn wf(&self) -> bool {
        &&& self.start_state().0 < self.state_count()
        &&& forall|s: nat, symb: Symbol|
            s < self.state_count() ==> #[trigger] self.action(s, symb).targets_below(
                self.state_count(),
            )
    }

    /// A table over `transition_rules` whose rows are not checked.
    pub(crate) fn from_rules(initial_state: StateID, transition_rules: Vec<TransitionRule>) -> (r:
        TuringMachine)
        ensures
            r.start_state() == initial_state,
            r.state_count() == transition_rules@.len(),
            forall|s: nat, symb: Symbol|
                s < r.state_count() ==> #[trigger] r.action(s, symb)
                    == transition_rules@[s as int][symb.code() as int],
    {
        TuringMachine { initial_state, transition_rules }
    }

    /// A table over `transition_rules`, row `i` holding the actions of state
    /// `i` on `Zero` and on `One`; `None` unless the table can run.
    pub fn new(initial_state: StateID, transition_rules: Vec<TransitionRule>) -> (r: Option<
        TuringMachine,
    >)
        ensures
            r.is_some() <==> initial_state.0 < transition_rules@.len() && forall|i: int, j: int|
                0 <= i < transition_rules@.len() && 0 <= j < NUM_SYMBOLS ==> (
                #[trigger] transition_rules@[i][j]).targets_below(transition_rules@.len()),
            r matches Some(m) ==> {
                &&& m.wf()
                &&& m.start_state() == initial_state
                &&& m.state_count() == transition_rules@.len()
                &&& forall|s: nat, symb: Symbol|
                    s < m.state_count() ==> #[trigger] m.action(s, symb)
                        == transition_rules@[s as int][symb.code() as int]
            },
    {
        let n = transition_rules.len();
        if initial_state.0 as usize >= n {
            return None;
        }
        let mut i: usize = 0;
        while i < n
            invariant
                n == transition_rules@.len(),
                i <= n,
                forall|k: int, j: int|
                    0 <= k < i && 0 <= j < NUM_SYMBOLS ==> (
                    #[trigger] transition_rules@[k][j]).targets_below(n as nat),
            decreases n - i,
        {
            let mut j: usize = 0;
            while j < NUM_SYMBOLS
                invariant
                    n == transition_rules@.len(),
                        i < n,
                    j <= NUM_SYMBOLS,
                    forall|k: int, l: int|
                        (0 <= k < i && 0 <= l < NUM_SYMBOLS) || (k == i && 0 <= l < j) ==> (
                        #[trigger] transition_rules@[k][l]).targets_below(n as nat),
                decreases NUM_SYMBOLS - j,
            {
                match transition_rules[i][j] {
                    Action::Halt => {},
                    Action::Transition { next_state, .. } => {
                        if next_state.0 as usize >= n {
                            return None;
                        }
                    },
                }
                j = j + 1;
            }
            i = i + 1;
        }
        let m = TuringMachine::from_rules(initial_state, transition_rules);
        assert forall|s: nat, symb: Symbol| s < m.state_count() implies #[trigger] m.action(
            s,
            symb,
        ).targets_below(m.state_count()) by {
            assert(transition_rules@[s as int][symb.code() as int].targets_below(n as nat));
        }
        Some(m)
    }

    pub fn initial_state(&self) -> (r: StateID)
        ensures
            r == self.start_state(),
    {
        self.initial_state
    }

    pub fn num_states(&self) -> (r: usize)
        ensures
            r == self.state_count(),
    {
        self.transition_rules.len()
    }

    pub fn lookup_action(&self, state: StateID, symb: Symbol) -> (r: Action)
        requires
            state.0 < self.state_count(),
        ensures
            r == self.action(state.0 as nat, symb),
    {
        self.transition_rules[state.0 as usize][symb.to_int() as usize]
    }
}

} // verus!
