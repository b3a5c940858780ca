use vstd::prelude::*;
use vstd::string::*;

use crate::machine::TuringMachine;
use crate::symbol::{Action, Direction, StateID, Symbol};

verus! {

/// The character of decimal digit `d`.
pub open spec fn digit(d: nat) -> char {
    "0123456789"@[d as int]
}

/// The decimal digits of `n`, most significant first, without leading zeros.
pub open spec fn decimal(n: nat) -> Seq<char>
    decreases n,
{
    if n < 10 {
        seq![digit(n)]
    } else {
        decimal(n / 10).push(digit(n % 10))
    }
}

/// Relies on `ToString` of `u64`, which goes through its `Display`: the
/// decimal digits of `n`, with no sign and no leading zeros.
#[verifier::external_body]
fn decimal_text(n: u64) -> (r: String)
    ensures
        r@ == decimal(n as nat),
{
    n.to_string()
}

impl StateID {
    /// `S` followed by the state's number.
    pub open spec fn text(self) -> Seq<char> {
        "S"@ + decimal(self.0 as nat)
    }

    pub fn to_text(&self) -> (r: String)
        ensures
            r@ == self.text(),
    {
        let mut r = "S".to_owned();
        let digits = decimal_text(self.0 as u64);
        r.append(digits.as_str());
        r
    }
}

impl Direction {
    /// `L` or `R`.
    pub open spec fn text(self) -> Seq<char> {
        match self {
            Direction::Left => "L"@,
            Direction::Right => "R"@,
        }
    }

    pub fn to_text(&self) -> (r: String)
        ensures
            r@ == self.text(),
    {
        match self {
            Direction::Left => "L".to_owned(),
            Direction::Right => "R".to_owned(),
        }
    }
}

impl Action {
    /// `H` for `Halt`; for a transition, the code of the symbol written, the
    /// direction and the next state (`1RS3`).
    pub open spec fn text(self) -> Seq<char> {
        match self {
            Action::Halt => "H"@,
            Action::Transition { write, movement, next_state } => decimal(write.code()) + movement.text()
                + next_state.text(),
        }
    }

    pub fn to_text(&self) -> (r: String)
        ensures
            r@ == self.text(),
    {
        match self {
            Action::Halt => "H".to_owned(),
            Action::Transition { write, movement, next_state } => {
                let mut r = decimal_text(write.to_int() as u64);
                let dir = movement.to_text();
                r.append(dir.as_str());
                let state = next_state.to_text();
                r.append(state.as_str());
                r
            },
        }
    }
}

impl TuringMachine {
    /// The line of state `s`: its actions on `0` and on `1`.
    pub open spec fn row_text(&self, s: nat) -> Seq<char> {
        "    S"@ + decimal(s) + ": 0 -> "@ + self.action(s, Symbol::Zero).text() + "; 1 -> "@
            + self.action(s, Symbol::One).text() + "\n"@
    }

    /// The lines of the states below `n`, state 0 first.
    pub open spec fn rows_text(&self, n: nat) -> Seq<char>
        decreases n,
    {
        if n == 0 {
            Seq::empty()
        } else {
            self.rows_text((n - 1) as nat) + self.row_text((n - 1) as nat)
        }
    }

    /// The number of states, the initial state, then one line per state.
    pub open spec fn text(&self) -> Seq<char> {
        "Number of states: "@ + decimal(self.state_count()) + "\nInitial state: "@
            + self.start_state().text() + "\n"@ + self.rows_text(self.state_count())
    }

    fn row_description(&self, i: usize) -> (r: String)
        requires
            i < self.state_count(),
            i <= u32::MAX,
        ensures
            r@ == self.row_text(i as nat),
    {
        let state = StateID(i as u32);
        let action0 = self.lookup_action(state, Symbol::Zero).to_text();
        let action1 = self.lookup_action(state, Symbol::One).to_text();
        let mut r = "    S".to_owned();
        let number = decimal_text(i as u64);
        r.append(number.as_str());
        r.append(": 0 -> ");
        r.append(action0.as_str());
        r.append("; 1 -> ");
        r.append(action1.as_str());
        r.append("\n");
        assert(r@ =~= self.row_text(i as nat));
        r
    }

    /// The table as text, one line per state.
    pub fn description(&self) -> (r: String)
        requires
            self.state_count() <= u32::MAX + 1,
        ensures
            r@ == self.text(),
    {
        let n = self.num_states();
        let mut r = "Number of states: ".to_owned();
        let count = decimal_text(n as u64);
        r.append(count.as_str());
        r.append("\nInitial state: ");
        let initial = self.initial_state().to_text();
        r.append(initial.as_str());
        r.append("\n");
        let ghost head = r@;
        let mut i: usize = 0;
        while i < n
            invariant
                n == self.state_count(),
                n <= u32::MAX + 1,
                i <= n,
                r@ == head + self.rows_text(i as nat),
            decreases n - i,
        {
            let row = self.row_description(i);
            r.append(row.as_str());
            i = i + 1;
            assert(r@ =~= head + self.rows_text(i as nat));
        }
        r
    }
}

} // verus!
