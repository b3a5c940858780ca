use std::rc::Rc;

use vstd::prelude::*;

use crate::machine::TuringMachine;
use crate::symbol::{Action, Direction, StateID, Symbol};
use crate::tape::{written, Tape};

verus! {

/// What a computation is, apart from its table: whether it halted, where
/// the head stands, the current state, and the positions that hold `One`.
pub struct ComputationView {
    pub halted: bool,
    pub head: int,
    pub state: StateID,
    pub ones: Set<int>,
}

impl ComputationView {
    /// The symbol under the head.
    pub open spec fn scanned(self) -> Symbol {
        if self.ones.contains(self.head) {
            Symbol::One
        } else {
            Symbol::Zero
        }
    }

    /// One step of `machine`: nothing once halted; on `Halt`, only the halted
    /// flag is set; on a transition, the cell under the head is written, then
    /// the head moves, then the state changes.
    pub open spec fn next(self, machine: TuringMachine) -> ComputationView {
        if self.halted {
            self
        } else {
            match machine.action(self.state.0 as nat, self.scanned()) {
                Action::Halt => ComputationView { halted: true, ..self },
                Action::Transition { write, movement, next_state } => ComputationView {
                    halted: false,
                    head: self.head + movement.delta(),
                    state: next_state,
                    ones: written(self.ones, self.head, write),
                },
            }
        }
    }

    /// The next step of `machine` keeps the head within `i32`: the
    /// computation is halted, or the looked-up action halts, or its move
    /// lands on an `i32` position.
    pub open spec fn step_fits(self, machine: TuringMachine) -> bool {
        !self.halted ==> match machine.action(self.state.0 as nat, self.scanned()) {
            Action::Halt => true,
            Action::Transition { movement, .. } => i32::MIN <= self.head + movement.delta()
                <= i32::MAX,
        }
    }

    /// The computation after `n` steps of `machine`.
    pub open spec fn run(self, machine: TuringMachine, n: nat) -> ComputationView
        decreases n,
    {
        if n == 0 {
            self
        } else {
            self.next(machine).run(machine, (n - 1) as nat)
        }
    }
}

/// A run of a transition table over its own tape.
#[derive(Debug)]
pub struct TuringMachineComputation {
    is_halted: bool,
    tape: Tape,
    tape_head: i32,
    cur_state: StateID,
    turing_machine: Rc<TuringMachine>,
}

impl TuringMachineComputation {
    pub closed spec fn view(&self) -> ComputationView {
        ComputationView {
            halted: self.is_halted,
            head: self.tape_head as int,
            state: self.cur_state,
            ones: self.tape@,
        }
    }

    /// The table being run.
    pub closed spec fn machine(&self) -> TuringMachine {
        *self.turing_machine
    }

    /// The table can run, the current state has a row, and the tape's
    /// storage is consistent.
    pub closed spec fn wf(&self) -> bool {
        &&& self.machine().wf()
        &&& self.cur_state.0 < self.machine().state_count()
        &&& self.tape.wf()
    }

    /// A computation at the table's initial state, head at 0, on a blank tape.
    pub fn start(turing_machine: Rc<TuringMachine>) -> (r: Self)
        requires
            turing_machine.wf(),
        ensures
            r.wf(),
            r.machine() == *turing_machine,
            r@ == (ComputationView {
                halted: false,
                head: 0,
                state: turing_machine.start_state(),
                ones: Set::empty(),
            }),
    {
        let cur_state = turing_machine.initial_state();
        TuringMachineComputation {
            is_halted: false,
            tape: Tape::new(),
            tape_head: 0,
            cur_state,
            turing_machine,
        }
    }

    pub fn turing_machine(&self) -> (r: &TuringMachine)
        ensures
            *r == self.machine(),
    {
        &self.turing_machine
    }

    pub fn is_halted(&self) -> (r: bool)
        ensures
            r == self@.halted,
    {
        self.is_halted
    }

    pub fn tape(&self) -> (r: &Tape)
        ensures
            r@ == self@.ones,
            self.wf() ==> r.wf(),
    {
        &self.tape
    }

    pub fn tape_head_position(&self) -> (r: i32)
        ensures
            r == self@.head,
    {
        self.tape_head
    }

    pub fn current_state(&self) -> (r: StateID)
        ensures
            r == self@.state,
            self.wf() ==> r.0 < self.machine().state_count(),
    {
        self.cur_state
    }

    fn read_head(&self) -> (r: Symbol)
        requires
            self.wf(),
        ensures
            r == self@.scanned(),
    {
        self.tape.read_at(self.tape_head)
    }

    fn write_head(&mut self, new_symb: Symbol)
        requires
            old(self).wf(),
        ensures
            final(self).wf(),
            final(self)@ == (ComputationView {
                ones: written(old(self)@.ones, old(self)@.head, new_symb),
                ..old(self)@
            }),
            final(self).machine() == old(self).machine(),
    {
        self.tape.write_at(self.tape_head, new_symb);
    }

    fn move_dir(&mut self, dir: Direction)
        requires
            i32::MIN <= old(self)@.head + dir.delta() <= i32::MAX,
        ensures
            final(self)@ == (ComputationView { head: old(self)@.head + dir.delta(), ..old(self)@ }),
            final(self).wf() == old(self).wf(),
            final(self).machine() == old(self).machine(),
    {
        self.tape_head = self.tape_head + dir.to_int();
    }

    fn next_action(&self) -> (r: Action)
        requires
            self.wf(),
        ensures
            r == self.machine().action(self@.state.0 as nat, self@.scanned()),
    {
        self.turing_machine.lookup_action(self.cur_state, self.read_head())
    }

    fn perform_action(&mut self, action: Action)
        requires
            old(self).wf(),
            action.targets_below(old(self).machine().state_count()),
            action matches Action::Transition { movement, .. } ==> i32::MIN <= old(self)@.head
                + movement.delta() <= i32::MAX,
        ensures
            final(self).wf(),
            final(self).machine() == old(self).machine(),
            final(self)@ == match action {
                Action::Halt => ComputationView { halted: true, ..old(self)@ },
                Action::Transition { write, movement, next_state } => ComputationView {
                    halted: old(self)@.halted,
                    head: old(self)@.head + movement.delta(),
                    state: next_state,
                    ones: written(old(self)@.ones, old(self)@.head, write),
                },
            },
    {
        match action {
            Action::Halt => {
                self.is_halted = true;
            },
            Action::Transition { write, movement, next_state } => {
                self.write_head(write);
                self.move_dir(movement);
                self.cur_state = next_state;
            },
        }
    }

    /// Runs one step; returns whether the computation has halted. A halted
    /// computation is left as it is.
    pub fn step(&mut self) -> (r: bool)
        requires
            old(self).wf(),
            old(self)@.step_fits(old(self).machine()),
        ensures
            final(self).wf(),
            final(self).machine() == old(self).machine(),
            final(self)@ == old(self)@.next(old(self).machine()),
            r == final(self)@.halted,
    {
        if !self.is_halted() {
            let next_action = self.next_action();
            self.perform_action(next_action);
        }
        self.is_halted()
    }
}

/// A halted computation stays as it is: every later step reports it halted
/// and changes neither the head, the state nor the tape.
pub proof fn lemma_halt_is_final(c: ComputationView, machine: TuringMachine, n: nat)
    requires
        c.halted,
    ensures
        c.run(machine, n) == c,
        c.run(machine, n).halted,
    decreases n,
{
    if n > 0 {
        lemma_halt_is_final(c, machine, (n - 1) as nat);
    }
}

/// A step that looks up `Halt` writes, moves and changes nothing; one that
/// looks up a transition writes exactly the cell under the head, with the
/// transition's symbol, and moves the head by one.
pub proof fn lemma_step_effect(c: ComputationView, machine: TuringMachine)
    requires
        !c.halted,
    ensures
        ({
            let d = c.next(machine);
            match machine.action(c.state.0 as nat, c.scanned()) {
                Action::Halt => d.halted && d.head == c.head && d.state == c.state && d.ones
                    == c.ones,
                Action::Transition { write, movement, next_state } => {
                    &&& !d.halted
                    &&& d.head == c.head + 1 || d.head == c.head - 1
                    &&& d.head == c.head + movement.delta()
                    &&& d.state == next_state
                    &&& d.ones.contains(c.head) == (write == Symbol::One)
                    &&& forall|p: int| p != c.head ==> (#[trigger] d.ones.contains(p)
                        == c.ones.contains(p))
                },
            }
        }),
{
}

} // verus!
