use rand::rngs::StdRng;
use rand::SeedableRng;
use std::rc::Rc;

use turing::{
    action_from_draws, random_turing_machine, Action, Direction, StateID, Symbol, Tape, TransitionRule,
    TuringMachine, TuringMachineComputation,
};

fn go(write: Symbol, movement: Direction, next: u32) -> Action {
    Action::Transition { write, movement, next_state: StateID(next) }
}

fn machine(initial: u32, rules: Vec<TransitionRule>) -> Rc<TuringMachine> {
    Rc::new(TuringMachine::new(StateID(initial), rules).expect("a table that can run"))
}

fn ones_machine() -> Rc<TuringMachine> {
    machine(0, vec![[go(Symbol::One, Direction::Right, 0), Action::Halt]])
}

#[test]
fn symbol_codes() {
    assert_eq!(Symbol::Zero.to_int(), 0);
    assert_eq!(Symbol::One.to_int(), 1);
    assert_eq!(Symbol::from_int(0), Symbol::Zero);
    assert_eq!(Symbol::from_int(1), Symbol::One);
}

#[test]
fn direction_displacements() {
    assert_eq!(Direction::Left.to_int(), -1);
    assert_eq!(Direction::Right.to_int(), 1);
}

#[test]
fn blank_tape_reads_zero_everywhere() {
    let tape = Tape::default();
    for p in [0, 1, -1, 31, 32, -32, -33, 1000, -1000, i32::MAX, i32::MIN] {
        assert_eq!(tape.read_at(p), Symbol::Zero);
    }
}

#[test]
fn fresh_computation_is_blank() {
    let run = TuringMachineComputation::start(ones_machine());
    for p in [0, 5, -5, 1 << 20, -(1 << 20), i32::MAX, i32::MIN] {
        assert_eq!(run.tape().read_at(p), Symbol::Zero);
    }
    assert_eq!(run.tape_head_position(), 0);
    assert_eq!(run.current_state(), StateID(0));
    assert!(!run.is_halted());
}

#[test]
fn write_then_read_both_directions() {
    let mut tape = Tape::new();
    tape.write_at(3, Symbol::One);
    tape.write_at(-70, Symbol::One);
    tape.write_at(200, Symbol::One);
    tape.write_at(-1, Symbol::One);
    assert_eq!(tape.read_at(3), Symbol::One);
    assert_eq!(tape.read_at(-70), Symbol::One);
    assert_eq!(tape.read_at(200), Symbol::One);
    assert_eq!(tape.read_at(-1), Symbol::One);
    assert_eq!(tape.read_at(2), Symbol::Zero);
    assert_eq!(tape.read_at(-69), Symbol::Zero);
    assert_eq!(tape.read_at(0), Symbol::Zero);
    tape.write_at(3, Symbol::Zero);
    assert_eq!(tape.read_at(3), Symbol::Zero);
    assert_eq!(tape.read_at(-70), Symbol::One);
}

#[test]
fn last_write_wins() {
    let mut tape = Tape::new();
    let writes = [
        (10, Symbol::One),
        (-10, Symbol::One),
        (10, Symbol::Zero),
        (-500, Symbol::One),
        (10, Symbol::One),
        (-10, Symbol::Zero),
        (700, Symbol::Zero),
    ];
    for (p, s) in writes {
        tape.write_at(p, s);
    }
    assert_eq!(tape.read_at(10), Symbol::One);
    assert_eq!(tape.read_at(-10), Symbol::Zero);
    assert_eq!(tape.read_at(-500), Symbol::One);
    assert_eq!(tape.read_at(700), Symbol::Zero);
    assert_eq!(tape.read_at(11), Symbol::Zero);
}

#[test]
fn lowest_position() {
    let mut tape = Tape::new();
    tape.write_at(i32::MIN, Symbol::One);
    assert_eq!(tape.read_at(i32::MIN), Symbol::One);
    assert_eq!(tape.read_at(i32::MIN + 1), Symbol::Zero);
    assert_eq!(tape.read_at(i32::MAX), Symbol::Zero);
    assert_eq!(tape.read_at(0), Symbol::Zero);
}

#[test]
fn highest_position() {
    let mut tape = Tape::new();
    tape.write_at(i32::MAX, Symbol::One);
    assert_eq!(tape.read_at(i32::MAX), Symbol::One);
    assert_eq!(tape.read_at(i32::MAX - 1), Symbol::Zero);
    assert_eq!(tape.read_at(i32::MIN), Symbol::Zero);
    assert_eq!(tape.read_at(0), Symbol::Zero);
}

#[test]
fn long_walk_left_keeps_contents() {
    let mut tape = Tape::new();
    let mut p: i32 = 0;
    while p > -5000 {
        if p % 3 == 0 {
            tape.write_at(p, Symbol::One);
        }
        p -= 1;
    }
    let mut q: i32 = 0;
    while q > -5000 {
        let want = if q % 3 == 0 { Symbol::One } else { Symbol::Zero };
        assert_eq!(tape.read_at(q), want);
        q -= 1;
    }
}

#[test]
fn new_rejects_tables_that_cannot_run() {
    assert!(TuringMachine::new(StateID(0), vec![]).is_none());
    assert!(TuringMachine::new(StateID(1), vec![[Action::Halt, Action::Halt]]).is_none());
    let dangling = vec![[go(Symbol::One, Direction::Left, 2), Action::Halt], [Action::Halt, Action::Halt]];
    assert!(TuringMachine::new(StateID(0), dangling).is_none());
    let fine = vec![[go(Symbol::One, Direction::Left, 1), Action::Halt], [Action::Halt, Action::Halt]];
    assert!(TuringMachine::new(StateID(1), fine).is_some());
}

#[test]
fn lookup_reads_the_table() {
    let m = machine(
        1,
        vec![
            [go(Symbol::One, Direction::Left, 1), Action::Halt],
            [go(Symbol::Zero, Direction::Right, 0), go(Symbol::One, Direction::Right, 1)],
        ],
    );
    assert_eq!(m.num_states(), 2);
    assert_eq!(m.initial_state(), StateID(1));
    assert_eq!(m.lookup_action(StateID(0), Symbol::Zero), go(Symbol::One, Direction::Left, 1));
    assert_eq!(m.lookup_action(StateID(0), Symbol::One), Action::Halt);
    assert_eq!(m.lookup_action(StateID(1), Symbol::Zero), go(Symbol::Zero, Direction::Right, 0));
    assert_eq!(m.lookup_action(StateID(1), Symbol::One), go(Symbol::One, Direction::Right, 1));
}

#[test]
fn halting_machine_halts_at_once() {
    let mut run = TuringMachineComputation::start(machine(0, vec![[Action::Halt, Action::Halt]]));
    assert!(run.step());
    assert!(run.is_halted());
    assert_eq!(run.tape_head_position(), 0);
    assert_eq!(run.current_state(), StateID(0));
    for p in -40..40 {
        assert_eq!(run.tape().read_at(p), Symbol::Zero);
    }
}

#[test]
fn ones_machine_writes_a_run_of_ones() {
    let mut run = TuringMachineComputation::start(ones_machine());
    assert!(!run.step());
    assert_eq!(run.tape().read_at(0), Symbol::One);
    assert_eq!(run.tape_head_position(), 1);
    assert_eq!(run.current_state(), StateID(0));
    assert!(!run.step());
    assert_eq!(run.tape().read_at(1), Symbol::One);
    assert_eq!(run.tape_head_position(), 2);
    let k: i32 = 100;
    for _ in 2..k {
        assert!(!run.step());
    }
    assert_eq!(run.tape_head_position(), k);
    assert!(!run.is_halted());
    for p in -10..k {
        let want = if p >= 0 { Symbol::One } else { Symbol::Zero };
        assert_eq!(run.tape().read_at(p), want);
    }
    for p in k..k + 40 {
        assert_eq!(run.tape().read_at(p), Symbol::Zero);
    }
}

#[test]
fn head_moves_left_past_origin() {
    // State 0 walks left over blanks, marking every cell; state 1 halts.
    let m = machine(
        0,
        vec![
            [go(Symbol::One, Direction::Left, 0), go(Symbol::One, Direction::Right, 1)],
            [Action::Halt, Action::Halt],
        ],
    );
    let mut run = TuringMachineComputation::start(m);
    for p in -8..1 {
        assert_eq!(run.tape().read_at(p), Symbol::Zero);
    }
    for i in 1..=6 {
        assert!(!run.step());
        assert_eq!(run.tape_head_position(), -i);
        assert_eq!(run.tape().read_at(-i), Symbol::Zero);
        assert_eq!(run.tape().read_at(-i + 1), Symbol::One);
    }
    let mut tape = Tape::new();
    tape.write_at(-5, Symbol::One);
    tape.write_at(-4, Symbol::One);
    tape.write_at(40, Symbol::One);
    tape.write_at(-300, Symbol::Zero);
    tape.write_at(-6, Symbol::Zero);
    assert_eq!(tape.read_at(-5), Symbol::One);
    assert_eq!(tape.read_at(-3), Symbol::Zero);
}

#[test]
fn halt_is_idempotent() {
    let m = machine(
        0,
        vec![
            [go(Symbol::One, Direction::Right, 1), Action::Halt],
            [go(Symbol::One, Direction::Left, 0), Action::Halt],
        ],
    );
    let mut run = TuringMachineComputation::start(m);
    assert!(!run.step());
    assert!(!run.step());
    assert_eq!(run.tape_head_position(), 0);
    assert_eq!(run.current_state(), StateID(0));
    assert!(run.step());
    for _ in 0..5 {
        assert!(run.step());
        assert_eq!(run.tape_head_position(), 0);
        assert_eq!(run.current_state(), StateID(0));
        assert_eq!(run.tape().read_at(0), Symbol::One);
        assert_eq!(run.tape().read_at(1), Symbol::One);
        assert_eq!(run.tape().read_at(-1), Symbol::Zero);
        assert_eq!(run.tape().read_at(2), Symbol::Zero);
    }
}

#[test]
fn transition_writes_before_moving() {
    let m = machine(0, vec![[go(Symbol::One, Direction::Left, 1), Action::Halt], [Action::Halt, Action::Halt]]);
    let mut run = TuringMachineComputation::start(m);
    assert!(!run.step());
    assert_eq!(run.tape().read_at(0), Symbol::One);
    assert_eq!(run.tape().read_at(-1), Symbol::Zero);
    assert_eq!(run.tape_head_position(), -1);
    assert_eq!(run.current_state(), StateID(1));
    assert!(run.step());
    assert_eq!(run.tape_head_position(), -1);
    assert_eq!(run.current_state(), StateID(1));
    assert_eq!(run.tape().read_at(-1), Symbol::Zero);
}

#[test]
fn turing_machine_is_the_started_one() {
    let m = ones_machine();
    let run = TuringMachineComputation::start(m.clone());
    assert_eq!(*run.turing_machine(), *m);
}

#[test]
fn random_machines_are_valid() {
    let mut rng = StdRng::seed_from_u64(17);
    for n in [1u32, 2, 3, 10, 30] {
        let m = random_turing_machine(&mut rng, n);
        assert_eq!(m.num_states(), n as usize);
        assert_eq!(m.initial_state(), StateID(0));
        for s in 0..n {
            for symb in [Symbol::Zero, Symbol::One] {
                if let Action::Transition { next_state, .. } = m.lookup_action(StateID(s), symb) {
                    assert!(next_state.0 < n);
                }
            }
        }
    }
    let empty = random_turing_machine(&mut rng, 0);
    assert_eq!(empty.num_states(), 0);
}

#[test]
fn random_machines_hold_both_kinds_of_action() {
    let mut rng = StdRng::seed_from_u64(3);
    let m = random_turing_machine(&mut rng, 30);
    let mut transitions = 0;
    let mut targets = std::collections::HashSet::new();
    let mut written = std::collections::HashSet::new();
    for s in 0..30 {
        for symb in [Symbol::Zero, Symbol::One] {
            if let Action::Transition { next_state, write, .. } = m.lookup_action(StateID(s), symb) {
                transitions += 1;
                targets.insert(next_state.0);
                written.insert(write.to_int());
            }
        }
    }
    assert!(transitions > 0);
    assert!(targets.len() > 1);
    assert_eq!(written.len(), 2);
    let mut halts = 0;
    let mut rng = StdRng::seed_from_u64(5);
    let small = random_turing_machine(&mut rng, 1);
    for _ in 0..20 {
        let m = random_turing_machine(&mut rng, 1);
        for symb in [Symbol::Zero, Symbol::One] {
            if m.lookup_action(StateID(0), symb) == Action::Halt {
                halts += 1;
            }
        }
    }
    assert!(halts > 0);
    assert_eq!(small.num_states(), 1);
}

#[test]
fn random_symbols_and_directions_take_both_values() {
    let mut rng = StdRng::seed_from_u64(11);
    let symbols: Vec<Symbol> = (0..64).map(|_| Symbol::rand(&mut rng)).collect();
    assert!(symbols.contains(&Symbol::Zero));
    assert!(symbols.contains(&Symbol::One));
    let dirs: Vec<Direction> = (0..64).map(|_| Direction::rand(&mut rng)).collect();
    assert!(dirs.contains(&Direction::Left));
    assert!(dirs.contains(&Direction::Right));
}

#[test]
fn seeded_generation_is_deterministic() {
    let mut a = StdRng::seed_from_u64(2024);
    let mut b = StdRng::seed_from_u64(2024);
    let m1 = random_turing_machine(&mut a, 12);
    let m2 = random_turing_machine(&mut b, 12);
    assert_eq!(m1, m2);
}

#[test]
fn random_machine_runs() {
    let mut rng = StdRng::seed_from_u64(99);
    let m = Rc::new(random_turing_machine(&mut rng, 4));
    let mut run = TuringMachineComputation::start(m.clone());
    let mut steps = 0;
    while steps < 1000 && !run.step() {
        steps += 1;
        let head = run.tape_head_position();
        assert!(head.abs() <= steps);
        assert!((run.current_state().0 as usize) < m.num_states());
    }
}

#[test]
fn state_and_direction_text() {
    assert_eq!(StateID(0).to_text(), "S0");
    assert_eq!(StateID(12).to_text(), "S12");
    assert_eq!(StateID(4_000_000_000).to_text(), "S4000000000");
    assert_eq!(Direction::Left.to_text(), "L");
    assert_eq!(Direction::Right.to_text(), "R");
}

#[test]
fn action_text() {
    assert_eq!(Action::Halt.to_text(), "H");
    assert_eq!(go(Symbol::One, Direction::Right, 3).to_text(), "1RS3");
    assert_eq!(go(Symbol::Zero, Direction::Left, 10).to_text(), "0LS10");
}

#[test]
fn machine_description() {
    let m = machine(
        1,
        vec![
            [go(Symbol::One, Direction::Left, 1), Action::Halt],
            [go(Symbol::Zero, Direction::Right, 0), go(Symbol::One, Direction::Right, 1)],
        ],
    );
    assert_eq!(
        m.description(),
        "Number of states: 2\nInitial state: S1\n    S0: 0 -> 1LS1; 1 -> H\n    S1: 0 -> 0RS0; 1 -> 1RS1\n"
    );
}

#[test]
fn direction_from_codes() {
    assert_eq!(Direction::from_int(0), Direction::Left);
    assert_eq!(Direction::from_int(1), Direction::Right);
}

#[test]
fn draws_map_to_actions() {
    assert_eq!(action_from_draws(5, 5, 1, 1), Action::Halt);
    assert_eq!(action_from_draws(5, 5, 0, 0), Action::Halt);
    assert_eq!(action_from_draws(5, 0, 0, 0), go(Symbol::Zero, Direction::Left, 0));
    assert_eq!(action_from_draws(5, 4, 1, 0), go(Symbol::Zero, Direction::Right, 4));
    assert_eq!(action_from_draws(5, 2, 0, 1), go(Symbol::One, Direction::Left, 2));
    assert_eq!(action_from_draws(1, 0, 1, 1), go(Symbol::One, Direction::Right, 0));
}

#[test]
fn storage_follows_the_touched_span() {
    let mut tape = Tape::new();
    assert_eq!(tape.num_blocks(), 0);
    tape.write_at(0, Symbol::One);
    assert_eq!(tape.num_blocks(), 1);
    tape.write_at(31, Symbol::One);
    assert_eq!(tape.num_blocks(), 1);
    tape.write_at(100, Symbol::One);
    assert_eq!(tape.num_blocks(), 4);
    tape.write_at(-100, Symbol::One);
    assert_eq!(tape.num_blocks(), 8);
    tape.write_at(-1, Symbol::Zero);
    tape.write_at(50, Symbol::Zero);
    assert_eq!(tape.num_blocks(), 8);
    tape.write_at(-129, Symbol::One);
    assert_eq!(tape.num_blocks(), 9);
    assert_eq!(tape.read_at(-100), Symbol::One);
    assert_eq!(tape.read_at(100), Symbol::One);
    assert_eq!(tape.read_at(-129), Symbol::One);
}

#[test]
fn storage_starts_at_the_first_write() {
    let mut tape = Tape::new();
    tape.write_at(100, Symbol::One);
    assert_eq!(tape.num_blocks(), 1);
    tape.write_at(127, Symbol::One);
    assert_eq!(tape.num_blocks(), 1);
    tape.write_at(160, Symbol::One);
    assert_eq!(tape.num_blocks(), 3);
    tape.write_at(64, Symbol::Zero);
    assert_eq!(tape.num_blocks(), 4);
    assert_eq!(tape.read_at(100), Symbol::One);
    assert_eq!(tape.read_at(127), Symbol::One);
    assert_eq!(tape.read_at(160), Symbol::One);
    assert_eq!(tape.read_at(0), Symbol::Zero);

    let mut far = Tape::new();
    far.write_at(i32::MAX, Symbol::One);
    assert_eq!(far.num_blocks(), 1);
    far.write_at(i32::MAX - 64, Symbol::One);
    assert_eq!(far.num_blocks(), 3);
    assert_eq!(far.read_at(i32::MIN), Symbol::Zero);
    assert_eq!(far.read_at(i32::MAX), Symbol::One);
    assert_eq!(far.read_at(i32::MAX - 64), Symbol::One);
    assert_eq!(far.read_at(i32::MAX - 63), Symbol::Zero);

    let mut low = Tape::new();
    low.write_at(-1000, Symbol::One);
    assert_eq!(low.num_blocks(), 1);
    low.write_at(-1001, Symbol::One);
    low.write_at(-1100, Symbol::One);
    assert_eq!(low.num_blocks(), 4);
    assert_eq!(low.read_at(-1000), Symbol::One);
    assert_eq!(low.read_at(-1001), Symbol::One);
    assert_eq!(low.read_at(-1100), Symbol::One);
    assert_eq!(low.read_at(-1099), Symbol::Zero);
}

#[test]
fn reordered_writes_give_the_same_tape() {
    let writes = [(4, Symbol::One), (-40, Symbol::One), (4, Symbol::Zero), (90, Symbol::One)];
    let reordered = [(90, Symbol::One), (4, Symbol::One), (-40, Symbol::One), (4, Symbol::Zero)];
    let mut a = Tape::new();
    let mut b = Tape::new();
    for (p, s) in writes {
        a.write_at(p, s);
    }
    for (p, s) in reordered {
        b.write_at(p, s);
    }
    for p in -64..128 {
        assert_eq!(a.read_at(p), b.read_at(p));
    }
}
