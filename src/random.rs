use rand::rngs::StdRng;
use rand::Rng;

use vstd::prelude::*;

use crate::machine::{TransitionRule, TuringMachine};
use crate::symbol::{Action, Direction, StateID, Symbol};

verus! {

#[verifier::external_type_specification]
#[verifier::external_body]
pub struct ExStdRng(StdRng);

/// Relies on rand::Rng::gen_range over `0..=max`: that range is never empty,
/// and the value drawn lies in it.
#[verifier::external_body]
fn draw_at_most(rng: &mut StdRng, max: u32) -> (r: u32)
    ensures
        r <= max,
{
    rng.gen_range(0..=max)
}

impl Symbol {
    /// A symbol drawn uniformly.
    pub fn rand(rng: &mut StdRng) -> (r: Symbol) {
        Symbol::from_int(draw_at_most(rng, 1))
    }
}

impl Direction {
    /// A direction drawn uniformly.
    pub fn rand(rng: &mut StdRng) -> (r: Direction) {
        Direction::from_int(draw_at_most(rng, 1))
    }
}

/// The action that the draws `target` (at most `num_states`), `dir` and `sym`
/// (each below 2) stand for: `Halt` when `target` is `num_states`, else a
/// transition to state `target` that writes the symbol of code `sym` and
/// moves left for `dir == 0`, right for `dir == 1`.
pub open spec fn drawn_action(num_states: u32, target: u32, dir: u32, sym: u32) -> Action {
    if target == num_states {
        Action::Halt
    } else {
        Action::Transition {
            write: if sym == 0 {
                Symbol::Zero
            } else {
                Symbol::One
            },
            movement: if dir == 0 {
                Direction::Left
            } else {
                Direction::Right
            },
            next_state: StateID(target),
        }
    }
}

/// Some draws stand for `a`.
pub open spec fn is_drawn(num_states: u32, a: Action) -> bool {
    exists|target: u32, dir: u32, sym: u32|
        target <= num_states && dir < 2 && sym < 2 && a == drawn_action(
            num_states,
            target,
            dir,
            sym,
        )
}

/// Builds the action that the draws stand for (see `drawn_action`).
pub fn action_from_draws(num_states: u32, target: u32, dir: u32, sym: u32) -> (r: Action)
    requires
        target <= num_states,
        dir < 2,
        sym < 2,
    ensures
        r == drawn_action(num_states, target, dir, sym),
        r.targets_below(num_states as nat),
{
    if target == num_states {
        return Action::Halt;
    }
    let next_state = StateID(target);
    let movement = Direction::from_int(dir);
    let write = Symbol::from_int(sym);
    Action::Transition { write, movement, next_state }
}

/// `Halt` with chance `1 / (num_states + 1)`, else a transition to a state
/// drawn uniformly below `num_states`, with a drawn direction and symbol.
/// The direction and the symbol are drawn only for a transition.
fn random_action(rng: &mut StdRng, num_states: u32) -> (r: Action)
    ensures
        is_drawn(num_states, r),
        r.targets_below(num_states as nat),
{
    let target = draw_at_most(rng, num_states);
    if target == num_states {
        return action_from_draws(num_states, target, 0, 0);
    }
    let dir = draw_at_most(rng, 1);
    let sym = draw_at_most(rng, 1);
    action_from_draws(num_states, target, dir, sym)
}

/// A table of `num_states` rows whose actions are drawn independently, with
/// initial state 0. Every transition it holds moves to a state below
/// `num_states`, so the table can run whenever it has a row.
pub fn random_turing_machine(rng: &mut StdRng, num_states: u32) -> (r: TuringMachine)
    ensures
        r.state_count() == num_states,
        r.start_state() == StateID(0),
        forall|s: nat, symb: Symbol|
            s < num_states ==> #[trigger] r.action(s, symb).targets_below(num_states as nat),
        forall|s: nat, symb: Symbol| s < num_states ==> is_drawn(num_states, #[trigger] r.action(s, symb)),
        num_states > 0 ==> r.wf(),
{
    let mut transition_rules: Vec<TransitionRule> = Vec::new();
    let mut i: u32 = 0;
    while i < num_states
        invariant
            i <= num_states,
            transition_rules@.len() == i,
            forall|k: int, j: int|
                0 <= k < i && 0 <= j < 2 ==> (#[trigger] transition_rules@[k][j]).targets_below(
                    num_states as nat,
                ) && is_drawn(num_states, transition_rules@[k][j]),
        decreases num_states - i,
    {
        let rule: TransitionRule = [random_action(rng, num_states), random_action(rng, num_states)];
        transition_rules.push(rule);
        i = i + 1;
    }
    let r = TuringMachine::from_rules(StateID(0), transition_rules);
    assert forall|s: nat, symb: Symbol| s < num_states implies #[trigger] r.action(
        s,
        symb,
    ).targets_below(num_states as nat) by {
        assert(transition_rules@[s as int][symb.code() as int].targets_below(num_states as nat));
    }
    assert forall|s: nat, symb: Symbol| s < num_states implies is_drawn(
        num_states,
        #[trigger] r.action(s, symb),
    ) by {
        assert(transition_rules@[s as int][symb.code() as int].targets_below(num_states as nat));
    }
    r
}

} // verus!
