//! The call chain replayed on the tracker, where every destruction shows.
//! Each function stands for the body of its namesake: the caller passes the
//! binding whose value is the argument and a vacant binding of its own that
//! receives what is returned.

use vstd::prelude::*;
use crate::chain::fresh_text;
use crate::model::{State, ValueState};
use crate::tracker::{BindingId, Tracker};

verus! {

/// What a call of the chain leaves behind: the argument's value has been
/// destroyed, `out` owns a freshly constructed value, and nothing else has
/// changed.
pub open spec fn after_call(s: State, arg: nat, out: nat) -> State {
    State {
        values: s.values.update(s.held(arg) as int, ValueState::Destroyed).push(
            ValueState::Owned { text: fresh_text(), owner: out },
        ),
        slots: s.slots.update(arg as int, None).update(out as int, Some(s.values.len())),
        marks: s.marks,
        log: s.log.push(s.held(arg)),
    }
}

/// The state in which the top-level caller ends: "abc" and "freeme" are
/// destroyed, in that order, and the second binding owns the fresh value.
pub open spec fn end_of_top_level() -> State {
    State {
        values: seq![
            ValueState::Destroyed,
            ValueState::Destroyed,
            ValueState::Owned { text: fresh_text(), owner: 1 },
        ],
        slots: seq![None, Some(2nat), None],
        marks: seq![0nat],
        log: seq![0nat, 1nat],
    }
}

/// `g`: the parameter takes the argument, a fresh value is constructed and
/// returned, and the parameter's value dies with the scope.
pub fn replay_g(t: &mut Tracker, arg: BindingId, out: BindingId)
    requires
        old(t).wf(),
        old(t)@.owns(arg@),
        old(t)@.vacant(out@),
    ensures
        final(t).wf(),
        final(t)@ == after_call(old(t)@, arg@, out@),
{
    t.enter_scope();
    let b = t.declare();
    t.transfer(arg, b);
    let c = t.construct("xyz");
    t.transfer(c, out);
    proof {
        reveal_with_fuel(State::unwind, 3);
    }
    t.exit_scope();
}

/// `f`: the parameter takes the argument and is moved into `g`; what `g`
/// returns is returned unchanged. Nothing is left to destroy when the scope
/// ends.
pub fn replay_f(t: &mut Tracker, arg: BindingId, out: BindingId)
    requires
        old(t).wf(),
        old(t)@.owns(arg@),
        old(t)@.vacant(out@),
    ensures
        final(t).wf(),
        final(t)@ == after_call(old(t)@, arg@, out@),
{
    t.enter_scope();
    let a = t.declare();
    t.transfer(arg, a);
    let b = t.declare();
    replay_g(t, a, b);
    t.transfer(b, out);
    proof {
        reveal_with_fuel(State::unwind, 3);
    }
    t.exit_scope();
}

/// The top-level caller: constructs "abc" and "freeme", calls `f` on the
/// first and assigns the result to the second. Returns the tracker and the
/// second binding.
pub fn replay_top_level() -> (r: (Tracker, BindingId))
    ensures
        r.0.wf(),
        r.0@ == end_of_top_level(),
        r.1@ == 1,
{
    let mut t = Tracker::new();
    let x = t.construct("abc");
    let y = t.construct("freeme");
    let result = t.declare();
    replay_f(&mut t, x, result);
    t.reassign(y, result);
    (t, y)
}

} // verus!
