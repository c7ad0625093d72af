//! Runs of the discipline: the operations as data, so that a law can speak
//! of every state that a run from the start can reach.

use vstd::prelude::*;
use crate::laws::{law_alive_or_destroyed_once, law_scope_end, law_transfer_moves_ownership};
use crate::model::State;
use crate::preservation::{
    lemma_construct_wf, lemma_declare_wf, lemma_enter_wf, lemma_exit_wf, lemma_initial_wf,
    lemma_reassign_wf, lemma_release_wf, lemma_transfer_wf,
};

verus! {

/// One operation of the discipline.
pub enum Step {
    /// A scope opens.
    Enter,
    /// The innermost scope ends.
    Exit,
    /// A binding is declared without a value.
    Declare,
    /// A value is constructed, with a binding that owns it.
    Construct { text: Seq<char> },
    /// A value moves into a binding that owns nothing.
    Transfer { from: nat, to: nat },
    /// A binding is assigned a value, whatever it owned before.
    Reassign { to: nat, from: nat },
    /// The value of a binding is borrowed and read; ownership stays.
    Read { from: nat },
}

impl State {
    /// Whether the discipline admits `step` in this state. A step that
    /// reads or moves from a binding is admitted only while that binding
    /// owns a value.
    pub open spec fn allows(self, step: Step) -> bool {
        match step {
            Step::Enter => true,
            Step::Exit => self.depth() > 0,
            Step::Declare => self.depth() > 0,
            Step::Construct { text } => self.depth() > 0,
            Step::Transfer { from, to } => self.owns(from) && self.vacant(to),
            Step::Reassign { to, from } => self.owns(from) && self.in_scope(to),
            Step::Read { from } => self.owns(from),
        }
    }

    /// The state after `step`.
    pub open spec fn after(self, step: Step) -> State {
        match step {
            Step::Enter => self.enter(),
            Step::Exit => self.exit(),
            Step::Declare => self.declare(),
            Step::Construct { text } => self.construct(text),
            Step::Transfer { from, to } => self.transfer(from, to),
            Step::Reassign { to, from } => self.reassign(to, from),
            Step::Read { from } => self,
        }
    }

    /// Whether `step` reads or moves the value of `b`.
    pub open spec fn uses(step: Step, b: nat) -> bool {
        match step {
            Step::Transfer { from, to } => from == b,
            Step::Reassign { to, from } => from == b,
            Step::Read { from } => from == b,
            _ => false,
        }
    }

    /// Whether each of `steps` is admitted in the state that the ones before
    /// it lead to.
    pub open spec fn allows_all(self, steps: Seq<Step>) -> bool
        decreases steps.len(),
    {
        steps.len() == 0 || (self.allows(steps[0]) && self.after(steps[0]).allows_all(
            steps.drop_first(),
        ))
    }

    /// The state after all of `steps`, in order.
    pub open spec fn after_all(self, steps: Seq<Step>) -> State
        decreases steps.len(),
    {
        if steps.len() == 0 {
            self
        } else {
            self.after(steps[0]).after_all(steps.drop_first())
        }
    }
}

/// Every admitted step keeps the invariant.
pub proof fn law_step_keeps_wf(s: State, step: Step)
    requires
        s.wf(),
        s.allows(step),
    ensures
        s.after(step).wf(),
{
    match step {
        Step::Enter => lemma_enter_wf(s),
        Step::Exit => lemma_exit_wf(s),
        Step::Declare => lemma_declare_wf(s),
        Step::Construct { text } => lemma_construct_wf(s, text),
        Step::Transfer { from, to } => lemma_transfer_wf(s, from, to),
        Step::Reassign { to, from } => lemma_reassign_wf(s, to, from),
        Step::Read { from } => {},
    }
}

/// Every admitted run keeps the invariant.
pub proof fn law_run_keeps_wf(s: State, steps: Seq<Step>)
    requires
        s.wf(),
        s.allows_all(steps),
    ensures
        s.after_all(steps).wf(),
    decreases steps.len(),
{
    if steps.len() > 0 {
        law_step_keeps_wf(s, steps[0]);
        law_run_keeps_wf(s.after(steps[0]), steps.drop_first());
    }
}

/// Every state that an admitted run reaches from the start satisfies the
/// invariant: at each point of the execution each live value has exactly
/// one owner.
pub proof fn law_reachable_wf(steps: Seq<Step>)
    requires
        State::initial().allows_all(steps),
    ensures
        State::initial().after_all(steps).wf(),
{
    lemma_initial_wf();
    law_run_keeps_wf(State::initial(), steps);
}

/// Use after move is rejected: once a value has been moved out of `from`,
/// by a transfer or by an assignment to another binding, no step that reads
/// or moves the value of `from` is admitted.
pub proof fn law_use_after_move_rejected(s: State, from: nat, to: nat, next: Step)
    requires
        s.wf(),
        s.owns(from),
        s.in_scope(to),
        to != from,
        State::uses(next, from),
    ensures
        s.vacant(to) ==> !s.after(Step::Transfer { from, to }).allows(next),
        !s.after(Step::Reassign { to, from }).allows(next),
{
}

/// A binding whose scope has ended cannot be used either: after the
/// innermost scope ends, no step that reads or moves the value of one of its
/// bindings is admitted.
pub proof fn law_use_after_scope_rejected(s: State, b: nat, next: Step)
    requires
        s.wf(),
        s.depth() > 0,
        b >= s.marks.last(),
        State::uses(next, b),
    ensures
        !s.after(Step::Exit).in_scope(b),
        !s.after(Step::Exit).allows(next),
{
    law_scope_end(s);
}

/// No step undoes anything: the values constructed stay numbered as they
/// were, a destroyed value stays destroyed, and the log is only added to.
pub proof fn law_step_only_adds(s: State, step: Step)
    requires
        s.wf(),
        s.allows(step),
    ensures
        s.after(step).values.len() >= s.values.len(),
        forall|v: nat| s.is_destroyed(v) ==> #[trigger] s.after(step).is_destroyed(v),
        s.log.is_prefix_of(s.after(step).log),
{
    match step {
        Step::Exit => {
            law_scope_end(s);
        },
        Step::Reassign { to, from } => {
            if to != from && s.owns(to) {
                lemma_release_wf(s, to);
            }
        },
        _ => {},
    }
}

/// No run undoes anything.
pub proof fn law_run_only_adds(s: State, steps: Seq<Step>)
    requires
        s.wf(),
        s.allows_all(steps),
    ensures
        s.after_all(steps).values.len() >= s.values.len(),
        forall|v: nat| s.is_destroyed(v) ==> #[trigger] s.after_all(steps).is_destroyed(v),
        s.log.is_prefix_of(s.after_all(steps).log),
    decreases steps.len(),
{
    if steps.len() > 0 {
        law_step_only_adds(s, steps[0]);
        law_step_keeps_wf(s, steps[0]);
        law_run_only_adds(s.after(steps[0]), steps.drop_first());
    }
}

/// In any admitted run from the start, no value is ever destroyed twice;
/// and when the run has ended the outermost scope, every value that it
/// constructed has been destroyed exactly once.
pub proof fn law_each_value_destroyed_once(steps: Seq<Step>)
    requires
        State::initial().allows_all(steps),
    ensures
        forall|v: nat| #[trigger] State::initial().after_all(steps).destructions(v) <= 1,
        State::initial().after_all(steps).depth() == 0 ==> forall|v: nat|
            v < State::initial().after_all(steps).values.len() ==> #[trigger] State::initial(
            ).after_all(steps).destructions(v) == 1,
{
    let end = State::initial().after_all(steps);
    law_reachable_wf(steps);
    end.log.to_multiset_ensures();
    assert forall|v: nat| #[trigger] end.destructions(v) <= 1 by {
        if v < end.values.len() {
            law_alive_or_destroyed_once(end, v);
        }
    }
    if end.depth() == 0 {
        assert forall|v: nat| v < end.values.len() implies #[trigger] end.destructions(v)
            == 1 by {
            law_alive_or_destroyed_once(end, v);
        }
    }
}

/// The transfers that move a value from `from` along `path`, one binding
/// to the next.
pub open spec fn chain_of_transfers(from: nat, path: Seq<nat>) -> Seq<Step> {
    Seq::new(
        path.len(),
        |i: int|
            Step::Transfer { from: if i == 0 {
                from
            } else {
                path[i - 1]
            }, to: path[i] },
    )
}

/// Where a value that started at `from` is after it moved along `path`.
pub open spec fn end_of_chain(from: nat, path: Seq<nat>) -> nat {
    if path.len() == 0 {
        from
    } else {
        path.last()
    }
}

/// A value moved through a chain of transfers arrives intact: nothing is
/// destroyed on the way, and at the end it is alive with its text, owned by
/// the last binding of the chain and by no other.
pub proof fn law_chain_of_transfers(s: State, from: nat, path: Seq<nat>)
    requires
        s.wf(),
        s.owns(from),
        s.allows_all(chain_of_transfers(from, path)),
    ensures
        ({
            let e = s.after_all(chain_of_transfers(from, path));
            let last = end_of_chain(from, path);
            let v = s.held(from);
            &&& e.wf()
            &&& e.log == s.log
            &&& e.owns(last) && e.held(last) == v
            &&& e.is_live(v) && e.owner(v) == last && e.text(v) == s.text(v)
            &&& e.destructions(v) == 0
        }),
    decreases path.len(),
{
    let steps = chain_of_transfers(from, path);
    if path.len() == 0 {
        law_alive_or_destroyed_once(s, s.held(from));
    } else {
        let next = s.transfer(from, path[0]);
        law_transfer_moves_ownership(s, from, path[0]);
        assert(steps.drop_first() =~= chain_of_transfers(path[0], path.drop_first()));
        law_chain_of_transfers(next, path[0], path.drop_first());
    }
}

} // verus!
