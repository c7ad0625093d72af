//! The invariant holds at the start and every transition keeps it.

use vstd::prelude::*;
use crate::model::State;

verus! {

/// The initial state is well formed.
pub proof fn lemma_initial_wf()
    ensures
        State::initial().wf(),
{
}

/// Entering a scope keeps the invariant.
pub proof fn lemma_enter_wf(s: State)
    requires
        s.wf(),
    ensures
        s.enter().wf(),
{
}

/// Declaring a binding keeps the invariant.
pub proof fn lemma_declare_wf(s: State)
    requires
        s.wf(),
        s.depth() > 0,
    ensures
        s.declare().wf(),
{
}

/// Constructing a value keeps the invariant.
pub proof fn lemma_construct_wf(s: State, text: Seq<char>)
    requires
        s.wf(),
        s.depth() > 0,
    ensures
        s.construct(text).wf(),
{
}

/// Moving a value into a vacant binding keeps the invariant.
pub proof fn lemma_transfer_wf(s: State, from: nat, to: nat)
    requires
        s.wf(),
        s.owns(from),
        s.vacant(to),
    ensures
        s.transfer(from, to).wf(),
{
}

/// Destroying the value of a binding keeps the invariant.
pub proof fn lemma_release_wf(s: State, b: nat)
    requires
        s.wf(),
        s.owns(b),
    ensures
        s.release(b).wf(),
{
    let v = s.held(b);
    let r = s.release(b);
    assert(!s.log.contains(v));
    assert forall|w: nat| r.log.contains(w) <==> r.is_destroyed(w) by {
        if r.log.contains(w) {
            let i = choose|i: int| 0 <= i < r.log.len() && r.log[i] == w;
            if i < s.log.len() {
                assert(s.log.contains(w));
            }
        }
        if r.is_destroyed(w) {
            if w == v {
                assert(r.log[s.log.len() as int] == w);
            } else {
                assert(s.is_destroyed(w));
                let i = choose|i: int| 0 <= i < s.log.len() && s.log[i] == w;
                assert(r.log[i] == w);
            }
        }
    }
}

/// Assignment keeps the invariant.
pub proof fn lemma_reassign_wf(s: State, to: nat, from: nat)
    requires
        s.wf(),
        s.owns(from),
        s.in_scope(to),
    ensures
        s.reassign(to, from).wf(),
{
    if to != from {
        if s.owns(to) {
            lemma_release_wf(s, to);
            lemma_transfer_wf(s.release(to), from, to);
        } else {
            lemma_transfer_wf(s, from, to);
        }
    }
}

/// A binding of the innermost scope leaving scope keeps the invariant.
pub proof fn lemma_pop_wf(s: State)
    requires
        s.wf(),
        s.depth() > 0,
        s.slots.len() > s.marks.last(),
    ensures
        s.pop().wf(),
{
    let last = (s.slots.len() - 1) as nat;
    if s.owns(last) {
        lemma_release_wf(s, last);
    }
}

/// Unwinding within the innermost scope keeps the invariant and leaves
/// `keep` bindings, or all of them if there were no more.
pub proof fn lemma_unwind_wf(s: State, keep: nat)
    requires
        s.wf(),
        s.depth() > 0,
        keep >= s.marks.last(),
    ensures
        s.unwind(keep).wf(),
        s.unwind(keep).marks == s.marks,
        s.unwind(keep).slots.len() == if s.slots.len() <= keep { s.slots.len() } else { keep },
    decreases s.slots.len(),
{
    if s.slots.len() > keep {
        lemma_pop_wf(s);
        lemma_unwind_wf(s.pop(), keep);
    }
}

/// Leaving the innermost scope keeps the invariant.
pub proof fn lemma_exit_wf(s: State)
    requires
        s.wf(),
        s.depth() > 0,
    ensures
        s.exit().wf(),
{
    lemma_unwind_wf(s, s.marks.last());
}

} // verus!
