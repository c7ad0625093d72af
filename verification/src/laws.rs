//! What the discipline guarantees, proved of the mathematical state.

use vstd::prelude::*;
use crate::model::{State, ValueState};
use crate::preservation::{lemma_exit_wf, lemma_pop_wf, lemma_release_wf, lemma_transfer_wf};

verus! {

/// In every well-formed state a value that was constructed is either alive,
/// never yet destroyed and owned by exactly one binding, or destroyed exactly
/// once and owned by none.
pub proof fn law_alive_or_destroyed_once(s: State, v: nat)
    requires
        s.wf(),
        v < s.values.len(),
    ensures
        s.is_live(v) <==> s.destructions(v) == 0,
        s.is_destroyed(v) <==> s.destructions(v) == 1,
        s.is_live(v) ==> s.owns(s.owner(v)) && s.held(s.owner(v)) == v,
        forall|b: nat| s.owns(b) && s.held(b) == v ==> s.is_live(v) && b == s.owner(v),
{
    s.log.to_multiset_ensures();
    s.log.lemma_multiset_has_no_duplicates();
}

/// Moving a value destroys nothing: the log is as it was, the value is alive
/// with the same text, and its one owner is now the destination.
pub proof fn law_transfer_moves_ownership(s: State, from: nat, to: nat)
    requires
        s.wf(),
        s.owns(from),
        s.vacant(to),
    ensures
        s.transfer(from, to).wf(),
        s.transfer(from, to).log == s.log,
        s.transfer(from, to).owns(to),
        s.transfer(from, to).held(to) == s.held(from),
        s.transfer(from, to).is_live(s.held(from)),
        s.transfer(from, to).owner(s.held(from)) == to,
        s.transfer(from, to).text(s.held(from)) == s.text(s.held(from)),
{
    lemma_transfer_wf(s, from, to);
}

/// A binding that has been moved from owns nothing afterwards, so no
/// operation that reads or moves a value accepts it: not after a transfer,
/// and not after an assignment to another binding.
pub proof fn law_moved_from_is_unusable(s: State, from: nat, to: nat)
    requires
        s.wf(),
        s.owns(from),
        s.in_scope(to),
        to != from,
    ensures
        s.vacant(to) ==> s.transfer(from, to).vacant(from),
        s.reassign(to, from).vacant(from),
{
}

/// Assigning to a binding that owns a value destroys that value first: in
/// the state between the two steps the old value is already logged as
/// destroyed while the binding owns nothing and the new value is still with
/// its source. Only then does the new value move in.
pub proof fn law_reassign_destroys_old_first(s: State, to: nat, from: nat)
    requires
        s.wf(),
        s.owns(from),
        s.owns(to),
        to != from,
    ensures
        ({
            let old_value = s.held(to);
            let new_value = s.held(from);
            let between = s.release(to);
            let after = s.reassign(to, from);
            &&& between.wf()
            &&& between.log == s.log.push(old_value)
            &&& between.is_destroyed(old_value)
            &&& between.vacant(to)
            &&& between.owns(from) && between.held(from) == new_value
            &&& after == between.transfer(from, to)
            &&& after.wf()
            &&& after.log == s.log.push(old_value)
            &&& after.is_destroyed(old_value)
            &&& after.owns(to) && after.held(to) == new_value
            &&& after.text(new_value) == s.text(new_value)
        }),
{
    lemma_release_wf(s, to);
    lemma_transfer_wf(s.release(to), from, to);
}

/// Assigning to a binding that owns nothing destroys nothing.
pub proof fn law_reassign_vacant_destroys_nothing(s: State, to: nat, from: nat)
    requires
        s.wf(),
        s.owns(from),
        s.vacant(to),
    ensures
        s.reassign(to, from) == s.transfer(from, to),
        s.reassign(to, from).log == s.log,
{
}

/// Unwinding down to `keep` bindings, within the innermost scope, removes
/// the bindings from `keep` on and nothing else, destroys exactly the values
/// that those bindings owned, and only adds to the log.
pub proof fn law_unwind_effect(s: State, keep: nat)
    requires
        s.wf(),
        s.depth() > 0,
        s.marks.last() <= keep <= s.slots.len(),
    ensures
        ({
            let u = s.unwind(keep);
            &&& u.wf()
            &&& u.marks == s.marks
            &&& u.slots == s.slots.take(keep as int)
            &&& u.values.len() == s.values.len()
            &&& forall|v: int|
                0 <= v < s.values.len() ==> #[trigger] u.values[v] == if s.values[v] is Owned
                    && s.values[v]->owner >= keep {
                    ValueState::Destroyed
                } else {
                    s.values[v]
                }
            &&& s.log.is_prefix_of(u.log)
        }),
    decreases s.slots.len(),
{
    if s.slots.len() > keep {
        let p = s.pop();
        lemma_pop_wf(s);
        law_unwind_effect(p, keep);
        let u = s.unwind(keep);
        assert forall|v: int| 0 <= v < s.values.len() implies #[trigger] u.values[v] == if s.values[v]
            is Owned && s.values[v]->owner >= keep {
            ValueState::Destroyed
        } else {
            s.values[v]
        } by {
            assert(u.values[v] == if p.values[v] is Owned && p.values[v]->owner >= keep {
                ValueState::Destroyed
            } else {
                p.values[v]
            });
        }
    }
}

/// When the innermost scope ends, its bindings leave scope and the outer
/// ones keep what they own; a value is destroyed by it exactly if a binding
/// of that scope still owned it; and the log is only added to.
pub proof fn law_scope_end(s: State)
    requires
        s.wf(),
        s.depth() > 0,
    ensures
        ({
            let e = s.exit();
            let mark = s.marks.last();
            &&& e.wf()
            &&& e.marks == s.marks.drop_last()
            &&& e.slots == s.slots.take(mark as int)
            &&& e.values.len() == s.values.len()
            &&& forall|v: nat|
                v < s.values.len() ==> (#[trigger] e.is_destroyed(v) <==> s.is_destroyed(v) || (
                s.is_live(v) && s.owner(v) >= mark))
            &&& forall|v: nat|
                #![trigger e.is_live(v)]
                s.is_live(v) && s.owner(v) < mark ==> e.is_live(v) && e.owner(v) == s.owner(v)
                    && e.text(v) == s.text(v)
            &&& s.log.is_prefix_of(e.log)
        }),
{
    law_unwind_effect(s, s.marks.last());
    lemma_exit_wf(s);
}

/// Bindings that leave scope together are dropped in reverse order of
/// declaration: of two bindings of the innermost scope that still own
/// values, the value of the one declared later is destroyed first.
pub proof fn law_scope_end_reverse_order(s: State, first: nat, second: nat)
    requires
        s.wf(),
        s.depth() > 0,
        s.marks.last() <= first < second,
        s.owns(first),
        s.owns(second),
    ensures
        exists|i: int, j: int|
            s.log.len() <= i < j < s.exit().log.len() && #[trigger] s.exit().log[i] == s.held(
                second,
            ) && #[trigger] s.exit().log[j] == s.held(first),
{
    lemma_unwind_order(s, s.marks.last(), first, second);
    let u = s.unwind(s.marks.last());
    let (i, j) = choose|i: int, j: int|
        s.log.len() <= i < j < u.log.len() && #[trigger] u.log[i] == s.held(second)
            && #[trigger] u.log[j] == s.held(first);
    assert(s.exit().log[i] == s.held(second) && s.exit().log[j] == s.held(first));
}

/// The order of destruction while unwinding.
proof fn lemma_unwind_order(s: State, keep: nat, first: nat, second: nat)
    requires
        s.wf(),
        s.depth() > 0,
        s.marks.last() <= keep <= first < second,
        s.owns(first),
        s.owns(second),
    ensures
        exists|i: int, j: int|
            s.log.len() <= i < j < s.unwind(keep).log.len() && #[trigger] s.unwind(keep).log[i]
                == s.held(second) && #[trigger] s.unwind(keep).log[j] == s.held(first),
    decreases s.slots.len(),
{
    let p = s.pop();
    let u = s.unwind(keep);
    let v1 = s.held(first);
    let v2 = s.held(second);
    lemma_pop_wf(s);
    law_unwind_effect(p, keep);
    if second == s.slots.len() - 1 {
        // `second` leaves first: its value is logged right after what was there.
        let i = s.log.len() as int;
        assert(u.log.subrange(0, p.log.len() as int)[i] == v2);
        // The value of `first` is alive before and destroyed after, so it is
        // logged too, and not among what was there.
        assert(u.log.contains(v1));
        let j = choose|j: int| 0 <= j < u.log.len() && u.log[j] == v1;
        if j < i {
            assert(u.log.subrange(0, p.log.len() as int)[j] == p.log[j]);
            assert(s.is_destroyed(v1));
        }
    } else {
        lemma_unwind_order(p, keep, first, second);
    }
}

/// Once the outermost scope has ended, every value that was ever
/// constructed has been destroyed exactly once.
pub proof fn law_all_destroyed_at_end(s: State)
    requires
        s.wf(),
        s.depth() == 0,
    ensures
        forall|v: nat| v < s.values.len() ==> s.is_destroyed(v) && s.destructions(v) == 1,
{
    assert forall|v: nat| v < s.values.len() implies s.is_destroyed(v) && s.destructions(v)
        == 1 by {
        law_alive_or_destroyed_once(s, v);
    }
}

} // verus!
