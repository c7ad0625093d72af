//! The ownership discipline as a mathematical state and its transitions.
//!
//! Values and bindings are numbered in the order in which they come into
//! being. A value is owned by exactly one binding until it is destroyed; a
//! binding holds at most one value. Scopes nest, and a scope that ends takes
//! its bindings with it, last declared first.

use vstd::prelude::*;

verus! {

/// Where a value stands in its life.
pub enum ValueState {
    /// Alive: its text, and the one binding that owns it.
    Owned { text: Seq<char>, owner: nat },
    /// Destroyed. Nothing leads back from here.
    Destroyed,
}

/// Everything the discipline speaks of, at one point of the execution.
#[verifier::ext_equal]
pub struct State {
    /// Every value constructed so far, by its number.
    pub values: Seq<ValueState>,
    /// Every binding in scope, by its number: the value it owns, or `None`
    /// when it owns nothing (never assigned, or moved out).
    pub slots: Seq<Option<nat>>,
    /// The open scopes, outermost first: for each, how many bindings were in
    /// scope when it was entered.
    pub marks: Seq<nat>,
    /// The values destroyed so far, in the order of their destruction.
    pub log: Seq<nat>,
}

impl State {
    /// The start: one open scope, no binding, no value, nothing destroyed.
    pub open spec fn initial() -> State {
        State { values: Seq::empty(), slots: Seq::empty(), marks: seq![0nat], log: Seq::empty() }
    }

    /// Number of open scopes.
    pub open spec fn depth(self) -> nat {
        self.marks.len()
    }

    /// `b` names a binding that is in scope.
    pub open spec fn in_scope(self, b: nat) -> bool {
        b < self.slots.len()
    }

    /// `b` is in scope and owns a value: the only state in which it may be
    /// read or moved from.
    pub open spec fn owns(self, b: nat) -> bool {
        self.in_scope(b) && self.slots[b as int] is Some
    }

    /// `b` is in scope and owns nothing.
    pub open spec fn vacant(self, b: nat) -> bool {
        self.in_scope(b) && self.slots[b as int] is None
    }

    /// The value that `b` owns.
    pub open spec fn held(self, b: nat) -> nat
        recommends
            self.owns(b),
    {
        self.slots[b as int]->0
    }

    /// `v` has been constructed and not destroyed.
    pub open spec fn is_live(self, v: nat) -> bool {
        v < self.values.len() && self.values[v as int] is Owned
    }

    /// `v` has been constructed and destroyed.
    pub open spec fn is_destroyed(self, v: nat) -> bool {
        v < self.values.len() && self.values[v as int] is Destroyed
    }

    /// The text of the live value `v`.
    pub open spec fn text(self, v: nat) -> Seq<char>
        recommends
            self.is_live(v),
    {
        self.values[v as int]->text
    }

    /// The binding that owns the live value `v`.
    pub open spec fn owner(self, v: nat) -> nat
        recommends
            self.is_live(v),
    {
        self.values[v as int]->owner
    }

    /// How often `v` has been destroyed so far.
    pub open spec fn destructions(self, v: nat) -> nat {
        self.log.to_multiset().count(v)
    }

    /// Scopes nest: the marks never decrease and never pass the number of
    /// bindings; the outermost scope starts at binding 0, and no binding
    /// outlives it.
    pub open spec fn scopes_nest(self) -> bool {
        &&& forall|i: int, j: int|
            0 <= i <= j < self.marks.len() ==> self.marks[i] <= self.marks[j]
        &&& forall|i: int| 0 <= i < self.marks.len() ==> self.marks[i] <= self.slots.len()
        &&& self.marks.len() > 0 ==> self.marks[0] == 0
        &&& self.marks.len() == 0 ==> self.slots.len() == 0
    }

    /// Ownership is one-to-one: what a binding holds is alive and names that
    /// binding as its owner, and the owner of a live value is in scope and
    /// holds it.
    pub open spec fn one_owner(self) -> bool {
        &&& forall|b: int|
            0 <= b < self.slots.len() && self.slots[b] is Some ==> {
                let v = (#[trigger] self.slots[b])->0;
                &&& v < self.values.len()
                &&& self.values[v as int] is Owned
                &&& self.values[v as int]->owner == b
            }
        &&& forall|v: int|
            0 <= v < self.values.len() && self.values[v] is Owned ==> {
                let b = (#[trigger] self.values[v])->owner;
                &&& b < self.slots.len()
                &&& self.slots[b as int] == Some(v as nat)
            }
    }

    /// The log holds exactly the destroyed values, each once.
    pub open spec fn log_exact(self) -> bool {
        &&& self.log.no_duplicates()
        &&& forall|v: nat|
            #![trigger self.log.contains(v)]
            #![trigger self.is_destroyed(v)]
            self.log.contains(v) <==> self.is_destroyed(v)
    }

    /// The invariant of the discipline.
    pub open spec fn wf(self) -> bool {
        &&& self.scopes_nest()
        &&& self.one_owner()
        &&& self.log_exact()
    }

    /// A scope opens.
    pub open spec fn enter(self) -> State {
        State { marks: self.marks.push(self.slots.len()), ..self }
    }

    /// A binding is declared without a value. Its number is the number of
    /// bindings that were in scope.
    pub open spec fn declare(self) -> State {
        State { slots: self.slots.push(None), ..self }
    }

    /// A value with the given text is constructed, owned by a binding
    /// declared for it. Both take the next free number of their kind.
    pub open spec fn construct(self, text: Seq<char>) -> State {
        State {
            values: self.values.push(ValueState::Owned { text, owner: self.slots.len() }),
            slots: self.slots.push(Some(self.values.len())),
            ..self
        }
    }

    /// The value of `from` moves to `to`: `from` is left owning nothing.
    pub open spec fn transfer(self, from: nat, to: nat) -> State
        recommends
            self.owns(from),
            self.vacant(to),
    {
        let v = self.held(from);
        State {
            values: self.values.update(
                v as int,
                ValueState::Owned { text: self.text(v), owner: to },
            ),
            slots: self.slots.update(from as int, None).update(to as int, Some(v)),
            ..self
        }
    }

    /// The value of `b` is destroyed and `b` is left owning nothing.
    pub open spec fn release(self, b: nat) -> State
        recommends
            self.owns(b),
    {
        let v = self.held(b);
        State {
            values: self.values.update(v as int, ValueState::Destroyed),
            slots: self.slots.update(b as int, None),
            log: self.log.push(v),
            ..self
        }
    }

    /// `to` is assigned the value of `from`: what `to` owned before is
    /// destroyed first, then the value moves. Assigning a binding to itself
    /// changes nothing.
    pub open spec fn reassign(self, to: nat, from: nat) -> State
        recommends
            self.owns(from),
            self.in_scope(to),
    {
        if to == from {
            self
        } else if self.owns(to) {
            self.release(to).transfer(from, to)
        } else {
            self.transfer(from, to)
        }
    }

    /// The binding declared last leaves scope; a value that it still owns is
    /// destroyed.
    pub open spec fn pop(self) -> State
        recommends
            self.slots.len() > 0,
    {
        let last = (self.slots.len() - 1) as nat;
        let s = if self.owns(last) {
            self.release(last)
        } else {
            self
        };
        State { slots: s.slots.drop_last(), ..s }
    }

    /// Bindings leave scope, last declared first, until `keep` are left.
    pub open spec fn unwind(self, keep: nat) -> State
        decreases self.slots.len(),
    {
        if self.slots.len() <= keep {
            self
        } else {
            self.pop().unwind(keep)
        }
    }

    /// The innermost scope ends: its bindings leave scope in reverse order of
    /// declaration.
    pub open spec fn exit(self) -> State
        recommends
            self.depth() > 0,
    {
        let s = self.unwind(self.marks.last());
        State { marks: s.marks.drop_last(), ..s }
    }
}

} // verus!
