//! An executable tracker that owns the strings and follows the discipline
//! step by step. Its view is the mathematical state; each operation is one
//! transition of it. Using a binding that owns nothing is ruled out by the
//! preconditions, so verified callers cannot use a value after moving it.

use vstd::prelude::*;
use crate::model::{State, ValueState};
use crate::preservation::{
    lemma_construct_wf, lemma_declare_wf, lemma_enter_wf, lemma_exit_wf, lemma_initial_wf,
    lemma_pop_wf, lemma_release_wf, lemma_transfer_wf,
};

verus! {

/// Names a binding by its number.
#[derive(Clone, Copy, Debug, PartialEq, Eq, Structural)]
pub struct BindingId(pub usize);

/// Names a value by its number.
#[derive(Clone, Copy, Debug, PartialEq, Eq, Structural)]
pub struct ValueId(pub usize);

impl View for BindingId {
    type V = nat;

    open spec fn view(&self) -> nat {
        self.0 as nat
    }
}

impl View for ValueId {
    type V = nat;

    open spec fn view(&self) -> nat {
        self.0 as nat
    }
}

/// What a slot of the tracker says of a binding, as the model has it.
pub open spec fn slot_view(slot: Option<ValueId>) -> Option<nat> {
    match slot {
        Some(v) => Some(v@),
        None => None,
    }
}

/// What the tracker keeps of a value, as the model has it.
pub open spec fn value_view(text: String, owner: Option<BindingId>) -> ValueState {
    match owner {
        Some(b) => ValueState::Owned { text: text@, owner: b@ },
        None => ValueState::Destroyed,
    }
}

/// Owns every live string and records who owns which, which scopes are open
/// and what has been destroyed.
pub struct Tracker {
    /// The text of each value; emptied when the value is destroyed.
    texts: Vec<String>,
    /// The owner of each value; `None` once it is destroyed.
    owners: Vec<Option<BindingId>>,
    /// What each binding in scope owns.
    slots: Vec<Option<ValueId>>,
    /// For each open scope, the number of bindings before it.
    marks: Vec<usize>,
    /// The destroyed values in order.
    log: Vec<ValueId>,
}

impl View for Tracker {
    type V = State;

    closed spec fn view(&self) -> State {
        State {
            values: Seq::new(
                self.texts@.len(),
                |v: int| value_view(self.texts@[v], self.owners@[v]),
            ),
            slots: Seq::new(self.slots@.len(), |b: int| slot_view(self.slots@[b])),
            marks: Seq::new(self.marks@.len(), |i: int| self.marks@[i] as nat),
            log: Seq::new(self.log@.len(), |i: int| self.log@[i]@),
        }
    }
}

impl Tracker {
    /// The two tables of values have one entry per value.
    pub closed spec fn consistent(&self) -> bool {
        self.texts@.len() == self.owners@.len()
    }

    /// The tracker is consistent and its view satisfies the invariant of the
    /// discipline.
    pub open spec fn wf(&self) -> bool {
        self.consistent() && self@.wf()
    }

    /// A tracker at the start: the outermost scope is open and empty.
    pub fn new() -> (t: Tracker)
        ensures
            t.wf(),
            t@ == State::initial(),
    {
        let mut marks: Vec<usize> = Vec::new();
        marks.push(0);
        let t = Tracker {
            texts: Vec::new(),
            owners: Vec::new(),
            slots: Vec::new(),
            marks,
            log: Vec::new(),
        };
        proof {
            lemma_initial_wf();
        }
        t
    }

    /// Number of open scopes.
    pub fn depth(&self) -> (d: usize)
        ensures
            d == self@.depth(),
    {
        self.marks.len()
    }

    /// Number of bindings in scope.
    pub fn bindings(&self) -> (n: usize)
        ensures
            n == self@.slots.len(),
    {
        self.slots.len()
    }

    /// Number of values constructed so far.
    pub fn values(&self) -> (n: usize)
        ensures
            n == self@.values.len(),
    {
        self.texts.len()
    }

    /// Whether `b` is in scope and owns a value. An unverified caller tests
    /// this before it reads or moves from `b`.
    pub fn owns(&self, b: BindingId) -> (r: bool)
        ensures
            r == self@.owns(b@),
    {
        b.0 < self.slots.len() && self.slots[b.0].is_some()
    }

    /// Whether `b` is in scope and owns nothing.
    pub fn vacant(&self, b: BindingId) -> (r: bool)
        ensures
            r == self@.vacant(b@),
    {
        b.0 < self.slots.len() && self.slots[b.0].is_none()
    }

    /// The value that `b` owns, if it is in scope and owns one.
    pub fn holds(&self, b: BindingId) -> (r: Option<ValueId>)
        ensures
            r is Some <==> self@.owns(b@),
            r is Some ==> r->0@ == self@.held(b@),
    {
        if b.0 < self.slots.len() {
            self.slots[b.0]
        } else {
            None
        }
    }

    /// Whether `v` has been constructed and not destroyed.
    pub fn is_live(&self, v: ValueId) -> (r: bool)
        requires
            self.wf(),
        ensures
            r == self@.is_live(v@),
    {
        v.0 < self.owners.len() && self.owners[v.0].is_some()
    }

    /// The binding that owns `v`, if `v` is alive.
    pub fn owner_of(&self, v: ValueId) -> (r: Option<BindingId>)
        requires
            self.wf(),
        ensures
            r is Some <==> self@.is_live(v@),
            r is Some ==> r->0@ == self@.owner(v@),
    {
        if v.0 < self.owners.len() {
            self.owners[v.0]
        } else {
            None
        }
    }

    /// The destroyed values, in the order of their destruction.
    pub fn destroyed(&self) -> (r: &Vec<ValueId>)
        ensures
            r@.len() == self@.log.len(),
            forall|i: int| 0 <= i < r@.len() ==> r@[i]@ == self@.log[i],
    {
        &self.log
    }

    /// How often `v` has been destroyed so far, counted from the log.
    pub fn destructions(&self, v: ValueId) -> (n: usize)
        ensures
            n == self@.destructions(v@),
    {
        let mut n: usize = 0;
        let mut i: usize = 0;
        proof {
            assert(self@.log.take(0) =~= Seq::<nat>::empty());
            Seq::<nat>::empty().to_multiset_ensures();
        }
        while i < self.log.len()
            invariant
                n <= i <= self.log.len(),
                n == self@.log.take(i as int).to_multiset().count(v@),
            decreases self.log.len() - i,
        {
            proof {
                let seen = self@.log.take(i as int);
                seen.to_multiset_ensures();
                assert(self@.log.take(i + 1) =~= seen.push(self@.log[i as int]));
            }
            if self.log[i].0 == v.0 {
                n = n + 1;
            }
            i = i + 1;
        }
        proof {
            assert(self@.log.take(i as int) =~= self@.log);
        }
        n
    }

    /// Opens a scope.
    pub fn enter_scope(&mut self)
        requires
            old(self).wf(),
        ensures
            final(self).wf(),
            final(self)@ == old(self)@.enter(),
    {
        let mark: usize = self.slots.len();
        self.marks.push(mark);
        proof {
            assert(self@ =~= old(self)@.enter());
            lemma_enter_wf(old(self)@);
        }
    }

    /// Declares a binding in the innermost scope, owning nothing yet.
    pub fn declare(&mut self) -> (b: BindingId)
        requires
            old(self).wf(),
            old(self)@.depth() > 0,
        ensures
            final(self).wf(),
            final(self)@ == old(self)@.declare(),
            b@ == old(self)@.slots.len(),
    {
        let b = BindingId(self.slots.len());
        self.slots.push(None);
        proof {
            assert(self@ =~= old(self)@.declare());
            lemma_declare_wf(old(self)@);
        }
        b
    }

    /// Constructs a value with the given text, owned by a binding declared
    /// for it in the innermost scope, and returns that binding.
    pub fn construct(&mut self, text: &str) -> (b: BindingId)
        requires
            old(self).wf(),
            old(self)@.depth() > 0,
        ensures
            final(self).wf(),
            final(self)@ == old(self)@.construct(text@),
            b@ == old(self)@.slots.len(),
    {
        let b = BindingId(self.slots.len());
        let v = ValueId(self.texts.len());
        self.texts.push(text.to_owned());
        self.owners.push(Some(b));
        self.slots.push(Some(v));
        proof {
            assert(self@ =~= old(self)@.construct(text@));
            lemma_construct_wf(old(self)@, text@);
        }
        b
    }

    /// Moves the value of `from` into `to`, which owns nothing. Afterwards
    /// `from` owns nothing and may not be read or moved from.
    pub fn transfer(&mut self, from: BindingId, to: BindingId)
        requires
            old(self).wf(),
            old(self)@.owns(from@),
            old(self)@.vacant(to@),
        ensures
            final(self).wf(),
            final(self)@ == old(self)@.transfer(from@, to@),
    {
        let v: ValueId = self.slots[from.0].unwrap();
        self.slots.set(from.0, None);
        self.slots.set(to.0, Some(v));
        self.owners.set(v.0, Some(to));
        proof {
            assert(self@ =~= old(self)@.transfer(from@, to@));
            lemma_transfer_wf(old(self)@, from@, to@);
        }
    }

    /// Destroys the value that `b` owns: its text is freed, the destruction
    /// is logged, and `b` owns nothing.
    fn destroy(&mut self, b: BindingId)
        requires
            old(self).wf(),
            old(self)@.owns(b@),
        ensures
            final(self).wf(),
            final(self)@ == old(self)@.release(b@),
    {
        let v: ValueId = self.slots[b.0].unwrap();
        self.slots.set(b.0, None);
        self.owners.set(v.0, None);
        self.texts.set(v.0, String::new());
        self.log.push(v);
        proof {
            assert(self@ =~= old(self)@.release(b@));
            lemma_release_wf(old(self)@, b@);
        }
    }

    /// Assigns the value of `from` to `to`. What `to` owned is destroyed
    /// before the value moves in; `from` is left owning nothing. Assigning a
    /// binding to itself changes nothing.
    pub fn reassign(&mut self, to: BindingId, from: BindingId)
        requires
            old(self).wf(),
            old(self)@.owns(from@),
            old(self)@.in_scope(to@),
        ensures
            final(self).wf(),
            final(self)@ == old(self)@.reassign(to@, from@),
    {
        if to.0 != from.0 {
            if self.slots[to.0].is_some() {
                self.destroy(to);
            }
            self.transfer(from, to);
        }
    }

    /// Ends the innermost scope. Its bindings leave scope last declared
    /// first, and each value that one of them still owns is destroyed.
    pub fn exit_scope(&mut self)
        requires
            old(self).wf(),
            old(self)@.depth() > 0,
        ensures
            final(self).wf(),
            final(self)@ == old(self)@.exit(),
    {
        let mark: usize = self.marks[self.marks.len() - 1];
        while self.slots.len() > mark
            invariant
                self.wf(),
                self@.marks == old(self)@.marks,
                self@.depth() > 0,
                mark == self@.marks.last(),
                self@.unwind(mark as nat) == old(self)@.unwind(mark as nat),
            decreases self.slots.len(),
        {
            let ghost before = self@;
            let last = BindingId(self.slots.len() - 1);
            if self.slots[last.0].is_some() {
                self.destroy(last);
            }
            self.slots.pop();
            proof {
                assert(self@ =~= before.pop());
                lemma_pop_wf(before);
            }
        }
        self.marks.pop();
        proof {
            assert(self@ =~= old(self)@.exit());
            lemma_exit_wf(old(self)@);
        }
    }

    /// Borrows the text of the value that `b` owns. Ownership stays with `b`.
    pub fn read(&self, b: BindingId) -> (r: &str)
        requires
            self.wf(),
            self@.owns(b@),
        ensures
            r@ == self@.text(self@.held(b@)),
    {
        let v: ValueId = self.slots[b.0].unwrap();
        self.texts[v.0].as_str()
    }
}

} // verus!
