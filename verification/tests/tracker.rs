use ownership::replay::{replay_f, replay_g, replay_top_level};
use ownership::tracker::{BindingId, Tracker, ValueId};

#[test]
fn starts_with_one_empty_scope() {
    let t = Tracker::new();
    assert_eq!(t.depth(), 1);
    assert_eq!(t.bindings(), 0);
    assert_eq!(t.values(), 0);
    assert!(t.destroyed().is_empty());
    assert!(!t.owns(BindingId(0)));
    assert!(!t.vacant(BindingId(0)));
    assert_eq!(t.holds(BindingId(0)), None);
    assert!(!t.is_live(ValueId(0)));
    assert_eq!(t.owner_of(ValueId(0)), None);
    assert_eq!(t.destructions(ValueId(0)), 0);
}

#[test]
fn construct_makes_the_binding_the_owner() {
    let mut t = Tracker::new();
    let x = t.construct("abc");
    assert_eq!(x, BindingId(0));
    assert!(t.owns(x));
    assert!(!t.vacant(x));
    let v = t.holds(x).unwrap();
    assert_eq!(v, ValueId(0));
    assert!(t.is_live(v));
    assert_eq!(t.owner_of(v), Some(x));
    assert_eq!(t.read(x), "abc");
    assert_eq!(t.bindings(), 1);
    assert_eq!(t.values(), 1);
    assert!(t.destroyed().is_empty());
}

#[test]
fn construct_accepts_the_empty_text() {
    let mut t = Tracker::new();
    let x = t.construct("");
    assert!(t.owns(x));
    assert_eq!(t.read(x), "");
}

#[test]
fn values_and_bindings_are_numbered_in_order() {
    let mut t = Tracker::new();
    let a = t.construct("a");
    let b = t.declare();
    let c = t.construct("c");
    assert_eq!((a, b, c), (BindingId(0), BindingId(1), BindingId(2)));
    assert_eq!(t.holds(a), Some(ValueId(0)));
    assert_eq!(t.holds(b), None);
    assert_eq!(t.holds(c), Some(ValueId(1)));
    assert_eq!(t.read(c), "c");
}

#[test]
fn declared_binding_owns_nothing() {
    let mut t = Tracker::new();
    let b = t.declare();
    assert!(t.vacant(b));
    assert!(!t.owns(b));
    assert_eq!(t.holds(b), None);
    assert_eq!(t.bindings(), 1);
    assert_eq!(t.values(), 0);
}

#[test]
fn transfer_moves_the_value_and_destroys_nothing() {
    let mut t = Tracker::new();
    let x = t.construct("abc");
    let v = t.holds(x).unwrap();
    let z = t.declare();
    t.transfer(x, z);
    assert_eq!(t.holds(z), Some(v));
    assert_eq!(t.owner_of(v), Some(z));
    assert_eq!(t.read(z), "abc");
    assert!(t.is_live(v));
    assert!(t.destroyed().is_empty());
}

#[test]
fn moved_from_binding_cannot_be_used() {
    let mut t = Tracker::new();
    let x = t.construct("abc");
    let z = t.declare();
    t.transfer(x, z);
    assert!(!t.owns(x));
    assert!(t.vacant(x));
    assert_eq!(t.holds(x), None);
    let y = t.construct("other");
    t.reassign(y, z);
    assert!(!t.owns(z));
    assert_eq!(t.holds(z), None);
    assert!(t.owns(y));
}

#[test]
fn moved_from_binding_may_be_assigned_again() {
    let mut t = Tracker::new();
    let x = t.construct("abc");
    let z = t.declare();
    t.transfer(x, z);
    let w = t.construct("new");
    t.reassign(x, w);
    assert!(t.owns(x));
    assert_eq!(t.read(x), "new");
    assert_eq!(t.read(z), "abc");
    assert!(t.destroyed().is_empty());
}

#[test]
fn chain_of_transfers_keeps_the_value_alive() {
    let mut t = Tracker::new();
    let a = t.construct("payload");
    let v = t.holds(a).unwrap();
    let b = t.declare();
    let c = t.declare();
    let d = t.declare();
    t.transfer(a, b);
    assert_eq!(t.destructions(v), 0);
    t.transfer(b, c);
    assert_eq!(t.destructions(v), 0);
    t.transfer(c, d);
    assert_eq!(t.destructions(v), 0);
    t.transfer(d, a);
    assert_eq!(t.owner_of(v), Some(a));
    assert_eq!(t.read(a), "payload");
    assert_eq!(t.holds(b), None);
    assert_eq!(t.holds(c), None);
    assert_eq!(t.holds(d), None);
    assert!(t.destroyed().is_empty());
    t.exit_scope();
    assert_eq!(t.destructions(v), 1);
    assert_eq!(*t.destroyed(), vec![v]);
    assert!(!t.is_live(v));
    assert_eq!(t.owner_of(v), None);
}

#[test]
fn value_moved_along_is_destroyed_once_when_overwritten() {
    let mut t = Tracker::new();
    let a = t.construct("first");
    let v = t.holds(a).unwrap();
    let b = t.declare();
    t.transfer(a, b);
    let c = t.construct("second");
    let w = t.holds(c).unwrap();
    t.reassign(b, c);
    assert_eq!(t.destructions(v), 1);
    assert_eq!(t.destructions(w), 0);
    t.exit_scope();
    assert_eq!(t.destructions(v), 1);
    assert_eq!(t.destructions(w), 1);
    assert_eq!(*t.destroyed(), vec![v, w]);
}

#[test]
fn reassign_destroys_the_old_value() {
    let mut t = Tracker::new();
    let y = t.construct("freeme");
    let old = t.holds(y).unwrap();
    let n = t.construct("xyz");
    let new = t.holds(n).unwrap();
    assert!(t.destroyed().is_empty());
    t.reassign(y, n);
    assert_eq!(*t.destroyed(), vec![old]);
    assert!(!t.is_live(old));
    assert_eq!(t.owner_of(old), None);
    assert!(t.is_live(new));
    assert_eq!(t.owner_of(new), Some(y));
    assert_eq!(t.holds(y), Some(new));
    assert_eq!(t.read(y), "xyz");
    assert_eq!(t.holds(n), None);
}

#[test]
fn reassign_into_vacant_binding_destroys_nothing() {
    let mut t = Tracker::new();
    let y = t.declare();
    let n = t.construct("xyz");
    t.reassign(y, n);
    assert!(t.destroyed().is_empty());
    assert_eq!(t.read(y), "xyz");
    assert!(t.vacant(n));
}

#[test]
fn reassign_to_itself_changes_nothing() {
    let mut t = Tracker::new();
    let y = t.construct("same");
    let v = t.holds(y).unwrap();
    t.reassign(y, y);
    assert_eq!(t.holds(y), Some(v));
    assert_eq!(t.read(y), "same");
    assert!(t.is_live(v));
    assert!(t.destroyed().is_empty());
}

#[test]
fn scope_end_destroys_in_reverse_order_of_declaration() {
    let mut t = Tracker::new();
    t.enter_scope();
    let a = t.construct("a");
    let b = t.construct("b");
    let skipped = t.declare();
    let c = t.construct("c");
    let va = t.holds(a).unwrap();
    let vb = t.holds(b).unwrap();
    let vc = t.holds(c).unwrap();
    assert!(t.vacant(skipped));
    t.exit_scope();
    assert_eq!(*t.destroyed(), vec![vc, vb, va]);
    assert_eq!(t.bindings(), 0);
    assert_eq!(t.depth(), 1);
    assert!(!t.owns(a));
    assert!(!t.vacant(a));
}

#[test]
fn scope_end_leaves_outer_bindings_alone() {
    let mut t = Tracker::new();
    let outer = t.construct("outer");
    let vo = t.holds(outer).unwrap();
    t.enter_scope();
    assert_eq!(t.depth(), 2);
    let inner = t.construct("inner");
    let vi = t.holds(inner).unwrap();
    t.exit_scope();
    assert_eq!(*t.destroyed(), vec![vi]);
    assert!(t.is_live(vo));
    assert_eq!(t.read(outer), "outer");
    assert_eq!(t.bindings(), 1);
    t.exit_scope();
    assert_eq!(*t.destroyed(), vec![vi, vo]);
    assert_eq!(t.depth(), 0);
    assert_eq!(t.bindings(), 0);
}

#[test]
fn value_returned_to_outer_binding_survives_the_scope() {
    let mut t = Tracker::new();
    let dest = t.declare();
    t.enter_scope();
    let local = t.construct("result");
    let v = t.holds(local).unwrap();
    let dropped = t.construct("local only");
    let vd = t.holds(dropped).unwrap();
    t.transfer(local, dest);
    t.exit_scope();
    assert_eq!(*t.destroyed(), vec![vd]);
    assert!(t.is_live(v));
    assert_eq!(t.owner_of(v), Some(dest));
    assert_eq!(t.read(dest), "result");
}

#[test]
fn empty_scope_ends_without_destroying() {
    let mut t = Tracker::new();
    let x = t.construct("kept");
    t.enter_scope();
    t.enter_scope();
    assert_eq!(t.depth(), 3);
    t.exit_scope();
    t.exit_scope();
    assert_eq!(t.depth(), 1);
    assert!(t.destroyed().is_empty());
    assert_eq!(t.read(x), "kept");
}

#[test]
fn scope_can_be_entered_again_after_the_outermost_ended() {
    let mut t = Tracker::new();
    let x = t.construct("one");
    let v = t.holds(x).unwrap();
    t.exit_scope();
    assert_eq!(t.depth(), 0);
    t.enter_scope();
    let y = t.construct("two");
    assert_eq!(y, BindingId(0));
    assert_eq!(t.holds(y), Some(ValueId(1)));
    assert_eq!(t.read(y), "two");
    assert_eq!(*t.destroyed(), vec![v]);
}

#[test]
fn replayed_g_destroys_its_argument_and_returns_fresh() {
    let mut t = Tracker::new();
    let a = t.construct("abc");
    let va = t.holds(a).unwrap();
    let out = t.declare();
    replay_g(&mut t, a, out);
    assert_eq!(*t.destroyed(), vec![va]);
    assert_eq!(t.read(out), "xyz");
    assert!(t.vacant(a));
    assert_eq!(t.bindings(), 2);
    assert_eq!(t.depth(), 1);
    assert_eq!(t.holds(out), Some(ValueId(1)));
}

#[test]
fn replayed_f_has_the_effect_of_g() {
    let mut t = Tracker::new();
    let a = t.construct("abc");
    let va = t.holds(a).unwrap();
    let out = t.declare();
    replay_f(&mut t, a, out);
    assert_eq!(*t.destroyed(), vec![va]);
    assert_eq!(t.read(out), "xyz");
    assert!(t.vacant(a));
    assert_eq!(t.bindings(), 2);
    assert_eq!(t.depth(), 1);
    assert_eq!(t.holds(out), Some(ValueId(1)));
}

#[test]
fn end_to_end_on_the_tracker_step_by_step() {
    let mut t = Tracker::new();
    let x = t.construct("abc");
    let y = t.construct("freeme");
    let abc = t.holds(x).unwrap();
    let freeme = t.holds(y).unwrap();

    // y = f(x)
    let result = t.declare();
    t.enter_scope();
    let a = t.declare();
    t.transfer(x, a);
    let b = t.declare();
    {
        // let b = g(a)
        t.enter_scope();
        let gb = t.declare();
        t.transfer(a, gb);
        assert_eq!(t.owner_of(abc), Some(gb));
        let c = t.construct("xyz");
        t.transfer(c, b);
        assert!(t.destroyed().is_empty());
        t.exit_scope();
    }
    assert_eq!(*t.destroyed(), vec![abc]);
    let xyz = t.holds(b).unwrap();
    t.transfer(b, result);
    t.exit_scope();
    assert_eq!(*t.destroyed(), vec![abc]);
    assert!(t.is_live(freeme));
    t.reassign(y, result);
    assert_eq!(*t.destroyed(), vec![abc, freeme]);

    assert_eq!(t.holds(y), Some(xyz));
    assert_eq!(t.owner_of(xyz), Some(y));
    assert_eq!(t.read(y), "xyz");
    assert!(!t.owns(x));
    assert!(!t.is_live(abc));
    assert!(!t.is_live(freeme));

    t.exit_scope();
    assert_eq!(*t.destroyed(), vec![abc, freeme, xyz]);
    assert_eq!(t.destructions(abc), 1);
    assert_eq!(t.destructions(freeme), 1);
    assert_eq!(t.destructions(xyz), 1);
    assert_eq!(t.depth(), 0);
}

#[test]
fn end_to_end_replayed() {
    let (mut t, y) = replay_top_level();
    assert_eq!(y, BindingId(1));
    assert_eq!(t.read(y), "xyz");
    assert_eq!(*t.destroyed(), vec![ValueId(0), ValueId(1)]);
    assert_eq!(t.holds(y), Some(ValueId(2)));
    assert!(!t.owns(BindingId(0)));
    assert_eq!(t.values(), 3);
    assert_eq!(t.bindings(), 3);
    assert_eq!(t.depth(), 1);
    t.exit_scope();
    assert_eq!(*t.destroyed(), vec![ValueId(0), ValueId(1), ValueId(2)]);
}
