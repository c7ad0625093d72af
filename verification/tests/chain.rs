use ownership::chain::{f, g, top_level};

#[test]
fn g_hands_out_a_fresh_value() {
    let c = g(String::from("abc"));
    assert_eq!(c, "xyz");
}

#[test]
fn g_ignores_what_it_is_given() {
    assert_eq!(g(String::new()), "xyz");
    assert_eq!(g(String::from("xyz")), "xyz");
    assert_eq!(g(String::from("a much longer argument than the result")), "xyz");
}

#[test]
fn f_passes_on_what_g_returns() {
    let b = f(String::from("abc"));
    assert_eq!(b, "xyz");
    assert_eq!(b, g(String::from("abc")));
}

#[test]
fn reassigned_binding_owns_the_result() {
    let x = String::from("abc");
    let mut y = String::from("freeme");
    assert_eq!(y, "freeme");
    y = f(x);
    assert_eq!(y, "xyz");
    assert_eq!(y.len(), 3);
}

#[test]
fn top_level_ends_with_the_fresh_value() {
    let y = top_level();
    assert_eq!(y, "xyz");
    assert_eq!(format!("{}", y), "xyz");
}
