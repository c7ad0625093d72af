//! The call chain itself, on plain `String`s: the compiler's move checking
//! enforces the discipline, and the contracts pin what each call hands back.

use vstd::prelude::*;

verus! {

/// The text of the value that `g` allocates.
pub open spec fn fresh_text() -> Seq<char> {
    "xyz"@
}

/// Takes ownership of `b`, allocates a fresh value and hands that one to the
/// caller. `b` is still owned here when the scope ends, so it is dropped.
#[allow(unused_variables)]
pub fn g(b: String) -> (c: String)
    ensures
        c@ == fresh_text(),
{
    let c = "xyz".to_owned();
    c
}

/// Takes ownership of `a`, moves it into `g`, and passes on unchanged what
/// `g` returns.
pub fn f(a: String) -> (b: String)
    ensures
        b@ == fresh_text(),
{
    let b = g(a);
    b
}

/// The caller at the top: owns "abc" and "freeme", gives the first to `f`
/// and assigns what comes back to the binding of the second, which drops
/// "freeme". Hands out what that binding owns in the end.
#[allow(unused_assignments)]
pub fn top_level() -> (y: String)
    ensures
        y@ == fresh_text(),
{
    let x = "abc".to_owned();
    let mut y = "freeme".to_owned();
    y = f(x);
    y
}

} // verus!
