//! Strings with program lifetime, as the command builder consumes them.

use vstd::prelude::*;

verus! {

/// `String::into_boxed_str`: the boxed slice holds the characters of the string.
#[verifier::external_body]
fn into_boxed(s: String) -> (b: Box<str>)
    ensures
        b@ == s@,
{
    s.into_boxed_str()
}

/// `Box::leak`: the reference handed out points at the boxed characters.
#[verifier::external_body]
fn leak_boxed(b: Box<str>) -> (r: &'static str)
    ensures
        r@ == b@,
{
    Box::leak(b)
}

/// Copies `s` into an allocation that is never freed and returns a reference to it.
pub fn leak_string(s: &str) -> (r: &'static str)
    ensures
        r@ == s@,
{
    leak_boxed(into_boxed(s.to_owned()))
}

} // verus!
