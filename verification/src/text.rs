//! Small facts and helpers about text.
use vstd::prelude::*;

verus! {

/// Whether `s` is exactly the one character `a`.
pub fn is_text1(s: &str, a: char) -> (r: bool)
    ensures
        r == (s@ == seq![a]),
{
    let n = s.unicode_len();
    if n != 1 {
        return false;
    }
    let r = s.get_char(0) == a;
    if r {
        assert(s@ =~= seq![a]);
    }
    r
}

/// Whether `s` is exactly the two characters `a`, `b`.
pub fn is_text2(s: &str, a: char, b: char) -> (r: bool)
    ensures
        r == (s@ == seq![a, b]),
{
    let n = s.unicode_len();
    if n != 2 {
        return false;
    }
    let r = s.get_char(0) == a && s.get_char(1) == b;
    if r {
        assert(s@ =~= seq![a, b]);
    }
    r
}

/// Whether `s` is exactly the three characters `a`, `b`, `c`.
pub fn is_text3(s: &str, a: char, b: char, c: char) -> (r: bool)
    ensures
        r == (s@ == seq![a, b, c]),
{
    let n = s.unicode_len();
    if n != 3 {
        return false;
    }
    let r = s.get_char(0) == a && s.get_char(1) == b && s.get_char(2) == c;
    if r {
        assert(s@ =~= seq![a, b, c]);
    }
    r
}

/// A copy of a text.
pub fn text(s: &str) -> (r: String)
    ensures
        r@ == s@,
{
    s.to_owned()
}

} // verus!
