//! Small helpers on strings.

use vstd::prelude::*;

verus! {

/// The characters of `s`.
pub fn chars_of(s: &str) -> (v: Vec<char>)
    ensures
        v@ == s@,
{
    let mut v: Vec<char> = Vec::new();
    for c in it: s.chars()
        invariant
            v@ == it.seq().take(it.index() as int),
            it.seq() == s@,
    {
        v.push(c);
    }
    v
}

/// The characters of a text that may be absent.
pub open spec fn text_view(t: Option<String>) -> Option<Seq<char>> {
    match t {
        Some(s) => Some(s@),
        None => None,
    }
}

/// Whether `t` is there and not empty.
pub open spec fn present(t: Option<String>) -> bool {
    t matches Some(s) && s@.len() > 0
}

/// Whether `t` is there and not empty.
pub fn is_present(t: &Option<String>) -> (r: bool)
    ensures
        r == present(*t),
{
    match t {
        Some(s) => !s.as_str().is_empty(),
        None => false,
    }
}

} // verus!
