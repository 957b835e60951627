//! Lines of user-facing text, built from pieces.

use vstd::prelude::*;

verus! {

/// The text of each line.
pub open spec fn string_views(v: Seq<String>) -> Seq<Seq<char>> {
    v.map_values(|s: String| s@)
}

/// A line of one piece.
pub fn line1(a: &str) -> (r: String)
    ensures
        r@ == a@,
{
    String::from_str(a)
}

/// A line of three pieces, one after the other.
pub fn line3(a: &str, b: &str, c: &str) -> (r: String)
    ensures
        r@ == a@ + b@ + c@,
{
    let mut r = String::from_str(a);
    r.append(b);
    r.append(c);
    r
}

/// Add a line at the end.
pub fn push_line(v: &mut Vec<String>, s: String)
    ensures
        string_views(final(v)@) == string_views(old(v)@).push(s@),
{
    let ghost t = s@;
    v.push(s);
    assert(string_views(v@) =~= string_views(old(v)@).push(t));
}

} // verus!
