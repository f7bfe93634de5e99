//! Finding a text in another.

use crate::text::{occurs_at, occurs_in};
use vstd::prelude::*;

verus! {

/// A text stands in one that is made of something, it, and something else.
pub proof fn lemma_stands_between(before: Seq<char>, s: Seq<char>, behind: Seq<char>)
    ensures
        occurs_in(s, before + s + behind),
{
    let whole = before + s + behind;
    let i = before.len() as int;
    assert(whole.subrange(i, i + s.len()) == s);
    assert(occurs_at(s, whole, i));
}

/// What a text begins with and what it ends with stand in it.
pub proof fn lemma_ends_with_both(head: Seq<char>, glue: Seq<char>, x: Seq<char>, y: Seq<char>)
    ensures
        head.is_prefix_of(head + glue + x + y),
        occurs_in(x + y, head + glue + x + y),
{
    let whole = head + glue + x + y;
    let i = (head.len() + glue.len()) as int;
    assert(whole.subrange(i, i + (x + y).len()) == x + y);
    assert(occurs_at(x + y, whole, i));
    assert(whole.subrange(0, head.len() as int) == head);
}

/// Three texts in a row stand in what is put around them.
pub proof fn lemma_row_stands(
    before: Seq<char>,
    x: Seq<char>,
    y: Seq<char>,
    z: Seq<char>,
    behind: Seq<char>,
)
    ensures
        occurs_in(x + y + z, before + x + y + z + behind),
{
    lemma_stands_between(before, x + y + z, behind);
    assert(before + (x + y + z) + behind == before + x + y + z + behind);
}

} // verus!
