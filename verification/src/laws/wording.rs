//! How a wording stands in a longer text.
use vstd::prelude::*;

use crate::text::{occurs, stands_at};

verus! {

/// A text stands in every text that holds it between two others.
pub proof fn lemma_between(before: Seq<char>, wording: Seq<char>, after: Seq<char>)
    ensures
        occurs(before + wording + after, wording),
{
    let all = before + wording + after;
    assert(all.subrange(before.len() as int, before.len() + wording.len() as int) =~= wording);
    assert(stands_at(all, wording, before.len() as int));
}

/// A text that is `before`, `wording` and `after` in this order holds `wording`.
pub proof fn lemma_holds(
    all: Seq<char>,
    before: Seq<char>,
    wording: Seq<char>,
    after: Seq<char>,
)
    requires
        all =~= before + wording + after,
    ensures
        occurs(all, wording),
{
    lemma_between(before, wording, after);
}

/// A text stands in itself at a place.
pub proof fn lemma_stands(all: Seq<char>, wording: Seq<char>, at: int)
    requires
        0 <= at,
        at + wording.len() <= all.len(),
        all.subrange(at, at + wording.len()) =~= wording,
    ensures
        occurs(all, wording),
{
    assert(stands_at(all, wording, at));
}

} // verus!
