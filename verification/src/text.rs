//! Facts about character sequences that the diagnostics and the route names rest on.

use vstd::prelude::*;

verus! {

/// `part` stands in `text`, starting at index `at`.
pub open spec fn occurs_at(text: Seq<char>, part: Seq<char>, at: int) -> bool {
    0 <= at && at + part.len() <= text.len() && text.subrange(at, at + part.len()) == part
}

/// `part` is a contiguous piece of `text`.
pub open spec fn contains_text(text: Seq<char>, part: Seq<char>) -> bool {
    exists|at: int| occurs_at(text, part, at)
}

/// `head` is what `text` starts with.
pub open spec fn starts_with(text: Seq<char>, head: Seq<char>) -> bool {
    occurs_at(text, head, 0)
}

/// `tail` is what `text` ends with.
pub open spec fn ends_with(text: Seq<char>, tail: Seq<char>) -> bool {
    occurs_at(text, tail, text.len() - tail.len())
}

/// The middle one of three joined pieces is contained in the whole.
pub proof fn lemma_contains_inner(before: Seq<char>, part: Seq<char>, after: Seq<char>)
    ensures
        contains_text(before + part + after, part),
{
    let whole = before + part + after;
    let at = before.len() as int;
    assert(whole.subrange(at, at + part.len()) =~= part);
    assert(occurs_at(whole, part, at));
}

} // verus!
