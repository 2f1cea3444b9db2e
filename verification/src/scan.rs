//! Finding the first occurrence of a value in a sequence.

use vstd::prelude::*;

verus! {

/// The position of the first `x` in `s`, or the length of `s` if it holds none.
pub open spec fn first_index<T>(s: Seq<T>, x: T) -> int
    decreases s.len(),
{
    if s.len() == 0 || s[0] == x {
        0
    } else {
        1 + first_index(s.drop_first(), x)
    }
}

/// The first `x` stands behind a stretch that holds none, at an `x` or at
/// the end of the sequence; and no other position is like that.
pub proof fn lemma_first_index<T>(s: Seq<T>, x: T, at: int)
    requires
        0 <= at <= s.len(),
        forall|j: int| 0 <= j < at ==> s[j] != x,
        at < s.len() ==> s[at] == x,
    ensures
        first_index(s, x) == at,
    decreases at,
{
    if at > 0 {
        lemma_first_index(s.drop_first(), x, at - 1);
    }
}

} // verus!
