//! Small sequence facts shared across the crate.

use vstd::prelude::*;

verus! {

/// Flattening one more piece appends exactly that piece.
pub proof fn lemma_flatten_take_push(s: Seq<Seq<u8>>, i: int)
    requires
        0 <= i < s.len(),
    ensures
        s.take(i + 1).flatten() == s.take(i).flatten() + s[i],
{
    assert(s.take(i + 1) =~= s.take(i).push(s[i]));
    s.take(i).lemma_flatten_push(s[i]);
}

} // verus!
