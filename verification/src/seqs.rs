//! Small sequence facts shared across modules.

use vstd::prelude::*;

verus! {

/// Sequence concatenation is associative.
pub proof fn lemma_add_assoc<A>(a: Seq<A>, b: Seq<A>, c: Seq<A>)
    ensures
        a + b + c == a + (b + c),
{
    assert(a + b + c =~= a + (b + c));
}

} // verus!
