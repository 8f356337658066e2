//! Helpers shared by the mathematical models of the crate's types.

use vstd::prelude::*;

verus! {

/// The sequence of views of a sequence of values.
pub open spec fn seq_model<T: View>(s: Seq<T>) -> Seq<<T as View>::V> {
    s.map_values(|x: T| x@)
}

/// Pushing a value and then taking views is taking views and then pushing
/// the value's view.
pub proof fn lemma_seq_model_push<T: View>(prev: Seq<T>, x: T)
    ensures
        seq_model(prev.push(x)) == seq_model(prev).push(x@),
{
    assert(seq_model(prev.push(x)) =~= seq_model(prev).push(x@));
}

/// Extending a prefix by the next element is the next prefix.
pub proof fn lemma_take_push<A>(s: Seq<A>, i: int)
    requires
        0 <= i < s.len(),
    ensures
        s.take(i).push(s[i]) == s.take(i + 1),
{
    assert(s.take(i).push(s[i]) =~= s.take(i + 1));
}

/// The whole sequence is its own full prefix.
pub proof fn lemma_take_all<A>(s: Seq<A>)
    ensures
        s.take(s.len() as int) == s,
{
    assert(s.take(s.len() as int) =~= s);
}

} // verus!
