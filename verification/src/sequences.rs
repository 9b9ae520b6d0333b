//! Facts about walking along a sequence, for the loops that do so.

use vstd::prelude::*;

verus! {

/// One step along a sequence: its first `i + 1` items are its first `i` items
/// and item `i` after them.
pub proof fn lemma_take_step<T>(s: Seq<T>, i: int)
    requires
        0 <= i < s.len(),
    ensures
        s.take(i + 1).len() == i + 1,
        s.take(i + 1).drop_last() == s.take(i),
        s.take(i + 1).last() == s[i],
{
    assert(s.take(i + 1).drop_last() =~= s.take(i));
}

/// The two ends of a walk: before the first step nothing has been passed,
/// after the last the whole sequence.
pub proof fn lemma_take_ends<T>(s: Seq<T>)
    ensures
        s.take(0) == Seq::<T>::empty(),
        s.take(s.len() as int) == s,
{
    assert(s.take(0) =~= Seq::<T>::empty());
    assert(s.take(s.len() as int) =~= s);
}

} // verus!
