//! Proved laws relating the list operations, stated over the sequence
//! view that the operations' contracts use.

use vstd::prelude::*;

verus! {

/// The sequence obtained from `init` by appending the elements of `vs` in
/// order, one at a time.
pub open spec fn pushed_all<T>(init: Seq<T>, vs: Seq<T>) -> Seq<T>
    decreases vs.len(),
{
    if vs.len() == 0 {
        init
    } else {
        pushed_all(init.push(vs[0]), vs.drop_first())
    }
}

/// Appending elements one at a time to an empty list yields exactly those
/// elements, in the order they were appended.
pub proof fn lemma_push_order<T>(vs: Seq<T>)
    ensures
        pushed_all(Seq::empty(), vs) == vs,
{
    lemma_pushed_all(Seq::empty(), vs);
    assert(Seq::empty() + vs =~= vs);
}

/// Helper: appending the elements of `vs` to `init` concatenates them.
pub proof fn lemma_pushed_all<T>(init: Seq<T>, vs: Seq<T>)
    ensures
        pushed_all(init, vs) == init + vs,
    decreases vs.len(),
{
    if vs.len() == 0 {
        assert(init + vs =~= init);
    } else {
        lemma_pushed_all(init.push(vs[0]), vs.drop_first());
        assert(init.push(vs[0]) + vs.drop_first() =~= init + vs);
    }
}

/// The sequence of values yielded by removing the front element over and
/// over until the list is empty.
pub open spec fn shift_results<T>(s: Seq<T>) -> Seq<T>
    decreases s.len(),
{
    if s.len() == 0 {
        Seq::empty()
    } else {
        seq![s[0]] + shift_results(s.drop_first())
    }
}

/// Removing from the front until the list is empty yields the list's
/// elements in their stored order, each exactly once; after appends in
/// some order, that is the append order.
pub proof fn lemma_shift_order<T>(s: Seq<T>)
    ensures
        shift_results(s) == s,
    decreases s.len(),
{
    if s.len() == 0 {
        assert(shift_results(s) =~= s);
    } else {
        lemma_shift_order(s.drop_first());
        assert(seq![s[0]] + s.drop_first() =~= s);
    }
}

/// Prepending `x` and then removing from the front yields `x` back and
/// restores the prior list: the front of `seq![x] + s` is `x`, and
/// dropping it leaves `s`.
pub proof fn lemma_unshift_then_shift<T>(s: Seq<T>, x: T)
    ensures
        (seq![x] + s).len() > 0,
        (seq![x] + s)[0] == x,
        (seq![x] + s).drop_first() == s,
{
    assert((seq![x] + s).drop_first() =~= s);
}

/// Inserting before position 0 is the same as prepending: the sequences
/// the two contracts describe are equal.
pub proof fn lemma_insert_front_is_unshift<T>(s: Seq<T>, x: T)
    ensures
        s.take(0) + seq![x] + s.skip(0) == seq![x] + s,
{
    assert(s.take(0) + seq![x] + s.skip(0) =~= seq![x] + s);
}

/// An indexed write followed by an indexed read at the same position
/// returns the written value; every other position is unchanged.
pub proof fn lemma_set_then_get<T>(s: Seq<T>, i: int, v: T)
    requires
        0 <= i < s.len(),
    ensures
        s.update(i, v)[i] == v,
        forall|j: int| 0 <= j < s.len() && j != i ==> s.update(i, v)[j] == s[j],
{
}

} // verus!
