//! Mathematical model shared by every column type: flattening a sequence of
//! segments, and counting the missing entries of a sequence of optional
//! values.

use vstd::prelude::*;

verus! {

/// The flat sequence obtained by concatenating a sequence of segments in
/// order.
pub open spec fn concat_all<T>(segs: Seq<Seq<T>>) -> Seq<T>
    decreases segs.len(),
{
    if segs.len() == 0 {
        Seq::empty()
    } else {
        concat_all(segs.drop_last()) + segs.last()
    }
}

pub proof fn lemma_concat_all_push<T>(segs: Seq<Seq<T>>, s: Seq<T>)
    ensures
        concat_all(segs.push(s)) == concat_all(segs) + s,
{
    assert(segs.push(s).drop_last() =~= segs);
}

/// Concatenation peels off its first segment.
pub proof fn lemma_concat_all_first<T>(segs: Seq<Seq<T>>)
    requires
        segs.len() > 0,
    ensures
        concat_all(segs) == segs.first() + concat_all(segs.drop_first()),
    decreases segs.len(),
{
    if segs.len() == 1 {
        assert(segs.drop_last() =~= Seq::<Seq<T>>::empty());
        assert(segs.drop_first() =~= Seq::<Seq<T>>::empty());
        assert(Seq::<T>::empty() + segs.last() =~= segs.last());
        assert(segs.first() + Seq::<T>::empty() =~= segs.first());
        assert(segs.last() == segs.first());
    } else {
        lemma_concat_all_first(segs.drop_last());
        assert(segs.drop_last().first() == segs.first());
        assert(segs.drop_first().drop_last() =~= segs.drop_last().drop_first());
        assert(segs.drop_first().len() > 0);
        assert(concat_all(segs.drop_first()) == concat_all(segs.drop_first().drop_last())
            + segs.drop_first().last());
        assert(segs.drop_first().last() == segs.last());
        assert((segs.first() + concat_all(segs.drop_last().drop_first())) + segs.last()
            =~= segs.first() + (concat_all(segs.drop_last().drop_first()) + segs.last()));
    }
}

pub proof fn lemma_concat_all_singleton<T>(s: Seq<T>)
    ensures
        concat_all(seq![s]) == s,
{
    assert(seq![s].drop_last() =~= Seq::<Seq<T>>::empty());
    assert(concat_all(Seq::<Seq<T>>::empty()) == Seq::<T>::empty());
    assert(Seq::<T>::empty() + s =~= s);
}

/// The number of missing entries in a sequence of optional values.
pub open spec fn count_none<T>(s: Seq<Option<T>>) -> int
    decreases s.len(),
{
    if s.len() == 0 {
        0
    } else {
        count_none(s.drop_last()) + if s.last() is None {
            1int
        } else {
            0int
        }
    }
}

pub proof fn lemma_count_none_bounds<T>(s: Seq<Option<T>>)
    ensures
        0 <= count_none(s) <= s.len(),
    decreases s.len(),
{
    if s.len() > 0 {
        lemma_count_none_bounds(s.drop_last());
    }
}

pub proof fn lemma_count_none_concat<T>(a: Seq<Option<T>>, b: Seq<Option<T>>)
    ensures
        count_none(a + b) == count_none(a) + count_none(b),
    decreases b.len(),
{
    if b.len() == 0 {
        assert(a + b =~= a);
    } else {
        assert((a + b).drop_last() =~= a + b.drop_last());
        assert((a + b).last() == b.last());
        lemma_count_none_concat(a, b.drop_last());
    }
}

/// A sequence in which every entry is present has no missing entries.
pub proof fn lemma_count_none_all_some<T>(s: Seq<Option<T>>)
    requires
        forall|i: int| 0 <= i < s.len() ==> s[i] is Some,
    ensures
        count_none(s) == 0,
    decreases s.len(),
{
    if s.len() > 0 {
        lemma_count_none_all_some(s.drop_last());
    }
}

/// Every value of the sequence wrapped as present.
pub open spec fn wrap_present<T>(s: Seq<T>) -> Seq<Option<T>> {
    s.map_values(|v: T| Some(v))
}

pub proof fn lemma_count_none_wrap_present<T>(s: Seq<T>)
    ensures
        count_none(wrap_present(s)) == 0,
{
    assert forall|i: int| 0 <= i < wrap_present(s).len() implies wrap_present(s)[i] is Some by {
        assert(wrap_present(s)[i] == Some(s[i]));
    }
    lemma_count_none_all_some(wrap_present(s));
}

} // verus!
