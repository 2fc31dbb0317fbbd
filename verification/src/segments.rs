//! The parallel collection machinery: each worker folds its partition into a
//! private buffer, buffers are wrapped as single-segment groups, and groups
//! are merged pairwise by relinking segments, never by copying elements. The
//! merged segment list is then measured in one pass over the segments and
//! flattened into the single final buffer.

use vstd::prelude::*;

use rayon::iter::{IntoParallelIterator, ParallelIterator};

use crate::model::{concat_all, lemma_concat_all_first, lemma_concat_all_push};

verus! {

/// The flat sequence that a segment list stands for.
pub open spec fn segment_views<T>(segs: Seq<Vec<T>>) -> Seq<Seq<T>> {
    segs.map_values(|s: Vec<T>| s@)
}

/// Appends one element to a worker's private buffer and hands the buffer
/// back.
pub fn vec_push<T>(vec: Vec<T>, elem: T) -> (r: Vec<T>)
    ensures
        r@ == vec@.push(elem),
{
    let mut vec = vec;
    vec.push(elem);
    vec
}

/// A fresh private buffer: the identity of the fold phase.
pub fn new_buffer<T>() -> (r: Vec<T>)
    ensures
        r@ == Seq::<T>::empty(),
{
    Vec::new()
}

/// Wraps one folded buffer as a group holding a single segment.
pub fn as_list<T>(item: Vec<T>) -> (r: Vec<Vec<T>>)
    ensures
        r@ == seq![item],
{
    let mut list = Vec::new();
    list.push(item);
    list
}

/// A group with no segments: the identity of the reduce phase.
pub fn new_list<T>() -> (r: Vec<Vec<T>>)
    ensures
        r@ == Seq::<Vec<T>>::empty(),
{
    Vec::new()
}

/// Order-preserving merge of two groups: the second group's segments are
/// relinked after the first's; no element is copied.
pub fn list_append<T>(list1: Vec<Vec<T>>, list2: Vec<Vec<T>>) -> (r: Vec<Vec<T>>)
    ensures
        r@ == list1@ + list2@,
{
    let mut list1 = list1;
    let mut list2 = list2;
    list1.append(&mut list2);
    list1
}

/// Relies on rayon's `fold`, `map` and `reduce` over an indexed parallel
/// iterator: each worker folds a contiguous partition into a buffer in index
/// order, and the pairwise reduction combines neighbouring groups left to
/// right, so the segments concatenate back to the input sequence. This is
/// the pattern rayon itself uses to collect a parallel iterator in order.
#[verifier::external_body]
pub(crate) fn collect_into_segment_list<T: Send>(values: Vec<T>) -> (r: Vec<Vec<T>>)
    ensures
        concat_all(segment_views(r@)) == values@,
{
    values.into_par_iter().fold(new_buffer, vec_push).map(as_list).reduce(
        new_list,
        list_append,
    )
}

/// Sums the segment lengths of a merged segment list: a single pass over the
/// top-level structure, not over the elements.
pub fn get_capacity_from_par_results<T>(segs: &Vec<Vec<T>>) -> (n: usize)
    requires
        concat_all(segment_views(segs@)).len() <= usize::MAX,
    ensures
        n == concat_all(segment_views(segs@)).len(),
{
    let ghost total = concat_all(segment_views(segs@));
    let mut acc: usize = 0;
    let mut i: usize = 0;
    proof {
        assert(segment_views(segs@).subrange(0, segs@.len() as int) =~= segment_views(segs@));
    }
    while i < segs.len()
        invariant
            0 <= i <= segs@.len(),
            concat_all(segment_views(segs@)).len() <= usize::MAX,
            acc == concat_all(segment_views(segs@).subrange(0, i as int)).len(),
            acc + concat_all(segment_views(segs@).subrange(i as int, segs@.len() as int)).len()
                == concat_all(segment_views(segs@)).len(),
        decreases segs@.len() - i,
    {
        let ghost views = segment_views(segs@);
        let ghost suffix = views.subrange(i as int, segs@.len() as int);
        proof {
            lemma_concat_all_first(suffix);
            assert(suffix.first() == segs@[i as int]@);
            assert(suffix.drop_first() =~= views.subrange(i as int + 1, segs@.len() as int));
            assert(views.subrange(0, i as int + 1) =~= views.subrange(0, i as int).push(
                segs@[i as int]@,
            ));
            lemma_concat_all_push(views.subrange(0, i as int), segs@[i as int]@);
        }
        let n_i = segs[i].len();
        acc = acc + n_i;
        i = i + 1;
    }
    proof {
        assert(segment_views(segs@).subrange(0, segs@.len() as int) =~= segment_views(segs@));
    }
    acc
}

/// Flattens a merged segment list into one buffer of exactly the declared
/// total length: elements are moved segment by segment, in order.
pub fn flatten_segments<T>(segs: Vec<Vec<T>>, total: usize) -> (r: Vec<T>)
    requires
        total == concat_all(segment_views(segs@)).len(),
    ensures
        r@ == concat_all(segment_views(segs@)),
{
    let ghost all = concat_all(segment_views(segs@));
    let mut segs = segs;
    let mut out: Vec<T> = Vec::with_capacity(total);
    while segs.len() > 0
        invariant
            out@ + concat_all(segment_views(segs@)) == all,
        decreases segs@.len(),
    {
        let ghost views = segment_views(segs@);
        proof {
            lemma_concat_all_first(views);
        }
        let mut seg = segs.remove(0);
        proof {
            assert(seg@ == views.first());
            assert(segment_views(segs@) =~= views.drop_first());
            assert((out@ + (seg@ + concat_all(views.drop_first()))) =~= (out@ + seg@)
                + concat_all(views.drop_first()));
        }
        out.append(&mut seg);
    }
    proof {
        assert(concat_all(segment_views(segs@)) == Seq::<T>::empty());
        assert(out@ + Seq::<T>::empty() =~= out@);
    }
    out
}

} // verus!
