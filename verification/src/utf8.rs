//! The variable-length string columnar array. The physical builder computes
//! byte offsets and validity in one pass over the values, so collection
//! needs no intermediate generic builder; the parallel path flattens the
//! merged segments and hands them to the same one-pass construction.

use vstd::prelude::*;

use crate::arrays::{char_budget, char_total, opt_str_view, str_chunk_view, str_from_options,
    str_from_values, str_len, str_null_count, str_to_options, StringChunk};
use crate::model::{concat_all, count_none, lemma_concat_all_push, lemma_concat_all_singleton,
    lemma_count_none_all_some, wrap_present};
use crate::segments::{collect_into_segment_list, flatten_segments, get_capacity_from_par_results,
    segment_views};

verus! {

/// A named string logical column composed of an ordered sequence of
/// physical chunks, with a cached per-chunk length index.
pub struct Utf8Chunked {
    name: String,
    chunks: Vec<StringChunk>,
    chunk_lengths: Vec<usize>,
}

impl Utf8Chunked {
    pub closed spec fn chunk_views(self) -> Seq<Seq<Option<Seq<char>>>> {
        self.chunks@.map_values(|c: StringChunk| str_chunk_view(c))
    }

    /// The logical contents of the column: the concatenation of its chunks.
    pub closed spec fn view(self) -> Seq<Option<Seq<char>>> {
        concat_all(self.chunk_views())
    }

    pub closed spec fn name_spec(self) -> Seq<char> {
        self.name@
    }

    /// Well-formedness: the length index agrees with the chunks and the
    /// total logical length fits the machine.
    pub closed spec fn wf(self) -> bool {
        &&& self.chunk_lengths@.len() == self.chunks@.len()
        &&& (forall|i: int|
            0 <= i < self.chunks@.len() ==> #[trigger] self.chunk_lengths@[i] == str_chunk_view(
                self.chunks@[i],
            ).len())
        &&& self.view().len() <= usize::MAX
    }

    /// Sequential collection of optional string values in one pass. The
    /// character budget keeps the physical byte offsets from overflowing.
    pub fn build_from_sequence(values: Vec<Option<String>>) -> (r: Self)
        requires
            char_total(values@) <= char_budget(),
        ensures
            r.wf(),
            r.chunk_views().len() == 1,
            r.view() == values@.map_values(|o: Option<String>| opt_str_view(o)),
            r.name_spec() == Seq::<char>::empty(),
    {
        let ghost vals = values@.map_values(|o: Option<String>| opt_str_view(o));
        let arr = str_from_options(values);
        Self::from_single_chunk(arr)
    }

    /// Sequential collection of string values that are never wrapped as
    /// optional: the result has no missing values.
    pub fn build_from_values(values: Vec<String>) -> (r: Self)
        requires
            char_total(wrap_present(values@)) <= char_budget(),
        ensures
            r.wf(),
            r.chunk_views().len() == 1,
            r.view() == values@.map_values(|s: String| Some(s@)),
            r.name_spec() == Seq::<char>::empty(),
            count_none(r.view()) == 0,
    {
        let ghost vals = values@.map_values(|s: String| Some(s@));
        let arr = str_from_values(values);
        proof {
            assert forall|i: int| 0 <= i < vals.len() implies vals[i] is Some by {
                assert(vals[i] == Some(values@[i]@));
            }
            lemma_count_none_all_some(vals);
        }
        Self::from_single_chunk(arr)
    }

    /// Wraps one freshly built physical chunk as a column.
    fn from_single_chunk(arr: StringChunk) -> (r: Self)
        ensures
            r.wf(),
            r.chunk_views().len() == 1,
            r.view() == str_chunk_view(arr),
            r.name_spec() == Seq::<char>::empty(),
    {
        let ghost vals = str_chunk_view(arr);
        let len = str_len(&arr);
        let mut chunks: Vec<StringChunk> = Vec::new();
        proof {
            assert(chunks@.push(arr).map_values(|c: StringChunk| str_chunk_view(c)) =~= seq![
                vals,
            ]);
            lemma_concat_all_singleton(vals);
        }
        chunks.push(arr);
        let mut chunk_lengths: Vec<usize> = Vec::new();
        chunk_lengths.push(len);
        Utf8Chunked { name: String::new(), chunks, chunk_lengths }
    }

    /// Parallel collection of string values: the merged segments are
    /// flattened in order and handed to the one-pass construction.
    pub fn build_from_parallel_source(values: Vec<String>) -> (r: Self)
        requires
            char_total(wrap_present(values@)) <= char_budget(),
        ensures
            r.wf(),
            r.chunk_views().len() == 1,
            r.view() == values@.map_values(|s: String| Some(s@)),
            r.name_spec() == Seq::<char>::empty(),
            count_none(r.view()) == 0,
    {
        let n = values.len();
        let ghost vals = values@;
        let segs = collect_into_segment_list(values);
        assert(concat_all(segment_views(segs@)).len() == n);
        let total = get_capacity_from_par_results(&segs);
        let flat = flatten_segments(segs, total);
        assert(flat@ == vals);
        Self::build_from_values(flat)
    }

    /// Parallel collection of optional string values.
    pub fn build_from_parallel_source_options(values: Vec<Option<String>>) -> (r: Self)
        requires
            char_total(values@) <= char_budget(),
        ensures
            r.wf(),
            r.chunk_views().len() == 1,
            r.view() == values@.map_values(|o: Option<String>| opt_str_view(o)),
            r.name_spec() == Seq::<char>::empty(),
    {
        let n = values.len();
        let ghost vals = values@;
        let segs = collect_into_segment_list(values);
        assert(concat_all(segment_views(segs@)).len() == n);
        let total = get_capacity_from_par_results(&segs);
        let flat = flatten_segments(segs, total);
        assert(flat@ == vals);
        Self::build_from_sequence(flat)
    }

    /// The reverse conversion: the column's logical contents as a sequence
    /// of optional strings, chunk by chunk, in order.
    pub fn to_options(&self) -> (r: Vec<Option<String>>)
        requires
            self.wf(),
        ensures
            r@.map_values(|o: Option<String>| opt_str_view(o)) == self.view(),
    {
        let ghost views = self.chunk_views();
        let mut out: Vec<Option<String>> = Vec::new();
        let mut i: usize = 0;
        proof {
            assert(out@.map_values(|o: Option<String>| opt_str_view(o)) =~= concat_all(
                views.subrange(0, 0),
            ));
        }
        while i < self.chunks.len()
            invariant
                self.wf(),
                0 <= i <= self.chunks@.len(),
                views == self.chunk_views(),
                out@.map_values(|o: Option<String>| opt_str_view(o)) == concat_all(
                    views.subrange(0, i as int),
                ),
            decreases self.chunks@.len() - i,
        {
            let ghost chunk = str_chunk_view(self.chunks@[i as int]);
            let ghost before = out@;
            proof {
                assert(views.subrange(0, i as int + 1) =~= views.subrange(0, i as int).push(chunk));
                lemma_concat_all_push(views.subrange(0, i as int), chunk);
            }
            let mut part = str_to_options(&self.chunks[i]);
            let ghost part_view = part@;
            out.append(&mut part);
            proof {
                assert(out@.map_values(|o: Option<String>| opt_str_view(o)) =~= before.map_values(
                    |o: Option<String>| opt_str_view(o),
                ) + part_view.map_values(|o: Option<String>| opt_str_view(o)));
            }
            i = i + 1;
        }
        proof {
            assert(views.subrange(0, self.chunks@.len() as int) =~= views);
        }
        out
    }

    /// The total logical length.
    pub fn len(&self) -> (n: usize)
        requires
            self.wf(),
        ensures
            n == self.view().len(),
    {
        let ghost views = self.chunk_views();
        let mut acc: usize = 0;
        let mut i: usize = 0;
        proof {
            assert(views.subrange(0, self.chunks@.len() as int) =~= views);
        }
        while i < self.chunk_lengths.len()
            invariant
                self.wf(),
                0 <= i <= self.chunks@.len(),
                views == self.chunk_views(),
                acc == concat_all(views.subrange(0, i as int)).len(),
                acc + concat_all(views.subrange(i as int, self.chunks@.len() as int)).len()
                    == self.view().len(),
            decreases self.chunk_lengths@.len() - i,
        {
            let ghost suffix = views.subrange(i as int, self.chunks@.len() as int);
            proof {
                crate::model::lemma_concat_all_first(suffix);
                assert(suffix.first() == str_chunk_view(self.chunks@[i as int]));
                assert(suffix.drop_first() =~= views.subrange(
                    i as int + 1,
                    self.chunks@.len() as int,
                ));
                assert(views.subrange(0, i as int + 1) =~= views.subrange(0, i as int).push(
                    str_chunk_view(self.chunks@[i as int]),
                ));
                lemma_concat_all_push(
                    views.subrange(0, i as int),
                    str_chunk_view(self.chunks@[i as int]),
                );
            }
            acc = acc + self.chunk_lengths[i];
            i = i + 1;
        }
        proof {
            assert(views.subrange(0, self.chunks@.len() as int) =~= views);
        }
        acc
    }

    /// The number of missing values of the column.
    pub fn null_count(&self) -> (n: usize)
        requires
            self.wf(),
        ensures
            n == count_none(self.view()),
    {
        let ghost views = self.chunk_views();
        let mut acc: usize = 0;
        let mut i: usize = 0;
        proof {
            assert(views.subrange(0, self.chunks@.len() as int) =~= views);
        }
        while i < self.chunks.len()
            invariant
                self.wf(),
                0 <= i <= self.chunks@.len(),
                views == self.chunk_views(),
                acc == count_none(concat_all(views.subrange(0, i as int))),
                concat_all(views.subrange(0, i as int)).len() + concat_all(
                    views.subrange(i as int, self.chunks@.len() as int),
                ).len() == self.view().len(),
            decreases self.chunks@.len() - i,
        {
            let ghost prefix = views.subrange(0, i as int);
            let ghost suffix = views.subrange(i as int, self.chunks@.len() as int);
            let ghost chunk = str_chunk_view(self.chunks@[i as int]);
            proof {
                crate::model::lemma_concat_all_first(suffix);
                assert(suffix.first() == chunk);
                assert(suffix.drop_first() =~= views.subrange(
                    i as int + 1,
                    self.chunks@.len() as int,
                ));
                assert(views.subrange(0, i as int + 1) =~= prefix.push(chunk));
                lemma_concat_all_push(prefix, chunk);
                crate::model::lemma_count_none_concat(concat_all(prefix), chunk);
                crate::model::lemma_count_none_bounds(concat_all(prefix));
                crate::model::lemma_count_none_bounds(chunk);
            }
            let c = str_null_count(&self.chunks[i]);
            acc = acc + c;
            i = i + 1;
        }
        proof {
            assert(views.subrange(0, self.chunks@.len() as int) =~= views);
        }
        acc
    }

    pub fn name(&self) -> (r: &str)
        ensures
            r@ == self.name_spec(),
    {
        self.name.as_str()
    }

    /// The number of physical chunks of the column.
    pub fn chunk_count(&self) -> (n: usize)
        ensures
            n == self.chunk_views().len(),
    {
        self.chunks.len()
    }
}

} // verus!
