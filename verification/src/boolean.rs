//! The boolean columnar array. Boolean storage is validity-bitmap-based
//! regardless of nullability, so collection always wraps each value as
//! present; the parallel path unpacks the merged segments into the
//! incremental builder single-threaded.

use vstd::prelude::*;

use arrow::array::BooleanArray;

use crate::arrays::{bool_chunk_view, bool_from_options, bool_len, bool_null_count,
    bool_to_options};
use crate::chunked::NoNull;
use crate::model::{concat_all, count_none, lemma_concat_all_push, lemma_concat_all_singleton,
    lemma_count_none_wrap_present, wrap_present};
use crate::segments::{collect_into_segment_list, get_capacity_from_par_results, segment_views};

verus! {

/// A named boolean logical column composed of an ordered sequence of
/// physical chunks, with a cached per-chunk length index.
pub struct BooleanChunked {
    name: String,
    chunks: Vec<BooleanArray>,
    chunk_lengths: Vec<usize>,
}

impl BooleanChunked {
    pub closed spec fn chunk_views(self) -> Seq<Seq<Option<bool>>> {
        self.chunks@.map_values(|c: BooleanArray| bool_chunk_view(c))
    }

    /// The logical contents of the column: the concatenation of its chunks.
    pub closed spec fn view(self) -> Seq<Option<bool>> {
        concat_all(self.chunk_views())
    }

    pub closed spec fn name_spec(self) -> Seq<char> {
        self.name@
    }

    /// Well-formedness: the length index agrees with the chunks and the
    /// total logical length fits the machine.
    pub closed spec fn wf(self) -> bool {
        &&& self.chunk_lengths@.len() == self.chunks@.len()
        &&& (forall|i: int|
            0 <= i < self.chunks@.len() ==> #[trigger] self.chunk_lengths@[i] == bool_chunk_view(
                self.chunks@[i],
            ).len())
        &&& self.view().len() <= usize::MAX
    }

    /// Builds the single-chunk column holding exactly the given optional
    /// values.
    pub fn build_from_sequence(values: Vec<Option<bool>>) -> (r: Self)
        ensures
            r.wf(),
            r.chunk_views().len() == 1,
            r.view() == values@,
            r.name_spec() == Seq::<char>::empty(),
    {
        let ghost vals = values@;
        let arr = bool_from_options(values);
        let len = bool_len(&arr);
        let mut chunks: Vec<BooleanArray> = Vec::new();
        proof {
            assert(chunks@.push(arr).map_values(|c: BooleanArray| bool_chunk_view(c)) =~= seq![
                vals,
            ]);
            lemma_concat_all_singleton(vals);
        }
        chunks.push(arr);
        let mut chunk_lengths: Vec<usize> = Vec::new();
        chunk_lengths.push(len);
        BooleanChunked { name: String::new(), chunks, chunk_lengths }
    }

    /// Sequential collection of plain boolean values: each value is wrapped
    /// as present before construction.
    pub fn build_from_values(values: Vec<bool>) -> (r: Self)
        ensures
            r.wf(),
            r.chunk_views().len() == 1,
            r.view() == wrap_present(values@),
            r.name_spec() == Seq::<char>::empty(),
            count_none(r.view()) == 0,
    {
        let ghost vals = values@;
        let mut opts: Vec<Option<bool>> = Vec::with_capacity(values.len());
        let mut i: usize = 0;
        while i < values.len()
            invariant
                0 <= i <= values@.len(),
                values@ == vals,
                opts@.len() == i,
                forall|j: int| 0 <= j < i ==> #[trigger] opts@[j] == Some(vals[j]),
            decreases values@.len() - i,
        {
            opts.push(Some(values[i]));
            i = i + 1;
        }
        proof {
            assert(opts@ =~= wrap_present(vals));
            lemma_count_none_wrap_present(vals);
        }
        Self::build_from_sequence(opts)
    }

    /// Sequential collection of plain boolean values under the
    /// no-missing-values marker.
    pub fn build_from_values_no_missing(values: Vec<bool>) -> (r: NoNull<BooleanChunked>)
        ensures
            r.inner_spec().wf(),
            r.inner_spec().chunk_views().len() == 1,
            r.inner_spec().view() == wrap_present(values@),
            r.inner_spec().name_spec() == Seq::<char>::empty(),
            count_none(r.inner_spec().view()) == 0,
    {
        let ca = Self::build_from_values(values);
        NoNull::<BooleanChunked>::new(ca)
    }

    /// Parallel collection: partitions are folded by independent workers,
    /// merged in order, and the merged segments are unpacked into the
    /// incremental builder single-threaded.
    pub fn build_from_parallel_source(values: Vec<bool>) -> (r: Self)
        ensures
            r.wf(),
            r.chunk_views().len() == 1,
            r.view() == wrap_present(values@),
            r.name_spec() == Seq::<char>::empty(),
            count_none(r.view()) == 0,
    {
        let n = values.len();
        let ghost vals = values@;
        let segs = collect_into_segment_list(values);
        let ghost views = segment_views(segs@);
        assert(concat_all(views).len() == n);
        let capacity = get_capacity_from_par_results(&segs);
        let mut builder = BooleanChunkedBuilder::new(String::new(), capacity);
        let mut i: usize = 0;
        proof {
            assert(views.subrange(0, 0) =~= Seq::<Seq<bool>>::empty());
            assert(wrap_present(concat_all(views.subrange(0, 0))) =~= Seq::<Option<bool>>::empty());
        }
        while i < segs.len()
            invariant
                0 <= i <= segs@.len(),
                views == segment_views(segs@),
                builder.view() == wrap_present(concat_all(views.subrange(0, i as int))),
                builder.name_spec() == Seq::<char>::empty(),
            decreases segs@.len() - i,
        {
            let ghost base = concat_all(views.subrange(0, i as int));
            let seg = &segs[i];
            let mut j: usize = 0;
            proof {
                assert(base + seg@.subrange(0, 0) =~= base);
            }
            while j < seg.len()
                invariant
                    0 <= j <= seg@.len(),
                    seg@ == segs@[i as int]@,
                    builder.view() == wrap_present(base + seg@.subrange(0, j as int)),
                    builder.name_spec() == Seq::<char>::empty(),
                decreases seg@.len() - j,
            {
                proof {
                    assert(base + seg@.subrange(0, j as int + 1) =~= (base + seg@.subrange(
                        0,
                        j as int,
                    )).push(seg@[j as int]));
                    assert(wrap_present((base + seg@.subrange(0, j as int)).push(seg@[j as int]))
                        =~= wrap_present(base + seg@.subrange(0, j as int)).push(
                        Some(seg@[j as int]),
                    ));
                }
                builder.append_value(seg[j]);
                j = j + 1;
            }
            proof {
                assert(base + seg@.subrange(0, seg@.len() as int) =~= base + seg@);
                assert(views.subrange(0, i as int + 1) =~= views.subrange(0, i as int).push(seg@));
                lemma_concat_all_push(views.subrange(0, i as int), seg@);
            }
            i = i + 1;
        }
        proof {
            assert(views.subrange(0, segs@.len() as int) =~= views);
            lemma_count_none_wrap_present(vals);
        }
        builder.finish()
    }

    /// The reverse conversion: the column's logical contents as a sequence
    /// of optional values, chunk by chunk, in order.
    pub fn to_options(&self) -> (r: Vec<Option<bool>>)
        requires
            self.wf(),
        ensures
            r@ == self.view(),
    {
        let ghost views = self.chunk_views();
        let mut out: Vec<Option<bool>> = Vec::new();
        let mut i: usize = 0;
        proof {
            assert(views.subrange(0, 0) =~= Seq::<Seq<Option<bool>>>::empty());
        }
        while i < self.chunks.len()
            invariant
                self.wf(),
                0 <= i <= self.chunks@.len(),
                views == self.chunk_views(),
                out@ == concat_all(views.subrange(0, i as int)),
            decreases self.chunks@.len() - i,
        {
            proof {
                assert(views.subrange(0, i as int + 1) =~= views.subrange(0, i as int).push(
                    bool_chunk_view(self.chunks@[i as int]),
                ));
                lemma_concat_all_push(
                    views.subrange(0, i as int),
                    bool_chunk_view(self.chunks@[i as int]),
                );
            }
            let mut part = bool_to_options(&self.chunks[i]);
            out.append(&mut part);
            i = i + 1;
        }
        proof {
            assert(views.subrange(0, self.chunks@.len() as int) =~= views);
        }
        out
    }

    /// The total logical length.
    pub fn len(&self) -> (n: usize)
        requires
            self.wf(),
        ensures
            n == self.view().len(),
    {
        let ghost views = self.chunk_views();
        let mut acc: usize = 0;
        let mut i: usize = 0;
        proof {
            assert(views.subrange(0, self.chunks@.len() as int) =~= views);
        }
        while i < self.chunk_lengths.len()
            invariant
                self.wf(),
                0 <= i <= self.chunks@.len(),
                views == self.chunk_views(),
                acc == concat_all(views.subrange(0, i as int)).len(),
                acc + concat_all(views.subrange(i as int, self.chunks@.len() as int)).len()
                    == self.view().len(),
            decreases self.chunk_lengths@.len() - i,
        {
            let ghost suffix = views.subrange(i as int, self.chunks@.len() as int);
            proof {
                crate::model::lemma_concat_all_first(suffix);
                assert(suffix.first() == bool_chunk_view(self.chunks@[i as int]));
                assert(suffix.drop_first() =~= views.subrange(
                    i as int + 1,
                    self.chunks@.len() as int,
                ));
                assert(views.subrange(0, i as int + 1) =~= views.subrange(0, i as int).push(
                    bool_chunk_view(self.chunks@[i as int]),
                ));
                lemma_concat_all_push(
                    views.subrange(0, i as int),
                    bool_chunk_view(self.chunks@[i as int]),
                );
            }
            acc = acc + self.chunk_lengths[i];
            i = i + 1;
        }
        proof {
            assert(views.subrange(0, self.chunks@.len() as int) =~= views);
        }
        acc
    }

    /// The number of missing values of the column.
    pub fn null_count(&self) -> (n: usize)
        requires
            self.wf(),
        ensures
            n == count_none(self.view()),
    {
        let ghost views = self.chunk_views();
        let mut acc: usize = 0;
        let mut i: usize = 0;
        proof {
            assert(views.subrange(0, self.chunks@.len() as int) =~= views);
        }
        while i < self.chunks.len()
            invariant
                self.wf(),
                0 <= i <= self.chunks@.len(),
                views == self.chunk_views(),
                acc == count_none(concat_all(views.subrange(0, i as int))),
                concat_all(views.subrange(0, i as int)).len() + concat_all(
                    views.subrange(i as int, self.chunks@.len() as int),
                ).len() == self.view().len(),
            decreases self.chunks@.len() - i,
        {
            let ghost prefix = views.subrange(0, i as int);
            let ghost suffix = views.subrange(i as int, self.chunks@.len() as int);
            let ghost chunk = bool_chunk_view(self.chunks@[i as int]);
            proof {
                crate::model::lemma_concat_all_first(suffix);
                assert(suffix.first() == chunk);
                assert(suffix.drop_first() =~= views.subrange(
                    i as int + 1,
                    self.chunks@.len() as int,
                ));
                assert(views.subrange(0, i as int + 1) =~= prefix.push(chunk));
                lemma_concat_all_push(prefix, chunk);
                crate::model::lemma_count_none_concat(concat_all(prefix), chunk);
                crate::model::lemma_count_none_bounds(concat_all(prefix));
                crate::model::lemma_count_none_bounds(chunk);
            }
            let c = bool_null_count(&self.chunks[i]);
            acc = acc + c;
            i = i + 1;
        }
        proof {
            assert(views.subrange(0, self.chunks@.len() as int) =~= views);
        }
        acc
    }

    pub fn name(&self) -> (r: &str)
        ensures
            r@ == self.name_spec(),
    {
        self.name.as_str()
    }

    /// The number of physical chunks of the column.
    pub fn chunk_count(&self) -> (n: usize)
        ensures
            n == self.chunk_views().len(),
    {
        self.chunks.len()
    }
}

impl NoNull<BooleanChunked> {
    /// The explicit no-missing-values assertion for a boolean column.
    pub fn new(inner: BooleanChunked) -> (r: Self)
        requires
            inner.wf(),
            count_none(inner.view()) == 0,
        ensures
            r.inner_spec() == inner,
    {
        Self::from_checked(inner)
    }
}

/// The incremental, append-based builder for the boolean column.
pub struct BooleanChunkedBuilder {
    name: String,
    values: Vec<Option<bool>>,
}

impl BooleanChunkedBuilder {
    /// The elements appended so far, in order.
    pub closed spec fn view(self) -> Seq<Option<bool>> {
        self.values@
    }

    pub closed spec fn name_spec(self) -> Seq<char> {
        self.name@
    }

    /// A fresh builder; the capacity is advisory and affects only
    /// reallocation cost.
    pub fn new(name: String, capacity: usize) -> (r: Self)
        ensures
            r.view() == Seq::<Option<bool>>::empty(),
            r.name_spec() == name@,
    {
        BooleanChunkedBuilder { name, values: Vec::with_capacity(capacity) }
    }

    pub fn append_value(&mut self, v: bool)
        ensures
            final(self).view() == old(self).view().push(Some(v)),
            final(self).name_spec() == old(self).name_spec(),
    {
        self.values.push(Some(v));
    }

    pub fn append_null(&mut self)
        ensures
            final(self).view() == old(self).view().push(None),
            final(self).name_spec() == old(self).name_spec(),
    {
        self.values.push(None);
    }

    /// Materializes the appended elements as a single-chunk column.
    pub fn finish(self) -> (r: BooleanChunked)
        ensures
            r.wf(),
            r.chunk_views().len() == 1,
            r.view() == self.view(),
            r.name_spec() == self.name_spec(),
    {
        let ghost vals = self.values@;
        let arr = bool_from_options(self.values);
        let len = bool_len(&arr);
        let mut chunks: Vec<BooleanArray> = Vec::new();
        proof {
            assert(chunks@.push(arr).map_values(|c: BooleanArray| bool_chunk_view(c)) =~= seq![
                vals,
            ]);
            lemma_concat_all_singleton(vals);
        }
        chunks.push(arr);
        let mut chunk_lengths: Vec<usize> = Vec::new();
        chunk_lengths.push(len);
        BooleanChunked { name: self.name, chunks, chunk_lengths }
    }
}

} // verus!
