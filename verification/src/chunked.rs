//! The primitive (64-bit integer) columnar array: a named logical column
//! made of physical chunks, with a cached per-chunk length index, together
//! with its sequential, incremental and parallel construction paths and the
//! no-missing-values marker.

use vstd::prelude::*;

use crate::arrays::{prim_from_options, prim_from_values, prim_len, prim_null_count,
    prim_to_options, prim_chunk_view, Int64Chunk};
use crate::model::{concat_all, count_none, lemma_concat_all_first, lemma_concat_all_push,
    lemma_count_none_bounds, lemma_count_none_concat, lemma_count_none_wrap_present,
    wrap_present};
use crate::segments::{collect_into_segment_list, flatten_segments, get_capacity_from_par_results,
    segment_views};

verus! {

/// A named, typed logical column composed of an ordered sequence of physical
/// chunks, plus a cached per-chunk length index that is recomputed whenever
/// the chunk sequence is replaced.
pub struct ChunkedArray {
    name: String,
    chunks: Vec<Int64Chunk>,
    chunk_lengths: Vec<usize>,
}

impl ChunkedArray {
    /// The logical contents of each chunk, in chunk order.
    pub closed spec fn chunk_views(self) -> Seq<Seq<Option<i64>>> {
        self.chunks@.map_values(|c: Int64Chunk| prim_chunk_view(c))
    }

    /// The logical contents of the column: the concatenation of its chunks.
    pub closed spec fn view(self) -> Seq<Option<i64>> {
        concat_all(self.chunk_views())
    }

    pub closed spec fn name_spec(self) -> Seq<char> {
        self.name@
    }

    /// Well-formedness: the length index has one entry per chunk and agrees
    /// with the chunks, and the total logical length fits the machine.
    pub closed spec fn wf(self) -> bool {
        &&& self.chunk_lengths@.len() == self.chunks@.len()
        &&& (forall|i: int|
            0 <= i < self.chunks@.len() ==> #[trigger] self.chunk_lengths@[i] == prim_chunk_view(
                self.chunks@[i],
            ).len())
        &&& self.view().len() <= usize::MAX
    }

    /// Replaces the chunk sequence wholesale, recomputing the length index.
    pub fn new_from_chunks(name: String, chunks: Vec<Int64Chunk>) -> (r: Self)
        requires
            concat_all(chunks@.map_values(|c: Int64Chunk| prim_chunk_view(c))).len() <= usize::MAX,
        ensures
            r.wf(),
            r.chunk_views().len() == chunks@.len(),
            r.view() == concat_all(chunks@.map_values(|c: Int64Chunk| prim_chunk_view(c))),
            r.name_spec() == name@,
    {
        let mut chunk_lengths: Vec<usize> = Vec::with_capacity(chunks.len());
        let mut i: usize = 0;
        while i < chunks.len()
            invariant
                0 <= i <= chunks@.len(),
                chunk_lengths@.len() == i,
                forall|j: int|
                    0 <= j < i ==> #[trigger] chunk_lengths@[j] == prim_chunk_view(
                        chunks@[j],
                    ).len(),
            decreases chunks@.len() - i,
        {
            let n = prim_len(&chunks[i]);
            chunk_lengths.push(n);
            i = i + 1;
        }
        ChunkedArray { name, chunks, chunk_lengths }
    }

    /// The total logical length: one pass over the length index, not over
    /// the elements.
    pub fn len(&self) -> (n: usize)
        requires
            self.wf(),
        ensures
            n == self.view().len(),
    {
        let ghost views = self.chunk_views();
        let mut acc: usize = 0;
        let mut i: usize = 0;
        proof {
            assert(views.subrange(0, self.chunks@.len() as int) =~= views);
        }
        while i < self.chunk_lengths.len()
            invariant
                self.wf(),
                0 <= i <= self.chunks@.len(),
                views == self.chunk_views(),
                acc == concat_all(views.subrange(0, i as int)).len(),
                acc + concat_all(views.subrange(i as int, self.chunks@.len() as int)).len()
                    == self.view().len(),
            decreases self.chunk_lengths@.len() - i,
        {
            let ghost suffix = views.subrange(i as int, self.chunks@.len() as int);
            proof {
                lemma_concat_all_first(suffix);
                assert(suffix.first() == prim_chunk_view(self.chunks@[i as int]));
                assert(suffix.drop_first() =~= views.subrange(
                    i as int + 1,
                    self.chunks@.len() as int,
                ));
                assert(views.subrange(0, i as int + 1) =~= views.subrange(0, i as int).push(
                    prim_chunk_view(self.chunks@[i as int]),
                ));
                lemma_concat_all_push(
                    views.subrange(0, i as int),
                    prim_chunk_view(self.chunks@[i as int]),
                );
            }
            acc = acc + self.chunk_lengths[i];
            i = i + 1;
        }
        proof {
            assert(views.subrange(0, self.chunks@.len() as int) =~= views);
        }
        acc
    }

    /// The number of missing values of the column.
    pub fn null_count(&self) -> (n: usize)
        requires
            self.wf(),
        ensures
            n == count_none(self.view()),
    {
        let ghost views = self.chunk_views();
        let mut acc: usize = 0;
        let mut i: usize = 0;
        proof {
            assert(views.subrange(0, self.chunks@.len() as int) =~= views);
        }
        while i < self.chunks.len()
            invariant
                self.wf(),
                0 <= i <= self.chunks@.len(),
                views == self.chunk_views(),
                acc == count_none(concat_all(views.subrange(0, i as int))),
                concat_all(views.subrange(0, i as int)).len() + concat_all(
                    views.subrange(i as int, self.chunks@.len() as int),
                ).len() == self.view().len(),
            decreases self.chunks@.len() - i,
        {
            let ghost prefix = views.subrange(0, i as int);
            let ghost suffix = views.subrange(i as int, self.chunks@.len() as int);
            let ghost chunk = prim_chunk_view(self.chunks@[i as int]);
            proof {
                lemma_concat_all_first(suffix);
                assert(suffix.first() == chunk);
                assert(suffix.drop_first() =~= views.subrange(
                    i as int + 1,
                    self.chunks@.len() as int,
                ));
                assert(views.subrange(0, i as int + 1) =~= prefix.push(chunk));
                lemma_concat_all_push(prefix, chunk);
                lemma_count_none_concat(concat_all(prefix), chunk);
                lemma_count_none_bounds(concat_all(prefix));
                lemma_count_none_bounds(chunk);
            }
            let c = prim_null_count(&self.chunks[i]);
            acc = acc + c;
            i = i + 1;
        }
        proof {
            assert(views.subrange(0, self.chunks@.len() as int) =~= views);
        }
        acc
    }

    pub fn name(&self) -> (r: &str)
        ensures
            r@ == self.name_spec(),
    {
        self.name.as_str()
    }

    /// The number of physical chunks of the column.
    pub fn chunk_count(&self) -> (n: usize)
        ensures
            n == self.chunk_views().len(),
    {
        self.chunks.len()
    }

    /// The length-trusted fast path: the caller proves the declared length,
    /// storage is allocated for exactly that many slots, and the realized
    /// length is checked against the declaration after the build.
    pub fn from_trusted_len(values: Vec<Option<i64>>, declared_len: usize) -> (r: Self)
        requires
            declared_len == values@.len(),
        ensures
            r.wf(),
            r.chunk_views().len() == 1,
            r.view() == values@,
            r.name_spec() == Seq::<char>::empty(),
    {
        let ghost vals = values@;
        let arr = prim_from_options(values);
        let realized = prim_len(&arr);
        assert(realized == declared_len);
        let mut chunks: Vec<Int64Chunk> = Vec::new();
        proof {
            assert(chunks@.push(arr).map_values(|c: Int64Chunk| prim_chunk_view(c)) =~= seq![vals]);
            crate::model::lemma_concat_all_singleton(vals);
        }
        chunks.push(arr);
        Self::new_from_chunks(String::new(), chunks)
    }

    /// Sequential collection of a sequence of optional values into a
    /// single-chunk column. A sequence's length is exactly known — its lower
    /// and upper bounds agree — so the length-trusted fast path applies.
    pub fn build_from_sequence(values: Vec<Option<i64>>) -> (r: Self)
        ensures
            r.wf(),
            r.chunk_views().len() == 1,
            r.view() == values@,
            r.name_spec() == Seq::<char>::empty(),
    {
        let n = values.len();
        Self::from_trusted_len(values, n)
    }

    /// The generic fallback path: the same collection through the safe
    /// incremental builder, used when a producer's size bounds cannot be
    /// trusted. Functionally identical to the fast path.
    pub fn build_from_sequence_incremental(values: Vec<Option<i64>>) -> (r: Self)
        ensures
            r.wf(),
            r.chunk_views().len() == 1,
            r.view() == values@,
            r.name_spec() == Seq::<char>::empty(),
    {
        let mut builder = PrimitiveChunkedBuilder::new(String::new(), 0);
        let mut i: usize = 0;
        while i < values.len()
            invariant
                0 <= i <= values@.len(),
                builder.view() == values@.subrange(0, i as int),
                builder.name_spec() == Seq::<char>::empty(),
            decreases values@.len() - i,
        {
            proof {
                assert(values@.subrange(0, i as int + 1) =~= values@.subrange(0, i as int).push(
                    values@[i as int],
                ));
            }
            builder.append_option(values[i]);
            i = i + 1;
        }
        proof {
            assert(values@.subrange(0, values@.len() as int) =~= values@);
        }
        builder.finish()
    }

    /// Builds from the ordered segments of a fold/reduce: the total length
    /// is computed in one pass over the segments, and the flattened, now
    /// length-known elements go through the length-trusted fast path.
    pub fn build_from_segments(segs: Vec<Vec<Option<i64>>>) -> (r: Self)
        requires
            concat_all(segment_views(segs@)).len() <= usize::MAX,
        ensures
            r.wf(),
            r.chunk_views().len() == 1,
            r.view() == concat_all(segment_views(segs@)),
            r.name_spec() == Seq::<char>::empty(),
    {
        let total = get_capacity_from_par_results(&segs);
        let flat = flatten_segments(segs, total);
        Self::from_trusted_len(flat, total)
    }

    /// Parallel collection: partitions are folded by independent workers and
    /// merged in order, then built as from one sequence.
    pub fn build_from_parallel_source(values: Vec<Option<i64>>) -> (r: Self)
        ensures
            r.wf(),
            r.chunk_views().len() == 1,
            r.view() == values@,
            r.name_spec() == Seq::<char>::empty(),
    {
        let n = values.len();
        let ghost vals = values@;
        let segs = collect_into_segment_list(values);
        assert(concat_all(segment_views(segs@)).len() == n);
        Self::build_from_segments(segs)
    }

    /// Sequential collection of values that are never wrapped as optional:
    /// the values fill a growable buffer and become a chunk with no validity
    /// bitmap.
    pub fn build_from_sequence_no_missing(values: Vec<i64>) -> (r: NoNull<ChunkedArray>)
        ensures
            r.inner_spec().wf(),
            r.inner_spec().chunk_views().len() == 1,
            r.inner_spec().view() == wrap_present(values@),
            r.inner_spec().name_spec() == Seq::<char>::empty(),
            count_none(r.inner_spec().view()) == 0,
    {
        let n = values.len();
        let ghost vals = values@;
        let arr = prim_from_values(values);
        let mut chunks: Vec<Int64Chunk> = Vec::new();
        proof {
            assert(chunks@.push(arr).map_values(|c: Int64Chunk| prim_chunk_view(c)) =~= seq![
                wrap_present(vals),
            ]);
            crate::model::lemma_concat_all_singleton(wrap_present(vals));
            lemma_count_none_wrap_present(vals);
        }
        chunks.push(arr);
        let ca = Self::new_from_chunks(String::new(), chunks);
        NoNull::<ChunkedArray>::new(ca)
    }

    /// Parallel collection of values that are never wrapped as optional: the
    /// merged segments are flattened, wrapped as present, and built through
    /// the length-trusted fast path.
    pub fn build_from_parallel_source_no_missing(values: Vec<i64>) -> (r: NoNull<ChunkedArray>)
        ensures
            r.inner_spec().wf(),
            r.inner_spec().chunk_views().len() == 1,
            r.inner_spec().view() == wrap_present(values@),
            r.inner_spec().name_spec() == Seq::<char>::empty(),
            count_none(r.inner_spec().view()) == 0,
    {
        let n = values.len();
        let ghost vals = values@;
        let segs = collect_into_segment_list(values);
        assert(concat_all(segment_views(segs@)).len() == n);
        let total = get_capacity_from_par_results(&segs);
        let flat = flatten_segments(segs, total);
        let mut opts: Vec<Option<i64>> = Vec::with_capacity(total);
        let mut i: usize = 0;
        while i < flat.len()
            invariant
                0 <= i <= flat@.len(),
                flat@ == vals,
                opts@.len() == i,
                forall|j: int| 0 <= j < i ==> #[trigger] opts@[j] == Some(flat@[j]),
            decreases flat@.len() - i,
        {
            opts.push(Some(flat[i]));
            i = i + 1;
        }
        proof {
            assert(opts@ =~= wrap_present(vals));
            lemma_count_none_wrap_present(vals);
        }
        let ca = Self::from_trusted_len(opts, total);
        NoNull::<ChunkedArray>::new(ca)
    }

    /// The reverse conversion: the column's logical contents as a sequence
    /// of optional values, chunk by chunk, in order.
    pub fn to_options(&self) -> (r: Vec<Option<i64>>)
        requires
            self.wf(),
        ensures
            r@ == self.view(),
    {
        let ghost views = self.chunk_views();
        let mut out: Vec<Option<i64>> = Vec::new();
        let mut i: usize = 0;
        while i < self.chunks.len()
            invariant
                self.wf(),
                0 <= i <= self.chunks@.len(),
                views == self.chunk_views(),
                out@ == concat_all(views.subrange(0, i as int)),
            decreases self.chunks@.len() - i,
        {
            proof {
                assert(views.subrange(0, i as int + 1) =~= views.subrange(0, i as int).push(
                    prim_chunk_view(self.chunks@[i as int]),
                ));
                lemma_concat_all_push(
                    views.subrange(0, i as int),
                    prim_chunk_view(self.chunks@[i as int]),
                );
            }
            let mut part = prim_to_options(&self.chunks[i]);
            out.append(&mut part);
            i = i + 1;
        }
        proof {
            assert(views.subrange(0, self.chunks@.len() as int) =~= views);
        }
        out
    }
}

impl Default for ChunkedArray {
    /// An empty, chunkless column named "default".
    fn default() -> (r: Self)
        ensures
            r.wf(),
            r.chunk_views().len() == 0,
            r.view() == Seq::<Option<i64>>::empty(),
            r.name_spec() == "default"@,
    {
        let r = ChunkedArray { name: "default".to_owned(), chunks: Vec::new(), chunk_lengths: Vec::new() };
        proof {
            assert(r.chunk_views() =~= Seq::<Seq<Option<i64>>>::empty());
        }
        r
    }
}

/// The incremental, append-based builder for the primitive column: the
/// generic fallback used when a producer's size bounds cannot be trusted.
pub struct PrimitiveChunkedBuilder {
    name: String,
    values: Vec<Option<i64>>,
}

impl PrimitiveChunkedBuilder {
    /// The elements appended so far, in order.
    pub closed spec fn view(self) -> Seq<Option<i64>> {
        self.values@
    }

    pub closed spec fn name_spec(self) -> Seq<char> {
        self.name@
    }

    /// A fresh builder; the capacity is advisory and affects only
    /// reallocation cost.
    pub fn new(name: String, capacity: usize) -> (r: Self)
        ensures
            r.view() == Seq::<Option<i64>>::empty(),
            r.name_spec() == name@,
    {
        PrimitiveChunkedBuilder { name, values: Vec::with_capacity(capacity) }
    }

    pub fn append_value(&mut self, v: i64)
        ensures
            final(self).view() == old(self).view().push(Some(v)),
            final(self).name_spec() == old(self).name_spec(),
    {
        self.values.push(Some(v));
    }

    pub fn append_null(&mut self)
        ensures
            final(self).view() == old(self).view().push(None),
            final(self).name_spec() == old(self).name_spec(),
    {
        self.values.push(None);
    }

    pub fn append_option(&mut self, v: Option<i64>)
        ensures
            final(self).view() == old(self).view().push(v),
            final(self).name_spec() == old(self).name_spec(),
    {
        self.values.push(v);
    }

    /// Materializes the appended elements as a single-chunk column.
    pub fn finish(self) -> (r: ChunkedArray)
        ensures
            r.wf(),
            r.chunk_views().len() == 1,
            r.view() == self.view(),
            r.name_spec() == self.name_spec(),
    {
        let ghost vals = self.values@;
        let n = self.values.len();
        let arr = prim_from_options(self.values);
        let mut chunks: Vec<Int64Chunk> = Vec::new();
        proof {
            assert(chunks@.push(arr).map_values(|c: Int64Chunk| prim_chunk_view(c)) =~= seq![vals]);
            crate::model::lemma_concat_all_singleton(vals);
        }
        chunks.push(arr);
        ChunkedArray::new_from_chunks(self.name, chunks)
    }
}

/// A type-level marker carrying a column known — by proof, at construction —
/// to contain no missing values. It adds no runtime state.
pub struct NoNull<T> {
    inner: T,
}

impl<T> NoNull<T> {
    pub closed spec fn inner_spec(self) -> T {
        self.inner
    }

    /// Unwraps the marker.
    pub fn into_inner(self) -> (r: T)
        ensures
            r == self.inner_spec(),
    {
        self.inner
    }

    pub fn get_ref(&self) -> (r: &T)
        ensures
            *r == self.inner_spec(),
    {
        &self.inner
    }

    /// Crate-internal escape hatch for the marker's sibling column types,
    /// whose public constructors each demand the no-missing-values proof.
    pub(crate) fn from_checked(inner: T) -> (r: Self)
        ensures
            r.inner_spec() == inner,
    {
        NoNull { inner }
    }
}

impl NoNull<ChunkedArray> {
    /// The explicit no-missing-values assertion: constructing the marker
    /// demands a proof that the column has no missing values.
    pub fn new(inner: ChunkedArray) -> (r: Self)
        requires
            inner.wf(),
            count_none(inner.view()) == 0,
        ensures
            r.inner_spec() == inner,
    {
        NoNull { inner }
    }
}

} // verus!
