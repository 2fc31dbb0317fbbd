//! The library's laws: properties that hold across construction paths,
//! stated as proof functions over the contracts of the public entry points.
//! `call_ensures(f, args, out)` holds exactly of the argument/result pairs
//! that `f`'s contract admits, so each law covers every result the named
//! functions can produce.

use vstd::prelude::*;

use crate::boolean::BooleanChunked;
use crate::chunked::ChunkedArray;
use crate::model::{concat_all, wrap_present};
use crate::segments::segment_views;
use crate::utf8::Utf8Chunked;

verus! {

/// Fast path and fallback path are functionally identical: for one input
/// sequence, any column the length-trusted path admits and any column the
/// incremental path admits have the same logical contents.
pub proof fn lemma_fast_fallback_agree(
    values: Vec<Option<i64>>,
    declared_len: usize,
    fast: ChunkedArray,
    fallback: ChunkedArray,
)
    requires
        call_ensures(ChunkedArray::from_trusted_len, (values, declared_len), fast),
        call_ensures(ChunkedArray::build_from_sequence_incremental, (values,), fallback),
    ensures
        fast.view() == fallback.view(),
{
}

/// Parallel construction is order-preserving: building from any contiguous
/// partitioning of a sequence into segments yields the same logical
/// contents as building from the sequence itself, whatever the partition
/// count and boundaries.
pub proof fn lemma_partitioned_matches_sequential(
    segs: Vec<Vec<Option<i64>>>,
    values: Vec<Option<i64>>,
    parted: ChunkedArray,
    direct: ChunkedArray,
)
    requires
        concat_all(segment_views(segs@)) == values@,
        call_ensures(ChunkedArray::build_from_segments, (segs,), parted),
        call_ensures(ChunkedArray::build_from_sequence, (values,), direct),
    ensures
        parted.view() == direct.view(),
{
}

/// The parallel entry point itself agrees with sequential collection on
/// every input.
pub proof fn lemma_parallel_matches_sequential(
    values: Vec<Option<i64>>,
    parallel: ChunkedArray,
    direct: ChunkedArray,
)
    requires
        call_ensures(ChunkedArray::build_from_parallel_source, (values,), parallel),
        call_ensures(ChunkedArray::build_from_sequence, (values,), direct),
    ensures
        parallel.view() == direct.view(),
{
}

/// Round trip for the primitive column: converting a column back to a
/// sequence of optional values and re-collecting it reproduces the
/// column's logical contents exactly.
pub proof fn lemma_round_trip(ca: ChunkedArray, opts: Vec<Option<i64>>, rebuilt: ChunkedArray)
    requires
        ca.wf(),
        opts@ == ca.view(),
        call_ensures(ChunkedArray::build_from_sequence, (opts,), rebuilt),
    ensures
        rebuilt.view() == ca.view(),
{
}

/// Round trip for the boolean column.
pub proof fn lemma_round_trip_boolean(
    ca: BooleanChunked,
    opts: Vec<Option<bool>>,
    rebuilt: BooleanChunked,
)
    requires
        ca.wf(),
        opts@ == ca.view(),
        call_ensures(BooleanChunked::build_from_sequence, (opts,), rebuilt),
    ensures
        rebuilt.view() == ca.view(),
{
}

/// Round trip for the string column: re-collecting the read-back optional
/// strings reproduces the column's logical contents.
pub proof fn lemma_round_trip_utf8(
    ca: Utf8Chunked,
    opts: Vec<Option<String>>,
    rebuilt: Utf8Chunked,
)
    requires
        ca.wf(),
        opts@.map_values(|o: Option<String>| crate::arrays::opt_str_view(o)) == ca.view(),
        call_ensures(Utf8Chunked::build_from_sequence, (opts,), rebuilt),
    ensures
        rebuilt.view() == ca.view(),
{
}

/// The two boolean construction routes are functionally identical: wrapping
/// plain values as present and collecting them as optionals yield the same
/// logical contents.
pub proof fn lemma_value_and_optional_paths_agree_boolean(
    values: Vec<bool>,
    opts: Vec<Option<bool>>,
    direct: BooleanChunked,
    optional: BooleanChunked,
)
    requires
        opts@ == wrap_present(values@),
        call_ensures(BooleanChunked::build_from_values, (values,), direct),
        call_ensures(BooleanChunked::build_from_sequence, (opts,), optional),
    ensures
        direct.view() == optional.view(),
{
}

/// The two string construction routes are functionally identical: wrapping
/// plain strings as present and collecting them as optionals yield the same
/// logical contents.
pub proof fn lemma_value_and_optional_paths_agree_utf8(
    values: Vec<String>,
    opts: Vec<Option<String>>,
    direct: Utf8Chunked,
    optional: Utf8Chunked,
)
    requires
        opts@ == wrap_present(values@),
        call_ensures(Utf8Chunked::build_from_values, (values,), direct),
        call_ensures(Utf8Chunked::build_from_sequence, (opts,), optional),
    ensures
        direct.view() == optional.view(),
{
    assert(opts@.map_values(|o: Option<String>| crate::arrays::opt_str_view(o)) =~= values@
        .map_values(|s: String| Some(s@)));
}

/// Boolean parallel collection agrees with sequential collection on every
/// input.
pub proof fn lemma_parallel_matches_sequential_boolean(
    values: Vec<bool>,
    parallel: BooleanChunked,
    direct: BooleanChunked,
)
    requires
        call_ensures(BooleanChunked::build_from_parallel_source, (values,), parallel),
        call_ensures(BooleanChunked::build_from_values, (values,), direct),
    ensures
        parallel.view() == direct.view(),
{
}

/// String parallel collection agrees with sequential collection on every
/// input.
pub proof fn lemma_parallel_matches_sequential_utf8(
    values: Vec<String>,
    parallel: Utf8Chunked,
    direct: Utf8Chunked,
)
    requires
        call_ensures(Utf8Chunked::build_from_parallel_source, (values,), parallel),
        call_ensures(Utf8Chunked::build_from_values, (values,), direct),
    ensures
        parallel.view() == direct.view(),
{
}

/// Collection realizes its input exactly: any column that sequential
/// collection admits for a sequence has that sequence's length, is missing
/// at an index exactly where the sequence is, and carries the sequence's
/// value everywhere else.
pub proof fn lemma_sequential_realizes_input(values: Vec<Option<i64>>, ca: ChunkedArray)
    requires
        call_ensures(ChunkedArray::build_from_sequence, (values,), ca),
    ensures
        ca.view().len() == values@.len(),
        forall|i: int| 0 <= i < values@.len() ==> ca.view()[i] == values@[i],
{
}

/// A no-missing-values column realizes its values in order with nothing
/// missing.
pub proof fn lemma_no_missing_realizes_input(
    values: Vec<i64>,
    r: crate::chunked::NoNull<ChunkedArray>,
)
    requires
        call_ensures(ChunkedArray::build_from_sequence_no_missing, (values,), r),
    ensures
        r.inner_spec().view() == wrap_present(values@),
        crate::model::count_none(r.inner_spec().view()) == 0,
{
}

} // verus!
