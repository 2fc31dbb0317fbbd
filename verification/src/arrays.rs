//! The trusted boundary to the physical array collaborator (the `arrow`
//! crate): opaque declarations of the physical array types, one name for the
//! logical contents of each, and thin wrappers around the construction and
//! read-back calls that the collection logic relies on.
//!
//! The logical contents of a physical array are its elements in order, each
//! either present with its value or missing (null in the validity model).

use vstd::prelude::*;

use arrow::array::{Array, BooleanArray, LargeStringArray, PrimitiveArray};
use arrow::datatypes::Int64Type;

use crate::model::count_none;

verus! {

#[verifier::external_type_specification]
#[verifier::external_body]
pub struct ExBooleanArray(BooleanArray);

/// A primitive (64-bit integer) physical chunk. The arrow array it holds is
/// generic over an arrow type-marker trait, which keeps it from being
/// declared to the verifier directly; it is held opaquely instead.
#[verifier::external_body]
pub struct Int64Chunk {
    arr: PrimitiveArray<Int64Type>,
}

/// A variable-length string physical chunk, held opaquely for the same
/// reason as `Int64Chunk`.
#[verifier::external_body]
pub struct StringChunk {
    arr: LargeStringArray,
}

/// The logical contents of a primitive (64-bit integer) physical chunk.
pub uninterp spec fn prim_chunk_view(a: Int64Chunk) -> Seq<Option<i64>>;

/// The logical contents of a boolean physical array.
pub uninterp spec fn bool_chunk_view(a: BooleanArray) -> Seq<Option<bool>>;

/// The logical contents of a variable-length string physical chunk.
pub uninterp spec fn str_chunk_view(a: StringChunk) -> Seq<Option<Seq<char>>>;

/// Relies on arrow's `FromIterator` for `PrimitiveArray`: element `i` of the
/// result is null exactly when input element `i` is `None`, and carries its
/// value otherwise.
#[verifier::external_body]
pub(crate) fn prim_from_options(values: Vec<Option<i64>>) -> (a: Int64Chunk)
    ensures
        prim_chunk_view(a) == values@,
{
    Int64Chunk { arr: values.into_iter().collect() }
}

/// Relies on `PrimitiveArray::from_iter_values`: the result holds the given
/// values with no validity bitmap, so every element is present.
#[verifier::external_body]
pub(crate) fn prim_from_values(values: Vec<i64>) -> (a: Int64Chunk)
    ensures
        prim_chunk_view(a) == crate::model::wrap_present(values@),
{
    Int64Chunk { arr: PrimitiveArray::from_iter_values(values) }
}

/// Relies on `Array::len`: the number of elements of the array.
#[verifier::external_body]
pub(crate) fn prim_len(a: &Int64Chunk) -> (n: usize)
    ensures
        n == prim_chunk_view(*a).len(),
{
    a.arr.len()
}

/// Relies on `Array::null_count`: the number of null elements of the array.
#[verifier::external_body]
pub(crate) fn prim_null_count(a: &Int64Chunk) -> (n: usize)
    ensures
        n == count_none(prim_chunk_view(*a)),
{
    a.arr.null_count()
}

/// Relies on `PrimitiveArray::iter`: yields `None` for each null slot and
/// `Some` of the value for each valid slot, in order.
#[verifier::external_body]
pub(crate) fn prim_to_options(a: &Int64Chunk) -> (r: Vec<Option<i64>>)
    ensures
        r@ == prim_chunk_view(*a),
{
    a.arr.iter().collect()
}

/// Relies on arrow's `FromIterator` for `BooleanArray`: element `i` of the
/// result is null exactly when input element `i` is `None`, and carries its
/// value otherwise.
#[verifier::external_body]
pub(crate) fn bool_from_options(values: Vec<Option<bool>>) -> (a: BooleanArray)
    ensures
        bool_chunk_view(a) == values@,
{
    values.into_iter().collect()
}

/// Relies on `Array::len`: the number of elements of the array.
#[verifier::external_body]
pub(crate) fn bool_len(a: &BooleanArray) -> (n: usize)
    ensures
        n == bool_chunk_view(*a).len(),
{
    a.len()
}

/// Relies on `Array::null_count`: the number of null elements of the array.
#[verifier::external_body]
pub(crate) fn bool_null_count(a: &BooleanArray) -> (n: usize)
    ensures
        n == count_none(bool_chunk_view(*a)),
{
    a.null_count()
}

/// Relies on `BooleanArray::iter`: yields `None` for each null slot and
/// `Some` of the value for each valid slot, in order.
#[verifier::external_body]
pub(crate) fn bool_to_options(a: &BooleanArray) -> (r: Vec<Option<bool>>)
    ensures
        r@ == bool_chunk_view(*a),
{
    a.iter().collect()
}

/// The view of an optional string value.
pub open spec fn opt_str_view(o: Option<String>) -> Option<Seq<char>> {
    match o {
        Some(s) => Some(s@),
        None => None,
    }
}

/// The total number of characters of the present strings of a sequence.
pub open spec fn char_total(s: Seq<Option<String>>) -> int
    decreases s.len(),
{
    if s.len() == 0 {
        0
    } else {
        char_total(s.drop_last()) + match s.last() {
            Some(v) => v@.len() as int,
            None => 0int,
        }
    }
}

/// A character total under which a large-string array cannot overflow its
/// 64-bit byte offsets: a UTF-8 encoded character occupies at most four
/// bytes, so this bound keeps the byte total within `i64::MAX`.
pub open spec fn char_budget() -> int {
    0x1fff_ffff_ffff_ffff
}

/// Relies on arrow's `FromIterator` for `GenericByteArray`: element `i` of
/// the result is null exactly when input element `i` is `None`, and carries
/// its characters otherwise. The construction panics only if the byte total
/// overflows the 64-bit offsets, which the character budget rules out.
#[verifier::external_body]
pub(crate) fn str_from_options(values: Vec<Option<String>>) -> (a: StringChunk)
    requires
        char_total(values@) <= char_budget(),
    ensures
        str_chunk_view(a) == values@.map_values(|o: Option<String>| opt_str_view(o)),
{
    StringChunk { arr: values.into_iter().collect() }
}

/// Relies on `GenericByteArray::from_iter_values`: the result holds the given
/// strings with no validity bitmap, so every element is present. The
/// construction panics only if the byte total overflows the 64-bit offsets,
/// which the character budget rules out.
#[verifier::external_body]
pub(crate) fn str_from_values(values: Vec<String>) -> (a: StringChunk)
    requires
        char_total(crate::model::wrap_present(values@)) <= char_budget(),
    ensures
        str_chunk_view(a) == values@.map_values(|s: String| Some(s@)),
{
    StringChunk { arr: LargeStringArray::from_iter_values(values) }
}

/// Relies on `Array::len`: the number of elements of the array.
#[verifier::external_body]
pub(crate) fn str_len(a: &StringChunk) -> (n: usize)
    ensures
        n == str_chunk_view(*a).len(),
{
    a.arr.len()
}

/// Relies on `Array::null_count`: the number of null elements of the array.
#[verifier::external_body]
pub(crate) fn str_null_count(a: &StringChunk) -> (n: usize)
    ensures
        n == count_none(str_chunk_view(*a)),
{
    a.arr.null_count()
}

/// Relies on `GenericByteArray::iter`: yields `None` for each null slot and
/// `Some` of the string for each valid slot, in order.
#[verifier::external_body]
pub(crate) fn str_to_options(a: &StringChunk) -> (r: Vec<Option<String>>)
    ensures
        r@.map_values(|o: Option<String>| opt_str_view(o)) == str_chunk_view(*a),
{
    a.arr.iter().map(|o| o.map(|s| s.to_owned())).collect()
}

} // verus!
