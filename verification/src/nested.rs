//! Nested (list) collection: a sequence of optional sub-columns becomes one
//! list-typed column. The element type is not known until the first present
//! sub-column is observed; leading missing entries are counted, then
//! materialized once the type is fixed. A source with no present element
//! leaves the element type undetermined, a recoverable error.

use vstd::prelude::*;

use crate::model::count_none;
use crate::series::{opt_series_view, DataType, Series, SeriesContent};

verus! {

/// The recoverable errors of collection.
#[derive(Clone, Copy, Debug, PartialEq, Eq, Structural)]
pub enum CollectError {
    /// Nested collection exhausted its source with no present element, so
    /// the element type could not be determined.
    ElementTypeUndetermined,
}

/// A named list-typed logical column: each element is itself a sub-column
/// of the fixed element type, or missing.
pub struct ListChunked {
    name: String,
    dtype: DataType,
    items: Vec<Option<Series>>,
}

impl ListChunked {
    /// The logical contents of the column: for each slot, the contents of
    /// its sub-column, or nothing.
    pub closed spec fn view(self) -> Seq<Option<SeriesContent>> {
        self.items@.map_values(|o: Option<Series>| opt_series_view(o))
    }

    pub closed spec fn items_spec(self) -> Seq<Option<Series>> {
        self.items@
    }

    /// The fixed element type of the column.
    pub closed spec fn dtype_spec(self) -> DataType {
        self.dtype
    }

    pub closed spec fn name_spec(self) -> Seq<char> {
        self.name@
    }

    /// Well-formedness: every present element is itself well-formed and has
    /// the column's element type.
    pub closed spec fn wf(self) -> bool {
        forall|k: int|
            0 <= k < self.items@.len() ==> ((#[trigger] self.items@[k]) matches Some(s)
                ==> s.wf() && s.dtype_spec() == self.dtype)
    }

    /// The number of list elements.
    pub fn len(&self) -> (n: usize)
        ensures
            n == self.view().len(),
    {
        self.items.len()
    }

    /// The number of missing list elements.
    pub fn null_count(&self) -> (n: usize)
        ensures
            n == count_none(self.view()),
    {
        let ghost view = self.view();
        let mut acc: usize = 0;
        let mut i: usize = 0;
        proof {
            assert(view.subrange(0, 0) =~= Seq::<Option<SeriesContent>>::empty());
        }
        while i < self.items.len()
            invariant
                0 <= i <= self.items@.len(),
                view == self.view(),
                view.len() == self.items@.len(),
                acc == count_none(view.subrange(0, i as int)),
            decreases self.items@.len() - i,
        {
            let ghost prefix = view.subrange(0, i as int);
            proof {
                crate::model::lemma_count_none_bounds(prefix);
                assert(view.subrange(0, i as int + 1) =~= prefix.push(view[i as int]));
                assert(prefix.push(view[i as int]).drop_last() =~= prefix);
                assert(view[i as int] == opt_series_view(self.items@[i as int]));
            }
            if self.items[i].is_none() {
                acc = acc + 1;
            }
            i = i + 1;
        }
        proof {
            assert(view.subrange(0, self.items@.len() as int) =~= view);
        }
        acc
    }

    /// The element at a slot, by reference.
    pub fn element_at(&self, index: usize) -> (r: &Option<Series>)
        requires
            index < self.view().len(),
        ensures
            opt_series_view(*r) == self.view()[index as int],
            self.wf() ==> ((*r) matches Some(s) ==> s.wf() && s.dtype_spec()
                == self.dtype_spec()),
    {
        &self.items[index]
    }

    pub fn dtype(&self) -> (d: DataType)
        ensures
            d == self.dtype_spec(),
    {
        self.dtype
    }

    pub fn name(&self) -> (r: &str)
        ensures
            r@ == self.name_spec(),
    {
        self.name.as_str()
    }
}

/// The append-based builder for a list column whose element type has been
/// fixed. Both capacities are advisory and affect only reallocation cost.
pub struct ListBuilder {
    name: String,
    dtype: DataType,
    items: Vec<Option<Series>>,
}

/// A fresh list builder for the given element type. The value capacity — an
/// estimate of the total number of nested values — is advisory, as is the
/// list capacity.
pub fn get_list_builder(dtype: DataType, value_capacity: usize, list_capacity: usize, name: String)
    -> (r: ListBuilder)
    ensures
        r.items_spec() == Seq::<Option<Series>>::empty(),
        r.dtype_spec() == dtype,
        r.name_spec() == name@,
{
    let _ = value_capacity;
    ListBuilder { name, dtype, items: Vec::with_capacity(list_capacity) }
}

impl ListBuilder {
    pub closed spec fn items_spec(self) -> Seq<Option<Series>> {
        self.items@
    }

    pub closed spec fn dtype_spec(self) -> DataType {
        self.dtype
    }

    pub closed spec fn name_spec(self) -> Seq<char> {
        self.name@
    }

    /// Well-formedness: every appended present element is well-formed and
    /// of the fixed element type.
    pub open spec fn wf(self) -> bool {
        forall|k: int|
            0 <= k < self.items_spec().len() ==> ((#[trigger] self.items_spec()[k]) matches Some(s)
                ==> s.wf() && s.dtype_spec() == self.dtype_spec())
    }

    /// Appends one present sub-column.
    pub fn append_series(&mut self, s: Series)
        requires
            s.wf(),
            s.dtype_spec() == old(self).dtype_spec(),
        ensures
            final(self).items_spec() == old(self).items_spec().push(Some(s)),
            final(self).dtype_spec() == old(self).dtype_spec(),
            final(self).name_spec() == old(self).name_spec(),
    {
        self.items.push(Some(s));
    }

    /// Appends one missing marker.
    pub fn append_null(&mut self)
        ensures
            final(self).items_spec() == old(self).items_spec().push(None),
            final(self).dtype_spec() == old(self).dtype_spec(),
            final(self).name_spec() == old(self).name_spec(),
    {
        self.items.push(None);
    }

    /// Appends an optional sub-column.
    pub fn append_opt_series(&mut self, s: Option<Series>)
        requires
            s matches Some(x) ==> x.wf() && x.dtype_spec() == old(self).dtype_spec(),
        ensures
            final(self).items_spec() == old(self).items_spec().push(s),
            final(self).dtype_spec() == old(self).dtype_spec(),
            final(self).name_spec() == old(self).name_spec(),
    {
        self.items.push(s);
    }

    /// Materializes the appended elements as a list column.
    pub fn finish(self) -> (r: ListChunked)
        requires
            self.wf(),
        ensures
            r.wf(),
            r.view() == self.items_spec().map_values(|o: Option<Series>| opt_series_view(o)),
            r.items_spec() == self.items_spec(),
            r.dtype_spec() == self.dtype_spec(),
            r.name_spec() == self.name_spec(),
    {
        ListChunked { name: self.name, dtype: self.dtype, items: self.items }
    }
}

/// Nested collection of a sequence of present sub-columns. The element type
/// is fixed from the first sub-column; a source with zero (present)
/// elements yields the ambiguous-type error.
pub fn build_from_series(values: Vec<Series>) -> (r: Result<ListChunked, CollectError>)
    requires
        forall|i: int| 0 <= i < values@.len() ==> (#[trigger] values@[i]).wf(),
        forall|i: int, j: int|
            #![trigger values@[i], values@[j]]
            0 <= i < values@.len() && 0 <= j < values@.len() ==> values@[i].dtype_spec()
                == values@[j].dtype_spec(),
    ensures
        r matches Ok(lc) ==> {
            &&& lc.wf()
            &&& lc.view() == values@.map_values(|s: Series| Some(s.view()))
            &&& lc.dtype_spec() == values@[0].dtype_spec()
            &&& lc.name_spec() == "collected"@
            &&& count_none(lc.view()) == 0
        },
        (r is Err) <==> values@.len() == 0,
        r matches Err(e) ==> e == CollectError::ElementTypeUndetermined,
{
    let ghost all = values@;
    let mut vals = values;
    if vals.len() == 0 {
        // the source is exhausted: the element type cannot be determined
        return Err(CollectError::ElementTypeUndetermined);
    }
    // the first element fixes the element type
    let v = vals.remove(0);
    proof {
        assert(vals@ =~= all.drop_first());
    }
    let capacity = vals.len();
    let value_capacity = if capacity <= usize::MAX / 5 {
        capacity * 5
    } else {
        capacity
    };
    let dt = v.dtype();
    let mut builder = get_list_builder(dt, value_capacity, capacity, "collected".to_owned());
    builder.append_series(v);
    proof {
        assert(builder.items_spec() =~= all.subrange(0, 1).map_values(|s: Series| Some(s)));
    }
    while vals.len() > 0
        invariant
            vals@.len() <= all.len(),
            vals@ == all.subrange(all.len() - vals@.len(), all.len() as int),
            builder.items_spec() == all.subrange(0, all.len() - vals@.len()).map_values(
                |s: Series| Some(s),
            ),
            builder.dtype_spec() == all[0].dtype_spec(),
            builder.name_spec() == "collected"@,
            forall|i: int| 0 <= i < all.len() ==> (#[trigger] all[i]).wf(),
            forall|i: int, j: int|
                #![trigger all[i], all[j]]
                0 <= i < all.len() && 0 <= j < all.len() ==> all[i].dtype_spec()
                    == all[j].dtype_spec(),
        decreases vals@.len(),
    {
        let ghost consumed = all.len() - vals@.len();
        let s = vals.remove(0);
        proof {
            assert(s == all[consumed as int]);
            assert(vals@ =~= all.subrange(consumed as int + 1, all.len() as int));
            assert(all.subrange(0, consumed as int + 1).map_values(|x: Series| Some(x))
                =~= all.subrange(0, consumed as int).map_values(|x: Series| Some(x)).push(
                Some(all[consumed as int]),
            ));
        }
        builder.append_series(s);
    }
    proof {
        assert(all.subrange(0, all.len() as int) =~= all);
        assert forall|k: int| 0 <= k < builder.items_spec().len() implies ((
        #[trigger] builder.items_spec()[k]) matches Some(s) ==> s.wf() && s.dtype_spec()
            == builder.dtype_spec()) by {
            assert(builder.items_spec()[k] == Some(all[k]));
        }
    }
    let r = builder.finish();
    proof {
        assert(r.view() =~= all.map_values(|s: Series| Some(s.view())));
        assert forall|k: int| 0 <= k < r.view().len() implies r.view()[k] is Some by {
            assert(r.view()[k] == Some(all[k].view()));
        }
        crate::model::lemma_count_none_all_some(r.view());
    }
    Ok(r)
}

/// Nested collection of a sequence of optional sub-columns: leading missing
/// entries are counted until the first present sub-column fixes the element
/// type, then materialized, and the remainder is appended in order. A
/// source with no present element yields the ambiguous-type error.
pub fn build_nested_from_sequence(values: Vec<Option<Series>>) -> (r: Result<
    ListChunked,
    CollectError,
>)
    requires
        forall|i: int|
            0 <= i < values@.len() ==> ((#[trigger] values@[i]) matches Some(s) ==> s.wf()),
        forall|i: int, j: int|
            #![trigger values@[i], values@[j]]
            0 <= i < values@.len() && 0 <= j < values@.len() && values@[i] is Some
                && values@[j] is Some ==> values@[i].unwrap().dtype_spec()
                == values@[j].unwrap().dtype_spec(),
    ensures
        r matches Ok(lc) ==> {
            &&& lc.wf()
            &&& lc.view() == values@.map_values(|o: Option<Series>| opt_series_view(o))
            &&& lc.name_spec() == "collected"@
            &&& forall|k: int|
                0 <= k < values@.len() && (#[trigger] values@[k]) is Some ==> lc.dtype_spec()
                    == values@[k].unwrap().dtype_spec()
        },
        (r is Err) <==> (forall|k: int| 0 <= k < values@.len() ==> (#[trigger] values@[k]) is None),
        r matches Err(e) ==> e == CollectError::ElementTypeUndetermined,
{
    let ghost all = values@;
    let total = values.len();
    let mut vals = values;
    let mut cnt: usize = 0;
    // scan for the first present element, counting leading missing entries
    while vals.len() > 0 && vals[0].is_none()
        invariant
            cnt + vals@.len() == all.len(),
            all.len() == total,
            vals@ == all.subrange(cnt as int, all.len() as int),
            forall|k: int| 0 <= k < cnt ==> (#[trigger] all[k]) is None,
        decreases vals@.len(),
    {
        let _dropped = vals.remove(0);
        proof {
            assert(vals@ =~= all.subrange(cnt as int + 1, all.len() as int));
        }
        cnt = cnt + 1;
    }
    if vals.len() == 0 {
        // the source is exhausted: the element type cannot be determined
        return Err(CollectError::ElementTypeUndetermined);
    }
    let first_opt = vals.remove(0);
    proof {
        assert(first_opt == all[cnt as int]);
        assert(vals@ =~= all.subrange(cnt as int + 1, all.len() as int));
    }
    let first_s = first_opt.unwrap();
    let capacity = vals.len();
    let value_capacity = if capacity <= usize::MAX / 5 {
        capacity * 5
    } else {
        capacity
    };
    let dt = first_s.dtype();
    let mut builder = get_list_builder(dt, value_capacity, capacity, "collected".to_owned());
    // materialize the counted leading missing entries
    let mut remaining = cnt;
    while remaining > 0
        invariant
            remaining <= cnt,
            builder.items_spec().len() == cnt - remaining,
            forall|k: int|
                0 <= k < cnt - remaining ==> (#[trigger] builder.items_spec()[k]) is None,
            builder.dtype_spec() == first_s.dtype_spec(),
            builder.name_spec() == "collected"@,
        decreases remaining,
    {
        builder.append_opt_series(None);
        remaining = remaining - 1;
    }
    proof {
        assert(builder.items_spec() =~= all.subrange(0, cnt as int));
    }
    // the first present element
    builder.append_series(first_s);
    proof {
        assert(Some(first_s) == all[cnt as int]);
        assert(builder.items_spec() =~= all.subrange(0, cnt as int + 1));
    }
    // append the remainder in order
    while vals.len() > 0
        invariant
            vals@.len() + cnt + 1 <= all.len() + cnt + 1,
            vals@.len() <= all.len(),
            vals@ == all.subrange(all.len() - vals@.len(), all.len() as int),
            builder.items_spec() == all.subrange(0, all.len() - vals@.len()),
            builder.dtype_spec() == first_s.dtype_spec(),
            builder.name_spec() == "collected"@,
            Some(first_s) == all[cnt as int],
            cnt < all.len(),
            forall|i: int|
                0 <= i < all.len() ==> ((#[trigger] all[i]) matches Some(s) ==> s.wf()),
            forall|i: int, j: int|
                #![trigger all[i], all[j]]
                0 <= i < all.len() && 0 <= j < all.len() && all[i] is Some && all[j] is Some
                    ==> all[i].unwrap().dtype_spec() == all[j].unwrap().dtype_spec(),
        decreases vals@.len(),
    {
        let ghost consumed = all.len() - vals@.len();
        let s = vals.remove(0);
        proof {
            assert(s == all[consumed as int]);
            assert(vals@ =~= all.subrange(consumed as int + 1, all.len() as int));
        }
        match s {
            Some(x) => {
                proof {
                    assert(all[consumed as int] is Some && all[cnt as int] is Some);
                    assert(x.dtype_spec() == first_s.dtype_spec());
                }
                builder.append_series(x);
            },
            None => {
                builder.append_null();
            },
        }
        proof {
            assert(builder.items_spec() =~= all.subrange(0, consumed as int + 1));
        }
    }
    proof {
        assert(all.subrange(0, all.len() as int) =~= all);
        assert forall|k: int| 0 <= k < builder.items_spec().len() implies ((
        #[trigger] builder.items_spec()[k]) matches Some(s) ==> s.wf() && s.dtype_spec()
            == builder.dtype_spec()) by {
            assert(builder.items_spec()[k] == all[k]);
            if all[k] is Some {
                assert(all[k] is Some && all[cnt as int] is Some);
            }
        }
    }
    let r = builder.finish();
    proof {
        assert(all[cnt as int] is Some);
        assert forall|k: int|
            0 <= k < all.len() && (#[trigger] all[k]) is Some implies r.dtype_spec()
            == all[k].unwrap().dtype_spec() by {
            assert(all[k] is Some && all[cnt as int] is Some);
        }
    }
    Ok(r)
}

} // verus!
