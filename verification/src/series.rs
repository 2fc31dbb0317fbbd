//! A series: one logical sub-column of any supported element type, as
//! handed to nested (list) collection. Its type is queried to fix a list
//! column's element type.

use vstd::prelude::*;

use crate::boolean::BooleanChunked;
use crate::chunked::ChunkedArray;
use crate::utf8::Utf8Chunked;

verus! {

/// The logical element type of a series.
#[derive(Clone, Copy, Debug, PartialEq, Eq, Structural)]
pub enum DataType {
    Int64,
    Boolean,
    Utf8,
}

/// One logical sub-column.
pub enum Series {
    Int64(ChunkedArray),
    Boolean(BooleanChunked),
    Utf8(Utf8Chunked),
}

/// The logical contents of a series: its element type together with its
/// elements in order, each present or missing.
pub enum SeriesContent {
    Int64(Seq<Option<i64>>),
    Boolean(Seq<Option<bool>>),
    Utf8(Seq<Option<Seq<char>>>),
}

impl Series {
    pub open spec fn dtype_spec(self) -> DataType {
        match self {
            Series::Int64(_) => DataType::Int64,
            Series::Boolean(_) => DataType::Boolean,
            Series::Utf8(_) => DataType::Utf8,
        }
    }

    pub open spec fn wf(self) -> bool {
        match self {
            Series::Int64(ca) => ca.wf(),
            Series::Boolean(ca) => ca.wf(),
            Series::Utf8(ca) => ca.wf(),
        }
    }

    /// The logical contents of the series.
    pub open spec fn view(self) -> SeriesContent {
        match self {
            Series::Int64(ca) => SeriesContent::Int64(ca.view()),
            Series::Boolean(ca) => SeriesContent::Boolean(ca.view()),
            Series::Utf8(ca) => SeriesContent::Utf8(ca.view()),
        }
    }

    /// The element type, used to fix a list column's element type.
    pub fn dtype(&self) -> (d: DataType)
        ensures
            d == self.dtype_spec(),
    {
        match self {
            Series::Int64(_) => DataType::Int64,
            Series::Boolean(_) => DataType::Boolean,
            Series::Utf8(_) => DataType::Utf8,
        }
    }
}

/// The logical contents of an optional series.
pub open spec fn opt_series_view(o: Option<Series>) -> Option<SeriesContent> {
    match o {
        Some(s) => Some(s.view()),
        None => None,
    }
}

} // verus!
