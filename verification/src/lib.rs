//! Construction layer of a columnar, chunked in-memory data engine: collects
//! sequences of optional typed values, sequentially or via a data-parallel
//! fold/reduce, into single-chunk columnar arrays with an explicit validity
//! model, including nested (list) columns whose element type is resolved
//! lazily from the first present element.

pub mod arrays;
pub mod boolean;
pub mod chunked;
pub mod laws;
pub mod model;
pub mod nested;
pub mod segments;
pub mod series;
pub mod utf8;
