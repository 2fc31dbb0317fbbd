use columnar::boolean::{BooleanChunked, BooleanChunkedBuilder};
use columnar::chunked::{ChunkedArray, PrimitiveChunkedBuilder};
use columnar::nested::{build_from_series, build_nested_from_sequence, CollectError};
use columnar::series::{DataType, Series};
use columnar::segments::{as_list, flatten_segments, get_capacity_from_par_results, list_append, vec_push};
use columnar::utf8::Utf8Chunked;

#[test]
fn test_collect_into_list() {
    let s1 = Series::Boolean(BooleanChunked::build_from_values(vec![true, false, true]));
    let s2 = Series::Boolean(BooleanChunked::build_from_values(vec![true, false, true]));

    let ll = build_from_series(vec![s1, s2]).unwrap();
    assert_eq!(ll.len(), 2);
    assert_eq!(ll.null_count(), 0);
    let s2 = Series::Boolean(BooleanChunked::build_from_values(vec![true, false, true]));
    let ll = build_nested_from_sequence(vec![None, Some(s2)]).unwrap();
    assert_eq!(ll.len(), 2);
    assert_eq!(ll.null_count(), 1);
}

#[test]
fn sequence_realizes_optional_numeric_input() {
    let input = vec![Some(3_i64), None, Some(-7), Some(0), None];
    let ca = ChunkedArray::build_from_sequence(input.clone());
    assert_eq!(ca.len(), 5);
    assert_eq!(ca.null_count(), 2);
    assert_eq!(ca.to_options(), input);
    assert_eq!(ca.chunk_count(), 1);
    assert_eq!(ca.name(), "");
}

#[test]
fn empty_sequences_build_zero_length_columns() {
    let ca = ChunkedArray::build_from_sequence(Vec::new());
    assert_eq!(ca.len(), 0);
    assert_eq!(ca.null_count(), 0);
    let bc = BooleanChunked::build_from_sequence(Vec::new());
    assert_eq!(bc.len(), 0);
    let sc = Utf8Chunked::build_from_sequence(Vec::new());
    assert_eq!(sc.len(), 0);
}

#[test]
fn default_column_is_empty_and_named_default() {
    let ca = ChunkedArray::default();
    assert_eq!(ca.len(), 0);
    assert_eq!(ca.null_count(), 0);
    assert_eq!(ca.chunk_count(), 0);
    assert_eq!(ca.name(), "default");
}

#[test]
fn fast_and_fallback_paths_agree_numeric() {
    let input = vec![Some(1_i64), None, Some(2), None, None, Some(9)];
    let fast = ChunkedArray::build_from_sequence(input.clone());
    let fallback = ChunkedArray::build_from_sequence_incremental(input.clone());
    assert_eq!(fast.to_options(), fallback.to_options());
    assert_eq!(fast.len(), fallback.len());
    assert_eq!(fast.null_count(), fallback.null_count());
}

#[test]
fn direct_and_builder_paths_agree_boolean() {
    let input = vec![true, false, false, true];
    let direct = BooleanChunked::build_from_values(input.clone());
    let mut builder = BooleanChunkedBuilder::new(String::new(), 0);
    for v in &input {
        builder.append_value(*v);
    }
    let built = builder.finish();
    assert_eq!(direct.to_options(), built.to_options());
}

#[test]
fn value_and_optional_paths_agree_text() {
    let values = vec!["a".to_string(), "".to_string(), "long enough".to_string()];
    let direct = Utf8Chunked::build_from_values(values.clone());
    let optional = Utf8Chunked::build_from_sequence(values.iter().cloned().map(Some).collect());
    assert_eq!(direct.to_options(), optional.to_options());
    assert_eq!(direct.null_count(), 0);
}

#[test]
fn builder_appends_in_order() {
    let mut builder = PrimitiveChunkedBuilder::new("col".to_string(), 2);
    builder.append_value(4);
    builder.append_null();
    builder.append_option(Some(-1));
    let ca = builder.finish();
    assert_eq!(ca.to_options(), vec![Some(4), None, Some(-1)]);
    assert_eq!(ca.name(), "col");
}

#[test]
fn partitioned_build_matches_sequential() {
    let input = vec![Some(1_i64), None, Some(2), Some(3), None, Some(4), Some(5)];
    let direct = ChunkedArray::build_from_sequence(input.clone());

    // one partitioning into three contiguous groups
    let segs = vec![
        vec![Some(1_i64), None],
        vec![Some(2), Some(3), None],
        vec![Some(4), Some(5)],
    ];
    let parted = ChunkedArray::build_from_segments(segs);
    assert_eq!(parted.to_options(), direct.to_options());

    // another partitioning, with empty groups
    let segs = vec![
        Vec::new(),
        vec![Some(1_i64), None, Some(2), Some(3)],
        Vec::new(),
        vec![None, Some(4), Some(5)],
    ];
    let parted = ChunkedArray::build_from_segments(segs);
    assert_eq!(parted.to_options(), direct.to_options());
}

#[test]
fn parallel_matches_sequential_numeric() {
    let mut input: Vec<Option<i64>> = Vec::new();
    for i in 0..1000_i64 {
        if i % 3 == 0 {
            input.push(None);
        } else {
            input.push(Some(i * i));
        }
    }
    let direct = ChunkedArray::build_from_sequence(input.clone());
    let parallel = ChunkedArray::build_from_parallel_source(input);
    assert_eq!(parallel.to_options(), direct.to_options());
    assert_eq!(parallel.len(), 1000);
    assert_eq!(parallel.chunk_count(), 1);
}

#[test]
fn parallel_matches_sequential_no_missing() {
    let input: Vec<i64> = (0..797).collect();
    let direct = ChunkedArray::build_from_sequence_no_missing(input.clone());
    let parallel = ChunkedArray::build_from_parallel_source_no_missing(input);
    assert_eq!(
        direct.get_ref().to_options(),
        parallel.get_ref().to_options()
    );
    assert_eq!(parallel.get_ref().null_count(), 0);
}

#[test]
fn parallel_matches_sequential_boolean() {
    let input: Vec<bool> = (0..513).map(|i| i % 2 == 0).collect();
    let direct = BooleanChunked::build_from_values(input.clone());
    let parallel = BooleanChunked::build_from_parallel_source(input);
    assert_eq!(parallel.to_options(), direct.to_options());
    assert_eq!(parallel.null_count(), 0);
}

#[test]
fn parallel_matches_sequential_text() {
    let input: Vec<String> = (0..300).map(|i| format!("value-{}", i)).collect();
    let direct = Utf8Chunked::build_from_values(input.clone());
    let parallel = Utf8Chunked::build_from_parallel_source(input);
    assert_eq!(parallel.to_options(), direct.to_options());

    let optional: Vec<Option<String>> = (0..300)
        .map(|i| {
            if i % 5 == 0 {
                None
            } else {
                Some(format!("value-{}", i))
            }
        })
        .collect();
    let direct = Utf8Chunked::build_from_sequence(optional.clone());
    let parallel = Utf8Chunked::build_from_parallel_source_options(optional);
    assert_eq!(parallel.to_options(), direct.to_options());
    assert_eq!(parallel.null_count(), 60);
}

#[test]
fn round_trip_reproduces_contents() {
    let input = vec![Some(10_i64), None, Some(11)];
    let ca = ChunkedArray::build_from_sequence(input);
    let rebuilt = ChunkedArray::build_from_sequence(ca.to_options());
    assert_eq!(rebuilt.to_options(), ca.to_options());

    let bc = BooleanChunked::build_from_sequence(vec![None, Some(true), Some(false)]);
    let rebuilt = BooleanChunked::build_from_sequence(bc.to_options());
    assert_eq!(rebuilt.to_options(), bc.to_options());

    let sc = Utf8Chunked::build_from_sequence(vec![Some("x".to_string()), None]);
    let rebuilt = Utf8Chunked::build_from_sequence(sc.to_options());
    assert_eq!(rebuilt.to_options(), sc.to_options());
}

#[test]
fn no_missing_collection_has_zero_nulls() {
    let wrapped = ChunkedArray::build_from_sequence_no_missing(vec![1, 2, 3]);
    let ca = wrapped.into_inner();
    assert_eq!(ca.null_count(), 0);
    assert_eq!(ca.chunk_count(), 1);
    assert_eq!(ca.to_options(), vec![Some(1), Some(2), Some(3)]);
}

#[test]
fn no_missing_boolean_collection() {
    let wrapped = BooleanChunked::build_from_values_no_missing(vec![false, true]);
    assert_eq!(wrapped.get_ref().null_count(), 0);
    assert_eq!(wrapped.get_ref().to_options(), vec![Some(false), Some(true)]);
}

#[test]
fn boolean_collection_preserves_order_without_nulls() {
    let bc = BooleanChunked::build_from_values(vec![true, false, true]);
    assert_eq!(bc.len(), 3);
    assert_eq!(bc.null_count(), 0);
    assert_eq!(bc.chunk_count(), 1);
    assert_eq!(bc.to_options(), vec![Some(true), Some(false), Some(true)]);
}

#[test]
fn boolean_optional_collection_keeps_nulls() {
    let bc = BooleanChunked::build_from_sequence(vec![Some(true), None, None, Some(false)]);
    assert_eq!(bc.len(), 4);
    assert_eq!(bc.null_count(), 2);
    assert_eq!(bc.to_options(), vec![Some(true), None, None, Some(false)]);
}

#[test]
fn text_collection_keeps_values_and_nulls() {
    let input = vec![Some("ab".to_string()), None, Some("".to_string())];
    let sc = Utf8Chunked::build_from_sequence(input.clone());
    assert_eq!(sc.len(), 3);
    assert_eq!(sc.null_count(), 1);
    assert_eq!(sc.chunk_count(), 1);
    assert_eq!(sc.to_options(), input);
}

#[test]
fn nested_collection_fixes_type_from_first_present() {
    let sub = |vals: Vec<i64>| {
        Series::Int64(ChunkedArray::build_from_sequence(
            vals.into_iter().map(Some).collect(),
        ))
    };
    let input = vec![None, None, Some(sub(vec![1, 2])), None, Some(sub(vec![3]))];
    let ll = build_nested_from_sequence(input).unwrap();
    assert_eq!(ll.len(), 5);
    assert_eq!(ll.null_count(), 3);
    assert_eq!(ll.dtype(), DataType::Int64);
    assert_eq!(ll.name(), "collected");
    assert!(ll.element_at(0).is_none());
    assert!(ll.element_at(1).is_none());
    assert!(ll.element_at(3).is_none());
    match ll.element_at(2) {
        Some(Series::Int64(ca)) => assert_eq!(ca.to_options(), vec![Some(1), Some(2)]),
        _ => panic!("element 2 should be a present integer sub-column"),
    }
    match ll.element_at(4) {
        Some(Series::Int64(ca)) => assert_eq!(ca.to_options(), vec![Some(3)]),
        _ => panic!("element 4 should be a present integer sub-column"),
    }
}

#[test]
fn nested_collection_of_all_missing_is_an_error() {
    let r = build_nested_from_sequence(vec![None, None]);
    match r {
        Err(e) => assert_eq!(e, CollectError::ElementTypeUndetermined),
        Ok(_) => panic!("an all-missing source must not produce a typed column"),
    }
    let r = build_nested_from_sequence(Vec::new());
    match r {
        Err(e) => assert_eq!(e, CollectError::ElementTypeUndetermined),
        Ok(_) => panic!("an empty source must not produce a typed column"),
    }
}

#[test]
fn nested_collection_of_present_series() {
    let s1 = Series::Utf8(Utf8Chunked::build_from_values(vec!["a".to_string()]));
    let s2 = Series::Utf8(Utf8Chunked::build_from_values(vec!["b".to_string(), "c".to_string()]));
    let ll = build_from_series(vec![s1, s2]).unwrap();
    assert_eq!(ll.len(), 2);
    assert_eq!(ll.null_count(), 0);
    assert_eq!(ll.dtype(), DataType::Utf8);
    match ll.element_at(1) {
        Some(Series::Utf8(ca)) => {
            assert_eq!(
                ca.to_options(),
                vec![Some("b".to_string()), Some("c".to_string())]
            )
        }
        _ => panic!("element 1 should be a present string sub-column"),
    }
}

#[test]
fn series_reports_its_dtype() {
    let s = Series::Boolean(BooleanChunked::build_from_values(vec![true]));
    assert_eq!(s.dtype(), DataType::Boolean);
    let s = Series::Int64(ChunkedArray::build_from_sequence(vec![Some(1)]));
    assert_eq!(s.dtype(), DataType::Int64);
}

#[test]
fn segment_helpers_fold_and_merge_in_order() {
    let buf = vec_push(vec_push(Vec::new(), 1_i64), 2);
    assert_eq!(buf, vec![1, 2]);
    let merged = list_append(as_list(buf), as_list(vec![3, 4, 5]));
    assert_eq!(merged, vec![vec![1, 2], vec![3, 4, 5]]);
    assert_eq!(get_capacity_from_par_results(&merged), 5);
    let flat = flatten_segments(merged, 5);
    assert_eq!(flat, vec![1, 2, 3, 4, 5]);
}

#[test]
fn nested_collection_of_no_series_is_an_error() {
    match build_from_series(Vec::new()) {
        Err(e) => assert_eq!(e, CollectError::ElementTypeUndetermined),
        Ok(_) => panic!("an empty source must not produce a typed column"),
    }
}
