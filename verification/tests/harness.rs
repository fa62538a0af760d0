use std::cell::Cell;

use geo::Intersects as GeoIntersects;
use geodatafusion::column::{materialize, Column, ColumnarValue, ScalarValue};
use geodatafusion::error::PredicateError;
use geodatafusion::geometry::{
    nesting_is_allowed, numbers_are_plain, parse_to_native_array, Geometry, GeometryArray,
    MAX_EXPONENT_DIGITS, MAX_MANTISSA, MAX_NESTING,
};
use geodatafusion::intersects::Intersects;
use geodatafusion::predicate::{evaluate, invoke, package, PredicateFunction, BINARY_ARITY};
use geodatafusion::signature::{any_geometry_type_input, DataType, Volatility};

fn texts(rows: &[Option<&str>]) -> Column {
    Column::Wkt(rows.iter().map(|r| r.map(|s| s.to_string())).collect())
}

fn decoded(rows: &[Option<&str>]) -> GeometryArray {
    parse_to_native_array(&texts(rows)).unwrap()
}

#[test]
fn signature_has_the_arity_asked_for() {
    for arity in [1usize, 2, 3, 10] {
        let signature = any_geometry_type_input(arity);
        assert_eq!(signature.arity, arity);
        assert_eq!(signature.volatility, Volatility::Immutable);
    }
}

#[test]
fn signature_accepts_geometry_types_only() {
    let signature = any_geometry_type_input(2);
    assert!(signature.accepts(&[DataType::Wkt, DataType::Wkt]));
    assert!(!signature.accepts(&[DataType::Wkt]));
    assert!(!signature.accepts(&[]));
    assert!(!signature.accepts(&[DataType::Wkt, DataType::Wkt, DataType::Wkt]));
    assert!(!signature.accepts(&[DataType::Wkt, DataType::Boolean]));
    assert!(!signature.accepts(&[DataType::Boolean, DataType::Wkt]));
    assert!(any_geometry_type_input(1).accepts(&[DataType::Wkt]));
}

#[test]
fn data_types_know_whether_they_encode_geometries() {
    assert!(DataType::Wkt.encodes_geometry());
    assert!(!DataType::Boolean.encodes_geometry());
    assert!(!DataType::Other.encodes_geometry());
}

#[test]
fn columns_report_length_and_type() {
    let column = texts(&[Some("POINT(0 0)"), None]);
    assert_eq!(column.len(), 2);
    assert_eq!(column.data_type(), DataType::Wkt);
    assert_eq!(column.duplicate(), column);
    let flags = Column::Boolean(vec![None, Some(false), Some(true)]);
    assert_eq!(flags.len(), 3);
    assert_eq!(flags.data_type(), DataType::Boolean);
    assert_eq!(flags.duplicate(), flags);
    let other = Column::Other(6);
    assert_eq!(other.len(), 6);
    assert_eq!(other.data_type(), DataType::Other);
    assert_eq!(other.clone(), other);
}

#[test]
fn scalar_broadcasts_to_the_batch() {
    let scalar = ScalarValue::Wkt(Some("POINT(1 2)".to_string()));
    assert_eq!(
        scalar.to_array_of_size(3),
        texts(&[Some("POINT(1 2)"), Some("POINT(1 2)"), Some("POINT(1 2)")])
    );
    assert_eq!(scalar.to_array_of_size(0), texts(&[]));
    assert_eq!(ScalarValue::Wkt(None).to_array_of_size(2), texts(&[None, None]));
    assert_eq!(
        ScalarValue::Boolean(Some(true)).to_array_of_size(2),
        Column::Boolean(vec![Some(true), Some(true)])
    );
    assert_eq!(ScalarValue::Boolean(None).to_array_of_size(1), Column::Boolean(vec![None]));
    assert_eq!(ScalarValue::Other.to_array_of_size(4), Column::Other(4));
}

#[test]
fn materialize_aligns_each_argument() {
    let args = vec![
        ColumnarValue::Scalar(ScalarValue::Wkt(Some("POINT(0 0)".to_string()))),
        ColumnarValue::Array(texts(&[None, Some("POINT(1 1)")])),
    ];
    let columns = materialize(&args, 2, 2).unwrap();
    assert_eq!(
        columns,
        vec![texts(&[Some("POINT(0 0)"), Some("POINT(0 0)")]), texts(&[None, Some("POINT(1 1)")])]
    );
}

#[test]
fn materialize_passes_columns_unchanged() {
    let args = vec![ColumnarValue::Array(texts(&[Some("POINT(0 0)")]))];
    let columns = materialize(&args, 5, 1).unwrap();
    assert_eq!(columns, vec![texts(&[Some("POINT(0 0)")])]);
}

#[test]
fn materialize_checks_the_arity() {
    let args = vec![ColumnarValue::Scalar(ScalarValue::Wkt(None))];
    assert_eq!(materialize(&args, 1, 2), Err(PredicateError::ArityMismatch));
    assert_eq!(materialize(&args, 1, 0), Err(PredicateError::ArityMismatch));
    assert_eq!(materialize(&args, 1, 1), Ok(vec![texts(&[None])]));
    assert_eq!(materialize(&vec![], 1, 0), Ok(vec![]));
}

#[test]
fn decode_accepts_geometries_only() {
    let point = Geometry::decode("POINT(1 2)").unwrap();
    assert_eq!(point.as_wkt(), "POINT(1 2)");
    assert!(Geometry::decode("POINT EMPTY").is_some());
    assert!(Geometry::decode("POINT(1 2").is_none());
    assert!(Geometry::decode("").is_none());
    assert!(Geometry::decode("CIRCLE(1 2)").is_none());
}

#[test]
fn geometries_intersect_as_geo_says() {
    let cases = [
        ("POINT(0 0)", "POINT(0 0)"),
        ("POINT(0 0)", "POINT(1 1)"),
        ("LINESTRING(0 0, 1 1)", "LINESTRING(0 1, 1 0)"),
        ("LINESTRING(0 0, 1 1)", "LINESTRING(2 2, 3 3)"),
        ("POLYGON((0 0, 4 0, 4 4, 0 4, 0 0))", "POINT(2 2)"),
        ("POLYGON((0 0, 4 0, 4 4, 0 4, 0 0))", "POINT(5 2)"),
    ];
    let expected = [true, false, true, false, true, false];
    for ((a, b), want) in cases.iter().zip(expected) {
        let left = Geometry::decode(a).unwrap();
        let right = Geometry::decode(b).unwrap();
        assert_eq!(left.intersects(&right), want);
        assert_eq!(right.intersects(&left), want);
    }
    let crossing = geo::Line::new((0.0, 0.0), (1.0, 1.0));
    let other = geo::Line::new((0.0, 1.0), (1.0, 0.0));
    assert!(crossing.intersects(&other));
}

#[test]
fn parse_keeps_rows_and_nulls() {
    let array = decoded(&[Some("POINT(0 0)"), None, Some("LINESTRING(0 0, 1 1)")]);
    assert_eq!(array.len(), 3);
    assert_eq!(array.get(0).map(|g| g.as_wkt()), Some("POINT(0 0)"));
    assert_eq!(array.get(1), None);
    assert_eq!(array.get(2).map(|g| g.as_wkt()), Some("LINESTRING(0 0, 1 1)"));
    assert!(!array.is_null(0));
    assert!(array.is_null(1));
    assert_eq!(decoded(&[]).len(), 0);
}

#[test]
fn parse_refuses_what_it_cannot_decode() {
    assert_eq!(
        parse_to_native_array(&Column::Boolean(vec![])),
        Err(PredicateError::UnsupportedGeometryEncoding)
    );
    assert_eq!(
        parse_to_native_array(&Column::Boolean(vec![Some(false)])),
        Err(PredicateError::UnsupportedGeometryEncoding)
    );
    assert_eq!(
        parse_to_native_array(&Column::Other(2)),
        Err(PredicateError::UnsupportedGeometryEncoding)
    );
    assert_eq!(
        parse_to_native_array(&texts(&[None, Some("POINT(0 0)"), Some("POINT 0 0")])),
        Err(PredicateError::MalformedGeometry)
    );
}

#[test]
fn test_is_not_called_for_null_rows() {
    let left = decoded(&[Some("POINT(0 0)"), None, Some("POINT(1 1)"), None]);
    let right = decoded(&[Some("POINT(0 0)"), Some("POINT(0 0)"), None, None]);
    let calls = Cell::new(0usize);
    let counting = |_: &Geometry, _: &Geometry| {
        calls.set(calls.get() + 1);
        true
    };
    let out = evaluate(&left, &right, &counting);
    assert_eq!(out, Ok(vec![Some(true), None, None, None]));
    assert_eq!(calls.get(), 1);
}

#[test]
fn test_sees_the_geometries_of_its_row() {
    let left = decoded(&[Some("POINT(0 0)"), Some("POINT(1 1)"), Some("POINT(2 2)")]);
    let right = decoded(&[Some("POINT(0 0)"), Some("POINT(9 9)"), Some("POINT(2 2)")]);
    let same_text = |a: &Geometry, b: &Geometry| a.as_wkt() == b.as_wkt();
    assert_eq!(evaluate(&left, &right, &same_text), Ok(vec![Some(true), Some(false), Some(true)]));
    let left_is_origin = |a: &Geometry, _: &Geometry| a.as_wkt() == "POINT(0 0)";
    assert_eq!(
        evaluate(&left, &right, &left_is_origin),
        Ok(vec![Some(true), Some(false), Some(false)])
    );
    let right_is_far = |_: &Geometry, b: &Geometry| b.as_wkt() == "POINT(9 9)";
    assert_eq!(
        evaluate(&left, &right, &right_is_far),
        Ok(vec![Some(false), Some(true), Some(false)])
    );
}

#[test]
fn evaluate_refuses_operands_of_different_lengths() {
    let left = decoded(&[Some("POINT(0 0)")]);
    let right = decoded(&[Some("POINT(0 0)"), None]);
    let calls = Cell::new(0usize);
    let counting = |_: &Geometry, _: &Geometry| {
        calls.set(calls.get() + 1);
        true
    };
    assert_eq!(evaluate(&left, &right, &counting), Err(PredicateError::LengthMismatch));
    assert_eq!(evaluate(&right, &left, &counting), Err(PredicateError::LengthMismatch));
    assert_eq!(calls.get(), 0);
}

#[test]
fn evaluate_of_intersects_is_symmetric() {
    let udf = Intersects::new();
    let a = decoded(&[Some("POINT(0 0)"), None, Some("LINESTRING(0 0, 1 1)"), Some("POINT(3 3)")]);
    let b = decoded(&[
        Some("LINESTRING(-1 0, 1 0)"),
        Some("POINT(0 0)"),
        Some("LINESTRING(0 1, 1 0)"),
        Some("POINT(4 4)"),
    ]);
    let forth = udf.evaluate(&a, &b);
    assert_eq!(forth, Ok(vec![Some(true), None, Some(true), Some(false)]));
    assert_eq!(forth, udf.evaluate(&b, &a));
    let short = decoded(&[None]);
    assert_eq!(udf.evaluate(&a, &short), Err(PredicateError::LengthMismatch));
    assert_eq!(udf.evaluate(&short, &a), Err(PredicateError::LengthMismatch));
}

#[test]
fn package_wraps_the_rows_unchanged() {
    let rows = vec![Some(true), None, Some(false)];
    assert_eq!(package(rows.clone()), ColumnarValue::Array(Column::Boolean(rows)));
    assert_eq!(package(vec![]), ColumnarValue::Array(Column::Boolean(vec![])));
}

#[test]
fn invoke_runs_any_test() {
    assert_eq!(BINARY_ARITY, 2);
    let args = vec![
        ColumnarValue::Array(texts(&[Some("POINT(0 0)"), None, Some("POINT(1 1)")])),
        ColumnarValue::Scalar(ScalarValue::Wkt(Some("POINT(0 0)".to_string()))),
    ];
    let calls = Cell::new(0usize);
    let never = |_: &Geometry, _: &Geometry| {
        calls.set(calls.get() + 1);
        false
    };
    let out = invoke(&args, 3, &never);
    assert_eq!(out, Ok(ColumnarValue::Array(Column::Boolean(vec![Some(false), None, Some(false)]))));
    assert_eq!(calls.get(), 2);
    assert_eq!(invoke(&args[..1].to_vec(), 3, &never), Err(PredicateError::ArityMismatch));
    assert_eq!(invoke(&args, 2, &never), Err(PredicateError::LengthMismatch));
    assert_eq!(calls.get(), 2);
}

#[test]
fn errors_describe_themselves() {
    assert_eq!(PredicateError::ArityMismatch.message(), "wrong number of arguments");
    assert_eq!(
        PredicateError::UnsupportedGeometryEncoding.message(),
        "unsupported geometry encoding"
    );
    assert_eq!(PredicateError::MalformedGeometry.message(), "malformed geometry");
    assert_eq!(PredicateError::LengthMismatch.message(), "operands differ in length");
}

#[test]
fn predicate_function_keeps_name_and_test() {
    let calls = Cell::new(0usize);
    let same_text = |a: &Geometry, b: &Geometry| {
        calls.set(calls.get() + 1);
        a.as_wkt() == b.as_wkt()
    };
    let function = PredicateFunction::new("st_same_text".to_string(), same_text);
    assert_eq!(function.name(), "st_same_text");
    assert_eq!(function.signature().arity, 2);
    assert_eq!(function.signature().volatility, Volatility::Immutable);
    assert_eq!(function.return_type(&[DataType::Wkt, DataType::Other]), Ok(DataType::Boolean));
    let args = vec![
        ColumnarValue::Scalar(ScalarValue::Wkt(Some("POINT(1 1)".to_string()))),
        ColumnarValue::Array(texts(&[Some("POINT(1 1)"), Some("POINT(2 2)"), None])),
    ];
    let out = function.invoke(&args, 3);
    assert_eq!(out, Ok(ColumnarValue::Array(Column::Boolean(vec![Some(true), Some(false), None]))));
    assert_eq!(calls.get(), 2);
    assert_eq!(function.invoke(&args, 3), out);
    assert_eq!(calls.get(), 4);
}

#[test]
fn predicate_function_surfaces_errors() {
    let function = PredicateFunction::new("st_never".to_string(), |_: &Geometry, _: &Geometry| false);
    let point = ColumnarValue::Scalar(ScalarValue::Wkt(Some("POINT(1 1)".to_string())));
    assert_eq!(function.invoke(&vec![point.clone()], 1), Err(PredicateError::ArityMismatch));
    let flags = ColumnarValue::Array(Column::Boolean(vec![None]));
    assert_eq!(
        function.invoke(&vec![point.clone(), flags], 1),
        Err(PredicateError::UnsupportedGeometryEncoding)
    );
    let bad = ColumnarValue::Array(texts(&[Some("POINT")]));
    assert_eq!(
        function.invoke(&vec![bad, point.clone()], 1),
        Err(PredicateError::MalformedGeometry)
    );
    let two = ColumnarValue::Array(texts(&[None, None]));
    assert_eq!(function.invoke(&vec![two, point], 1), Err(PredicateError::LengthMismatch));
}

#[test]
fn predicate_function_with_the_library_test_is_st_intersects() {
    let function = PredicateFunction::new("st_intersects".to_string(), Geometry::intersects);
    let udf = Intersects::new();
    assert_eq!(function.name(), udf.name());
    assert_eq!(function.signature(), udf.signature());
    let args = vec![
        ColumnarValue::Array(texts(&[Some("LINESTRING(0 0, 1 1)"), Some("POINT(0 0)"), None])),
        ColumnarValue::Array(texts(&[Some("LINESTRING(0 1, 1 0)"), Some("POINT(1 1)"), None])),
    ];
    let out = function.invoke(&args, 3);
    assert_eq!(out, Ok(ColumnarValue::Array(Column::Boolean(vec![Some(true), Some(false), None]))));
}

fn nested_collection(levels: usize) -> String {
    let mut text = String::new();
    for _ in 1..levels {
        text.push_str("GEOMETRYCOLLECTION(");
    }
    text.push_str("POINT(1 2)");
    for _ in 1..levels {
        text.push(')');
    }
    text
}

#[test]
fn nesting_is_counted_in_parentheses() {
    assert_eq!(MAX_NESTING, 32);
    assert!(nesting_is_allowed(""));
    assert!(nesting_is_allowed("POINT EMPTY"));
    assert!(nesting_is_allowed("("));
    assert!(nesting_is_allowed("()"));
    assert!(nesting_is_allowed("(()())()"));
    assert!(!nesting_is_allowed(")"));
    assert!(!nesting_is_allowed("())("));
    assert!(!nesting_is_allowed("POINT(1 2))"));
    assert!(nesting_is_allowed(&"(".repeat(32)));
    assert!(!nesting_is_allowed(&"(".repeat(33)));
    assert!(nesting_is_allowed(&"()".repeat(1000)));
    assert!(nesting_is_allowed("MULTIPOLYGON(((0 0, 1 0, 1 1, 0 0)), ((5 5, 6 5, 6 6, 5 5)))"));
    assert!(nesting_is_allowed("\u{e9}(\u{4e2d})"));
}

#[test]
fn decode_refuses_deep_nesting() {
    assert!(Geometry::decode(&nested_collection(2)).is_some());
    assert!(Geometry::decode(&nested_collection(32)).is_some());
    assert!(Geometry::decode(&nested_collection(33)).is_none());
    assert!(Geometry::decode(&nested_collection(200)).is_none());
    let endless = "GEOMETRYCOLLECTION(".repeat(200_000);
    assert!(Geometry::decode(&endless).is_none());
    assert_eq!(
        parse_to_native_array(&texts(&[Some("POINT(0 0)"), Some(endless.as_str())])),
        Err(PredicateError::MalformedGeometry)
    );
}

#[test]
fn numbers_are_scanned_token_by_token() {
    assert_eq!(MAX_MANTISSA, 40);
    assert_eq!(MAX_EXPONENT_DIGITS, 2);
    assert!(numbers_are_plain(""));
    assert!(numbers_are_plain("POINT(1 2)"));
    assert!(numbers_are_plain("POINT(-1.5e-3 +2E5)"));
    assert!(numbers_are_plain("LINESTRING(.5 5.,1e99 -1e-99)"));
    assert!(numbers_are_plain("NaN inf"));
    assert!(numbers_are_plain("x-NaN"));
    assert!(!numbers_are_plain("-NaN"));
    assert!(!numbers_are_plain("POINT(+inf 0)"));
    assert!(!numbers_are_plain("POINT(0 -Infinity)"));
    assert!(!numbers_are_plain("POINT(1e100 0)"));
    assert!(!numbers_are_plain("POINT(1e999 0)"));
    assert!(!numbers_are_plain("POINT(1e5e5 0)"));
    assert!(!numbers_are_plain("POINT(1-2 0)"));
    assert!(!numbers_are_plain("POINT(1\u{e9} 0)"));
    assert!(!numbers_are_plain("POINT(-NaN 0) POINT(1 2)"));
    assert!(numbers_are_plain(&"1".repeat(40)));
    assert!(!numbers_are_plain(&"1".repeat(41)));
    assert!(numbers_are_plain(&format!("{}e10", "1".repeat(40))));
    assert!(numbers_are_plain(&"1 ".repeat(1000)));
}

#[test]
fn decode_refuses_coordinates_that_are_not_finite() {
    assert!(Geometry::decode("LINESTRING(1 1, -NaN -NaN)").is_none());
    assert!(Geometry::decode("POLYGON((-NaN 0, 1 0, 1 1))").is_none());
    assert!(Geometry::decode("POINT(+inf 0)").is_none());
    assert!(Geometry::decode("POINT(0 -infinity)").is_none());
    assert!(Geometry::decode("POINT(1e999 0)").is_none());
    assert!(Geometry::decode("POINT(1e100 0)").is_none());
    assert!(Geometry::decode("POINT(1e99 -1e-99)").is_some());
    assert!(Geometry::decode("POINT(-122.41941550000000 37.77492950000000)").is_some());
    assert!(Geometry::decode(
        "MULTIPOLYGON(((0 0, 1 0, 1 1, 0 0)), ((-NaN 0, 1 0, 1 1, -NaN 0)))"
    )
    .is_none());
    assert_eq!(
        parse_to_native_array(&texts(&[
            Some("LINESTRING(0 0, 2 2)"),
            Some("LINESTRING(1 1, -NaN -NaN)")
        ])),
        Err(PredicateError::MalformedGeometry)
    );
}

#[test]
fn every_pair_answers_alike_in_either_order() {
    let shapes = [
        "POINT(0 0)",
        "POINT(2 2)",
        "POINT EMPTY",
        "LINESTRING EMPTY",
        "POLYGON EMPTY",
        "GEOMETRYCOLLECTION EMPTY",
        "MULTIPOINT(0 0, 4 4)",
        "LINESTRING(0 0, 0 0)",
        "LINESTRING(0 0, 2 2)",
        "LINESTRING(1 1, 3 3)",
        "LINESTRING(0 2, 2 0, 4 2)",
        "MULTILINESTRING((0 0, 1 0), (5 5, 6 6))",
        "POLYGON((0 0, 1 1))",
        "POLYGON((0 0, 4 0, 4 4))",
        "POLYGON((0 0, 2 2, 2 0, 0 2, 0 0))",
        "POLYGON((0 0, 4 0, 4 4, 0 4, 0 0), (1 1, 3 1, 3 3, 1 3, 1 1))",
        "POLYGON((0 0, 4 0, 4 4, 0 4, 0 0), (1 1, 9 1, 9 2, 1 2, 1 1))",
        "MULTIPOLYGON(((0 0, 1 0, 1 1, 0 0)), ((0 0, 1 0, 1 1, 0 0)))",
        "GEOMETRYCOLLECTION(POINT(2 2), LINESTRING(7 7, 8 8))",
        "GEOMETRYCOLLECTION(GEOMETRYCOLLECTION(POLYGON((5 5, 6 5, 6 6, 5 5))))",
        "POINT(1e99 -1e99)",
        "LINESTRING(-1e99 -1e99, 1e99 1e99)",
    ];
    let decoded: Vec<Geometry> = shapes.iter().map(|s| Geometry::decode(s).unwrap()).collect();
    for a in &decoded {
        for b in &decoded {
            assert_eq!(a.intersects(b), b.intersects(a), "{} / {}", a.as_wkt(), b.as_wkt());
        }
    }
    assert!(decoded[8].intersects(&decoded[9]));
    assert!(!decoded[0].intersects(&decoded[1]));
}
