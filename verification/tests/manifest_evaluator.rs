use fnv::FnvHashSet;

use manifest_eval::{
    BinaryOperator, BoundPredicate, BoundReference, Literal, ManifestEvaluator, PrimitiveType,
    SetOperator, UnaryOperator,
};
use manifest_eval::{FieldSummary, NanStatus};

const INT_MIN_VALUE: i32 = 30;
const INT_MAX_VALUE: i32 = 79;

const STRING_MIN_VALUE: &str = "a";
const STRING_MAX_VALUE: &str = "z";

// Column positions in the partition statistics array, with their types.
const ID: usize = 0; // Int
const ALL_NULLS_MISSING_NAN: usize = 1; // Str
const SOME_NULLS: usize = 2; // Str
const NO_NULLS: usize = 3; // Str
const FLOAT: usize = 4; // Float
const ALL_NULLS_DOUBLE: usize = 5; // Double
const ALL_NULLS_NO_NANS: usize = 6; // Float
const ALL_NANS: usize = 7; // Double
const BOTH_NAN_AND_NULL: usize = 8; // Float
const NO_NAN_OR_NULL: usize = 9; // Double
const ALL_NULLS_MISSING_NAN_FLOAT: usize = 10; // Float
const NO_NULLS_SAME_VALUE_A: usize = 12; // Str

fn int_bytes(v: i32) -> Vec<u8> {
    v.to_le_bytes().to_vec()
}

fn str_bytes(s: &str) -> Vec<u8> {
    s.as_bytes().to_vec()
}

fn float_bytes(v: f32) -> Vec<u8> {
    v.to_le_bytes().to_vec()
}

fn create_partitions() -> Vec<FieldSummary> {
    vec![
        // id
        FieldSummary {
            contains_null: false,
            contains_nan: NanStatus::Unknown,
            lower_bound: Some(int_bytes(INT_MIN_VALUE)),
            upper_bound: Some(int_bytes(INT_MAX_VALUE)),
        },
        // all_nulls_missing_nan
        FieldSummary {
            contains_null: true,
            contains_nan: NanStatus::Unknown,
            lower_bound: None,
            upper_bound: None,
        },
        // some_nulls
        FieldSummary {
            contains_null: true,
            contains_nan: NanStatus::Unknown,
            lower_bound: Some(str_bytes(STRING_MIN_VALUE)),
            upper_bound: Some(str_bytes(STRING_MAX_VALUE)),
        },
        // no_nulls
        FieldSummary {
            contains_null: false,
            contains_nan: NanStatus::Unknown,
            lower_bound: Some(str_bytes(STRING_MIN_VALUE)),
            upper_bound: Some(str_bytes(STRING_MAX_VALUE)),
        },
        // float
        FieldSummary {
            contains_null: true,
            contains_nan: NanStatus::Unknown,
            lower_bound: Some(float_bytes(0.0)),
            upper_bound: Some(float_bytes(20.0)),
        },
        // all_nulls_double
        FieldSummary {
            contains_null: true,
            contains_nan: NanStatus::Unknown,
            lower_bound: None,
            upper_bound: None,
        },
        // all_nulls_no_nans
        FieldSummary {
            contains_null: true,
            contains_nan: NanStatus::Absent,
            lower_bound: None,
            upper_bound: None,
        },
        // all_nans
        FieldSummary {
            contains_null: false,
            contains_nan: NanStatus::Present,
            lower_bound: None,
            upper_bound: None,
        },
        // both_nan_and_null
        FieldSummary {
            contains_null: true,
            contains_nan: NanStatus::Present,
            lower_bound: None,
            upper_bound: None,
        },
        // no_nan_or_null
        FieldSummary {
            contains_null: false,
            contains_nan: NanStatus::Absent,
            lower_bound: Some(float_bytes(0.0)),
            upper_bound: Some(float_bytes(20.0)),
        },
        // all_nulls_missing_nan_float
        FieldSummary {
            contains_null: true,
            contains_nan: NanStatus::Unknown,
            lower_bound: None,
            upper_bound: None,
        },
        // all_same_value_or_null
        FieldSummary {
            contains_null: true,
            contains_nan: NanStatus::Unknown,
            lower_bound: Some(str_bytes(STRING_MIN_VALUE)),
            upper_bound: Some(str_bytes(STRING_MIN_VALUE)),
        },
        // no_nulls_same_value_a
        FieldSummary {
            contains_null: false,
            contains_nan: NanStatus::Unknown,
            lower_bound: Some(str_bytes(STRING_MIN_VALUE)),
            upper_bound: Some(str_bytes(STRING_MIN_VALUE)),
        },
    ]
}

fn create_manifest_file(partitions: Vec<FieldSummary>) -> Option<Vec<FieldSummary>> {
    Some(partitions)
}

fn unary(op: UnaryOperator, position: usize, t: PrimitiveType) -> BoundPredicate {
    BoundPredicate::Unary(op, BoundReference::new(position, t))
}

fn binary(op: BinaryOperator, position: usize, t: PrimitiveType, datum: Literal) -> BoundPredicate {
    BoundPredicate::Binary(op, BoundReference::new(position, t), datum)
}

#[test]
fn test_always_true() {
    let partitions = create_partitions();
    let manifest_file = create_manifest_file(partitions);

    let filter = BoundPredicate::AlwaysTrue;

    assert!(ManifestEvaluator::builder(filter)
        .build()
        .eval(&manifest_file)
        .unwrap());
}

#[test]
fn test_always_false() {
    let partitions = create_partitions();
    let manifest_file = create_manifest_file(partitions);

    let filter = BoundPredicate::AlwaysFalse;

    assert!(!ManifestEvaluator::builder(filter)
        .build()
        .eval(&manifest_file)
        .unwrap());
}

#[test]
fn test_all_nulls() {
    let partitions = create_partitions();
    let manifest_file = create_manifest_file(partitions);

    let all_nulls_missing_nan_filter = unary(
        UnaryOperator::NotNull,
        ALL_NULLS_MISSING_NAN,
        PrimitiveType::Str,
    );
    assert!(
        !ManifestEvaluator::builder(all_nulls_missing_nan_filter)
            .build()
            .eval(&manifest_file)
            .unwrap(),
        "Should skip: all nulls column with non-floating type contains all null"
    );

    let all_nulls_missing_nan_float_filter = unary(
        UnaryOperator::NotNull,
        ALL_NULLS_MISSING_NAN_FLOAT,
        PrimitiveType::Float,
    );
    assert!(
        ManifestEvaluator::builder(all_nulls_missing_nan_float_filter)
            .build()
            .eval(&manifest_file)
            .unwrap(),
        "Should read: no NaN information may indicate presence of NaN value"
    );

    let some_nulls_filter = unary(UnaryOperator::NotNull, SOME_NULLS, PrimitiveType::Str);
    assert!(
        ManifestEvaluator::builder(some_nulls_filter)
            .build()
            .eval(&manifest_file)
            .unwrap(),
        "Should read: column with some nulls contains a non-null value"
    );

    let no_nulls_filter = unary(UnaryOperator::NotNull, NO_NULLS, PrimitiveType::Str);
    assert!(
        ManifestEvaluator::builder(no_nulls_filter)
            .build()
            .eval(&manifest_file)
            .unwrap(),
        "Should read: non-null column contains a non-null value"
    );
}

#[test]
fn test_no_nulls() {
    let partitions = create_partitions();
    let manifest_file = create_manifest_file(partitions);

    let all_nulls_missing_nan_filter = unary(
        UnaryOperator::IsNull,
        ALL_NULLS_MISSING_NAN,
        PrimitiveType::Str,
    );
    assert!(
        ManifestEvaluator::builder(all_nulls_missing_nan_filter)
            .build()
            .eval(&manifest_file)
            .unwrap(),
        "Should read: at least one null value in all null column"
    );

    let some_nulls_filter = unary(UnaryOperator::IsNull, SOME_NULLS, PrimitiveType::Str);
    assert!(
        ManifestEvaluator::builder(some_nulls_filter)
            .build()
            .eval(&manifest_file)
            .unwrap(),
        "Should read: column with some nulls contains a null value"
    );

    let no_nulls_filter = unary(UnaryOperator::IsNull, NO_NULLS, PrimitiveType::Str);
    assert!(
        !ManifestEvaluator::builder(no_nulls_filter)
            .build()
            .eval(&manifest_file)
            .unwrap(),
        "Should skip: non-null column contains no null values"
    );

    let both_nan_and_null_filter = unary(
        UnaryOperator::IsNull,
        BOTH_NAN_AND_NULL,
        PrimitiveType::Float,
    );
    assert!(
        ManifestEvaluator::builder(both_nan_and_null_filter)
            .build()
            .eval(&manifest_file)
            .unwrap(),
        "Should read: both_nan_and_null column contains no null values"
    );
}

#[test]
fn test_is_nan() {
    let partitions = create_partitions();
    let manifest_file = create_manifest_file(partitions);

    let float_filter = unary(UnaryOperator::IsNan, FLOAT, PrimitiveType::Float);
    assert!(
        ManifestEvaluator::builder(float_filter)
            .build()
            .eval(&manifest_file)
            .unwrap(),
        "Should read: no information on if there are nan value in float column"
    );

    let all_nulls_double_filter = unary(
        UnaryOperator::IsNan,
        ALL_NULLS_DOUBLE,
        PrimitiveType::Double,
    );
    assert!(
        ManifestEvaluator::builder(all_nulls_double_filter)
            .build()
            .eval(&manifest_file)
            .unwrap(),
        "Should read: no NaN information may indicate presence of NaN value"
    );

    let all_nulls_missing_nan_float_filter = unary(
        UnaryOperator::IsNan,
        ALL_NULLS_MISSING_NAN_FLOAT,
        PrimitiveType::Float,
    );
    assert!(
        ManifestEvaluator::builder(all_nulls_missing_nan_float_filter)
            .build()
            .eval(&manifest_file)
            .unwrap(),
        "Should read: no NaN information may indicate presence of NaN value"
    );

    let all_nulls_no_nans_filter = unary(
        UnaryOperator::IsNan,
        ALL_NULLS_NO_NANS,
        PrimitiveType::Float,
    );
    assert!(
        !ManifestEvaluator::builder(all_nulls_no_nans_filter)
            .build()
            .eval(&manifest_file)
            .unwrap(),
        "Should skip: no nan column doesn't contain nan value"
    );

    let all_nans_filter = unary(UnaryOperator::IsNan, ALL_NANS, PrimitiveType::Double);
    assert!(
        ManifestEvaluator::builder(all_nans_filter)
            .build()
            .eval(&manifest_file)
            .unwrap(),
        "Should read: all_nans column contains nan value"
    );

    let both_nan_and_null_filter = unary(
        UnaryOperator::IsNan,
        BOTH_NAN_AND_NULL,
        PrimitiveType::Float,
    );
    assert!(
        ManifestEvaluator::builder(both_nan_and_null_filter)
            .build()
            .eval(&manifest_file)
            .unwrap(),
        "Should read: both_nan_and_null column contains nan value"
    );

    let no_nan_or_null_filter = unary(
        UnaryOperator::IsNan,
        NO_NAN_OR_NULL,
        PrimitiveType::Double,
    );
    assert!(
        !ManifestEvaluator::builder(no_nan_or_null_filter)
            .build()
            .eval(&manifest_file)
            .unwrap(),
        "Should skip: no_nan_or_null column doesn't contain nan value"
    );
}

#[test]
fn test_not_nan() {
    let partitions = create_partitions();
    let manifest_file = create_manifest_file(partitions);

    let float_filter = unary(UnaryOperator::NotNan, FLOAT, PrimitiveType::Float);
    assert!(
        ManifestEvaluator::builder(float_filter)
            .build()
            .eval(&manifest_file)
            .unwrap(),
        "Should read: no information on if there are nan value in float column"
    );

    let all_nulls_double_filter = unary(
        UnaryOperator::NotNan,
        ALL_NULLS_DOUBLE,
        PrimitiveType::Double,
    );
    assert!(
        ManifestEvaluator::builder(all_nulls_double_filter)
            .build()
            .eval(&manifest_file)
            .unwrap(),
        "Should read: all null column contains non nan value"
    );

    let all_nulls_no_nans_filter = unary(
        UnaryOperator::NotNan,
        ALL_NULLS_NO_NANS,
        PrimitiveType::Float,
    );
    assert!(
        ManifestEvaluator::builder(all_nulls_no_nans_filter)
            .build()
            .eval(&manifest_file)
            .unwrap(),
        "Should read: no_nans column contains non nan value"
    );

    let all_nans_filter = unary(UnaryOperator::NotNan, ALL_NANS, PrimitiveType::Double);
    assert!(
        !ManifestEvaluator::builder(all_nans_filter)
            .build()
            .eval(&manifest_file)
            .unwrap(),
        "Should skip: all nans column doesn't contain non nan value"
    );

    let both_nan_and_null_filter = unary(
        UnaryOperator::NotNan,
        BOTH_NAN_AND_NULL,
        PrimitiveType::Float,
    );
    assert!(
        ManifestEvaluator::builder(both_nan_and_null_filter)
            .build()
            .eval(&manifest_file)
            .unwrap(),
        "Should read: both_nan_and_null nans column contains non nan value"
    );

    let no_nan_or_null_filter = unary(
        UnaryOperator::NotNan,
        NO_NAN_OR_NULL,
        PrimitiveType::Double,
    );
    assert!(
        ManifestEvaluator::builder(no_nan_or_null_filter)
            .build()
            .eval(&manifest_file)
            .unwrap(),
        "Should read: no_nan_or_null column contains non nan value"
    );
}

#[test]
fn test_and() {
    let partitions = create_partitions();
    let manifest_file = create_manifest_file(partitions);

    let filter = BoundPredicate::And(
        Box::new(binary(
            BinaryOperator::LessThan,
            ID,
            PrimitiveType::Int,
            Literal::int32(INT_MIN_VALUE - 25),
        )),
        Box::new(binary(
            BinaryOperator::GreaterThanOrEq,
            ID,
            PrimitiveType::Int,
            Literal::int32(INT_MIN_VALUE - 30),
        )),
    );
    assert!(
        !ManifestEvaluator::builder(filter)
            .build()
            .eval(&manifest_file)
            .unwrap(),
        "Should skip: and(false, true)"
    );
}

#[test]
fn test_or() {
    let partitions = create_partitions();
    let manifest_file = create_manifest_file(partitions);

    let filter = BoundPredicate::Or(
        Box::new(binary(
            BinaryOperator::LessThan,
            ID,
            PrimitiveType::Int,
            Literal::int32(INT_MIN_VALUE - 25),
        )),
        Box::new(binary(
            BinaryOperator::GreaterThanOrEq,
            ID,
            PrimitiveType::Int,
            Literal::int32(INT_MAX_VALUE + 1),
        )),
    );
    assert!(
        !ManifestEvaluator::builder(filter)
            .build()
            .eval(&manifest_file)
            .unwrap(),
        "Should skip: or(false, false)"
    );
}

#[test]
fn test_not() {
    let partitions = create_partitions();
    let manifest_file = create_manifest_file(partitions);

    let filter = BoundPredicate::Not(Box::new(binary(
        BinaryOperator::LessThan,
        ID,
        PrimitiveType::Int,
        Literal::int32(INT_MIN_VALUE - 25),
    )));
    assert!(ManifestEvaluator::builder(filter)
        .build()
        .eval(&manifest_file)
        .is_err());

    let filter = BoundPredicate::Not(Box::new(binary(
        BinaryOperator::LessThan,
        ID,
        PrimitiveType::Int,
        Literal::int32(INT_MIN_VALUE - 25),
    )))
    .rewrite_not();
    assert!(
        ManifestEvaluator::builder(filter)
            .build()
            .eval(&manifest_file)
            .unwrap(),
        "Should read: not(false)"
    );

    let filter = BoundPredicate::Not(Box::new(binary(
        BinaryOperator::GreaterThan,
        ID,
        PrimitiveType::Int,
        Literal::int32(INT_MIN_VALUE - 25),
    )));
    assert!(ManifestEvaluator::builder(filter)
        .build()
        .eval(&manifest_file)
        .is_err());

    let filter = BoundPredicate::Not(Box::new(binary(
        BinaryOperator::GreaterThan,
        ID,
        PrimitiveType::Int,
        Literal::int32(INT_MIN_VALUE - 25),
    )))
    .rewrite_not();
    assert!(
        !ManifestEvaluator::builder(filter)
            .build()
            .eval(&manifest_file)
            .unwrap(),
        "Should skip: not(true)"
    );
}

#[test]
fn test_less_than() {
    let partitions = create_partitions();
    let manifest_file = create_manifest_file(partitions);

    let filter = binary(
        BinaryOperator::LessThan,
        ID,
        PrimitiveType::Int,
        Literal::int32(INT_MIN_VALUE - 25),
    );
    assert!(
        !ManifestEvaluator::builder(filter)
            .build()
            .eval(&manifest_file)
            .unwrap(),
        "Should not read: id range below lower bound (5 < 30)"
    );
}

#[test]
fn test_less_than_or_eq() {
    let partitions = create_partitions();
    let manifest_file = create_manifest_file(partitions);

    let filter = binary(
        BinaryOperator::LessThanOrEq,
        ID,
        PrimitiveType::Int,
        Literal::int32(INT_MIN_VALUE - 25),
    );
    assert!(
        !ManifestEvaluator::builder(filter)
            .build()
            .eval(&manifest_file)
            .unwrap(),
        "Should not read: id range below lower bound (5 < 30)"
    );
}

#[test]
fn test_greater_than() {
    let partitions = create_partitions();
    let manifest_file = create_manifest_file(partitions);

    let filter = binary(
        BinaryOperator::GreaterThan,
        ID,
        PrimitiveType::Int,
        Literal::int32(INT_MAX_VALUE + 6),
    );
    assert!(
        !ManifestEvaluator::builder(filter)
            .build()
            .eval(&manifest_file)
            .unwrap(),
        "Should not read: id range above upper bound (85 < 79)"
    );
}

#[test]
fn test_greater_than_or_eq() {
    let partitions = create_partitions();
    let manifest_file = create_manifest_file(partitions);

    let filter = binary(
        BinaryOperator::GreaterThanOrEq,
        ID,
        PrimitiveType::Int,
        Literal::int32(INT_MAX_VALUE + 6),
    );
    assert!(
        !ManifestEvaluator::builder(filter)
            .build()
            .eval(&manifest_file)
            .unwrap(),
        "Should not read: id range above upper bound (85 < 79)"
    );

    let filter = binary(
        BinaryOperator::GreaterThanOrEq,
        ID,
        PrimitiveType::Int,
        Literal::int32(INT_MAX_VALUE),
    );
    assert!(
        ManifestEvaluator::builder(filter)
            .build()
            .eval(&manifest_file)
            .unwrap(),
        "Should read: one possible id"
    );
}

#[test]
fn test_eq() {
    let partitions = create_partitions();
    let manifest_file = create_manifest_file(partitions);

    let filter = binary(
        BinaryOperator::Eq,
        ID,
        PrimitiveType::Int,
        Literal::int32(INT_MIN_VALUE - 25),
    );
    assert!(
        !ManifestEvaluator::builder(filter)
            .build()
            .eval(&manifest_file)
            .unwrap(),
        "Should not read: id below lower bound"
    );

    let filter = binary(
        BinaryOperator::Eq,
        ID,
        PrimitiveType::Int,
        Literal::int32(INT_MIN_VALUE),
    );
    assert!(
        ManifestEvaluator::builder(filter)
            .build()
            .eval(&manifest_file)
            .unwrap(),
        "Should read: id equal to lower bound"
    );
}

#[test]
fn test_not_eq() {
    let partitions = create_partitions();
    let manifest_file = create_manifest_file(partitions);

    let filter = binary(
        BinaryOperator::NotEq,
        ID,
        PrimitiveType::Int,
        Literal::int32(INT_MIN_VALUE - 25),
    );
    assert!(
        ManifestEvaluator::builder(filter)
            .build()
            .eval(&manifest_file)
            .unwrap(),
        "Should read: id below lower bound"
    );
}

#[test]
fn test_in() {
    let partitions = create_partitions();
    let manifest_file = create_manifest_file(partitions);

    let filter = BoundPredicate::SetOp(
        SetOperator::In,
        BoundReference::new(ID, PrimitiveType::Int),
        FnvHashSet::from_iter(vec![
            Literal::int32(INT_MIN_VALUE - 25),
            Literal::int32(INT_MIN_VALUE - 24),
        ]),
    );
    assert!(
        !ManifestEvaluator::builder(filter)
            .build()
            .eval(&manifest_file)
            .unwrap(),
        "Should not read: id below lower bound (5 < 30, 6 < 30)"
    );

    let filter = BoundPredicate::SetOp(
        SetOperator::In,
        BoundReference::new(ID, PrimitiveType::Int),
        FnvHashSet::from_iter(vec![
            Literal::int32(INT_MIN_VALUE - 1),
            Literal::int32(INT_MIN_VALUE),
        ]),
    );
    assert!(
        ManifestEvaluator::builder(filter)
            .build()
            .eval(&manifest_file)
            .unwrap(),
        "Should read: id equal to lower bound (30 == 30)"
    );
}

#[test]
fn test_not_in() {
    let partitions = create_partitions();
    let manifest_file = create_manifest_file(partitions);

    let filter = BoundPredicate::SetOp(
        SetOperator::NotIn,
        BoundReference::new(ID, PrimitiveType::Int),
        FnvHashSet::from_iter(vec![
            Literal::int32(INT_MIN_VALUE - 25),
            Literal::int32(INT_MIN_VALUE - 24),
        ]),
    );
    assert!(
        ManifestEvaluator::builder(filter)
            .build()
            .eval(&manifest_file)
            .unwrap(),
        "Should read: id below lower bound (5 < 30, 6 < 30)"
    );
}

#[test]
fn test_starts_with() {
    let partitions = create_partitions();
    let manifest_file = create_manifest_file(partitions);

    let filter = binary(
        BinaryOperator::StartsWith,
        SOME_NULLS,
        PrimitiveType::Str,
        Literal::string("a"),
    );
    assert!(
        ManifestEvaluator::builder(filter)
            .build()
            .eval(&manifest_file)
            .unwrap(),
        "Should read: range matches"
    );

    let filter = binary(
        BinaryOperator::StartsWith,
        SOME_NULLS,
        PrimitiveType::Str,
        Literal::string("zzzz"),
    );
    assert!(
        !ManifestEvaluator::builder(filter)
            .build()
            .eval(&manifest_file)
            .unwrap(),
        "Should skip: range doesn't match"
    );
}

#[test]
fn test_not_starts_with() {
    let partitions = create_partitions();
    let manifest_file = create_manifest_file(partitions);

    let filter = binary(
        BinaryOperator::NotStartsWith,
        SOME_NULLS,
        PrimitiveType::Str,
        Literal::string("a"),
    );
    assert!(
        ManifestEvaluator::builder(filter)
            .build()
            .eval(&manifest_file)
            .unwrap(),
        "Should read: range matches"
    );

    let filter = binary(
        BinaryOperator::NotStartsWith,
        NO_NULLS_SAME_VALUE_A,
        PrimitiveType::Str,
        Literal::string("a"),
    );
    assert!(
        !ManifestEvaluator::builder(filter)
            .build()
            .eval(&manifest_file)
            .unwrap(),
        "Should not read: all values start with the prefix"
    );
}

#[test]
fn test_manifest_evaluator_builder_with_rewrite() {
    let partitions = create_partitions();
    let manifest_file = create_manifest_file(partitions);

    // A predicate with NOT that should be rewritten:
    // NOT(id < 25) should become (id >= 25).
    let make_filter = || {
        BoundPredicate::Not(Box::new(binary(
            BinaryOperator::LessThan,
            ID,
            PrimitiveType::Int,
            Literal::int32(25), // This is less than our range [30, 79]
        )))
    };

    // Without rewrite it should fail, because NOT is not supported.
    let evaluator = ManifestEvaluator::builder(make_filter())
        .with_rewrite_not(false)
        .build();
    assert!(
        evaluator.eval(&manifest_file).is_err(),
        "Should error: NOT is not supported without rewrite"
    );

    // With rewrite enabled it should succeed.
    let evaluator = ManifestEvaluator::builder(make_filter())
        .with_rewrite_not(true)
        .build();
    let result = evaluator.eval(&manifest_file).unwrap();
    assert!(
        result,
        "Should read: NOT(id < 25) becomes (id >= 25), which matches our range [30, 79]"
    );

    // Default behavior (no rewrite) with a simple predicate.
    let simple_filter = binary(
        BinaryOperator::GreaterThan,
        ID,
        PrimitiveType::Int,
        Literal::int32(20),
    );
    let evaluator = ManifestEvaluator::builder(simple_filter).build();
    assert!(
        evaluator.eval(&manifest_file).unwrap(),
        "Should read: simple predicate without NOT works by default"
    );
}

#[test]
fn test_no_statistics_always_might_match() {
    let filter = binary(
        BinaryOperator::LessThan,
        ID,
        PrimitiveType::Int,
        Literal::int32(INT_MIN_VALUE - 25),
    );
    let evaluator = ManifestEvaluator::builder(filter).build();
    assert!(
        evaluator.eval(&None).unwrap(),
        "Should read: a manifest without partition statistics offers nothing to prune on"
    );

    let filter = BoundPredicate::AlwaysFalse;
    let evaluator = ManifestEvaluator::builder(filter).build();
    assert!(
        evaluator.eval(&Some(Vec::new())).unwrap(),
        "Should read: an empty partition summary list offers nothing to prune on"
    );
}

#[test]
fn test_less_than_in_range() {
    let partitions = create_partitions();
    let manifest_file = create_manifest_file(partitions);

    let filter = binary(
        BinaryOperator::LessThan,
        ID,
        PrimitiveType::Int,
        Literal::int32(INT_MIN_VALUE + 5),
    );
    assert!(
        ManifestEvaluator::builder(filter)
            .build()
            .eval(&manifest_file)
            .unwrap(),
        "Should read: values between 30 and 34 could match"
    );
}

#[test]
fn test_in_over_cardinality_limit() {
    let partitions = create_partitions();
    let manifest_file = create_manifest_file(partitions);

    // 201 members, all below the lower bound: over the limit the member
    // check is skipped and the manifest must be read.
    let members: Vec<Literal> = (-201..0).map(Literal::int32).collect();
    let filter = BoundPredicate::SetOp(
        SetOperator::In,
        BoundReference::new(ID, PrimitiveType::Int),
        FnvHashSet::from_iter(members),
    );
    assert!(
        ManifestEvaluator::builder(filter)
            .build()
            .eval(&manifest_file)
            .unwrap(),
        "Should read: too many members to justify the per-member check"
    );

    // The same shape under the limit prunes.
    let members: Vec<Literal> = (-200..0).map(Literal::int32).collect();
    let filter = BoundPredicate::SetOp(
        SetOperator::In,
        BoundReference::new(ID, PrimitiveType::Int),
        FnvHashSet::from_iter(members),
    );
    assert!(
        !ManifestEvaluator::builder(filter)
            .build()
            .eval(&manifest_file)
            .unwrap(),
        "Should not read: every member lies below the lower bound"
    );
}

#[test]
fn test_starts_with_non_string_literal() {
    let partitions = create_partitions();
    let manifest_file = create_manifest_file(partitions);

    let filter = binary(
        BinaryOperator::StartsWith,
        SOME_NULLS,
        PrimitiveType::Str,
        Literal::int32(5),
    );
    assert!(
        ManifestEvaluator::builder(filter)
            .build()
            .eval(&manifest_file)
            .is_err(),
        "Should error: starts_with on a non-string literal"
    );

    let filter = binary(
        BinaryOperator::NotStartsWith,
        NO_NULLS_SAME_VALUE_A,
        PrimitiveType::Str,
        Literal::int32(5),
    );
    assert!(
        ManifestEvaluator::builder(filter)
            .build()
            .eval(&manifest_file)
            .is_err(),
        "Should error: not_starts_with on a non-string literal"
    );
}

#[test]
fn test_less_than_long_column() {
    // One Long-typed column with eight-byte little-endian bounds [30, 79].
    let partitions = vec![FieldSummary {
        contains_null: false,
        contains_nan: NanStatus::Unknown,
        lower_bound: Some((INT_MIN_VALUE as i64).to_le_bytes().to_vec()),
        upper_bound: Some((INT_MAX_VALUE as i64).to_le_bytes().to_vec()),
    }];
    let manifest_file = Some(partitions);

    let filter = binary(
        BinaryOperator::LessThan,
        0,
        PrimitiveType::Long,
        Literal::long(5),
    );
    assert!(
        !ManifestEvaluator::builder(filter)
            .build()
            .eval(&manifest_file)
            .unwrap(),
        "Should not read: long range below lower bound (5 < 30)"
    );

    let filter = binary(
        BinaryOperator::LessThan,
        0,
        PrimitiveType::Long,
        Literal::long(35),
    );
    assert!(
        ManifestEvaluator::builder(filter)
            .build()
            .eval(&manifest_file)
            .unwrap(),
        "Should read: long values between 30 and 34 could match"
    );
}

#[test]
fn test_double_negation_rewrite() {
    let partitions = create_partitions();
    let manifest_file = create_manifest_file(partitions);

    // id < 5 prunes; rewriting NOT(NOT(id < 5)) must prune the same way.
    let make_inner = || {
        binary(
            BinaryOperator::LessThan,
            ID,
            PrimitiveType::Int,
            Literal::int32(INT_MIN_VALUE - 25),
        )
    };
    let doubled =
        BoundPredicate::Not(Box::new(BoundPredicate::Not(Box::new(make_inner()))));

    let direct = ManifestEvaluator::builder(make_inner())
        .with_rewrite_not(true)
        .build()
        .eval(&manifest_file)
        .unwrap();
    let rewritten = ManifestEvaluator::builder(doubled)
        .with_rewrite_not(true)
        .build()
        .eval(&manifest_file)
        .unwrap();
    assert_eq!(direct, rewritten);
    assert!(!rewritten, "Should not read: id range below lower bound");
}
