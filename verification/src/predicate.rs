//! The harness that every binary predicate shares: align the arguments,
//! decode both operands, test row by row, and wrap the answer as a column.

use vstd::prelude::*;
use crate::column::{
    aligned, broadcast, columns_view, materialize, materialized, values_view, Column, ColumnView,
    ColumnarValue, ScalarView, ValueView,
};
use crate::error::PredicateError;
use crate::geometry::{parse_to_native_array, parsed, shape_view, Geometry, GeometryArray};
use crate::signature::{any_geometry_type_input, DataType, Signature, Volatility};

verus! {

/// The number of operands of a binary predicate.
pub const BINARY_ARITY: usize = 2;

/// One row of the answer: null where either operand is null, else what the
/// predicate `f` says of the two geometries.
pub open spec fn row_outcome(
    left: Option<Seq<char>>,
    right: Option<Seq<char>>,
    f: spec_fn(Seq<char>, Seq<char>) -> bool,
) -> Option<bool> {
    match (left, right) {
        (Some(a), Some(b)) => Some(f(a, b)),
        _ => None,
    }
}

/// The answer of the predicate `f` on two decoded operands: an error where
/// they differ in length, else one row for each row of the operands.
pub open spec fn evaluated(
    left: Seq<Option<Seq<char>>>,
    right: Seq<Option<Seq<char>>>,
    f: spec_fn(Seq<char>, Seq<char>) -> bool,
) -> Result<Seq<Option<bool>>, PredicateError> {
    if left.len() != right.len() {
        Err(PredicateError::LengthMismatch)
    } else {
        Ok(Seq::new(left.len(), |i: int| row_outcome(left[i], right[i], f)))
    }
}

/// Whether one row of an answer is what a call of `test` on the two rows of
/// the operands allows: null where either is null, else a value that `test`
/// may have returned for the two geometries.
pub open spec fn row_agrees<F: Fn(&Geometry, &Geometry) -> bool>(
    test: F,
    left: Option<Geometry>,
    right: Option<Geometry>,
    row: Option<bool>,
) -> bool {
    match (left, right) {
        (Some(a), Some(b)) => row is Some && test.ensures((&a, &b), row.unwrap()),
        _ => row is None,
    }
}

/// Whether the executable `test` returns, on every pair of geometries, what
/// the predicate `f` says of their texts.
pub open spec fn computes<F: Fn(&Geometry, &Geometry) -> bool>(
    test: F,
    f: spec_fn(Seq<char>, Seq<char>) -> bool,
) -> bool {
    forall|a: &Geometry, b: &Geometry, hit: bool| #[trigger]
        test.ensures((a, b), hit) ==> hit == f(a@, b@)
}

/// Rows that agree with a `test` that computes `f` are the answer of `f`.
pub proof fn lemma_agreeing_rows_are_evaluated<F: Fn(&Geometry, &Geometry) -> bool>(
    test: F,
    f: spec_fn(Seq<char>, Seq<char>) -> bool,
    left: GeometryArray,
    right: GeometryArray,
    rows: Seq<Option<bool>>,
)
    requires
        computes(test, f),
        left@.len() == right@.len(),
        rows.len() == left@.len(),
        forall|i: int|
            0 <= i < rows.len() ==> row_agrees(
                test,
                left.rows()[i],
                right.rows()[i],
                #[trigger] rows[i],
            ),
    ensures
        evaluated(left@, right@, f) == Ok::<Seq<Option<bool>>, PredicateError>(rows),
{
    let want = Seq::new(left@.len(), |i: int| row_outcome(left@[i], right@[i], f));
    assert forall|i: int| 0 <= i < rows.len() implies rows[i] == want[i] by {
        assert(row_agrees(test, left.rows()[i], right.rows()[i], rows[i]));
        assert(left@[i] == shape_view(left.rows()[i]));
        assert(right@[i] == shape_view(right.rows()[i]));
        match (left.rows()[i], right.rows()[i]) {
            (Some(a), Some(b)) => {
                assert(test.ensures((&a, &b), rows[i].unwrap()));
            },
            _ => {},
        }
    }
    assert(rows =~= want);
}

/// Applies `test` to two decoded operands row by row. Operands of different
/// lengths are refused. A row in which either operand is null is null in the
/// answer, and `test` is not called for it; every other row holds what `test`
/// returned for the two geometries of that row.
pub fn evaluate<F: Fn(&Geometry, &Geometry) -> bool>(
    left: &GeometryArray,
    right: &GeometryArray,
    test: &F,
) -> (out: Result<Vec<Option<bool>>, PredicateError>)
    requires
        forall|a: &Geometry, b: &Geometry| test.requires((a, b)),
    ensures
        left@.len() != right@.len() ==> out == Err::<Vec<Option<bool>>, PredicateError>(
            PredicateError::LengthMismatch,
        ),
        left@.len() == right@.len() ==> out is Ok && out.unwrap()@.len() == left@.len(),
        out is Ok ==> forall|i: int|
            0 <= i < left@.len() ==> row_agrees(
                *test,
                left.rows()[i],
                right.rows()[i],
                #[trigger] out.unwrap()@[i],
            ),
        out is Ok ==> forall|i: int|
            0 <= i < left@.len() ==> ((#[trigger] out.unwrap()@[i]) is None <==> left@[i] is None
                || right@[i] is None),
        forall|f: spec_fn(Seq<char>, Seq<char>) -> bool| #[trigger]
            computes(*test, f) ==> rows_outcome(out) == evaluated(left@, right@, f),
{
    let n: usize = left.len();
    if n != right.len() {
        return Err(PredicateError::LengthMismatch);
    }
    let mut rows: Vec<Option<bool>> = Vec::new();
    let mut i: usize = 0;
    while i < n
        invariant
            i <= n,
            n == left@.len(),
            n == right@.len(),
            rows.len() == i,
            forall|a: &Geometry, b: &Geometry| test.requires((a, b)),
            forall|k: int|
                0 <= k < i ==> row_agrees(*test, left.rows()[k], right.rows()[k], #[trigger] rows@[k]),
        decreases n - i,
    {
        let row = match (left.get(i), right.get(i)) {
            (Some(a), Some(b)) => Some(test(a, b)),
            _ => None,
        };
        rows.push(row);
        i += 1;
    }
    proof {
        assert forall|k: int| 0 <= k < n implies ((#[trigger] rows@[k]) is None <==> left@[k] is None
            || right@[k] is None) by {
            assert(row_agrees(*test, left.rows()[k], right.rows()[k], rows@[k]));
        }
        assert forall|f: spec_fn(Seq<char>, Seq<char>) -> bool| #[trigger]
            computes(*test, f) implies evaluated(left@, right@, f) == Ok::<
            Seq<Option<bool>>,
            PredicateError,
        >(rows@) by {
            lemma_agreeing_rows_are_evaluated(*test, f, *left, *right, rows@);
        }
    }
    Ok(rows)
}

/// The view of what `evaluate` returned.
pub open spec fn rows_outcome(out: Result<Vec<Option<bool>>, PredicateError>) -> Result<
    Seq<Option<bool>>,
    PredicateError,
> {
    match out {
        Ok(rows) => Ok(rows@),
        Err(e) => Err(e),
    }
}

/// Wraps the rows of an answer as a columnar value, unchanged.
pub fn package(rows: Vec<Option<bool>>) -> (value: ColumnarValue)
    ensures
        value@ == ValueView::Array(ColumnView::Boolean(rows@)),
{
    ColumnarValue::Array(Column::Boolean(rows))
}

/// The two decoded operands of a call, or the first error on the way to
/// them: a wrong number of arguments, then what decoding the left operand
/// gives, then what decoding the right operand gives.
pub open spec fn operands(args: Seq<ValueView>, n: nat) -> Result<
    (Seq<Option<Seq<char>>>, Seq<Option<Seq<char>>>),
    PredicateError,
> {
    match materialized(args, n, BINARY_ARITY as nat) {
        Err(e) => Err(e),
        Ok(columns) => match parsed(columns[0]) {
            Err(e) => Err(e),
            Ok(left) => match parsed(columns[1]) {
                Err(e) => Err(e),
                Ok(right) => Ok((left, right)),
            },
        },
    }
}

/// What a call of the predicate `f` returns: the first error met, or the
/// boolean column of its answers.
pub open spec fn invoked(
    args: Seq<ValueView>,
    n: nat,
    f: spec_fn(Seq<char>, Seq<char>) -> bool,
) -> Result<ValueView, PredicateError> {
    match operands(args, n) {
        Err(e) => Err(e),
        Ok((left, right)) => match evaluated(left, right, f) {
            Err(e) => Err(e),
            Ok(rows) => Ok(ValueView::Array(ColumnView::Boolean(rows))),
        },
    }
}

/// The view of what a call returned.
pub open spec fn value_outcome(out: Result<ColumnarValue, PredicateError>) -> Result<
    ValueView,
    PredicateError,
> {
    match out {
        Ok(value) => Ok(value@),
        Err(e) => Err(e),
    }
}

/// Whether a call fails, which does not depend on the test: on an error on
/// the way to the operands, or on operands of different lengths.
pub open spec fn fails_with(args: Seq<ValueView>, n: nat) -> Option<PredicateError> {
    match operands(args, n) {
        Err(e) => Some(e),
        Ok((left, right)) => if left.len() != right.len() {
            Some(PredicateError::LengthMismatch)
        } else {
            None
        },
    }
}

/// What a call with the executable `test` returns. Whether it fails, and with
/// which error, does not depend on `test`. Where it succeeds, the answer is a
/// boolean column with one row for each row of the operands, null exactly
/// where either operand is null. For every predicate `f` that `test`
/// computes, the call returns what `invoked` says of `f`.
pub open spec fn answers<F: Fn(&Geometry, &Geometry) -> bool>(
    test: F,
    args: Seq<ValueView>,
    n: nat,
    out: Result<ColumnarValue, PredicateError>,
) -> bool {
    &&& match fails_with(args, n) {
        Some(e) => out == Err::<ColumnarValue, PredicateError>(e),
        None => out is Ok && out.unwrap()@ is Array && out.unwrap()@->Array_0 is Boolean,
    }
    &&& match (out, operands(args, n)) {
        (Ok(value), Ok((left, right))) => {
            let rows = value@->Array_0->Boolean_0;
            &&& rows.len() == left.len()
            &&& rows.len() == right.len()
            &&& forall|i: int|
                0 <= i < rows.len() ==> ((#[trigger] rows[i]) is None <==> left[i] is None
                    || right[i] is None)
        },
        (Ok(_), Err(_)) => false,
        (Err(_), _) => true,
    }
    &&& forall|f: spec_fn(Seq<char>, Seq<char>) -> bool| #[trigger]
        computes(test, f) ==> value_outcome(out) == invoked(args, n, f)
}

/// Runs one call of a binary predicate on a batch of `number_rows` rows:
/// aligns the arguments, decodes the left and then the right operand, applies
/// `test` row by row and wraps the answer. The first error ends the call.
pub fn invoke<F: Fn(&Geometry, &Geometry) -> bool>(
    args: &Vec<ColumnarValue>,
    number_rows: usize,
    test: &F,
) -> (out: Result<ColumnarValue, PredicateError>)
    requires
        forall|a: &Geometry, b: &Geometry| test.requires((a, b)),
    ensures
        answers(*test, values_view(args@), number_rows as nat, out),
{
    let columns = match materialize(args, number_rows, BINARY_ARITY) {
        Ok(columns) => columns,
        Err(e) => {
            return Err(e);
        },
    };
    proof {
        let aligned_columns = materialized(
            values_view(args@),
            number_rows as nat,
            BINARY_ARITY as nat,
        ).unwrap();
        assert(columns_view(columns@) == aligned_columns);
        assert(columns@.len() == columns_view(columns@).len());
        assert(columns@[0]@ == aligned_columns[0]);
        assert(columns@[1]@ == aligned_columns[1]);
    }
    let left = match parse_to_native_array(&columns[0]) {
        Ok(array) => array,
        Err(e) => {
            return Err(e);
        },
    };
    let right = match parse_to_native_array(&columns[1]) {
        Ok(array) => array,
        Err(e) => {
            return Err(e);
        },
    };
    match evaluate(&left, &right, test) {
        Ok(rows) => Ok(package(rows)),
        Err(e) => Err(e),
    }
}

/// A binary predicate as the engine registers it: a name, a signature of two
/// geometry arguments, and the test that decides one pair of geometries.
/// Nothing in it changes after it is made.
pub struct PredicateFunction<F: Fn(&Geometry, &Geometry) -> bool> {
    name: String,
    signature: Signature,
    test: F,
}

impl<F: Fn(&Geometry, &Geometry) -> bool> PredicateFunction<F> {
    #[verifier::type_invariant]
    spec fn callable(&self) -> bool {
        forall|a: &Geometry, b: &Geometry| self.test.requires((a, b))
    }

    /// The name that the function was made with.
    pub closed spec fn label(&self) -> Seq<char> {
        self.name@
    }

    /// The signature that the function declares.
    pub closed spec fn declared(&self) -> Signature {
        self.signature
    }

    /// The test that the function was made with.
    pub closed spec fn test(&self) -> F {
        self.test
    }

    /// The predicate called `name` that decides each pair with `test`.
    pub fn new(name: String, test: F) -> (function: Self)
        requires
            forall|a: &Geometry, b: &Geometry| test.requires((a, b)),
        ensures
            function.label() == name@,
            function.declared() == (Signature {
                arity: BINARY_ARITY,
                volatility: Volatility::Immutable,
            }),
            function.test() == test,
    {
        Self { name, signature: any_geometry_type_input(BINARY_ARITY), test }
    }

    /// The name under which the engine finds the function.
    pub fn name(&self) -> (name: &str)
        ensures
            name@ == self.label(),
    {
        self.name.as_str()
    }

    /// What the function accepts.
    pub fn signature(&self) -> (signature: &Signature)
        ensures
            *signature == self.declared(),
    {
        &self.signature
    }

    /// The type of the answer: boolean, whatever the types of the arguments.
    pub fn return_type(&self, arg_types: &[DataType]) -> (out: Result<DataType, PredicateError>)
        ensures
            out == Ok::<DataType, PredicateError>(DataType::Boolean),
    {
        Ok(DataType::Boolean)
    }

    /// Runs one call on a batch of `number_rows` rows.
    pub fn invoke(&self, args: &Vec<ColumnarValue>, number_rows: usize) -> (out: Result<
        ColumnarValue,
        PredicateError,
    >)
        ensures
            answers(self.test(), values_view(args@), number_rows as nat, out),
    {
        proof {
            use_type_invariant(self);
        }
        invoke(args, number_rows, &self.test)
    }
}

/// The answer has as many rows as each operand has once it is aligned to the
/// batch.
pub proof fn lemma_answer_length(
    args: Seq<ValueView>,
    n: nat,
    f: spec_fn(Seq<char>, Seq<char>) -> bool,
)
    requires
        invoked(args, n, f) is Ok,
    ensures
        args.len() == 2,
        invoked(args, n, f).unwrap() is Array,
        invoked(args, n, f).unwrap()->Array_0 is Boolean,
        invoked(args, n, f).unwrap()->Array_0.len() == aligned(args[0], n).len(),
        invoked(args, n, f).unwrap()->Array_0.len() == aligned(args[1], n).len(),
{
}

/// In the answer of a predicate, a row is null exactly where either operand
/// is null in that row, and holds what the predicate says of the two
/// geometries everywhere else.
pub proof fn lemma_answer_rows(
    left: Seq<Option<Seq<char>>>,
    right: Seq<Option<Seq<char>>>,
    f: spec_fn(Seq<char>, Seq<char>) -> bool,
    i: int,
)
    requires
        left.len() == right.len(),
        0 <= i < left.len(),
    ensures
        evaluated(left, right, f) is Ok,
        evaluated(left, right, f).unwrap().len() == left.len(),
        left[i] is None || right[i] is None ==> evaluated(left, right, f).unwrap()[i] is None,
        left[i] is Some && right[i] is Some ==> evaluated(left, right, f).unwrap()[i] == Some(
            f(left[i].unwrap(), right[i].unwrap()),
        ),
{
}

/// A predicate that does not depend on the order of its two geometries gives
/// the same answer when the operands change places.
pub proof fn lemma_symmetric_predicate(
    left: Seq<Option<Seq<char>>>,
    right: Seq<Option<Seq<char>>>,
    f: spec_fn(Seq<char>, Seq<char>) -> bool,
)
    requires
        forall|a: Seq<char>, b: Seq<char>| #[trigger] f(a, b) == f(b, a),
    ensures
        evaluated(left, right, f) == evaluated(right, left, f),
{
    if left.len() == right.len() {
        assert(evaluated(left, right, f).unwrap() =~= evaluated(right, left, f).unwrap());
    }
}

/// A scalar operand gives the same answer as the column that repeats it once
/// for each row of the batch, on either side of a column.
pub proof fn lemma_scalar_broadcast(
    scalar: ScalarView,
    column: ColumnView,
    n: nat,
    f: spec_fn(Seq<char>, Seq<char>) -> bool,
)
    ensures
        invoked(seq![ValueView::Scalar(scalar), ValueView::Array(column)], n, f) == invoked(
            seq![ValueView::Array(broadcast(scalar, n)), ValueView::Array(column)],
            n,
            f,
        ),
        invoked(seq![ValueView::Array(column), ValueView::Scalar(scalar)], n, f) == invoked(
            seq![ValueView::Array(column), ValueView::Array(broadcast(scalar, n))],
            n,
            f,
        ),
{
    let a = seq![ValueView::Scalar(scalar), ValueView::Array(column)];
    let b = seq![ValueView::Array(broadcast(scalar, n)), ValueView::Array(column)];
    assert(materialized(a, n, 2).unwrap() =~= materialized(b, n, 2).unwrap());
    let c = seq![ValueView::Array(column), ValueView::Scalar(scalar)];
    let d = seq![ValueView::Array(column), ValueView::Array(broadcast(scalar, n))];
    assert(materialized(c, n, 2).unwrap() =~= materialized(d, n, 2).unwrap());
}

} // verus!
