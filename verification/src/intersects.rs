//! The predicate `st_intersects`: whether two geometries share a point.

use vstd::prelude::*;
use crate::column::{values_view, ColumnarValue};
use crate::error::PredicateError;
use crate::geometry::{wkt_intersects, Geometry, GeometryArray};
use crate::predicate::{
    computes, evaluate, evaluated, invoke, invoked, rows_outcome, value_outcome, BINARY_ARITY,
};
use crate::signature::{any_geometry_type_input, DataType, Signature, Volatility};

verus! {

/// The arguments of one call: the values, and the number of rows of the
/// batch that they belong to.
#[derive(Debug, PartialEq, Eq)]
pub struct ScalarFunctionArgs {
    pub args: Vec<ColumnarValue>,
    pub number_rows: usize,
}

/// The predicate on the texts of two geometries.
pub open spec fn intersects_predicate() -> spec_fn(Seq<char>, Seq<char>) -> bool {
    |a: Seq<char>, b: Seq<char>| wkt_intersects(a, b)
}

/// The same predicate with its two geometries in the other order.
pub open spec fn intersects_mirrored() -> spec_fn(Seq<char>, Seq<char>) -> bool {
    |a: Seq<char>, b: Seq<char>| wkt_intersects(b, a)
}

/// The function `st_intersects`. A value holds no state beyond its
/// signature, which is fixed when it is made.
#[derive(Clone, Copy, Debug, PartialEq, Eq, Hash)]
pub struct Intersects {
    signature: Signature,
}

impl Intersects {
    /// The signature that the value was made with.
    pub closed spec fn declared(&self) -> Signature {
        self.signature
    }

    /// The function, taking two arguments of any geometry type.
    pub fn new() -> (udf: Self)
        ensures
            udf.declared() == (Signature { arity: 2, volatility: Volatility::Immutable }),
    {
        Self { signature: any_geometry_type_input(BINARY_ARITY) }
    }

    /// The name under which the engine finds the function.
    pub fn name(&self) -> (name: &'static str)
        ensures
            name@ == "st_intersects"@,
    {
        "st_intersects"
    }

    /// What the function accepts.
    pub fn signature(&self) -> (signature: &Signature)
        ensures
            *signature == self.declared(),
    {
        &self.signature
    }

    /// The type of the answer: boolean, whatever the types of the arguments.
    pub fn return_type(&self, arg_types: &[DataType]) -> (out: Result<DataType, PredicateError>)
        ensures
            out == Ok::<DataType, PredicateError>(DataType::Boolean),
    {
        Ok(DataType::Boolean)
    }

    /// Tests two decoded operands row by row. The answer is the same with the
    /// operands in the other order.
    pub fn evaluate(&self, left: &GeometryArray, right: &GeometryArray) -> (out: Result<
        Vec<Option<bool>>,
        PredicateError,
    >)
        ensures
            rows_outcome(out) == evaluated(left@, right@, intersects_predicate()),
            rows_outcome(out) == evaluated(right@, left@, intersects_predicate()),
    {
        assert(computes(Geometry::intersects, intersects_predicate()));
        assert(computes(Geometry::intersects, intersects_mirrored()));
        let out = evaluate(left, right, &Geometry::intersects);
        proof {
            if left@.len() == right@.len() {
                assert(evaluated(left@, right@, intersects_mirrored()).unwrap() =~= evaluated(
                    right@,
                    left@,
                    intersects_predicate(),
                ).unwrap());
            }
        }
        out
    }

    /// Runs one call: aligns the two arguments to the batch, decodes the left
    /// and then the right operand, tests them row by row, and returns the
    /// answers as a boolean column, or the first error met.
    pub fn invoke_with_args(&self, args: &ScalarFunctionArgs) -> (out: Result<
        ColumnarValue,
        PredicateError,
    >)
        ensures
            value_outcome(out) == invoked(
                values_view(args.args@),
                args.number_rows as nat,
                intersects_predicate(),
            ),
    {
        assert(computes(Geometry::intersects, intersects_predicate()));
        invoke(&args.args, args.number_rows, &Geometry::intersects)
    }
}

} // verus!
