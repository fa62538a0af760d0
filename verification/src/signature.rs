//! What a predicate advertises to the engine: how many arguments it takes,
//! which data types it accepts for them, and that it is pure.

use vstd::prelude::*;

verus! {

/// The data type of a column or of a scalar.
#[derive(Clone, Copy, Debug, PartialEq, Eq, Structural, Hash)]
pub enum DataType {
    /// Geometries written as well-known text.
    Wkt,
    /// Booleans.
    Boolean,
    /// Any other type.
    Other,
}

impl DataType {
    /// Whether values of this type encode geometries.
    pub open spec fn is_geometry(self) -> bool {
        self == DataType::Wkt
    }

    /// Whether values of this type encode geometries.
    pub fn encodes_geometry(&self) -> (yes: bool)
        ensures
            yes == self.is_geometry(),
    {
        match self {
            DataType::Wkt => true,
            DataType::Boolean => false,
            DataType::Other => false,
        }
    }
}

/// How the result of a function may vary between calls on the same input.
#[derive(Clone, Copy, Debug, PartialEq, Eq, Structural, Hash)]
pub enum Volatility {
    /// The result depends on the arguments alone.
    Immutable,
    /// The result is fixed within one query.
    Stable,
    /// The result may change from row to row.
    Volatile,
}

/// A fixed number of arguments, each of any geometry type.
#[derive(Clone, Copy, Debug, PartialEq, Eq, Structural, Hash)]
pub struct Signature {
    pub arity: usize,
    pub volatility: Volatility,
}

impl Signature {
    /// Whether a list of argument types meets the signature: as many types as
    /// the arity asks for, each of them a geometry type.
    pub open spec fn admits(self, arg_types: Seq<DataType>) -> bool {
        &&& arg_types.len() == self.arity
        &&& forall|i: int| 0 <= i < arg_types.len() ==> (#[trigger] arg_types[i]).is_geometry()
    }

    /// Decides whether the argument types meet the signature.
    pub fn accepts(&self, arg_types: &[DataType]) -> (yes: bool)
        ensures
            yes == self.admits(arg_types@),
    {
        if arg_types.len() != self.arity {
            return false;
        }
        let mut i: usize = 0;
        while i < arg_types.len()
            invariant
                i <= arg_types.len(),
                forall|k: int| 0 <= k < i ==> (#[trigger] arg_types@[k]).is_geometry(),
            decreases arg_types.len() - i,
        {
            if !arg_types[i].encodes_geometry() {
                return false;
            }
            i += 1;
        }
        true
    }
}

/// The signature of a pure function of `arity` arguments, each of which may be
/// of any geometry type.
pub fn any_geometry_type_input(arity: usize) -> (signature: Signature)
    requires
        arity >= 1,
    ensures
        signature.arity == arity,
        signature.volatility == Volatility::Immutable,
{
    Signature { arity, volatility: Volatility::Immutable }
}

} // verus!
