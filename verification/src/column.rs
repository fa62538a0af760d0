//! Columnar values as the engine hands them over, and their alignment to the
//! length of a batch.

use vstd::prelude::*;
use crate::error::PredicateError;
use crate::signature::DataType;

verus! {

/// A full column: one optional value per row.
#[derive(Debug, PartialEq, Eq)]
pub enum Column {
    /// Geometries in well-known text; `None` is a null row.
    Wkt(Vec<Option<String>>),
    /// Booleans; `None` is a null row.
    Boolean(Vec<Option<bool>>),
    /// Rows of any other type, of which only the number is kept.
    Other(usize),
}

/// A single value that stands for every row of a batch.
#[derive(Debug, PartialEq, Eq)]
pub enum ScalarValue {
    /// A geometry in well-known text, or null.
    Wkt(Option<String>),
    /// A boolean, or null.
    Boolean(Option<bool>),
    /// A value of any other type.
    Other,
}

/// An argument or a result: either one scalar or a full column.
#[derive(Debug, PartialEq, Eq)]
pub enum ColumnarValue {
    Scalar(ScalarValue),
    Array(Column),
}

/// What a `Column` holds.
pub enum ColumnView {
    Wkt(Seq<Option<Seq<char>>>),
    Boolean(Seq<Option<bool>>),
    Other(nat),
}

/// What a `ScalarValue` holds.
pub enum ScalarView {
    Wkt(Option<Seq<char>>),
    Boolean(Option<bool>),
    Other,
}

/// What a `ColumnarValue` holds.
pub enum ValueView {
    Scalar(ScalarView),
    Array(ColumnView),
}

/// The characters of an optional text.
pub open spec fn text_view(text: Option<String>) -> Option<Seq<char>> {
    match text {
        Some(s) => Some(s@),
        None => None,
    }
}

/// The characters of each row of a column of texts.
pub open spec fn texts_view(rows: Seq<Option<String>>) -> Seq<Option<Seq<char>>> {
    Seq::new(rows.len(), |i: int| text_view(rows[i]))
}

impl View for Column {
    type V = ColumnView;

    open spec fn view(&self) -> ColumnView {
        match *self {
            Column::Wkt(rows) => ColumnView::Wkt(texts_view(rows@)),
            Column::Boolean(rows) => ColumnView::Boolean(rows@),
            Column::Other(n) => ColumnView::Other(n as nat),
        }
    }
}

impl View for ScalarValue {
    type V = ScalarView;

    open spec fn view(&self) -> ScalarView {
        match *self {
            ScalarValue::Wkt(text) => ScalarView::Wkt(text_view(text)),
            ScalarValue::Boolean(b) => ScalarView::Boolean(b),
            ScalarValue::Other => ScalarView::Other,
        }
    }
}

impl View for ColumnarValue {
    type V = ValueView;

    open spec fn view(&self) -> ValueView {
        match *self {
            ColumnarValue::Scalar(s) => ValueView::Scalar(s@),
            ColumnarValue::Array(c) => ValueView::Array(c@),
        }
    }
}

impl ColumnView {
    /// The number of rows.
    pub open spec fn len(self) -> nat {
        match self {
            ColumnView::Wkt(rows) => rows.len(),
            ColumnView::Boolean(rows) => rows.len(),
            ColumnView::Other(n) => n,
        }
    }

    /// The data type of the rows.
    pub open spec fn data_type(self) -> DataType {
        match self {
            ColumnView::Wkt(_) => DataType::Wkt,
            ColumnView::Boolean(_) => DataType::Boolean,
            ColumnView::Other(_) => DataType::Other,
        }
    }
}

/// The column of `n` rows that each hold the scalar.
pub open spec fn broadcast(scalar: ScalarView, n: nat) -> ColumnView {
    match scalar {
        ScalarView::Wkt(text) => ColumnView::Wkt(Seq::new(n, |i: int| text)),
        ScalarView::Boolean(b) => ColumnView::Boolean(Seq::new(n, |i: int| b)),
        ScalarView::Other => ColumnView::Other(n),
    }
}

/// The column that an argument stands for in a batch of `n` rows: a scalar is
/// repeated `n` times, a column is taken as it is.
pub open spec fn aligned(value: ValueView, n: nat) -> ColumnView {
    match value {
        ValueView::Scalar(s) => broadcast(s, n),
        ValueView::Array(c) => c,
    }
}

/// The views of a list of arguments.
pub open spec fn values_view(args: Seq<ColumnarValue>) -> Seq<ValueView> {
    Seq::new(args.len(), |i: int| args[i]@)
}

/// The views of a list of columns.
pub open spec fn columns_view(columns: Seq<Column>) -> Seq<ColumnView> {
    Seq::new(columns.len(), |i: int| columns[i]@)
}

/// What `materialize` returns: an error where the number of arguments is not
/// the arity, else each argument aligned to `n` rows, in the order given.
pub open spec fn materialized(args: Seq<ValueView>, n: nat, arity: nat) -> Result<
    Seq<ColumnView>,
    PredicateError,
> {
    if args.len() != arity {
        Err(PredicateError::ArityMismatch)
    } else {
        Ok(Seq::new(args.len(), |i: int| aligned(args[i], n)))
    }
}

/// The view of what `materialize` returned.
pub open spec fn columns_outcome(out: Result<Vec<Column>, PredicateError>) -> Result<
    Seq<ColumnView>,
    PredicateError,
> {
    match out {
        Ok(columns) => Ok(columns_view(columns@)),
        Err(e) => Err(e),
    }
}

fn copy_text(text: &Option<String>) -> (copy: Option<String>)
    ensures
        copy == *text,
{
    match text {
        Some(s) => Some(s.clone()),
        None => None,
    }
}

fn copy_texts(rows: &Vec<Option<String>>) -> (copy: Vec<Option<String>>)
    ensures
        copy@ == rows@,
{
    let mut copy: Vec<Option<String>> = Vec::new();
    let mut i: usize = 0;
    while i < rows.len()
        invariant
            i <= rows.len(),
            copy@ == rows@.take(i as int),
        decreases rows.len() - i,
    {
        copy.push(copy_text(&rows[i]));
        assert(copy@ =~= rows@.take(i + 1));
        i += 1;
    }
    assert(rows@.take(rows.len() as int) =~= rows@);
    copy
}

fn copy_flags(rows: &Vec<Option<bool>>) -> (copy: Vec<Option<bool>>)
    ensures
        copy@ == rows@,
{
    let mut copy: Vec<Option<bool>> = Vec::new();
    let mut i: usize = 0;
    while i < rows.len()
        invariant
            i <= rows.len(),
            copy@ == rows@.take(i as int),
        decreases rows.len() - i,
    {
        copy.push(rows[i]);
        assert(copy@ =~= rows@.take(i + 1));
        i += 1;
    }
    assert(rows@.take(rows.len() as int) =~= rows@);
    copy
}

impl Column {
    /// The number of rows.
    pub fn len(&self) -> (n: usize)
        ensures
            n == self@.len(),
    {
        match self {
            Column::Wkt(rows) => rows.len(),
            Column::Boolean(rows) => rows.len(),
            Column::Other(n) => *n,
        }
    }

    /// The data type of the rows.
    pub fn data_type(&self) -> (t: DataType)
        ensures
            t == self@.data_type(),
    {
        match self {
            Column::Wkt(_) => DataType::Wkt,
            Column::Boolean(_) => DataType::Boolean,
            Column::Other(_) => DataType::Other,
        }
    }

    /// A column with the same rows.
    pub fn duplicate(&self) -> (copy: Column)
        ensures
            copy@ == self@,
    {
        match self {
            Column::Wkt(rows) => Column::Wkt(copy_texts(rows)),
            Column::Boolean(rows) => Column::Boolean(copy_flags(rows)),
            Column::Other(n) => Column::Other(*n),
        }
    }
}

impl ScalarValue {
    /// The column of `n` rows that each hold this scalar; all of them null
    /// where the scalar is null.
    pub fn to_array_of_size(&self, n: usize) -> (column: Column)
        ensures
            column@ == broadcast(self@, n as nat),
    {
        match self {
            ScalarValue::Wkt(text) => {
                let mut rows: Vec<Option<String>> = Vec::new();
                let mut i: usize = 0;
                while i < n
                    invariant
                        i <= n,
                        rows@ == Seq::new(i as nat, |k: int| *text),
                    decreases n - i,
                {
                    rows.push(copy_text(text));
                    assert(rows@ =~= Seq::new((i + 1) as nat, |k: int| *text));
                    i += 1;
                }
                assert(texts_view(rows@) =~= Seq::new(n as nat, |k: int| text_view(*text)));
                Column::Wkt(rows)
            },
            ScalarValue::Boolean(b) => {
                let mut rows: Vec<Option<bool>> = Vec::new();
                let mut i: usize = 0;
                while i < n
                    invariant
                        i <= n,
                        rows@ == Seq::new(i as nat, |k: int| *b),
                    decreases n - i,
                {
                    rows.push(*b);
                    assert(rows@ =~= Seq::new((i + 1) as nat, |k: int| *b));
                    i += 1;
                }
                Column::Boolean(rows)
            },
            ScalarValue::Other => Column::Other(n),
        }
    }
}

impl ScalarValue {
    /// A scalar that holds the same value.
    pub fn duplicate(&self) -> (copy: ScalarValue)
        ensures
            copy@ == self@,
    {
        match self {
            ScalarValue::Wkt(text) => ScalarValue::Wkt(copy_text(text)),
            ScalarValue::Boolean(b) => ScalarValue::Boolean(*b),
            ScalarValue::Other => ScalarValue::Other,
        }
    }
}

impl Clone for Column {
    fn clone(&self) -> (copy: Column)
        ensures
            copy@ == self@,
    {
        self.duplicate()
    }
}

impl Clone for ScalarValue {
    fn clone(&self) -> (copy: ScalarValue)
        ensures
            copy@ == self@,
    {
        self.duplicate()
    }
}

impl Clone for ColumnarValue {
    fn clone(&self) -> (copy: ColumnarValue)
        ensures
            copy@ == self@,
    {
        match self {
            ColumnarValue::Scalar(s) => ColumnarValue::Scalar(s.duplicate()),
            ColumnarValue::Array(c) => ColumnarValue::Array(c.duplicate()),
        }
    }
}

impl ColumnarValue {
    /// The column that this value stands for in a batch of `n` rows.
    pub fn to_array(&self, n: usize) -> (column: Column)
        ensures
            column@ == aligned(self@, n as nat),
    {
        match self {
            ColumnarValue::Scalar(s) => s.to_array_of_size(n),
            ColumnarValue::Array(c) => c.duplicate(),
        }
    }
}

/// Turns the arguments of one call into columns: a scalar is broadcast to
/// `number_rows` rows, a column passes unchanged. Fails where the number of
/// arguments is not `arity`.
pub fn materialize(args: &Vec<ColumnarValue>, number_rows: usize, arity: usize) -> (out: Result<
    Vec<Column>,
    PredicateError,
>)
    ensures
        columns_outcome(out) == materialized(
            values_view(args@),
            number_rows as nat,
            arity as nat,
        ),
{
    if args.len() != arity {
        return Err(PredicateError::ArityMismatch);
    }
    let ghost want = Seq::new(args.len() as nat, |k: int| aligned(args@[k]@, number_rows as nat));
    let mut columns: Vec<Column> = Vec::new();
    let mut i: usize = 0;
    while i < args.len()
        invariant
            i <= args.len(),
            columns.len() == i,
            forall|k: int|
                0 <= k < i ==> (#[trigger] columns@[k])@ == aligned(args@[k]@, number_rows as nat),
        decreases args.len() - i,
    {
        columns.push(args[i].to_array(number_rows));
        i += 1;
    }
    assert(columns_view(columns@) =~= want);
    assert(Seq::new(
        values_view(args@).len(),
        |k: int| aligned(values_view(args@)[k], number_rows as nat),
    ) =~= want);
    Ok(columns)
}

} // verus!
