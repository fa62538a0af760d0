//! Decoded geometries, and the decoding of a column into an array of them.

use vstd::prelude::*;
use vstd::utf8::encode_utf8;
use geo::Intersects;
use wkt::TryFromWkt;
use crate::column::{text_view, texts_view, Column, ColumnView};
use crate::error::PredicateError;

verus! {

/// The deepest nesting of parentheses that a text may have.
pub const MAX_NESTING: usize = 32;

/// The number of parentheses left open at the end of the bytes, or `None`
/// where some parenthesis closes what was never opened or opens more than
/// `MAX_NESTING` levels.
pub open spec fn depth_after(bytes: Seq<u8>) -> Option<nat>
    decreases bytes.len(),
{
    if bytes.len() == 0 {
        Some(0)
    } else {
        match depth_after(bytes.drop_last()) {
            None => None,
            Some(depth) => if bytes.last() == 0x28u8 {
                if depth < MAX_NESTING {
                    Some(depth + 1)
                } else {
                    None
                }
            } else if bytes.last() == 0x29u8 {
                if depth > 0 {
                    Some((depth - 1) as nat)
                } else {
                    None
                }
            } else {
                Some(depth)
            },
        }
    }
}

/// Whether the parentheses of a text, read in its UTF-8 bytes, stay within
/// `MAX_NESTING` levels and never close what was not opened.
pub open spec fn nesting_allowed(text: Seq<char>) -> bool {
    depth_after(encode_utf8(text)) is Some
}

/// Once the nesting has left the allowed range, no further byte brings it
/// back.
proof fn lemma_nesting_stays_refused(bytes: Seq<u8>, k: int)
    requires
        0 <= k <= bytes.len(),
        depth_after(bytes.take(k)) is None,
    ensures
        depth_after(bytes) is None,
    decreases bytes.len() - k,
{
    if k < bytes.len() {
        assert(bytes.take(k + 1).drop_last() =~= bytes.take(k));
        lemma_nesting_stays_refused(bytes, k + 1);
    } else {
        assert(bytes.take(k) =~= bytes);
    }
}

/// Decides whether the nesting of parentheses in a text is allowed.
pub fn nesting_is_allowed(text: &str) -> (ok: bool)
    ensures
        ok == nesting_allowed(text@),
{
    let bytes = text.as_bytes();
    let mut depth: usize = 0;
    let mut i: usize = 0;
    assert(bytes@.take(0) =~= Seq::<u8>::empty());
    while i < bytes.len()
        invariant
            i <= bytes.len(),
            depth <= MAX_NESTING,
            bytes@ == encode_utf8(text@),
            depth_after(bytes@.take(i as int)) == Some(depth as nat),
        decreases bytes.len() - i,
    {
        let byte: u8 = bytes[i];
        assert(bytes@.take(i + 1).drop_last() =~= bytes@.take(i as int));
        assert(bytes@.take(i + 1).last() == byte);
        if byte == 0x28u8 {
            if depth == MAX_NESTING {
                proof {
                    assert(depth_after(bytes@.take(i + 1)) is None);
                    lemma_nesting_stays_refused(bytes@, i + 1);
                }
                return false;
            }
            depth += 1;
        } else if byte == 0x29u8 {
            if depth == 0 {
                proof {
                    assert(depth_after(bytes@.take(i + 1)) is None);
                    lemma_nesting_stays_refused(bytes@, i + 1);
                }
                return false;
            }
            depth -= 1;
        }
        i += 1;
    }
    assert(bytes@.take(bytes.len() as int) =~= bytes@);
    true
}

/// The longest mantissa, in bytes with its sign and point, that a number of
/// a text may have.
pub const MAX_MANTISSA: usize = 40;

/// The most digits that the exponent of a number of a text may have.
pub const MAX_EXPONENT_DIGITS: usize = 2;

/// Where a scan of the numbers of a text stands.
#[derive(Clone, Copy, Debug, PartialEq, Eq, Structural)]
pub enum NumberScan {
    /// Behind a delimiter, or at the start.
    Between,
    /// In a token that is no number.
    Word,
    /// In the mantissa of a number, this many bytes into it.
    Mantissa(usize),
    /// In the exponent of a number, this many digits into it.
    Exponent(usize),
    /// Behind a number that is not plain.
    Refused,
}

/// Whether a byte ends a token: blank, line feed, carriage return, tab, a
/// parenthesis, a comma or a zero byte.
pub open spec fn is_delimiter(byte: u8) -> bool {
    byte == 0x20u8 || byte == 0x0au8 || byte == 0x0du8 || byte == 0x09u8 || byte == 0x28u8
        || byte == 0x29u8 || byte == 0x2cu8 || byte == 0x00u8
}

/// Whether a byte is a decimal digit.
pub open spec fn is_digit(byte: u8) -> bool {
    0x30u8 <= byte <= 0x39u8
}

/// Whether a byte is a plus or a minus sign.
pub open spec fn is_sign(byte: u8) -> bool {
    byte == 0x2bu8 || byte == 0x2du8
}

/// The scan after one more byte. A token that starts with a sign, a point or
/// a digit is a number. Its mantissa holds digits and points only and has at
/// most `MAX_MANTISSA` bytes; an `e` or `E` starts its exponent, which holds
/// signs and at most `MAX_EXPONENT_DIGITS` digits. A number that breaks these
/// rules is refused, and the scan stays refused.
pub open spec fn scan_step(state: NumberScan, byte: u8) -> NumberScan {
    match state {
        NumberScan::Refused => NumberScan::Refused,
        _ if is_delimiter(byte) => NumberScan::Between,
        NumberScan::Between => if is_digit(byte) || is_sign(byte) || byte == 0x2eu8 {
            NumberScan::Mantissa(1)
        } else {
            NumberScan::Word
        },
        NumberScan::Word => NumberScan::Word,
        NumberScan::Mantissa(length) => if byte == 0x65u8 || byte == 0x45u8 {
            NumberScan::Exponent(0)
        } else if (is_digit(byte) || byte == 0x2eu8) && length < MAX_MANTISSA {
            NumberScan::Mantissa((length + 1) as usize)
        } else {
            NumberScan::Refused
        },
        NumberScan::Exponent(digits) => if is_sign(byte) {
            NumberScan::Exponent(digits)
        } else if is_digit(byte) && digits < MAX_EXPONENT_DIGITS {
            NumberScan::Exponent((digits + 1) as usize)
        } else {
            NumberScan::Refused
        },
    }
}

/// The scan after all the bytes.
pub open spec fn scan_of(bytes: Seq<u8>) -> NumberScan
    decreases bytes.len(),
{
    if bytes.len() == 0 {
        NumberScan::Between
    } else {
        scan_step(scan_of(bytes.drop_last()), bytes.last())
    }
}

/// Whether every number of a text, read in its UTF-8 bytes, is plain: no
/// letters but one exponent mark, a mantissa of at most `MAX_MANTISSA` bytes
/// and an exponent of at most `MAX_EXPONENT_DIGITS` digits. Such a number is
/// below ten to the power 139 in magnitude, so none of them is infinite or
/// not a number.
pub open spec fn numbers_plain(text: Seq<char>) -> bool {
    scan_of(encode_utf8(text)) != NumberScan::Refused
}

fn advance(state: NumberScan, byte: u8) -> (next: NumberScan)
    ensures
        next == scan_step(state, byte),
{
    let delimiter = byte == 0x20u8 || byte == 0x0au8 || byte == 0x0du8 || byte == 0x09u8
        || byte == 0x28u8 || byte == 0x29u8 || byte == 0x2cu8 || byte == 0x00u8;
    let digit = 0x30u8 <= byte && byte <= 0x39u8;
    let sign = byte == 0x2bu8 || byte == 0x2du8;
    let point = byte == 0x2eu8;
    match state {
        NumberScan::Refused => NumberScan::Refused,
        NumberScan::Between => if delimiter {
            NumberScan::Between
        } else if digit || sign || point {
            NumberScan::Mantissa(1)
        } else {
            NumberScan::Word
        },
        NumberScan::Word => if delimiter {
            NumberScan::Between
        } else {
            NumberScan::Word
        },
        NumberScan::Mantissa(length) => if delimiter {
            NumberScan::Between
        } else if byte == 0x65u8 || byte == 0x45u8 {
            NumberScan::Exponent(0)
        } else if (digit || point) && length < MAX_MANTISSA {
            NumberScan::Mantissa(length + 1)
        } else {
            NumberScan::Refused
        },
        NumberScan::Exponent(digits) => if delimiter {
            NumberScan::Between
        } else if sign {
            NumberScan::Exponent(digits)
        } else if digit && digits < MAX_EXPONENT_DIGITS {
            NumberScan::Exponent(digits + 1)
        } else {
            NumberScan::Refused
        },
    }
}

/// Decides whether every number of a text is plain.
pub fn numbers_are_plain(text: &str) -> (ok: bool)
    ensures
        ok == numbers_plain(text@),
{
    let bytes = text.as_bytes();
    let mut state = NumberScan::Between;
    let mut i: usize = 0;
    assert(bytes@.take(0) =~= Seq::<u8>::empty());
    while i < bytes.len()
        invariant
            i <= bytes.len(),
            bytes@ == encode_utf8(text@),
            state == scan_of(bytes@.take(i as int)),
        decreases bytes.len() - i,
    {
        assert(bytes@.take(i + 1).drop_last() =~= bytes@.take(i as int));
        assert(bytes@.take(i + 1).last() == bytes@[i as int]);
        state = advance(state, bytes[i]);
        i += 1;
    }
    assert(bytes@.take(bytes.len() as int) =~= bytes@);
    match state {
        NumberScan::Refused => false,
        _ => true,
    }
}

/// Whether `wkt`'s `TryFromWkt::try_from_wkt_str`, asked for a `geo::Geometry`,
/// accepts the text.
pub uninterp spec fn wkt_decodes(text: Seq<char>) -> bool;

/// What `geo`'s `Intersects::intersects` answers for the geometries that the
/// two texts decode to. Two outside functions stand behind this name: the
/// decoder of `wkt`, which turns each text into a `geo::Geometry`, and the
/// predicate of `geo`, which is asked about the two.
pub uninterp spec fn wkt_intersects(left: Seq<char>, right: Seq<char>) -> bool;

/// Whether a text stands for a geometry that the predicates may be asked
/// about: its nesting is allowed, its numbers are plain, and it decodes.
pub open spec fn well_formed(text: Seq<char>) -> bool {
    &&& nesting_allowed(text)
    &&& numbers_plain(text)
    &&& wkt_decodes(text)
}

/// Calls `TryFromWkt::try_from_wkt_str` of `wkt` for a `geo::Geometry` and
/// says whether it succeeded. The parser reads nothing but the text, so the
/// answer is a function of the text. It descends one level for each open
/// parenthesis, so the nesting must be allowed.
#[verifier::external_body]
fn decodes_as_geometry(text: &str) -> (ok: bool)
    requires
        nesting_allowed(text@),
    ensures
        ok == wkt_decodes(text@),
{
    let decoded: Result<geo::Geometry, _> = geo::Geometry::try_from_wkt_str(text);
    decoded.is_ok()
}

/// Decodes both texts with `TryFromWkt::try_from_wkt_str` and calls
/// `Intersects::intersects` of `geo` on the two geometries. Both texts must
/// be well formed: they decode, so the last arm is never taken, and their
/// numbers are plain, so every coordinate is finite. `geo` documents the
/// predicate as symmetric, which the second clause records for such
/// geometries.
#[verifier::external_body]
fn texts_intersect(left: &str, right: &str) -> (hit: bool)
    requires
        well_formed(left@),
        well_formed(right@),
    ensures
        hit == wkt_intersects(left@, right@),
        hit == wkt_intersects(right@, left@),
{
    let a: Result<geo::Geometry, _> = geo::Geometry::try_from_wkt_str(left);
    let b: Result<geo::Geometry, _> = geo::Geometry::try_from_wkt_str(right);
    match (a, b) {
        (Ok(a), Ok(b)) => a.intersects(&b),
        _ => false,
    }
}

/// A geometry, carried as the text it was decoded from. A value exists only
/// for a text that is well formed.
#[derive(Debug, PartialEq, Eq)]
pub struct Geometry {
    text: String,
}

impl View for Geometry {
    type V = Seq<char>;

    closed spec fn view(&self) -> Seq<char> {
        self.text@
    }
}

impl Geometry {
    #[verifier::type_invariant]
    spec fn decodable(&self) -> bool {
        well_formed(self.text@)
    }

    /// The geometry that a text encodes, if the text is well formed.
    pub fn decode(text: &str) -> (geometry: Option<Geometry>)
        ensures
            geometry is Some <==> well_formed(text@),
            geometry is Some ==> geometry.unwrap()@ == text@,
    {
        if !nesting_is_allowed(text) {
            return None;
        }
        if !numbers_are_plain(text) {
            return None;
        }
        if !decodes_as_geometry(text) {
            return None;
        }
        Some(Geometry { text: text.to_owned() })
    }

    /// The text of the geometry.
    pub fn as_wkt(&self) -> (text: &str)
        ensures
            text@ == self@,
            well_formed(text@),
    {
        proof {
            use_type_invariant(self);
        }
        self.text.as_str()
    }

    /// Whether the two geometries share a point. The answer does not depend
    /// on the order of the two.
    pub fn intersects(&self, other: &Geometry) -> (hit: bool)
        ensures
            hit == wkt_intersects(self@, other@),
            hit == wkt_intersects(other@, self@),
    {
        proof {
            use_type_invariant(self);
            use_type_invariant(other);
        }
        texts_intersect(self.text.as_str(), other.text.as_str())
    }
}

/// The text of an optional geometry.
pub open spec fn shape_view(row: Option<Geometry>) -> Option<Seq<char>> {
    match row {
        Some(g) => Some(g@),
        None => None,
    }
}

/// A decoded column: one optional geometry per row, `None` for a null row.
#[derive(Debug, PartialEq, Eq)]
pub struct GeometryArray {
    rows: Vec<Option<Geometry>>,
}

impl View for GeometryArray {
    type V = Seq<Option<Seq<char>>>;

    open spec fn view(&self) -> Seq<Option<Seq<char>>> {
        Seq::new(self.rows().len(), |i: int| shape_view(self.rows()[i]))
    }
}

impl GeometryArray {
    /// The rows, in order.
    pub closed spec fn rows(&self) -> Seq<Option<Geometry>> {
        self.rows@
    }

    /// The number of rows.
    pub fn len(&self) -> (n: usize)
        ensures
            n == self.rows().len(),
            n == self@.len(),
    {
        self.rows.len()
    }

    /// The geometry at row `i`, or `None` where the row is null.
    pub fn get(&self, i: usize) -> (row: Option<&Geometry>)
        requires
            i < self@.len(),
        ensures
            match row {
                Some(g) => self.rows()[i as int] == Some(*g),
                None => self.rows()[i as int] is None,
            },
            shape_view(self.rows()[i as int]) == self@[i as int],
    {
        self.rows[i].as_ref()
    }

    /// Whether row `i` is null.
    pub fn is_null(&self, i: usize) -> (null: bool)
        requires
            i < self@.len(),
        ensures
            null == (self@[i as int] is None),
    {
        self.rows[i].is_none()
    }
}

/// Whether every row that is not null is well formed.
pub open spec fn all_well_formed(rows: Seq<Option<Seq<char>>>) -> bool {
    forall|i: int|
        0 <= i < rows.len() && (#[trigger] rows[i]) is Some ==> well_formed(rows[i].unwrap())
}

/// What decoding a column gives: the rows of a column of texts, if each that
/// is not null is well formed; else the reason for which the column is
/// refused.
pub open spec fn parsed(column: ColumnView) -> Result<Seq<Option<Seq<char>>>, PredicateError> {
    match column {
        ColumnView::Boolean(_) => Err(PredicateError::UnsupportedGeometryEncoding),
        ColumnView::Other(_) => Err(PredicateError::UnsupportedGeometryEncoding),
        ColumnView::Wkt(rows) => if all_well_formed(rows) {
            Ok(rows)
        } else {
            Err(PredicateError::MalformedGeometry)
        },
    }
}

/// The view of what decoding returned.
pub open spec fn array_outcome(out: Result<GeometryArray, PredicateError>) -> Result<
    Seq<Option<Seq<char>>>,
    PredicateError,
> {
    match out {
        Ok(array) => Ok(array@),
        Err(e) => Err(e),
    }
}

/// Decodes a column into a geometry array. A column that does not hold
/// geometries is refused as unsupported; a column of texts one of which is no
/// geometry is refused as malformed. Null rows stay null.
pub fn parse_to_native_array(column: &Column) -> (out: Result<GeometryArray, PredicateError>)
    ensures
        array_outcome(out) == parsed(column@),
{
    match column {
        Column::Boolean(_) => Err(PredicateError::UnsupportedGeometryEncoding),
        Column::Other(_) => Err(PredicateError::UnsupportedGeometryEncoding),
        Column::Wkt(texts) => {
            let mut rows: Vec<Option<Geometry>> = Vec::new();
            let mut i: usize = 0;
            while i < texts.len()
                invariant
                    i <= texts.len(),
                    rows.len() == i,
                    column@ == ColumnView::Wkt(texts_view(texts@)),
                    forall|k: int|
                        0 <= k < i ==> shape_view(#[trigger] rows@[k]) == text_view(texts@[k]),
                    forall|k: int|
                        0 <= k < i && texts@[k] is Some ==> well_formed(
                            (#[trigger] texts@[k]).unwrap()@,
                        ),
                decreases texts.len() - i,
            {
                match &texts[i] {
                    None => {
                        rows.push(None);
                    },
                    Some(text) => {
                        match Geometry::decode(text.as_str()) {
                            Some(geometry) => {
                                rows.push(Some(geometry));
                            },
                            None => {
                                proof {
                                    let view = texts_view(texts@);
                                    assert(view[i as int] is Some);
                                    assert(!well_formed(view[i as int].unwrap()));
                                    assert(!all_well_formed(view));
                                    assert(column@ == ColumnView::Wkt(view));
                                }
                                return Err(PredicateError::MalformedGeometry);
                            },
                        }
                    },
                }
                i += 1;
            }
            let array = GeometryArray { rows };
            proof {
                let view = texts_view(texts@);
                assert(array@ =~= view);
                assert forall|k: int|
                    0 <= k < view.len() && (#[trigger] view[k]) is Some implies well_formed(
                    view[k].unwrap(),
                ) by {
                    assert(texts@[k] is Some);
                }
            }
            Ok(array)
        },
    }
}

} // verus!
