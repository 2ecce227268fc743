use vstd::prelude::*;

verus! {

/// One cell of a row: a typed value, or the null marker.
///
/// A floating-point cell is held by its IEEE 754 bit pattern, so two such
/// cells are the same exactly when their bits are.
#[derive(Debug, Clone, PartialEq, Eq)]
pub enum Scalar {
    Null,
    Int8(i8),
    Int16(i16),
    Int32(i32),
    Int64(i64),
    UInt8(u8),
    UInt16(u16),
    UInt32(u32),
    UInt64(u64),
    /// Bits of a 32-bit float.
    Float32(u32),
    /// Bits of a 64-bit float.
    Float64(u64),
    Utf8(String),
    /// Days since the epoch.
    Date32(i32),
    /// Milliseconds since the epoch.
    Date64(i64),
}

/// The mathematical value of a `Scalar`: text is a sequence of characters.
pub enum ScalarView {
    Null,
    Int8(i8),
    Int16(i16),
    Int32(i32),
    Int64(i64),
    UInt8(u8),
    UInt16(u16),
    UInt32(u32),
    UInt64(u64),
    Float32(u32),
    Float64(u64),
    Utf8(Seq<char>),
    Date32(i32),
    Date64(i64),
}

impl View for Scalar {
    type V = ScalarView;

    open spec fn view(&self) -> ScalarView {
        match self {
            Scalar::Null => ScalarView::Null,
            Scalar::Int8(v) => ScalarView::Int8(*v),
            Scalar::Int16(v) => ScalarView::Int16(*v),
            Scalar::Int32(v) => ScalarView::Int32(*v),
            Scalar::Int64(v) => ScalarView::Int64(*v),
            Scalar::UInt8(v) => ScalarView::UInt8(*v),
            Scalar::UInt16(v) => ScalarView::UInt16(*v),
            Scalar::UInt32(v) => ScalarView::UInt32(*v),
            Scalar::UInt64(v) => ScalarView::UInt64(*v),
            Scalar::Float32(bits) => ScalarView::Float32(*bits),
            Scalar::Float64(bits) => ScalarView::Float64(*bits),
            Scalar::Utf8(text) => ScalarView::Utf8(text@),
            Scalar::Date32(v) => ScalarView::Date32(*v),
            Scalar::Date64(v) => ScalarView::Date64(*v),
        }
    }
}

impl DeepView for Scalar {
    type V = ScalarView;

    open spec fn deep_view(&self) -> ScalarView {
        self@
    }
}

/// Two floating-point cells of the same width, by their bits: the only
/// pairs of unequal cells that a tolerance may still accept.
#[derive(Debug, Clone, Copy, PartialEq, Eq)]
pub enum FloatPair {
    /// Left and right bits of two 32-bit floats.
    Single(u32, u32),
    /// Left and right bits of two 64-bit floats.
    Double(u64, u64),
}

/// The float pair that two cells form, if both are floats of one width.
pub open spec fn float_pair(left: ScalarView, right: ScalarView) -> Option<FloatPair> {
    match (left, right) {
        (ScalarView::Float32(l), ScalarView::Float32(r)) => Some(FloatPair::Single(l, r)),
        (ScalarView::Float64(l), ScalarView::Float64(r)) => Some(FloatPair::Double(l, r)),
        _ => None,
    }
}

/// Whether two cells count as equivalent under the tolerance `tol`: they
/// are the same value of the same kind, or they form a float pair that
/// `tol` accepts.
pub open spec fn cells_agree(
    left: ScalarView,
    right: ScalarView,
    tol: spec_fn(FloatPair) -> bool,
) -> bool {
    left == right || match float_pair(left, right) {
        Some(pair) => tol(pair),
        None => false,
    }
}

/// The null marker is equivalent to itself and to nothing else, whatever
/// the tolerance.
pub proof fn lemma_null_agrees_with_null_only(other: ScalarView, tol: spec_fn(FloatPair) -> bool)
    ensures
        cells_agree(ScalarView::Null, other, tol) == (other is Null),
        cells_agree(other, ScalarView::Null, tol) == (other is Null),
{
}

/// With no tolerance, two cells are equivalent exactly when they are the
/// same value of the same kind.
pub proof fn lemma_no_tolerance_is_equality(left: ScalarView, right: ScalarView)
    ensures
        cells_agree(left, right, |pair: FloatPair| false) == (left == right),
{
}

/// A tolerance is asked about float pairs only: two cells that are not the
/// same are equivalent exactly when they are floats of one width and the
/// tolerance accepts the pair.
pub proof fn lemma_tolerance_is_for_float_pairs(
    left: ScalarView,
    right: ScalarView,
    tol: spec_fn(FloatPair) -> bool,
)
    requires
        left != right,
    ensures
        cells_agree(left, right, tol) == match float_pair(left, right) {
            Some(pair) => tol(pair),
            None => false,
        },
{
}

impl Scalar {
    /// Exact equality of value and kind.
    pub fn same(&self, other: &Scalar) -> (b: bool)
        ensures
            b == (self@ == other@),
    {
        match (self, other) {
            (Scalar::Null, Scalar::Null) => true,
            (Scalar::Int8(l), Scalar::Int8(r)) => *l == *r,
            (Scalar::Int16(l), Scalar::Int16(r)) => *l == *r,
            (Scalar::Int32(l), Scalar::Int32(r)) => *l == *r,
            (Scalar::Int64(l), Scalar::Int64(r)) => *l == *r,
            (Scalar::UInt8(l), Scalar::UInt8(r)) => *l == *r,
            (Scalar::UInt16(l), Scalar::UInt16(r)) => *l == *r,
            (Scalar::UInt32(l), Scalar::UInt32(r)) => *l == *r,
            (Scalar::UInt64(l), Scalar::UInt64(r)) => *l == *r,
            (Scalar::Float32(l), Scalar::Float32(r)) => *l == *r,
            (Scalar::Float64(l), Scalar::Float64(r)) => *l == *r,
            (Scalar::Utf8(l), Scalar::Utf8(r)) => *l == *r,
            (Scalar::Date32(l), Scalar::Date32(r)) => *l == *r,
            (Scalar::Date64(l), Scalar::Date64(r)) => *l == *r,
            _ => false,
        }
    }

    /// The float pair that this cell forms with `other`, if any.
    pub fn float_pair(&self, other: &Scalar) -> (pair: Option<FloatPair>)
        ensures
            pair == float_pair(self@, other@),
    {
        match (self, other) {
            (Scalar::Float32(l), Scalar::Float32(r)) => Some(FloatPair::Single(*l, *r)),
            (Scalar::Float64(l), Scalar::Float64(r)) => Some(FloatPair::Double(*l, *r)),
            _ => None,
        }
    }
}

} // verus!
