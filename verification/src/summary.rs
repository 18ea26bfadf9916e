//! Per-column partition statistics for one manifest.

use vstd::prelude::*;

use crate::literal::PrimitiveType;

verus! {

/// Whether a column is known to contain a NaN value. No recorded information
/// is `Unknown`, and an unknown status must be treated optimistically: it may
/// hide a NaN.
#[derive(Clone, Copy, PartialEq, Eq, Structural, Debug)]
pub enum NanStatus {
    Unknown,
    Present,
    Absent,
}

/// The statistics summarized for one partition column across every data file
/// of a manifest: whether a null value occurs, whether a NaN value occurs,
/// and the encoded minimum and maximum non-null, non-NaN values observed.
/// A bound is absent when there is no data, every value is null, or the bound
/// was not tracked.
#[derive(Clone, Debug)]
pub struct FieldSummary {
    pub contains_null: bool,
    pub contains_nan: NanStatus,
    pub lower_bound: Option<Vec<u8>>,
    pub upper_bound: Option<Vec<u8>>,
}

/// `t` is a floating-point type.
pub open spec fn is_floating(t: PrimitiveType) -> bool {
    t == PrimitiveType::Float || t == PrimitiveType::Double
}

/// The field provably holds nothing but nulls: a null occurs and no non-null
/// value produced a lower bound. A floating-point column additionally needs
/// NaN known absent, since a NaN value leaves no bound either and unknown NaN
/// status must not be read as "no NaN present".
pub open spec fn definitely_all_null(f: FieldSummary, t: PrimitiveType) -> bool {
    &&& f.contains_null
    &&& f.lower_bound is None
    &&& (is_floating(t) ==> f.contains_nan == NanStatus::Absent)
}

/// Decides [`definitely_all_null`] for one field.
pub fn are_all_null(f: &FieldSummary, t: PrimitiveType) -> (r: bool)
    ensures
        r == definitely_all_null(*f, t),
{
    let mut all_null: bool = f.contains_null && f.lower_bound.is_none();

    if all_null && (matches!(t, PrimitiveType::Float) || matches!(t, PrimitiveType::Double)) {
        all_null = match f.contains_nan {
            NanStatus::Absent => true,
            _ => false,
        };
    }

    all_null
}

} // verus!
