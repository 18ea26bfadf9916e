//! Row-level meaning of a bound predicate.
//!
//! The evaluator's one-sided verdicts are justified against this model: a
//! row assigns each partition column a cell — null, NaN, a literal value, or
//! a floating-point value the model does not inspect — and a predicate takes
//! a three-valued truth on the row, in the usual Kleene reading where a
//! comparison against null is unknown. A row satisfies a predicate when the
//! truth is known true.

use vstd::prelude::*;

use crate::literal::{lit_eq, lit_le, lit_lt, same_type, Literal, LiteralView};
use crate::order::starts_with_bytes;
use crate::predicate::{
    negate_binary, negate_set, negate_unary, spec_negate, spec_rewrite, BinaryOperator,
    BoundPredicate, SetOperator, UnaryOperator,
};

verus! {

/// A three-valued truth.
pub enum Truth {
    True,
    False,
    Unknown,
}

/// One column's value in one row: null, NaN, an inspectable literal value,
/// or a floating-point value (whose statistics the evaluator reads but whose
/// magnitude this model never compares).
pub enum CellValue {
    Null,
    Nan,
    FloatVal,
    Value(LiteralView),
}

/// Three-valued negation.
pub open spec fn neg3(t: Truth) -> Truth {
    match t {
        Truth::True => Truth::False,
        Truth::False => Truth::True,
        Truth::Unknown => Truth::Unknown,
    }
}

/// Three-valued conjunction.
pub open spec fn and3(a: Truth, b: Truth) -> Truth {
    if a == Truth::False || b == Truth::False {
        Truth::False
    } else if a == Truth::True && b == Truth::True {
        Truth::True
    } else {
        Truth::Unknown
    }
}

/// Three-valued disjunction.
pub open spec fn or3(a: Truth, b: Truth) -> Truth {
    if a == Truth::True || b == Truth::True {
        Truth::True
    } else if a == Truth::False && b == Truth::False {
        Truth::False
    } else {
        Truth::Unknown
    }
}

/// A known truth.
pub open spec fn bool3(b: bool) -> Truth {
    if b {
        Truth::True
    } else {
        Truth::False
    }
}

/// The truth a unary leaf takes on one cell.
pub open spec fn unary_truth(op: UnaryOperator, c: CellValue) -> Truth {
    match op {
        UnaryOperator::IsNull => bool3(c is Null),
        UnaryOperator::NotNull => bool3(!(c is Null)),
        UnaryOperator::IsNan => match c {
            CellValue::Null => Truth::Unknown,
            CellValue::Nan => Truth::True,
            _ => Truth::False,
        },
        UnaryOperator::NotNan => match c {
            CellValue::Null => Truth::Unknown,
            CellValue::Nan => Truth::False,
            _ => Truth::True,
        },
    }
}

/// The truth a binary leaf takes on one cell: comparisons are known only of
/// an inspectable value of the literal's own type.
pub open spec fn binary_truth(op: BinaryOperator, c: CellValue, d: LiteralView) -> Truth {
    match c {
        CellValue::Value(v) => match op {
            BinaryOperator::LessThan => if same_type(v, d) {
                bool3(lit_lt(v, d))
            } else {
                Truth::Unknown
            },
            BinaryOperator::LessThanOrEq => if same_type(v, d) {
                bool3(lit_le(v, d))
            } else {
                Truth::Unknown
            },
            BinaryOperator::GreaterThan => if same_type(v, d) {
                bool3(lit_lt(d, v))
            } else {
                Truth::Unknown
            },
            BinaryOperator::GreaterThanOrEq => if same_type(v, d) {
                bool3(lit_le(d, v))
            } else {
                Truth::Unknown
            },
            BinaryOperator::Eq => if same_type(v, d) {
                bool3(lit_eq(v, d))
            } else {
                Truth::Unknown
            },
            BinaryOperator::NotEq => if same_type(v, d) {
                bool3(!lit_eq(v, d))
            } else {
                Truth::Unknown
            },
            BinaryOperator::StartsWith => if v is Str && d is Str {
                bool3(starts_with_bytes(v->Str_0, d->Str_0))
            } else {
                Truth::Unknown
            },
            BinaryOperator::NotStartsWith => if v is Str && d is Str {
                bool3(!starts_with_bytes(v->Str_0, d->Str_0))
            } else {
                Truth::Unknown
            },
        },
        _ => Truth::Unknown,
    }
}

/// The values held by a set of literals.
pub open spec fn lits_view(s: Set<Literal>) -> Set<LiteralView> {
    s.map(|l: Literal| l@)
}

/// The truth a membership leaf takes on one cell.
pub open spec fn set_truth(op: SetOperator, c: CellValue, s: Set<LiteralView>) -> Truth {
    match c {
        CellValue::Value(v) => match op {
            SetOperator::In => bool3(s.contains(v)),
            SetOperator::NotIn => bool3(!s.contains(v)),
        },
        _ => Truth::Unknown,
    }
}

/// The three-valued truth `p` takes on a row.
pub open spec fn row_val(row: Seq<CellValue>, p: BoundPredicate) -> Truth
    decreases p,
{
    match p {
        BoundPredicate::AlwaysTrue => Truth::True,
        BoundPredicate::AlwaysFalse => Truth::False,
        BoundPredicate::And(l, r) => and3(row_val(row, *l), row_val(row, *r)),
        BoundPredicate::Or(l, r) => or3(row_val(row, *l), row_val(row, *r)),
        BoundPredicate::Not(inner) => neg3(row_val(row, *inner)),
        BoundPredicate::Unary(op, reference) => unary_truth(op, row[reference.position as int]),
        BoundPredicate::Binary(op, reference, lit) => binary_truth(
            op,
            row[reference.position as int],
            lit@,
        ),
        BoundPredicate::SetOp(op, reference, lits) => set_truth(
            op,
            row[reference.position as int],
            lits_view(lits@),
        ),
    }
}

/// The row is known to satisfy `p`.
pub open spec fn row_sat(row: Seq<CellValue>, p: BoundPredicate) -> bool {
    row_val(row, p) == Truth::True
}

/// Negation elimination preserves the three-valued meaning of the predicate
/// on every row.
pub proof fn lemma_rewrite_preserves_row_val(row: Seq<CellValue>, p: BoundPredicate)
    ensures
        row_val(row, spec_rewrite(p)) == row_val(row, p),
        row_val(row, spec_negate(p)) == neg3(row_val(row, p)),
    decreases p,
{
    match p {
        BoundPredicate::And(l, r) => {
            lemma_rewrite_preserves_row_val(row, *l);
            lemma_rewrite_preserves_row_val(row, *r);
        },
        BoundPredicate::Or(l, r) => {
            lemma_rewrite_preserves_row_val(row, *l);
            lemma_rewrite_preserves_row_val(row, *r);
        },
        BoundPredicate::Not(inner) => {
            lemma_rewrite_preserves_row_val(row, *inner);
        },
        _ => {},
    }
}

} // verus!
