//! Soundness of the evaluator: no false exclusion.
//!
//! A summary is consistent with a row when everything the summary claims is
//! true of that row's cells: a null cell was counted, a NaN cell was not
//! ruled out, and an inspectable value lies between the decoded bounds. The
//! theorem at the bottom states the evaluator's one-sided guarantee: over
//! statistics consistent with a row that satisfies the predicate, evaluation
//! never answers cannot-match. A wrong might-match only costs a scan; this
//! shows the evaluator never makes the error that would lose data.

use vstd::prelude::*;

use crate::evaluator::{
    bounds_decodable, eval_pred, lower_lit, pred_wf, upper_lit, EvalError,
};
use crate::literal::{
    lemma_lit_eq_is_eq, lemma_lit_le_lt, lemma_lit_le_trans, lemma_lit_lt_le, lit_le, lit_lt,
    type_of, Literal, LiteralView, PrimitiveType,
};
use crate::order::{
    bytes_lt, lemma_prefix_above_upper, lemma_prefix_below_lower, lemma_sandwich_starts_with,
    starts_with_bytes,
};
use crate::predicate::{
    spec_rewrite, BinaryOperator, BoundPredicate, SetOperator, UnaryOperator,
};
use crate::rows::{
    binary_truth, lemma_rewrite_preserves_row_val, lits_view, row_sat, row_val, set_truth,
    unary_truth, CellValue, Truth,
};
use crate::summary::{definitely_all_null, is_floating, FieldSummary, NanStatus};

verus! {

/// The cell fits the column's declared type: NaN and uninspected
/// floating-point values occur only in floating-point columns, and an
/// inspectable value carries the column's own type.
pub open spec fn cell_has_type(c: CellValue, t: PrimitiveType) -> bool {
    match c {
        CellValue::Null => true,
        CellValue::Nan => is_floating(t),
        CellValue::FloatVal => is_floating(t),
        CellValue::Value(v) => type_of(v) == t,
    }
}

/// The summary's claims hold of the cell: a null was counted; a NaN was not
/// recorded absent; a non-null, non-NaN value left both bounds behind and
/// lies between them.
pub open spec fn cell_consistent(f: FieldSummary, t: PrimitiveType, c: CellValue) -> bool {
    match c {
        CellValue::Null => f.contains_null,
        CellValue::Nan => f.contains_nan != NanStatus::Absent,
        CellValue::FloatVal => f.lower_bound is Some && f.upper_bound is Some,
        CellValue::Value(v) => match (lower_lit(f, t), upper_lit(f, t)) {
            (Option::Some(lo), Option::Some(up)) => lit_le(lo, v) && lit_le(v, up),
            _ => false,
        },
    }
}

/// The statistics array is consistent with the row, column by column.
pub open spec fn row_consistent(
    parts: Seq<FieldSummary>,
    types: Seq<PrimitiveType>,
    row: Seq<CellValue>,
) -> bool {
    &&& types.len() == parts.len()
    &&& row.len() == parts.len()
    &&& forall|i: int|
        0 <= i < parts.len() ==> cell_has_type(#[trigger] row[i], types[i]) && cell_consistent(
            parts[i],
            types[i],
            row[i],
        )
}

/// Every reference in the predicate carries the declared type of the column
/// it points at — the binding step's other invariant.
pub open spec fn pred_typed(types: Seq<PrimitiveType>, p: BoundPredicate) -> bool
    decreases p,
{
    match p {
        BoundPredicate::AlwaysTrue => true,
        BoundPredicate::AlwaysFalse => true,
        BoundPredicate::And(l, r) => pred_typed(types, *l) && pred_typed(types, *r),
        BoundPredicate::Or(l, r) => pred_typed(types, *l) && pred_typed(types, *r),
        BoundPredicate::Not(inner) => pred_typed(types, *inner),
        BoundPredicate::Unary(_, reference) => reference.field_type == types[reference.position
            as int],
        BoundPredicate::Binary(_, reference, _) => reference.field_type == types[reference.position
            as int],
        BoundPredicate::SetOp(_, reference, _) => reference.field_type == types[reference.position
            as int],
    }
}

/// No false exclusion: over any statistics consistent with a row that
/// satisfies the predicate, the evaluator never answers cannot-match. It may
/// answer might-match, or report an error for a predicate it refuses.
pub proof fn lemma_no_false_exclusion(
    parts: Seq<FieldSummary>,
    types: Seq<PrimitiveType>,
    row: Seq<CellValue>,
    p: BoundPredicate,
)
    requires
        pred_wf(parts, p),
        pred_typed(types, p),
        row_consistent(parts, types, row),
        row_sat(row, p),
    ensures
        eval_pred(parts, p) != Result::<bool, EvalError>::Ok(false),
    decreases p,
{
    match p {
        BoundPredicate::AlwaysTrue => {},
        BoundPredicate::AlwaysFalse => {
            assert(row_val(row, p) == Truth::False);
        },
        BoundPredicate::And(l, r) => {
            lemma_no_false_exclusion(parts, types, row, *l);
            lemma_no_false_exclusion(parts, types, row, *r);
        },
        BoundPredicate::Or(l, r) => {
            if row_val(row, *l) == Truth::True {
                lemma_no_false_exclusion(parts, types, row, *l);
            } else {
                lemma_no_false_exclusion(parts, types, row, *r);
            }
        },
        BoundPredicate::Not(_) => {},
        BoundPredicate::Unary(op, reference) => {
            let pos = reference.position as int;
            let f = parts[pos];
            let t = reference.field_type;
            let c = row[pos];
            assert(cell_has_type(c, t) && cell_consistent(f, t, c));
            assert(unary_truth(op, c) == Truth::True);
            match op {
                UnaryOperator::IsNull => {
                    assert(c is Null);
                },
                UnaryOperator::NotNull => {
                    if definitely_all_null(f, t) {
                        match c {
                            CellValue::Null => {
                                assert(false);
                            },
                            CellValue::Nan => {
                                assert(f.contains_nan == NanStatus::Absent);
                                assert(false);
                            },
                            CellValue::FloatVal => {
                                assert(f.lower_bound is Some);
                                assert(false);
                            },
                            CellValue::Value(_) => {
                                assert(f.lower_bound is Some);
                                assert(false);
                            },
                        }
                    }
                },
                UnaryOperator::IsNan => {
                    assert(c is Nan);
                    assert(f.contains_nan != NanStatus::Absent);
                    assert(is_floating(t));
                    assert(!definitely_all_null(f, t));
                },
                UnaryOperator::NotNan => {
                    if f.contains_nan == NanStatus::Present && !f.contains_null
                        && f.lower_bound is None {
                        match c {
                            CellValue::Null => {
                                assert(false);
                            },
                            CellValue::Nan => {},
                            CellValue::FloatVal => {
                                assert(false);
                            },
                            CellValue::Value(_) => {
                                assert(false);
                            },
                        }
                    }
                },
            }
        },
        BoundPredicate::Binary(op, reference, lit) => {
            let pos = reference.position as int;
            let f = parts[pos];
            let t = reference.field_type;
            let c = row[pos];
            let d = lit@;
            assert(cell_has_type(c, t) && cell_consistent(f, t, c));
            assert(binary_truth(op, c, d) == Truth::True);
            let v = c->Value_0;
            assert(c is Value);
            let lo = lower_lit(f, t)->Some_0;
            let up = upper_lit(f, t)->Some_0;
            assert(lower_lit(f, t) is Some && upper_lit(f, t) is Some);
            assert(lit_le(lo, v) && lit_le(v, up));
            match op {
                BinaryOperator::LessThan => {
                    lemma_lit_le_lt(lo, v, d);
                },
                BinaryOperator::LessThanOrEq => {
                    lemma_lit_le_trans(lo, v, d);
                },
                BinaryOperator::GreaterThan => {
                    lemma_lit_lt_le(d, v, up);
                },
                BinaryOperator::GreaterThanOrEq => {
                    lemma_lit_le_trans(d, v, up);
                },
                BinaryOperator::Eq => {
                    lemma_lit_eq_is_eq(v, d);
                },
                BinaryOperator::NotEq => {},
                BinaryOperator::StartsWith => {
                    let x = v->Str_0;
                    let pfx = d->Str_0;
                    assert(starts_with_bytes(x, pfx));
                    assert(type_of(v) == t && t == PrimitiveType::Str);
                    let lb = f.lower_bound->0;
                    let ub = f.upper_bound->0;
                    assert(lo == LiteralView::Str(lb@) && up == LiteralView::Str(ub@));
                    assert(!bytes_lt(x, lb@));
                    assert(!bytes_lt(ub@, x));
                    let m1: int = if lb@.len() <= pfx.len() {
                        lb@.len() as int
                    } else {
                        pfx.len() as int
                    };
                    let m2: int = if ub@.len() <= pfx.len() {
                        ub@.len() as int
                    } else {
                        pfx.len() as int
                    };
                    if bytes_lt(pfx, lb@.subrange(0, m1)) {
                        lemma_prefix_below_lower(lb@, x, pfx);
                        assert(false);
                    }
                    if bytes_lt(ub@.subrange(0, m2), pfx) {
                        lemma_prefix_above_upper(ub@, x, pfx);
                        assert(false);
                    }
                },
                BinaryOperator::NotStartsWith => {
                    let x = v->Str_0;
                    let pfx = d->Str_0;
                    assert(!starts_with_bytes(x, pfx));
                    assert(type_of(v) == t && t == PrimitiveType::Str);
                    let lb = f.lower_bound->0;
                    let ub = f.upper_bound->0;
                    assert(lo == LiteralView::Str(lb@) && up == LiteralView::Str(ub@));
                    if !f.contains_null && starts_with_bytes(lb@, pfx) && starts_with_bytes(
                        ub@,
                        pfx,
                    ) {
                        lemma_sandwich_starts_with(lb@, ub@, x, pfx);
                        assert(false);
                    }
                },
            }
        },
        BoundPredicate::SetOp(op, reference, lits) => {
            let pos = reference.position as int;
            let f = parts[pos];
            let t = reference.field_type;
            let c = row[pos];
            assert(cell_has_type(c, t) && cell_consistent(f, t, c));
            assert(set_truth(op, c, lits_view(lits@)) == Truth::True);
            match op {
                SetOperator::In => {
                    let v = c->Value_0;
                    assert(c is Value);
                    assert(lits_view(lits@).contains(v));
                    let m = choose|m: Literal| lits@.contains(m) && v == m@;
                    assert(lits@.contains(m) && m@ == v);
                    let lo = lower_lit(f, t)->Some_0;
                    assert(lower_lit(f, t) is Some);
                    assert(lit_le(lo, v));
                    assert(!lit_lt(m@, lo));
                    match upper_lit(f, t) {
                        Option::Some(up) => {
                            assert(lit_le(v, up));
                            assert(!lit_lt(up, m@));
                        },
                        Option::None => {},
                    }
                },
                SetOperator::NotIn => {},
            }
        },
    }
}

/// The guarantee carried through negation elimination: over statistics
/// consistent with a row that the original predicate is known to satisfy,
/// the rewritten predicate never evaluates to cannot-match either, since
/// rewriting preserves the predicate's row-level meaning.
pub proof fn lemma_no_false_exclusion_after_rewrite(
    parts: Seq<FieldSummary>,
    types: Seq<PrimitiveType>,
    row: Seq<CellValue>,
    p: BoundPredicate,
)
    requires
        pred_wf(parts, spec_rewrite(p)),
        pred_typed(types, spec_rewrite(p)),
        row_consistent(parts, types, row),
        row_sat(row, p),
    ensures
        eval_pred(parts, spec_rewrite(p)) != Result::<bool, EvalError>::Ok(false),
{
    lemma_rewrite_preserves_row_val(row, p);
    lemma_no_false_exclusion(parts, types, row, spec_rewrite(p));
}

} // verus!
