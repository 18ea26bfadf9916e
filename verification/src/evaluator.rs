//! The partition statistics evaluator.
//!
//! Given a bound predicate and one manifest's partition statistics, the
//! evaluator answers whether any row in the files the manifest summarizes
//! could satisfy the predicate: `true` means "might match, scan the
//! manifest", `false` means "provably excluded, skip it". The verdict is
//! conservative by design — a wrong `true` costs a scan, a wrong `false`
//! would lose data.

use vstd::prelude::*;

use crate::literal::{
    decode, decode_spec, lemma_decode_type, lit_le, lit_lt, type_of, Literal, LiteralView,
    PrimitiveType,
};
use crate::litset::{set_elements, set_len};
use crate::order::{bytes_lt, lex_lt_upto, eq_upto, starts_with_bytes};
use crate::predicate::{
    has_not, spec_rewrite, BinaryOperator, BoundPredicate, BoundReference, SetOperator,
    UnaryOperator,
};
use crate::summary::{are_all_null, definitely_all_null, FieldSummary, NanStatus};

verus! {

/// A membership predicate over more values than this is never used to prune:
/// the per-member comparisons would cost more than the scan they could save.
pub const IN_PREDICATE_LIMIT: usize = 200;

/// The errors evaluation can report. Both indicate a defect upstream — a
/// `Not` node that negation elimination should have removed, or a prefix
/// operator bound to a non-string literal — not a data condition.
#[derive(Clone, Copy, PartialEq, Eq, Structural, Debug)]
pub enum EvalError {
    UnsupportedNot,
    NonStringPrefix,
}

/// The lower bound of a field, decoded at the column's type.
pub open spec fn lower_lit(f: FieldSummary, t: PrimitiveType) -> Option<LiteralView> {
    match f.lower_bound {
        Option::Some(b) => decode_spec(b@, t),
        Option::None => Option::None,
    }
}

/// The upper bound of a field, decoded at the column's type.
pub open spec fn upper_lit(f: FieldSummary, t: PrimitiveType) -> Option<LiteralView> {
    match f.upper_bound {
        Option::Some(b) => decode_spec(b@, t),
        Option::None => Option::None,
    }
}

/// Verdict for `col IS NULL`: a null can only occur where one was recorded.
pub open spec fn is_null_verdict(f: FieldSummary) -> bool {
    f.contains_null
}

/// Verdict for `col IS NOT NULL`: only a provably all-null field rules a
/// non-null value out.
pub open spec fn not_null_verdict(f: FieldSummary, t: PrimitiveType) -> bool {
    !definitely_all_null(f, t)
}

/// Verdict for `col IS NAN`: ruled out when NaN is known absent or the field
/// is provably all null; an unknown NaN status stays optimistic.
pub open spec fn is_nan_verdict(f: FieldSummary, t: PrimitiveType) -> bool {
    f.contains_nan != NanStatus::Absent && !definitely_all_null(f, t)
}

/// Verdict for `col IS NOT NAN`: ruled out only when the statistics prove
/// every value is NaN — NaN present, no null, and no non-NaN value left a
/// lower bound.
pub open spec fn not_nan_verdict(f: FieldSummary) -> bool {
    !(f.contains_nan == NanStatus::Present && !f.contains_null && f.lower_bound is None)
}

/// Verdict for `col < d`: a value below `d` exists only if the minimum lies
/// below `d`; no recorded minimum means no non-null value at all.
pub open spec fn lt_verdict(f: FieldSummary, t: PrimitiveType, d: LiteralView) -> bool {
    match lower_lit(f, t) {
        Option::Some(lo) => lit_lt(lo, d),
        Option::None => false,
    }
}

/// Verdict for `col <= d`.
pub open spec fn lte_verdict(f: FieldSummary, t: PrimitiveType, d: LiteralView) -> bool {
    match lower_lit(f, t) {
        Option::Some(lo) => lit_le(lo, d),
        Option::None => false,
    }
}

/// Verdict for `col > d`.
pub open spec fn gt_verdict(f: FieldSummary, t: PrimitiveType, d: LiteralView) -> bool {
    match upper_lit(f, t) {
        Option::Some(up) => lit_lt(d, up),
        Option::None => false,
    }
}

/// Verdict for `col >= d`.
pub open spec fn gte_verdict(f: FieldSummary, t: PrimitiveType, d: LiteralView) -> bool {
    match upper_lit(f, t) {
        Option::Some(up) => lit_le(d, up),
        Option::None => false,
    }
}

/// Verdict for `col = d`: `d` must lie within both bounds.
pub open spec fn eq_verdict(f: FieldSummary, t: PrimitiveType, d: LiteralView) -> bool {
    match (lower_lit(f, t), upper_lit(f, t)) {
        (Option::Some(lo), Option::Some(up)) => lit_le(lo, d) && lit_le(d, up),
        _ => false,
    }
}

/// Verdict for `col STARTS WITH p`: ruled out when the prefix, compared to a
/// bound truncated to the shorter of the two lengths, falls strictly outside
/// the bound.
pub open spec fn starts_with_verdict(f: FieldSummary, p: Seq<u8>) -> bool {
    match (f.lower_bound, f.upper_bound) {
        (Option::Some(lb), Option::Some(ub)) => {
            let m1: int = if lb@.len() <= p.len() {
                lb@.len() as int
            } else {
                p.len() as int
            };
            let m2: int = if ub@.len() <= p.len() {
                ub@.len() as int
            } else {
                p.len() as int
            };
            !bytes_lt(p, lb@.subrange(0, m1)) && !bytes_lt(ub@.subrange(0, m2), p)
        },
        _ => false,
    }
}

/// Verdict for `col NOT STARTS WITH p`: ruled out only when both bounds
/// begin with `p` and no null occurs, so every value provably carries the
/// prefix.
pub open spec fn not_starts_with_verdict(f: FieldSummary, p: Seq<u8>) -> bool {
    if f.contains_null {
        true
    } else {
        match (f.lower_bound, f.upper_bound) {
            (Option::Some(lb), Option::Some(ub)) => !(starts_with_bytes(lb@, p)
                && starts_with_bytes(ub@, p)),
            _ => true,
        }
    }
}

/// Verdict for `col IN s`: ruled out when every member lies strictly below
/// the minimum or strictly above the maximum; over the cardinality limit the
/// check is skipped and the verdict stays might-match.
pub open spec fn in_verdict(f: FieldSummary, t: PrimitiveType, s: Set<Literal>) -> bool {
    if f.lower_bound is None {
        false
    } else if s.len() > IN_PREDICATE_LIMIT {
        true
    } else {
        match lower_lit(f, t) {
            Option::Some(lo) => if forall|m: Literal| s.contains(m) ==> lit_lt(m@, lo) {
                false
            } else {
                match upper_lit(f, t) {
                    Option::Some(up) => !(forall|m: Literal| s.contains(m) ==> lit_lt(up, m@)),
                    Option::None => true,
                }
            },
            Option::None => false,
        }
    }
}

/// The binary operator compares decoded bounds against the literal.
pub open spec fn is_order_op(op: BinaryOperator) -> bool {
    op == BinaryOperator::LessThan || op == BinaryOperator::LessThanOrEq || op
        == BinaryOperator::GreaterThan || op == BinaryOperator::GreaterThanOrEq || op
        == BinaryOperator::Eq
}

/// Both recorded bounds of a field decode at type `t`.
pub open spec fn bounds_decodable(f: FieldSummary, t: PrimitiveType) -> bool {
    &&& match f.lower_bound {
        Option::Some(b) => decode_spec(b@, t) is Some,
        Option::None => true,
    }
    &&& match f.upper_bound {
        Option::Some(b) => decode_spec(b@, t) is Some,
        Option::None => true,
    }
}

/// The binding invariants evaluation relies on: every referenced position
/// indexes the statistics array, every literal that is ordered against a
/// bound has the column's type, and every bound that must be decoded
/// decodes. Violations are upstream corruption, not runtime conditions.
pub open spec fn pred_wf(parts: Seq<FieldSummary>, p: BoundPredicate) -> bool
    decreases p,
{
    match p {
        BoundPredicate::AlwaysTrue => true,
        BoundPredicate::AlwaysFalse => true,
        BoundPredicate::And(l, r) => pred_wf(parts, *l) && pred_wf(parts, *r),
        BoundPredicate::Or(l, r) => pred_wf(parts, *l) && pred_wf(parts, *r),
        BoundPredicate::Not(inner) => pred_wf(parts, *inner),
        BoundPredicate::Unary(_, reference) => reference.position < parts.len(),
        BoundPredicate::Binary(op, reference, lit) => reference.position < parts.len() && (
        is_order_op(op) ==> (type_of(lit@) == reference.field_type && bounds_decodable(
            parts[reference.position as int],
            reference.field_type,
        ))),
        BoundPredicate::SetOp(op, reference, lits) => reference.position < parts.len() && (op
            == SetOperator::In ==> (bounds_decodable(
            parts[reference.position as int],
            reference.field_type,
        ) && forall|m: Literal| lits@.contains(m) ==> type_of(m@) == reference.field_type)),
    }
}

/// What evaluating `p` over the statistics array yields: a might-match
/// verdict, or an error for a `Not` node or a non-string prefix literal.
/// Operands of a connective are evaluated left to right before combining,
/// so the left operand's error wins.
pub open spec fn eval_pred(parts: Seq<FieldSummary>, p: BoundPredicate) -> Result<
    bool,
    EvalError,
>
    decreases p,
{
    match p {
        BoundPredicate::AlwaysTrue => Result::Ok(true),
        BoundPredicate::AlwaysFalse => Result::Ok(false),
        BoundPredicate::And(l, r) => match (eval_pred(parts, *l), eval_pred(parts, *r)) {
            (Result::Err(e), _) => Result::Err(e),
            (Result::Ok(_), Result::Err(e)) => Result::Err(e),
            (Result::Ok(a), Result::Ok(b)) => Result::Ok(a && b),
        },
        BoundPredicate::Or(l, r) => match (eval_pred(parts, *l), eval_pred(parts, *r)) {
            (Result::Err(e), _) => Result::Err(e),
            (Result::Ok(_), Result::Err(e)) => Result::Err(e),
            (Result::Ok(a), Result::Ok(b)) => Result::Ok(a || b),
        },
        BoundPredicate::Not(inner) => match eval_pred(parts, *inner) {
            Result::Ok(_) => Result::Err(EvalError::UnsupportedNot),
            Result::Err(e) => Result::Err(e),
        },
        BoundPredicate::Unary(op, reference) => {
            let f = parts[reference.position as int];
            match op {
                UnaryOperator::IsNull => Result::Ok(is_null_verdict(f)),
                UnaryOperator::NotNull => Result::Ok(not_null_verdict(f, reference.field_type)),
                UnaryOperator::IsNan => Result::Ok(is_nan_verdict(f, reference.field_type)),
                UnaryOperator::NotNan => Result::Ok(not_nan_verdict(f)),
            }
        },
        BoundPredicate::Binary(op, reference, lit) => {
            let f = parts[reference.position as int];
            let t = reference.field_type;
            match op {
                BinaryOperator::LessThan => Result::Ok(lt_verdict(f, t, lit@)),
                BinaryOperator::LessThanOrEq => Result::Ok(lte_verdict(f, t, lit@)),
                BinaryOperator::GreaterThan => Result::Ok(gt_verdict(f, t, lit@)),
                BinaryOperator::GreaterThanOrEq => Result::Ok(gte_verdict(f, t, lit@)),
                BinaryOperator::Eq => Result::Ok(eq_verdict(f, t, lit@)),
                BinaryOperator::NotEq => Result::Ok(true),
                BinaryOperator::StartsWith => if f.lower_bound is None || f.upper_bound is None {
                    Result::Ok(false)
                } else if !(lit@ is Str) {
                    Result::Err(EvalError::NonStringPrefix)
                } else {
                    Result::Ok(starts_with_verdict(f, lit@->Str_0))
                },
                BinaryOperator::NotStartsWith => if f.contains_null || f.lower_bound is None
                    || f.upper_bound is None {
                    Result::Ok(true)
                } else if !(lit@ is Str) {
                    Result::Err(EvalError::NonStringPrefix)
                } else {
                    Result::Ok(not_starts_with_verdict(f, lit@->Str_0))
                },
            }
        },
        BoundPredicate::SetOp(op, reference, lits) => {
            let f = parts[reference.position as int];
            match op {
                SetOperator::In => Result::Ok(in_verdict(f, reference.field_type, lits@)),
                SetOperator::NotIn => Result::Ok(true),
            }
        },
    }
}

/// `AlwaysTrue` evaluates to might-match over any statistics.
pub proof fn lemma_always_true_verdict(parts: Seq<FieldSummary>)
    ensures
        eval_pred(parts, BoundPredicate::AlwaysTrue) == Result::<bool, EvalError>::Ok(true),
{
}

/// `AlwaysFalse` evaluates to cannot-match over any statistics.
pub proof fn lemma_always_false_verdict(parts: Seq<FieldSummary>)
    ensures
        eval_pred(parts, BoundPredicate::AlwaysFalse) == Result::<bool, EvalError>::Ok(false),
{
}

/// A `NotEq` leaf yields might-match whatever the bounds hold: bounds are
/// not an inventory, so a specific value is never provably absent.
pub proof fn lemma_not_eq_might_match(
    parts: Seq<FieldSummary>,
    reference: BoundReference,
    datum: Literal,
)
    ensures
        eval_pred(parts, BoundPredicate::Binary(BinaryOperator::NotEq, reference, datum))
            == Result::<bool, EvalError>::Ok(true),
{
}

/// A `NotIn` leaf yields might-match whatever the bounds hold.
pub proof fn lemma_not_in_might_match(
    parts: Seq<FieldSummary>,
    reference: BoundReference,
    literals: fnv::FnvHashSet<Literal>,
)
    ensures
        eval_pred(parts, BoundPredicate::SetOp(SetOperator::NotIn, reference, literals))
            == Result::<bool, EvalError>::Ok(true),
{
}

/// A predicate holding a `Not` node yields no verdict over any statistics:
/// evaluation stops with an error.
pub proof fn lemma_not_needs_rewrite(parts: Seq<FieldSummary>, p: BoundPredicate)
    requires
        has_not(p),
    ensures
        eval_pred(parts, p) is Err,
    decreases p,
{
    match p {
        BoundPredicate::And(l, r) => {
            if has_not(*l) {
                lemma_not_needs_rewrite(parts, *l);
            } else {
                lemma_not_needs_rewrite(parts, *r);
            }
        },
        BoundPredicate::Or(l, r) => {
            if has_not(*l) {
                lemma_not_needs_rewrite(parts, *l);
            } else {
                lemma_not_needs_rewrite(parts, *r);
            }
        },
        _ => {},
    }
}

/// A predicate with no `Not` node never reports the unsupported-negation
/// error; after negation elimination the only error left is a prefix
/// operator bound to a non-string literal.
pub proof fn lemma_not_free_no_negation_error(parts: Seq<FieldSummary>, p: BoundPredicate)
    requires
        !has_not(p),
    ensures
        eval_pred(parts, p) != Result::<bool, EvalError>::Err(EvalError::UnsupportedNot),
    decreases p,
{
    match p {
        BoundPredicate::And(l, r) => {
            lemma_not_free_no_negation_error(parts, *l);
            lemma_not_free_no_negation_error(parts, *r);
        },
        BoundPredicate::Or(l, r) => {
            lemma_not_free_no_negation_error(parts, *l);
            lemma_not_free_no_negation_error(parts, *r);
        },
        _ => {},
    }
}

/// The traversal state: one manifest's partition statistics, positionally
/// aligned with the predicate's column references.
pub struct ManifestFilterVisitor<'a> {
    pub partitions: &'a Vec<FieldSummary>,
}

impl<'a> ManifestFilterVisitor<'a> {
    /// A visitor over one manifest's statistics.
    pub fn new(partitions: &'a Vec<FieldSummary>) -> (r: Self)
        ensures
            r.partitions@ == partitions@,
    {
        ManifestFilterVisitor { partitions }
    }

    /// The field summary the reference points at.
    pub fn field_summary_for_reference(&self, reference: &BoundReference) -> (f: &FieldSummary)
        requires
            reference.position < self.partitions@.len(),
        ensures
            *f == self.partitions@[reference.position as int],
    {
        &self.partitions[reference.position]
    }

    /// Decides [`definitely_all_null`] for one field summary.
    pub fn are_all_null(field: &FieldSummary, field_type: PrimitiveType) -> (r: bool)
        ensures
            r == definitely_all_null(*field, field_type),
    {
        crate::summary::are_all_null(field, field_type)
    }

    /// The string bytes of a literal bound to a prefix operator; a
    /// non-string literal is a binding defect, not a data condition.
    pub fn datum_as_str<'d>(bound: &'d Literal) -> (r: Result<&'d Vec<u8>, EvalError>)
        ensures
            match r {
                Result::Ok(b) => bound@ == LiteralView::Str(b@),
                Result::Err(e) => !(bound@ is Str) && e == EvalError::NonStringPrefix,
            },
    {
        match bound.str_bytes() {
            Some(b) => Ok(b),
            None => Err(EvalError::NonStringPrefix),
        }
    }

    /// `col IS NULL` over the referenced column.
    fn is_null(&self, reference: &BoundReference) -> (r: bool)
        requires
            reference.position < self.partitions@.len(),
        ensures
            r == is_null_verdict(self.partitions@[reference.position as int]),
    {
        self.field_summary_for_reference(reference).contains_null
    }

    /// `col IS NOT NULL` over the referenced column.
    fn not_null(&self, reference: &BoundReference) -> (r: bool)
        requires
            reference.position < self.partitions@.len(),
        ensures
            r == not_null_verdict(
                self.partitions@[reference.position as int],
                reference.field_type,
            ),
    {
        let field = self.field_summary_for_reference(reference);
        !are_all_null(field, reference.field_type)
    }

    /// `col IS NAN` over the referenced column.
    fn is_nan(&self, reference: &BoundReference) -> (r: bool)
        requires
            reference.position < self.partitions@.len(),
        ensures
            r == is_nan_verdict(self.partitions@[reference.position as int], reference.field_type),
    {
        let field = self.field_summary_for_reference(reference);
        match field.contains_nan {
            NanStatus::Absent => false,
            _ => !are_all_null(field, reference.field_type),
        }
    }

    /// `col IS NOT NAN` over the referenced column.
    fn not_nan(&self, reference: &BoundReference) -> (r: bool)
        requires
            reference.position < self.partitions@.len(),
        ensures
            r == not_nan_verdict(self.partitions@[reference.position as int]),
    {
        let field = self.field_summary_for_reference(reference);
        match field.contains_nan {
            NanStatus::Present => !(!field.contains_null && field.lower_bound.is_none()),
            _ => true,
        }
    }

    /// `col < d` over the referenced column.
    fn less_than(&self, reference: &BoundReference, datum: &Literal) -> (r: bool)
        requires
            reference.position < self.partitions@.len(),
            type_of(datum@) == reference.field_type,
            bounds_decodable(self.partitions@[reference.position as int], reference.field_type),
        ensures
            r == lt_verdict(
                self.partitions@[reference.position as int],
                reference.field_type,
                datum@,
            ),
    {
        let field = self.field_summary_for_reference(reference);
        match &field.lower_bound {
            Some(bound_bytes) => {
                let bound = bytes_to_literal(bound_bytes, reference.field_type);
                !datum.le(&bound)
            },
            None => false,
        }
    }

    /// `col <= d` over the referenced column.
    fn less_than_or_eq(&self, reference: &BoundReference, datum: &Literal) -> (r: bool)
        requires
            reference.position < self.partitions@.len(),
            type_of(datum@) == reference.field_type,
            bounds_decodable(self.partitions@[reference.position as int], reference.field_type),
        ensures
            r == lte_verdict(
                self.partitions@[reference.position as int],
                reference.field_type,
                datum@,
            ),
    {
        let field = self.field_summary_for_reference(reference);
        match &field.lower_bound {
            Some(bound_bytes) => {
                let bound = bytes_to_literal(bound_bytes, reference.field_type);
                !datum.lt(&bound)
            },
            None => false,
        }
    }

    /// `col > d` over the referenced column.
    fn greater_than(&self, reference: &BoundReference, datum: &Literal) -> (r: bool)
        requires
            reference.position < self.partitions@.len(),
            type_of(datum@) == reference.field_type,
            bounds_decodable(self.partitions@[reference.position as int], reference.field_type),
        ensures
            r == gt_verdict(
                self.partitions@[reference.position as int],
                reference.field_type,
                datum@,
            ),
    {
        let field = self.field_summary_for_reference(reference);
        match &field.upper_bound {
            Some(bound_bytes) => {
                let bound = bytes_to_literal(bound_bytes, reference.field_type);
                datum.lt(&bound)
            },
            None => false,
        }
    }

    /// `col >= d` over the referenced column.
    fn greater_than_or_eq(&self, reference: &BoundReference, datum: &Literal) -> (r: bool)
        requires
            reference.position < self.partitions@.len(),
            type_of(datum@) == reference.field_type,
            bounds_decodable(self.partitions@[reference.position as int], reference.field_type),
        ensures
            r == gte_verdict(
                self.partitions@[reference.position as int],
                reference.field_type,
                datum@,
            ),
    {
        let field = self.field_summary_for_reference(reference);
        match &field.upper_bound {
            Some(bound_bytes) => {
                let bound = bytes_to_literal(bound_bytes, reference.field_type);
                datum.le(&bound)
            },
            None => false,
        }
    }

    /// `col = d` over the referenced column.
    fn eq(&self, reference: &BoundReference, datum: &Literal) -> (r: bool)
        requires
            reference.position < self.partitions@.len(),
            type_of(datum@) == reference.field_type,
            bounds_decodable(self.partitions@[reference.position as int], reference.field_type),
        ensures
            r == eq_verdict(
                self.partitions@[reference.position as int],
                reference.field_type,
                datum@,
            ),
    {
        let field = self.field_summary_for_reference(reference);
        match (&field.lower_bound, &field.upper_bound) {
            (Some(lower_bytes), Some(upper_bytes)) => {
                let lower = bytes_to_literal(lower_bytes, reference.field_type);
                if !lower.le(datum) {
                    return false;
                }
                let upper = bytes_to_literal(upper_bytes, reference.field_type);
                if !datum.le(&upper) {
                    return false;
                }
                true
            },
            _ => false,
        }
    }

    /// `col != d`: bounds are not a complete inventory of the column's
    /// values, so a specific value can never be proven absent.
    fn not_eq(&self, _reference: &BoundReference, _datum: &Literal) -> (r: bool)
        ensures
            r == true,
    {
        true
    }

    /// `col STARTS WITH p` over the referenced column.
    fn starts_with(&self, reference: &BoundReference, datum: &Literal) -> (r: Result<
        bool,
        EvalError,
    >)
        requires
            reference.position < self.partitions@.len(),
        ensures
            ({
                let f = self.partitions@[reference.position as int];
                if f.lower_bound is None || f.upper_bound is None {
                    r == Result::<bool, EvalError>::Ok(false)
                } else if !(datum@ is Str) {
                    r == Result::<bool, EvalError>::Err(EvalError::NonStringPrefix)
                } else {
                    r == Result::<bool, EvalError>::Ok(starts_with_verdict(f, datum@->Str_0))
                }
            }),
    {
        let field = self.field_summary_for_reference(reference);
        match (&field.lower_bound, &field.upper_bound) {
            (Some(lower_bound), Some(upper_bound)) => {
                let prefix = match Self::datum_as_str(datum) {
                    Ok(p) => p,
                    Err(e) => {
                        return Err(e);
                    },
                };
                let prefix_len = prefix.len();

                let min_len = if lower_bound.len() <= prefix_len {
                    lower_bound.len()
                } else {
                    prefix_len
                };
                if lex_lt_upto(prefix, prefix_len, lower_bound, min_len) {
                    proof {
                        assert(prefix@.subrange(0, prefix_len as int) =~= prefix@);
                    }
                    return Ok(false);
                }

                let min_len_up = if upper_bound.len() <= prefix_len {
                    upper_bound.len()
                } else {
                    prefix_len
                };
                if lex_lt_upto(upper_bound, min_len_up, prefix, prefix_len) {
                    proof {
                        assert(prefix@.subrange(0, prefix_len as int) =~= prefix@);
                    }
                    return Ok(false);
                }
                proof {
                    assert(prefix@.subrange(0, prefix_len as int) =~= prefix@);
                }
                Ok(true)
            },
            _ => Ok(false),
        }
    }

    /// `col NOT STARTS WITH p` over the referenced column.
    fn not_starts_with(&self, reference: &BoundReference, datum: &Literal) -> (r: Result<
        bool,
        EvalError,
    >)
        requires
            reference.position < self.partitions@.len(),
        ensures
            ({
                let f = self.partitions@[reference.position as int];
                if f.contains_null || f.lower_bound is None || f.upper_bound is None {
                    r == Result::<bool, EvalError>::Ok(true)
                } else if !(datum@ is Str) {
                    r == Result::<bool, EvalError>::Err(EvalError::NonStringPrefix)
                } else {
                    r == Result::<bool, EvalError>::Ok(not_starts_with_verdict(f, datum@->Str_0))
                }
            }),
    {
        let field = self.field_summary_for_reference(reference);
        if field.contains_null {
            return Ok(true);
        }
        match (&field.lower_bound, &field.upper_bound) {
            (Some(lower_bound), Some(upper_bound)) => {
                let prefix = match Self::datum_as_str(datum) {
                    Ok(p) => p,
                    Err(e) => {
                        return Err(e);
                    },
                };
                let prefix_len = prefix.len();

                // A bound shorter than the prefix cannot start with it.
                if prefix_len > lower_bound.len() {
                    return Ok(true);
                }
                if eq_upto(prefix, lower_bound, prefix_len) {
                    if prefix_len > upper_bound.len() {
                        return Ok(true);
                    }
                    if eq_upto(prefix, upper_bound, prefix_len) {
                        proof {
                            assert(prefix@.subrange(0, prefix_len as int) =~= prefix@);
                        }
                        return Ok(false);
                    }
                }
                proof {
                    assert(prefix@.subrange(0, prefix_len as int) =~= prefix@);
                }
                Ok(true)
            },
            _ => Ok(true),
        }
    }

    /// `col IN s` over the referenced column.
    fn is_in(&self, reference: &BoundReference, literals: &fnv::FnvHashSet<Literal>) -> (r: bool)
        requires
            reference.position < self.partitions@.len(),
            bounds_decodable(self.partitions@[reference.position as int], reference.field_type),
            forall|m: Literal| literals@.contains(m) ==> type_of(m@) == reference.field_type,
        ensures
            r == in_verdict(
                self.partitions@[reference.position as int],
                reference.field_type,
                literals@,
            ),
    {
        let field = self.field_summary_for_reference(reference);
        match &field.lower_bound {
            None => false,
            Some(lower_bytes) => {
                if set_len(literals) > IN_PREDICATE_LIMIT {
                    return true;
                }
                let members = set_elements(literals);
                let lower = bytes_to_literal(lower_bytes, reference.field_type);

                let mut all_below = true;
                let mut i: usize = 0;
                while i < members.len()
                    invariant
                        0 <= i <= members@.len(),
                        forall|m: Literal| literals@.contains(m) ==> type_of(m@)
                            == reference.field_type,
                        forall|j: int| 0 <= j < members@.len() ==> literals@.contains(members@[j]),
                        type_of(lower@) == reference.field_type,
                        all_below == forall|j: int| 0 <= j < i ==> lit_lt(members@[j]@, lower@),
                    decreases members@.len() - i,
                {
                    if !members[i].lt(&lower) {
                        all_below = false;
                    }
                    i += 1;
                }
                if all_below {
                    proof {
                        assert forall|m: Literal| literals@.contains(m) implies lit_lt(
                            m@,
                            lower@,
                        ) by {
                            assert(members@.contains(m));
                            let j = choose|j: int| 0 <= j < members@.len() && members@[j] == m;
                            assert(lit_lt(members@[j]@, lower@));
                        }
                    }
                    return false;
                }
                proof {
                    let j = choose|j: int| 0 <= j < members@.len() && !lit_lt(members@[j]@, lower@);
                    assert(literals@.contains(members@[j]) && !lit_lt(members@[j]@, lower@));
                }

                match &field.upper_bound {
                    None => true,
                    Some(upper_bytes) => {
                        let upper = bytes_to_literal(upper_bytes, reference.field_type);
                        let mut all_above = true;
                        let mut k: usize = 0;
                        while k < members.len()
                            invariant
                                0 <= k <= members@.len(),
                                forall|m: Literal| literals@.contains(m) ==> type_of(m@)
                                    == reference.field_type,
                                forall|j: int|
                                    0 <= j < members@.len() ==> literals@.contains(members@[j]),
                                type_of(upper@) == reference.field_type,
                                all_above == forall|j: int| 0 <= j < k ==> lit_lt(
                                    upper@,
                                    members@[j]@,
                                ),
                            decreases members@.len() - k,
                        {
                            if !upper.lt(&members[k]) {
                                all_above = false;
                            }
                            k += 1;
                        }
                        if all_above {
                            proof {
                                assert forall|m: Literal| literals@.contains(m) implies lit_lt(
                                    upper@,
                                    m@,
                                ) by {
                                    assert(members@.contains(m));
                                    let j = choose|j: int|
                                        0 <= j < members@.len() && members@[j] == m;
                                    assert(lit_lt(upper@, members@[j]@));
                                }
                            }
                            return false;
                        }
                        proof {
                            let j = choose|j: int|
                                0 <= j < members@.len() && !lit_lt(upper@, members@[j]@);
                            assert(literals@.contains(members@[j]) && !lit_lt(upper@, members@[j]@));
                        }
                        true
                    },
                }
            },
        }
    }

    /// `col NOT IN s`: bounds are not a complete inventory of the column's
    /// values, so membership can never be proven absent.
    fn not_in(&self, _reference: &BoundReference, _literals: &fnv::FnvHashSet<Literal>) -> (r: bool)
        ensures
            r == true,
    {
        true
    }
}

/// Decodes an encoded bound that the binding invariants promise decodable.
fn bytes_to_literal(bytes: &Vec<u8>, t: PrimitiveType) -> (r: Literal)
    requires
        decode_spec(bytes@, t) is Some,
    ensures
        Option::Some(r@) == decode_spec(bytes@, t),
        type_of(r@) == t,
{
    proof {
        lemma_decode_type(bytes@, t);
    }
    match decode(bytes, t) {
        Some(l) => l,
        None => {
            proof {
                assert(false);
            }
            Literal::Int(0)
        },
    }
}

/// Recursively evaluates `predicate` bottom-up, dispatching each node to the
/// visitor and combining child verdicts: `and` is conjunction, `or` is
/// disjunction, and a `Not` node is rejected, since inverting a might-match
/// verdict is unsound over range statistics.
pub fn visit(visitor: &ManifestFilterVisitor, predicate: &BoundPredicate) -> (r: Result<
    bool,
    EvalError,
>)
    requires
        pred_wf(visitor.partitions@, *predicate),
    ensures
        r == eval_pred(visitor.partitions@, *predicate),
    decreases *predicate,
{
    match predicate {
        BoundPredicate::AlwaysTrue => Ok(true),
        BoundPredicate::AlwaysFalse => Ok(false),
        BoundPredicate::And(l, r) => {
            let lhs = match visit(visitor, l) {
                Ok(b) => b,
                Err(e) => {
                    return Err(e);
                },
            };
            let rhs = match visit(visitor, r) {
                Ok(b) => b,
                Err(e) => {
                    return Err(e);
                },
            };
            Ok(lhs && rhs)
        },
        BoundPredicate::Or(l, r) => {
            let lhs = match visit(visitor, l) {
                Ok(b) => b,
                Err(e) => {
                    return Err(e);
                },
            };
            let rhs = match visit(visitor, r) {
                Ok(b) => b,
                Err(e) => {
                    return Err(e);
                },
            };
            Ok(lhs || rhs)
        },
        BoundPredicate::Not(inner) => match visit(visitor, inner) {
            Ok(_) => Err(EvalError::UnsupportedNot),
            Err(e) => Err(e),
        },
        BoundPredicate::Unary(op, reference) => match op {
            UnaryOperator::IsNull => Ok(visitor.is_null(reference)),
            UnaryOperator::NotNull => Ok(visitor.not_null(reference)),
            UnaryOperator::IsNan => Ok(visitor.is_nan(reference)),
            UnaryOperator::NotNan => Ok(visitor.not_nan(reference)),
        },
        BoundPredicate::Binary(op, reference, lit) => match op {
            BinaryOperator::LessThan => Ok(visitor.less_than(reference, lit)),
            BinaryOperator::LessThanOrEq => Ok(visitor.less_than_or_eq(reference, lit)),
            BinaryOperator::GreaterThan => Ok(visitor.greater_than(reference, lit)),
            BinaryOperator::GreaterThanOrEq => Ok(visitor.greater_than_or_eq(reference, lit)),
            BinaryOperator::Eq => Ok(visitor.eq(reference, lit)),
            BinaryOperator::NotEq => Ok(visitor.not_eq(reference, lit)),
            BinaryOperator::StartsWith => visitor.starts_with(reference, lit),
            BinaryOperator::NotStartsWith => visitor.not_starts_with(reference, lit),
        },
        BoundPredicate::SetOp(op, reference, lits) => match op {
            SetOperator::In => Ok(visitor.is_in(reference, lits)),
            SetOperator::NotIn => Ok(visitor.not_in(reference, lits)),
        },
    }
}

/// Builder for a [`ManifestEvaluator`], with optional negation elimination.
pub struct ManifestEvaluatorBuilder {
    pub partition_filter: BoundPredicate,
    pub rewrite_not: bool,
}

impl ManifestEvaluatorBuilder {
    /// A builder holding `partition_filter`, with negation elimination off.
    pub fn new(partition_filter: BoundPredicate) -> (r: Self)
        ensures
            r.partition_filter == partition_filter,
            r.rewrite_not == false,
    {
        ManifestEvaluatorBuilder { partition_filter, rewrite_not: false }
    }

    /// Selects whether negation elimination runs before the evaluator is
    /// built. Without it, any `Not` node fails loudly at evaluation time.
    pub fn with_rewrite_not(self, rewrite_not: bool) -> (r: Self)
        ensures
            r.partition_filter == self.partition_filter,
            r.rewrite_not == rewrite_not,
    {
        ManifestEvaluatorBuilder { partition_filter: self.partition_filter, rewrite_not }
    }

    /// Builds the evaluator, applying negation elimination when selected.
    pub fn build(self) -> (r: ManifestEvaluator)
        ensures
            r.partition_filter == if self.rewrite_not {
                spec_rewrite(self.partition_filter)
            } else {
                self.partition_filter
            },
    {
        let partition_filter = if self.rewrite_not {
            self.partition_filter.rewrite_not()
        } else {
            self.partition_filter
        };
        ManifestEvaluator { partition_filter }
    }
}

/// Decides, once per manifest, whether the manifest's partition statistics
/// admit any row matching the stored filter predicate.
pub struct ManifestEvaluator {
    pub partition_filter: BoundPredicate,
}

impl ManifestEvaluator {
    /// A builder for an evaluator over `partition_filter`.
    pub fn builder(partition_filter: BoundPredicate) -> (r: ManifestEvaluatorBuilder)
        ensures
            r.partition_filter == partition_filter,
            r.rewrite_not == false,
    {
        ManifestEvaluatorBuilder::new(partition_filter)
    }

    /// Evaluates the stored filter against one manifest's partition
    /// statistics. A manifest that carries no statistics at all offers
    /// nothing to prune on and always might match.
    pub fn eval(&self, partitions: &Option<Vec<FieldSummary>>) -> (r: Result<bool, EvalError>)
        requires
            match partitions {
                Option::Some(p) => p@.len() > 0 ==> pred_wf(p@, self.partition_filter),
                Option::None => true,
            },
        ensures
            match partitions {
                Option::Some(p) => if p@.len() > 0 {
                    r == eval_pred(p@, self.partition_filter)
                } else {
                    r == Result::<bool, EvalError>::Ok(true)
                },
                Option::None => r == Result::<bool, EvalError>::Ok(true),
            },
    {
        match partitions {
            Some(p) => {
                if p.len() > 0 {
                    let evaluator = ManifestFilterVisitor::new(p);
                    visit(&evaluator, &self.partition_filter)
                } else {
                    Ok(true)
                }
            },
            None => Ok(true),
        }
    }
}

} // verus!
