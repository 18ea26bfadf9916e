//! The bound predicate tree and negation elimination.
//!
//! A bound predicate is an immutable filter expression whose column
//! references are already resolved to positions in the partition-statistics
//! array. Negation elimination pushes every `Not` node to the leaves — De
//! Morgan's laws for the connectives, operator inversion for the leaves —
//! and yields an equivalent tree with no `Not` node, which is the only form
//! the statistics evaluator accepts.

use vstd::prelude::*;

use crate::literal::{Literal, PrimitiveType};

verus! {

/// Operator of a leaf over one column and no literal.
#[derive(Clone, Copy, PartialEq, Eq, Structural, Debug)]
pub enum UnaryOperator {
    IsNull,
    NotNull,
    IsNan,
    NotNan,
}

/// Operator of a leaf over one column and one literal.
#[derive(Clone, Copy, PartialEq, Eq, Structural, Debug)]
pub enum BinaryOperator {
    LessThan,
    LessThanOrEq,
    GreaterThan,
    GreaterThanOrEq,
    Eq,
    NotEq,
    StartsWith,
    NotStartsWith,
}

/// Operator of a leaf over one column and a set of literals.
#[derive(Clone, Copy, PartialEq, Eq, Structural, Debug)]
pub enum SetOperator {
    In,
    NotIn,
}

/// A column reference already resolved by the binding step: the column's
/// position within the partition statistics array, and its declared
/// primitive type. That the position is a valid index is an invariant
/// enforced upstream.
#[derive(Clone, Copy, PartialEq, Eq, Structural, Debug)]
pub struct BoundReference {
    pub position: usize,
    pub field_type: PrimitiveType,
}

impl BoundReference {
    /// A reference to the column at `position` of type `field_type`.
    pub fn new(position: usize, field_type: PrimitiveType) -> (r: BoundReference)
        ensures
            r.position == position,
            r.field_type == field_type,
    {
        BoundReference { position, field_type }
    }
}

/// A filter predicate over bound columns.
pub enum BoundPredicate {
    AlwaysTrue,
    AlwaysFalse,
    And(Box<BoundPredicate>, Box<BoundPredicate>),
    Or(Box<BoundPredicate>, Box<BoundPredicate>),
    Not(Box<BoundPredicate>),
    Unary(UnaryOperator, BoundReference),
    Binary(BinaryOperator, BoundReference, Literal),
    SetOp(SetOperator, BoundReference, fnv::FnvHashSet<Literal>),
}

/// The tree holds a `Not` node somewhere.
pub open spec fn has_not(p: BoundPredicate) -> bool
    decreases p,
{
    match p {
        BoundPredicate::And(l, r) => has_not(*l) || has_not(*r),
        BoundPredicate::Or(l, r) => has_not(*l) || has_not(*r),
        BoundPredicate::Not(_) => true,
        _ => false,
    }
}

/// The inversion of a unary operator.
pub open spec fn negate_unary(op: UnaryOperator) -> UnaryOperator {
    match op {
        UnaryOperator::IsNull => UnaryOperator::NotNull,
        UnaryOperator::NotNull => UnaryOperator::IsNull,
        UnaryOperator::IsNan => UnaryOperator::NotNan,
        UnaryOperator::NotNan => UnaryOperator::IsNan,
    }
}

/// The inversion of a binary operator.
pub open spec fn negate_binary(op: BinaryOperator) -> BinaryOperator {
    match op {
        BinaryOperator::LessThan => BinaryOperator::GreaterThanOrEq,
        BinaryOperator::LessThanOrEq => BinaryOperator::GreaterThan,
        BinaryOperator::GreaterThan => BinaryOperator::LessThanOrEq,
        BinaryOperator::GreaterThanOrEq => BinaryOperator::LessThan,
        BinaryOperator::Eq => BinaryOperator::NotEq,
        BinaryOperator::NotEq => BinaryOperator::Eq,
        BinaryOperator::StartsWith => BinaryOperator::NotStartsWith,
        BinaryOperator::NotStartsWith => BinaryOperator::StartsWith,
    }
}

/// The inversion of a set operator.
pub open spec fn negate_set(op: SetOperator) -> SetOperator {
    match op {
        SetOperator::In => SetOperator::NotIn,
        SetOperator::NotIn => SetOperator::In,
    }
}

/// What negation elimination yields: `Not` nodes are pushed to the leaves
/// and eliminated there by operator inversion.
pub open spec fn spec_rewrite(p: BoundPredicate) -> BoundPredicate
    decreases p,
{
    match p {
        BoundPredicate::And(l, r) => BoundPredicate::And(
            Box::new(spec_rewrite(*l)),
            Box::new(spec_rewrite(*r)),
        ),
        BoundPredicate::Or(l, r) => BoundPredicate::Or(
            Box::new(spec_rewrite(*l)),
            Box::new(spec_rewrite(*r)),
        ),
        BoundPredicate::Not(inner) => spec_negate(*inner),
        _ => p,
    }
}

/// What negation elimination yields for the negation of `p`.
pub open spec fn spec_negate(p: BoundPredicate) -> BoundPredicate
    decreases p,
{
    match p {
        BoundPredicate::AlwaysTrue => BoundPredicate::AlwaysFalse,
        BoundPredicate::AlwaysFalse => BoundPredicate::AlwaysTrue,
        BoundPredicate::And(l, r) => BoundPredicate::Or(
            Box::new(spec_negate(*l)),
            Box::new(spec_negate(*r)),
        ),
        BoundPredicate::Or(l, r) => BoundPredicate::And(
            Box::new(spec_negate(*l)),
            Box::new(spec_negate(*r)),
        ),
        BoundPredicate::Not(inner) => spec_rewrite(*inner),
        BoundPredicate::Unary(op, reference) => BoundPredicate::Unary(negate_unary(op), reference),
        BoundPredicate::Binary(op, reference, lit) => BoundPredicate::Binary(
            negate_binary(op),
            reference,
            lit,
        ),
        BoundPredicate::SetOp(op, reference, lits) => BoundPredicate::SetOp(
            negate_set(op),
            reference,
            lits,
        ),
    }
}

/// Negation elimination leaves no `Not` node behind.
pub proof fn lemma_rewrite_not_free(p: BoundPredicate)
    ensures
        !has_not(spec_rewrite(p)),
        !has_not(spec_negate(p)),
    decreases p,
{
    match p {
        BoundPredicate::And(l, r) => {
            lemma_rewrite_not_free(*l);
            lemma_rewrite_not_free(*r);
        },
        BoundPredicate::Or(l, r) => {
            lemma_rewrite_not_free(*l);
            lemma_rewrite_not_free(*r);
        },
        BoundPredicate::Not(inner) => {
            lemma_rewrite_not_free(*inner);
        },
        _ => {},
    }
}

/// Negation elimination is involutive under double negation: rewriting
/// `Not(Not(p))` yields exactly what rewriting `p` yields.
pub proof fn lemma_rewrite_double_negation(p: BoundPredicate)
    ensures
        spec_rewrite(
            BoundPredicate::Not(Box::new(BoundPredicate::Not(Box::new(p)))),
        ) == spec_rewrite(p),
{
    let inner = BoundPredicate::Not(Box::new(p));
    let outer = BoundPredicate::Not(Box::new(inner));
    assert(spec_rewrite(outer) == spec_negate(inner));
    assert(spec_negate(inner) == spec_rewrite(p));
}

impl BoundPredicate {
    /// Eliminates every `Not` node by pushing negation to the leaves.
    pub fn rewrite_not(self) -> (r: BoundPredicate)
        ensures
            r == spec_rewrite(self),
        decreases self,
    {
        match self {
            BoundPredicate::And(l, r) => BoundPredicate::And(
                Box::new((*l).rewrite_not()),
                Box::new((*r).rewrite_not()),
            ),
            BoundPredicate::Or(l, r) => BoundPredicate::Or(
                Box::new((*l).rewrite_not()),
                Box::new((*r).rewrite_not()),
            ),
            BoundPredicate::Not(inner) => (*inner).negate_pushed(),
            p => p,
        }
    }

    /// Eliminates every `Not` node of the negation of `self`.
    fn negate_pushed(self) -> (r: BoundPredicate)
        ensures
            r == spec_negate(self),
        decreases self,
    {
        match self {
            BoundPredicate::AlwaysTrue => BoundPredicate::AlwaysFalse,
            BoundPredicate::AlwaysFalse => BoundPredicate::AlwaysTrue,
            BoundPredicate::And(l, r) => BoundPredicate::Or(
                Box::new((*l).negate_pushed()),
                Box::new((*r).negate_pushed()),
            ),
            BoundPredicate::Or(l, r) => BoundPredicate::And(
                Box::new((*l).negate_pushed()),
                Box::new((*r).negate_pushed()),
            ),
            BoundPredicate::Not(inner) => (*inner).rewrite_not(),
            BoundPredicate::Unary(op, reference) => BoundPredicate::Unary(
                flip_unary(op),
                reference,
            ),
            BoundPredicate::Binary(op, reference, lit) => BoundPredicate::Binary(
                flip_binary(op),
                reference,
                lit,
            ),
            BoundPredicate::SetOp(op, reference, lits) => BoundPredicate::SetOp(
                flip_set(op),
                reference,
                lits,
            ),
        }
    }
}

/// Inverts a unary operator.
fn flip_unary(op: UnaryOperator) -> (r: UnaryOperator)
    ensures
        r == negate_unary(op),
{
    match op {
        UnaryOperator::IsNull => UnaryOperator::NotNull,
        UnaryOperator::NotNull => UnaryOperator::IsNull,
        UnaryOperator::IsNan => UnaryOperator::NotNan,
        UnaryOperator::NotNan => UnaryOperator::IsNan,
    }
}

/// Inverts a binary operator.
fn flip_binary(op: BinaryOperator) -> (r: BinaryOperator)
    ensures
        r == negate_binary(op),
{
    match op {
        BinaryOperator::LessThan => BinaryOperator::GreaterThanOrEq,
        BinaryOperator::LessThanOrEq => BinaryOperator::GreaterThan,
        BinaryOperator::GreaterThan => BinaryOperator::LessThanOrEq,
        BinaryOperator::GreaterThanOrEq => BinaryOperator::LessThan,
        BinaryOperator::Eq => BinaryOperator::NotEq,
        BinaryOperator::NotEq => BinaryOperator::Eq,
        BinaryOperator::StartsWith => BinaryOperator::NotStartsWith,
        BinaryOperator::NotStartsWith => BinaryOperator::StartsWith,
    }
}

/// Inverts a set operator.
fn flip_set(op: SetOperator) -> (r: SetOperator)
    ensures
        r == negate_set(op),
{
    match op {
        SetOperator::In => SetOperator::NotIn,
        SetOperator::NotIn => SetOperator::In,
    }
}

} // verus!
