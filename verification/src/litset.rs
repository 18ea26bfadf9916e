//! Trusted declarations for the FNV-hashed set that a membership predicate
//! holds its literals in.
//!
//! The set type is `fnv::FnvHashSet<Literal>`, that is
//! `std::collections::HashSet` with the FNV build hasher. The evaluator only
//! reads such a set: it asks for its size and walks its elements. Both are
//! provided here as trusted wrappers whose contracts speak of the set's view.

use vstd::prelude::*;

use crate::literal::Literal;

verus! {

#[verifier::external_type_specification]
#[verifier::external_body]
pub struct ExFnvHasher(fnv::FnvHasher);

#[verifier::external_type_specification]
#[verifier::external_body]
#[verifier::reject_recursive_types(H)]
pub struct ExBuildHasherDefault<H>(std::hash::BuildHasherDefault<H>);

/// Relies on `HashSet::len`: the number of elements held by the set.
#[verifier::external_body]
pub fn set_len(s: &fnv::FnvHashSet<Literal>) -> (n: usize)
    ensures
        n == s@.len(),
{
    s.len()
}

/// Relies on `HashSet::iter`: the iterator visits every element of the set
/// exactly once, in no promised order.
#[verifier::external_body]
pub fn set_elements(s: &fnv::FnvHashSet<Literal>) -> (v: Vec<Literal>)
    ensures
        v@.len() == s@.len(),
        forall|i: int| 0 <= i < v@.len() ==> s@.contains(v@[i]),
        forall|l: Literal| s@.contains(l) ==> v@.contains(l),
{
    s.iter().cloned().collect()
}

} // verus!
