//! Typed literal values and the decoding of encoded bounds.
//!
//! A literal is an immutable typed value with a total order within its own
//! type; two literals of different types are never ordered. Bounds recorded in
//! a partition field summary are encoded bytes; decoding them at the column's
//! declared primitive type yields a comparable literal. Floating-point columns
//! carry statistics (null and NaN flags) but their bound bytes are never
//! decoded here, so no literal holds a floating-point value.

use vstd::prelude::*;

use crate::order::{bytes_lt, lex_lt, lemma_bytes_lt_transitive, lemma_bytes_lt_trichotomy};
use vstd::string::StringSliceAdditionalSpecFns;

verus! {

/// The primitive type a partition column is declared with.
#[derive(Clone, Copy, PartialEq, Eq, Structural, Debug)]
pub enum PrimitiveType {
    Int,
    Long,
    Float,
    Double,
    Str,
}

/// The mathematical value of a [`Literal`].
pub enum LiteralView {
    Int(i32),
    Long(i64),
    Str(Seq<u8>),
}

/// A typed literal value: a 32-bit integer, a 64-bit integer, or a string
/// held as its encoded bytes (strings order byte-wise).
#[derive(Clone, Debug, PartialEq, Eq, Hash)]
pub enum Literal {
    Int(i32),
    Long(i64),
    Str(Vec<u8>),
}

impl View for Literal {
    type V = LiteralView;

    open spec fn view(&self) -> LiteralView {
        match self {
            Literal::Int(x) => LiteralView::Int(*x),
            Literal::Long(x) => LiteralView::Long(*x),
            Literal::Str(b) => LiteralView::Str(b@),
        }
    }
}

/// The primitive type that a literal value belongs to.
pub open spec fn type_of(v: LiteralView) -> PrimitiveType {
    match v {
        LiteralView::Int(_) => PrimitiveType::Int,
        LiteralView::Long(_) => PrimitiveType::Long,
        LiteralView::Str(_) => PrimitiveType::Str,
    }
}

/// Two literal values belong to the same primitive type.
pub open spec fn same_type(a: LiteralView, b: LiteralView) -> bool {
    type_of(a) == type_of(b)
}

/// Strict order between two literal values of the same type; values of
/// different types are never ordered.
pub open spec fn lit_lt(a: LiteralView, b: LiteralView) -> bool {
    match (a, b) {
        (LiteralView::Int(x), LiteralView::Int(y)) => x < y,
        (LiteralView::Long(x), LiteralView::Long(y)) => x < y,
        (LiteralView::Str(x), LiteralView::Str(y)) => bytes_lt(x, y),
        _ => false,
    }
}

/// Non-strict order between two literal values of the same type.
pub open spec fn lit_le(a: LiteralView, b: LiteralView) -> bool {
    same_type(a, b) && !lit_lt(b, a)
}

/// Equality of two literal values.
pub open spec fn lit_eq(a: LiteralView, b: LiteralView) -> bool {
    match (a, b) {
        (LiteralView::Int(x), LiteralView::Int(y)) => x == y,
        (LiteralView::Long(x), LiteralView::Long(y)) => x == y,
        (LiteralView::Str(x), LiteralView::Str(y)) => x == y,
        _ => false,
    }
}

/// `a <= b` and `b < c` give `a < c`.
pub proof fn lemma_lit_le_lt(a: LiteralView, b: LiteralView, c: LiteralView)
    requires
        lit_le(a, b),
        lit_lt(b, c),
    ensures
        lit_lt(a, c),
{
    if a is Str {
        let x = a->Str_0;
        let y = b->Str_0;
        let z = c->Str_0;
        lemma_bytes_lt_trichotomy(y, x);
        if bytes_lt(x, y) {
            lemma_bytes_lt_transitive(x, y, z);
        } else {
            assert(x =~= y);
        }
    }
}

/// `a < b` and `b <= c` give `a < c`.
pub proof fn lemma_lit_lt_le(a: LiteralView, b: LiteralView, c: LiteralView)
    requires
        lit_lt(a, b),
        lit_le(b, c),
    ensures
        lit_lt(a, c),
{
    if a is Str {
        let x = a->Str_0;
        let y = b->Str_0;
        let z = c->Str_0;
        lemma_bytes_lt_trichotomy(z, y);
        if bytes_lt(y, z) {
            lemma_bytes_lt_transitive(x, y, z);
        } else {
            assert(y =~= z);
        }
    }
}

/// `a <= b` and `b <= c` give `a <= c`.
pub proof fn lemma_lit_le_trans(a: LiteralView, b: LiteralView, c: LiteralView)
    requires
        lit_le(a, b),
        lit_le(b, c),
    ensures
        lit_le(a, c),
{
    if lit_lt(c, a) {
        lemma_lit_lt_le(c, a, b);
    }
}

/// Equal literal values are the same value.
pub proof fn lemma_lit_eq_is_eq(a: LiteralView, b: LiteralView)
    requires
        lit_eq(a, b),
    ensures
        a == b,
{
}

/// The unsigned 32-bit value read little-endian from the first four bytes.
pub open spec fn le_bytes_u32(b: Seq<u8>) -> u32 {
    (b[0] as u32) | ((b[1] as u32) << 8u32) | ((b[2] as u32) << 16u32) | ((b[3] as u32) << 24u32)
}

/// The unsigned 64-bit value read little-endian from the first eight bytes.
pub open spec fn le_bytes_u64(b: Seq<u8>) -> u64 {
    (b[0] as u64) | ((b[1] as u64) << 8u64) | ((b[2] as u64) << 16u64) | ((b[3] as u64) << 24u64)
        | ((b[4] as u64) << 32u64) | ((b[5] as u64) << 40u64) | ((b[6] as u64) << 48u64) | ((
    b[7] as u64) << 56u64)
}

/// What decoding `bytes` at primitive type `t` yields: a four-byte
/// little-endian two's-complement integer, an eight-byte one, or the bytes
/// themselves for a string. Floating-point bounds are not decodable here, and
/// an integer bound of the wrong width is corrupt.
pub open spec fn decode_spec(bytes: Seq<u8>, t: PrimitiveType) -> Option<LiteralView> {
    match t {
        PrimitiveType::Int => if bytes.len() == 4 {
            Option::Some(LiteralView::Int(le_bytes_u32(bytes) as i32))
        } else {
            Option::None
        },
        PrimitiveType::Long => if bytes.len() == 8 {
            Option::Some(LiteralView::Long(le_bytes_u64(bytes) as i64))
        } else {
            Option::None
        },
        PrimitiveType::Str => Option::Some(LiteralView::Str(bytes)),
        PrimitiveType::Float => Option::None,
        PrimitiveType::Double => Option::None,
    }
}

/// A decoded bound belongs to the type it was decoded at.
pub proof fn lemma_decode_type(bytes: Seq<u8>, t: PrimitiveType)
    ensures
        match decode_spec(bytes, t) {
            Option::Some(v) => type_of(v) == t,
            Option::None => true,
        },
{
}

/// The value of an `Option<Literal>`.
pub open spec fn view_option(o: Option<Literal>) -> Option<LiteralView> {
    match o {
        Option::Some(l) => Option::Some(l@),
        Option::None => Option::None,
    }
}

/// Decodes an encoded bound at the column's declared primitive type.
pub fn decode(bytes: &Vec<u8>, t: PrimitiveType) -> (r: Option<Literal>)
    ensures
        view_option(r) == decode_spec(bytes@, t),
{
    match t {
        PrimitiveType::Int => {
            if bytes.len() == 4 {
                let u: u32 = (bytes[0] as u32) | ((bytes[1] as u32) << 8u32) | ((
                bytes[2] as u32) << 16u32) | ((bytes[3] as u32) << 24u32);
                Some(Literal::Int(#[verifier::truncate] (u as i32)))
            } else {
                None
            }
        },
        PrimitiveType::Long => {
            if bytes.len() == 8 {
                let u: u64 = (bytes[0] as u64) | ((bytes[1] as u64) << 8u64) | ((
                bytes[2] as u64) << 16u64) | ((bytes[3] as u64) << 24u64) | ((bytes[4] as u64)
                    << 32u64) | ((bytes[5] as u64) << 40u64) | ((bytes[6] as u64) << 48u64) | ((
                bytes[7] as u64) << 56u64);
                Some(Literal::Long(#[verifier::truncate] (u as i64)))
            } else {
                None
            }
        },
        PrimitiveType::Str => Some(Literal::Str(vstd::slice::slice_to_vec(bytes.as_slice()))),
        PrimitiveType::Float => None,
        PrimitiveType::Double => None,
    }
}

impl Literal {
    /// A 32-bit integer literal.
    pub fn int32(v: i32) -> (r: Literal)
        ensures
            r@ == LiteralView::Int(v),
    {
        Literal::Int(v)
    }

    /// A 64-bit integer literal.
    pub fn long(v: i64) -> (r: Literal)
        ensures
            r@ == LiteralView::Long(v),
    {
        Literal::Long(v)
    }

    /// A string literal, held as its UTF-8 bytes.
    pub fn string(s: &str) -> (r: Literal)
        ensures
            r@ == LiteralView::Str(s.spec_bytes()),
    {
        Literal::Str(vstd::slice::slice_to_vec(s.as_bytes()))
    }

    /// Strict comparison of two literals of the same type.
    pub fn lt(&self, other: &Literal) -> (r: bool)
        requires
            same_type(self@, other@),
        ensures
            r == lit_lt(self@, other@),
    {
        match (self, other) {
            (Literal::Int(x), Literal::Int(y)) => *x < *y,
            (Literal::Long(x), Literal::Long(y)) => *x < *y,
            (Literal::Str(x), Literal::Str(y)) => lex_lt(x, y),
            _ => {
                proof {
                    assert(false);
                }
                false
            },
        }
    }

    /// Non-strict comparison of two literals of the same type.
    pub fn le(&self, other: &Literal) -> (r: bool)
        requires
            same_type(self@, other@),
        ensures
            r == lit_le(self@, other@),
    {
        match (self, other) {
            (Literal::Int(x), Literal::Int(y)) => *x <= *y,
            (Literal::Long(x), Literal::Long(y)) => *x <= *y,
            (Literal::Str(x), Literal::Str(y)) => !lex_lt(y, x),
            _ => {
                proof {
                    assert(false);
                }
                false
            },
        }
    }

    /// The string bytes of this literal, or `None` when it is not a string.
    pub fn str_bytes(&self) -> (r: Option<&Vec<u8>>)
        ensures
            match r {
                Option::Some(b) => self@ == LiteralView::Str(b@),
                Option::None => !(self@ is Str),
            },
    {
        match self {
            Literal::Str(b) => Some(b),
            _ => None,
        }
    }
}

} // verus!
