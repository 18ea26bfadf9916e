//! Lexicographic order on byte sequences.
//!
//! Encoded bounds and string values are compared byte-wise; this module
//! defines the order once, as a spec function, proves that it is a strict
//! total order, and provides the executable comparison.

use vstd::prelude::*;

verus! {

/// Strict lexicographic order: `a` comes before `b` when at the first
/// differing position `a` holds the smaller byte, or when `a` is a proper
/// prefix of `b`.
pub open spec fn bytes_lt(a: Seq<u8>, b: Seq<u8>) -> bool
    decreases a.len(),
{
    if b.len() == 0 {
        false
    } else if a.len() == 0 {
        true
    } else if a[0] != b[0] {
        a[0] < b[0]
    } else {
        bytes_lt(a.drop_first(), b.drop_first())
    }
}

/// Non-strict counterpart of [`bytes_lt`].
pub open spec fn bytes_le(a: Seq<u8>, b: Seq<u8>) -> bool {
    !bytes_lt(b, a)
}

/// `a` and `b` agree at every position before `j`.
pub open spec fn agree_upto(a: Seq<u8>, b: Seq<u8>, j: int) -> bool {
    forall|k: int| 0 <= k < j ==> a[k] == b[k]
}

/// `bytes_lt` holds exactly when the sequences differ first at some index
/// where `a` holds the smaller byte, or `a` is a proper prefix of `b`.
pub proof fn lemma_bytes_lt_characterization(a: Seq<u8>, b: Seq<u8>)
    ensures
        bytes_lt(a, b) <==> ((exists|j: int|
            0 <= j < a.len() && j < b.len() && agree_upto(a, b, j) && a[j] < b[j]) || (a.len()
            < b.len() && a =~= b.subrange(0, a.len() as int))),
    decreases a.len(),
{
    if b.len() == 0 {
    } else if a.len() == 0 {
        assert(a =~= b.subrange(0, 0));
    } else if a[0] != b[0] {
        if a[0] < b[0] {
            assert(agree_upto(a, b, 0) && a[0] < b[0]);
        } else {
            assert(forall|j: int|
                0 <= j < a.len() && j < b.len() && agree_upto(a, b, j) ==> j == 0);
            assert(!(a.len() < b.len() && a =~= b.subrange(0, a.len() as int))) by {
                if a.len() < b.len() && a =~= b.subrange(0, a.len() as int) {
                    assert(a[0] == b.subrange(0, a.len() as int)[0]);
                }
            }
        }
    } else {
        let a1 = a.drop_first();
        let b1 = b.drop_first();
        lemma_bytes_lt_characterization(a1, b1);
        if bytes_lt(a, b) {
            if exists|j: int|
                0 <= j < a1.len() && j < b1.len() && agree_upto(a1, b1, j) && a1[j] < b1[j] {
                let j = choose|j: int|
                    0 <= j < a1.len() && j < b1.len() && agree_upto(a1, b1, j) && a1[j] < b1[j];
                assert(a[j + 1] == a1[j] && b[j + 1] == b1[j]);
                assert(agree_upto(a, b, j + 1)) by {
                    assert(forall|k: int| 1 <= k < j + 1 ==> a[k] == a1[k - 1] && b[k] == b1[k
                        - 1]);
                }
            } else {
                assert(a1.len() < b1.len() && a1 =~= b1.subrange(0, a1.len() as int));
                assert(a =~= b.subrange(0, a.len() as int)) by {
                    assert(forall|k: int|
                        1 <= k < a.len() ==> a[k] == a1[k - 1] && a1[k - 1] == #[trigger] b[k]);
                }
            }
        } else {
            if exists|j: int| 0 <= j < a.len() && j < b.len() && agree_upto(a, b, j) && a[j]
                < b[j] {
                let j = choose|j: int|
                    0 <= j < a.len() && j < b.len() && agree_upto(a, b, j) && a[j] < b[j];
                assert(j >= 1);
                assert(a1[j - 1] == a[j] && b1[j - 1] == b[j]);
                assert(agree_upto(a1, b1, j - 1)) by {
                    assert(forall|k: int|
                        0 <= k < j - 1 ==> a1[k] == a[k + 1] && b1[k] == #[trigger] b[k + 1]);
                }
                assert(bytes_lt(a1, b1));
            }
            if a.len() < b.len() && a =~= b.subrange(0, a.len() as int) {
                assert(a1 =~= b1.subrange(0, a1.len() as int)) by {
                    assert(forall|k: int|
                        0 <= k < a1.len() ==> a1[k] == a[k + 1] && a[k + 1] == #[trigger] b[k
                            + 1]);
                }
                assert(bytes_lt(a1, b1));
            }
        }
    }
}

/// At most one of `a < b`, `a == b`, `b < a` holds, and one always does.
pub proof fn lemma_bytes_lt_trichotomy(a: Seq<u8>, b: Seq<u8>)
    ensures
        bytes_lt(a, b) || bytes_lt(b, a) || a =~= b,
        bytes_lt(a, b) ==> !bytes_lt(b, a) && !(a =~= b),
    decreases a.len(),
{
    if b.len() == 0 || a.len() == 0 {
    } else if a[0] != b[0] {
    } else {
        lemma_bytes_lt_trichotomy(a.drop_first(), b.drop_first());
        if a.drop_first() =~= b.drop_first() {
            assert(a =~= b) by {
                assert(forall|k: int|
                    1 <= k < a.len() ==> a[k] == a.drop_first()[k - 1] && #[trigger] b[k]
                        == b.drop_first()[k - 1]);
            }
        }
        if a =~= b {
            assert(a.drop_first() =~= b.drop_first());
        }
    }
}

/// The order is transitive.
pub proof fn lemma_bytes_lt_transitive(a: Seq<u8>, b: Seq<u8>, c: Seq<u8>)
    requires
        bytes_lt(a, b),
        bytes_lt(b, c),
    ensures
        bytes_lt(a, c),
    decreases a.len(),
{
    if b.len() == 0 || c.len() == 0 {
    } else if a.len() == 0 {
    } else {
        if a[0] == b[0] && b[0] == c[0] {
            lemma_bytes_lt_transitive(a.drop_first(), b.drop_first(), c.drop_first());
        }
    }
}

/// `v` begins with `p`.
pub open spec fn starts_with_bytes(v: Seq<u8>, p: Seq<u8>) -> bool {
    v.len() >= p.len() && v.subrange(0, p.len() as int) == p
}

/// If a prefix `p`, compared against the lower bound truncated to the shorter
/// of the two lengths, already falls below it, then every sequence that
/// begins with `p` falls below the whole lower bound.
pub proof fn lemma_prefix_below_lower(lo: Seq<u8>, v: Seq<u8>, p: Seq<u8>)
    requires
        starts_with_bytes(v, p),
        bytes_lt(p, lo.subrange(0, if lo.len() <= p.len() { lo.len() as int } else { p.len() as int })),
    ensures
        bytes_lt(v, lo),
    decreases p.len(),
{
    let m: int = if lo.len() <= p.len() { lo.len() as int } else { p.len() as int };
    let lot = lo.subrange(0, m);
    if m == 0 {
        assert(lot.len() == 0);
    } else {
        assert(p[0] == v[0]) by {
            assert(v.subrange(0, p.len() as int)[0] == v[0]);
        }
        if p[0] < lo[0] {
        } else {
            assert(p[0] == lo[0]);
            let p1 = p.drop_first();
            let v1 = v.drop_first();
            let lo1 = lo.drop_first();
            let m1: int = if lo1.len() <= p1.len() { lo1.len() as int } else { p1.len() as int };
            assert(starts_with_bytes(v1, p1)) by {
                assert(v1.subrange(0, p1.len() as int) =~= p1) by {
                    assert(forall|k: int|
                        0 <= k < p1.len() ==> v1[k] == v[k + 1] && p1[k] == #[trigger] p[k + 1]);
                    assert(forall|k: int|
                        0 <= k < p.len() ==> v.subrange(0, p.len() as int)[k] == #[trigger] v[k]);
                }
            }
            assert(lot.drop_first() =~= lo1.subrange(0, m1));
            assert(bytes_lt(p1, lo1.subrange(0, m1)));
            lemma_prefix_below_lower(lo1, v1, p1);
        }
    }
}

/// If a prefix `p` already exceeds the upper bound truncated to the shorter
/// of the two lengths, then every sequence that begins with `p` exceeds the
/// whole upper bound.
pub proof fn lemma_prefix_above_upper(up: Seq<u8>, v: Seq<u8>, p: Seq<u8>)
    requires
        starts_with_bytes(v, p),
        bytes_lt(up.subrange(0, if up.len() <= p.len() { up.len() as int } else { p.len() as int }), p),
    ensures
        bytes_lt(up, v),
    decreases p.len(),
{
    let m: int = if up.len() <= p.len() { up.len() as int } else { p.len() as int };
    let upt = up.subrange(0, m);
    if p.len() == 0 {
        assert(!bytes_lt(upt, p));
    } else if up.len() == 0 {
        assert(v.len() > 0);
    } else {
        assert(p[0] == v[0]) by {
            assert(v.subrange(0, p.len() as int)[0] == v[0]);
        }
        if up[0] < p[0] {
        } else {
            assert(up[0] == p[0]);
            let p1 = p.drop_first();
            let v1 = v.drop_first();
            let up1 = up.drop_first();
            let m1: int = if up1.len() <= p1.len() { up1.len() as int } else { p1.len() as int };
            assert(starts_with_bytes(v1, p1)) by {
                assert(v1.subrange(0, p1.len() as int) =~= p1) by {
                    assert(forall|k: int|
                        0 <= k < p1.len() ==> v1[k] == v[k + 1] && p1[k] == #[trigger] p[k + 1]);
                    assert(forall|k: int|
                        0 <= k < p.len() ==> v.subrange(0, p.len() as int)[k] == #[trigger] v[k]);
                }
            }
            assert(upt.drop_first() =~= up1.subrange(0, m1));
            assert(bytes_lt(up1.subrange(0, m1), p1));
            lemma_prefix_above_upper(up1, v1, p1);
        }
    }
}

/// If both bounds begin with `p` and `v` lies between them, then `v` begins
/// with `p` as well.
pub proof fn lemma_sandwich_starts_with(lo: Seq<u8>, up: Seq<u8>, v: Seq<u8>, p: Seq<u8>)
    requires
        starts_with_bytes(lo, p),
        starts_with_bytes(up, p),
        bytes_le(lo, v),
        bytes_le(v, up),
    ensures
        starts_with_bytes(v, p),
    decreases p.len(),
{
    if p.len() == 0 {
        assert(v.subrange(0, 0) =~= p);
    } else {
        assert(lo[0] == p[0] && up[0] == p[0]) by {
            assert(lo.subrange(0, p.len() as int)[0] == lo[0]);
            assert(up.subrange(0, p.len() as int)[0] == up[0]);
        }
        assert(v.len() > 0) by {
            if v.len() == 0 {
                assert(bytes_lt(v, lo));
            }
        }
        assert(v[0] == p[0]) by {
            if v[0] < p[0] {
                assert(bytes_lt(v, lo));
            }
            if v[0] > p[0] {
                assert(bytes_lt(up, v));
            }
        }
        let p1 = p.drop_first();
        let v1 = v.drop_first();
        let lo1 = lo.drop_first();
        let up1 = up.drop_first();
        assert(starts_with_bytes(lo1, p1) && starts_with_bytes(up1, p1)) by {
            assert(lo1.subrange(0, p1.len() as int) =~= p1) by {
                assert(forall|k: int|
                    0 <= k < p1.len() ==> lo1[k] == lo[k + 1] && p1[k] == #[trigger] p[k + 1]);
                assert(forall|k: int|
                    0 <= k < p.len() ==> lo.subrange(0, p.len() as int)[k] == #[trigger] lo[k]);
            }
            assert(up1.subrange(0, p1.len() as int) =~= p1) by {
                assert(forall|k: int|
                    0 <= k < p1.len() ==> up1[k] == up[k + 1] && p1[k] == #[trigger] p[k + 1]);
                assert(forall|k: int|
                    0 <= k < p.len() ==> up.subrange(0, p.len() as int)[k] == #[trigger] up[k]);
            }
        }
        assert(bytes_le(lo1, v1) && bytes_le(v1, up1));
        lemma_sandwich_starts_with(lo1, up1, v1, p1);
        assert(v.subrange(0, p.len() as int) =~= p) by {
            assert(forall|k: int|
                0 <= k < p1.len() ==> v1.subrange(0, p1.len() as int)[k] == #[trigger] v1[k]);
            assert(forall|k: int|
                1 <= k < p.len() ==> v[k] == v1[k - 1] && #[trigger] p[k] == p1[k - 1]);
            assert(forall|k: int|
                0 <= k < p.len() ==> v.subrange(0, p.len() as int)[k] == #[trigger] v[k]);
        }
    }
}

/// Compares `a` truncated to `a_len` with `b` truncated to `b_len`,
/// byte-wise lexicographically.
pub fn lex_lt_upto(a: &Vec<u8>, a_len: usize, b: &Vec<u8>, b_len: usize) -> (r: bool)
    requires
        a_len <= a@.len(),
        b_len <= b@.len(),
    ensures
        r == bytes_lt(a@.subrange(0, a_len as int), b@.subrange(0, b_len as int)),
{
    let ghost sa = a@.subrange(0, a_len as int);
    let ghost sb = b@.subrange(0, b_len as int);
    let m: usize = if a_len <= b_len {
        a_len
    } else {
        b_len
    };
    let mut i: usize = 0;
    while i < m
        invariant
            0 <= i <= m,
            m <= a_len <= a@.len(),
            m <= b_len <= b@.len(),
            m == if a_len <= b_len { a_len } else { b_len },
            sa == a@.subrange(0, a_len as int),
            sb == b@.subrange(0, b_len as int),
            agree_upto(sa, sb, i as int),
        decreases m - i,
    {
        let x = a[i];
        let y = b[i];
        proof {
            assert(sa[i as int] == a@[i as int]);
            assert(sb[i as int] == b@[i as int]);
        }
        if x < y {
            proof {
                lemma_bytes_lt_characterization(sa, sb);
            }
            return true;
        }
        if x > y {
            proof {
                lemma_bytes_lt_characterization(sa, sb);
                assert(forall|j: int|
                    0 <= j < sa.len() && j < sb.len() && agree_upto(sa, sb, j) ==> j <= i);
                assert(!(sa.len() < sb.len() && sa =~= sb.subrange(0, sa.len() as int))) by {
                    if sa.len() < sb.len() && sa =~= sb.subrange(0, sa.len() as int) {
                        assert(sa[i as int] == sb.subrange(0, sa.len() as int)[i as int]);
                    }
                }
            }
            return false;
        }
        i += 1;
    }
    proof {
        lemma_bytes_lt_characterization(sa, sb);
        assert(forall|j: int| 0 <= j < sa.len() && j < sb.len() ==> !(sa[j] < sb[j]));
        if a_len < b_len {
            assert(sa =~= sb.subrange(0, sa.len() as int));
        }
    }
    a_len < b_len
}

/// Compares `a` and `b` truncated to their first `n` bytes for equality.
pub fn eq_upto(a: &Vec<u8>, b: &Vec<u8>, n: usize) -> (r: bool)
    requires
        n <= a@.len(),
        n <= b@.len(),
    ensures
        r == (a@.subrange(0, n as int) == b@.subrange(0, n as int)),
{
    let mut i: usize = 0;
    while i < n
        invariant
            0 <= i <= n,
            n <= a@.len(),
            n <= b@.len(),
            forall|k: int| 0 <= k < i ==> a@[k] == b@[k],
        decreases n - i,
    {
        if a[i] != b[i] {
            proof {
                assert(a@.subrange(0, n as int)[i as int] == a@[i as int]);
                assert(b@.subrange(0, n as int)[i as int] == b@[i as int]);
            }
            return false;
        }
        i += 1;
    }
    proof {
        assert(a@.subrange(0, n as int) =~= b@.subrange(0, n as int));
    }
    true
}

/// Compares two byte vectors lexicographically.
pub fn lex_lt(a: &Vec<u8>, b: &Vec<u8>) -> (r: bool)
    ensures
        r == bytes_lt(a@, b@),
{
    let r = lex_lt_upto(a, a.len(), b, b.len());
    proof {
        assert(a@.subrange(0, a@.len() as int) =~= a@);
        assert(b@.subrange(0, b@.len() as int) =~= b@);
    }
    r
}

} // verus!
