//! Canonical indexer: a perfect hash from an unordered quadruple of decimal
//! digits to a dense index in `[0, 9999]`.
//!
//! The four values are sorted by a fixed network of five compare-and-swap
//! steps and then weighted positionally, so any two quadruples that are
//! permutations of one another receive the same index.

use vstd::arithmetic::div_mod::{
    lemma_div_is_ordered, lemma_fundamental_div_mod, lemma_fundamental_div_mod_converse,
};
use vstd::prelude::*;

verus! {

/// Number of canonical indices, and thus of slots in the solution table.
pub const TABLE_SIZE: usize = 10000;

/// A single input value is a valid digit when it lies in `[0, 9]`.
pub open spec fn digit_ok(n: u8) -> bool {
    n <= 9
}

/// All four input values are valid digits.
pub open spec fn all_digits_ok(n1: u8, n2: u8, n3: u8, n4: u8) -> bool {
    digit_ok(n1) && digit_ok(n2) && digit_ok(n3) && digit_ok(n4)
}

/// One compare-and-swap step: the pair in non-decreasing order.
pub open spec fn spec_cas(x: int, y: int) -> (int, int) {
    if x <= y {
        (x, y)
    } else {
        (y, x)
    }
}

/// The five-comparison sorting network for four elements: compare positions
/// (1,2), (3,4), (1,3), (2,4) and finally (2,3).
pub open spec fn spec_sort4(n1: int, n2: int, n3: int, n4: int) -> (int, int, int, int) {
    let p = spec_cas(n1, n2);
    let q = spec_cas(n3, n4);
    let lo = spec_cas(p.0, q.0);
    let hi = spec_cas(p.1, q.1);
    let mid = spec_cas(hi.0, lo.1);
    (lo.0, mid.0, mid.1, hi.1)
}

/// Positional base-10 weighting of a quadruple.
pub open spec fn weighted_index(a: int, b: int, c: int, d: int) -> int {
    1000 * a + 100 * b + 10 * c + d
}

/// The canonical index of an arbitrary quadruple: sort, then weight.
pub open spec fn spec_index(n1: int, n2: int, n3: int, n4: int) -> int {
    let s = spec_sort4(n1, n2, n3, n4);
    weighted_index(s.0, s.1, s.2, s.3)
}

/// How many of the four values equal `v`.
pub open spec fn occurrences(v: int, n1: int, n2: int, n3: int, n4: int) -> int {
    (if n1 == v {
        1int
    } else {
        0int
    }) + (if n2 == v {
        1int
    } else {
        0int
    }) + (if n3 == v {
        1int
    } else {
        0int
    }) + (if n4 == v {
        1int
    } else {
        0int
    })
}

/// Two quadruples hold the same multiset of values, i.e. one is a
/// permutation of the other.
pub open spec fn same_values(
    n1: int,
    n2: int,
    n3: int,
    n4: int,
    m1: int,
    m2: int,
    m3: int,
    m4: int,
) -> bool {
    forall|v: int| occurrences(v, n1, n2, n3, n4) == occurrences(v, m1, m2, m3, m4)
}

/// The base-10 digits of an index in `[0, 9999]`, most significant first.
pub open spec fn digits_of(i: int) -> (int, int, int, int) {
    (i / 1000, (i / 100) % 10, (i / 10) % 10, i % 10)
}

/// A quadruple is in non-decreasing order.
pub open spec fn nondecreasing(q: (int, int, int, int)) -> bool {
    q.0 <= q.1 && q.1 <= q.2 && q.2 <= q.3
}

/// The sorting network sorts its four inputs.
pub proof fn lemma_sort4_sorted(n1: int, n2: int, n3: int, n4: int)
    ensures
        nondecreasing(spec_sort4(n1, n2, n3, n4)),
{
}

/// The sorting network only rearranges its inputs: every value occurs in the
/// output as often as in the input.
pub proof fn lemma_sort4_permutes(v: int, n1: int, n2: int, n3: int, n4: int)
    ensures
        ({
            let s = spec_sort4(n1, n2, n3, n4);
            occurrences(v, s.0, s.1, s.2, s.3) == occurrences(v, n1, n2, n3, n4)
        }),
{
}

/// A multiset of four values has exactly one non-decreasing arrangement.
pub proof fn lemma_sorted_same_values_equal(
    a1: int,
    b1: int,
    c1: int,
    d1: int,
    a2: int,
    b2: int,
    c2: int,
    d2: int,
)
    requires
        nondecreasing((a1, b1, c1, d1)),
        nondecreasing((a2, b2, c2, d2)),
        same_values(a1, b1, c1, d1, a2, b2, c2, d2),
    ensures
        a1 == a2 && b1 == b2 && c1 == c2 && d1 == d2,
{
    assert(occurrences(a1, a1, b1, c1, d1) == occurrences(a1, a2, b2, c2, d2));
    assert(occurrences(b1, a1, b1, c1, d1) == occurrences(b1, a2, b2, c2, d2));
    assert(occurrences(c1, a1, b1, c1, d1) == occurrences(c1, a2, b2, c2, d2));
    assert(occurrences(d1, a1, b1, c1, d1) == occurrences(d1, a2, b2, c2, d2));
    assert(occurrences(a2, a1, b1, c1, d1) == occurrences(a2, a2, b2, c2, d2));
    assert(occurrences(b2, a1, b1, c1, d1) == occurrences(b2, a2, b2, c2, d2));
    assert(occurrences(c2, a1, b1, c1, d1) == occurrences(c2, a2, b2, c2, d2));
    assert(occurrences(d2, a1, b1, c1, d1) == occurrences(d2, a2, b2, c2, d2));
}

/// Law: the canonical index depends only on the multiset of the four digit
/// values, so every permutation of a quadruple receives the same index.
pub proof fn lemma_index_permutation_invariant(
    n1: u8,
    n2: u8,
    n3: u8,
    n4: u8,
    m1: u8,
    m2: u8,
    m3: u8,
    m4: u8,
)
    requires
        all_digits_ok(n1, n2, n3, n4),
        same_values(
            n1 as int,
            n2 as int,
            n3 as int,
            n4 as int,
            m1 as int,
            m2 as int,
            m3 as int,
            m4 as int,
        ),
    ensures
        spec_index(n1 as int, n2 as int, n3 as int, n4 as int) == spec_index(
            m1 as int,
            m2 as int,
            m3 as int,
            m4 as int,
        ),
{
    let s = spec_sort4(n1 as int, n2 as int, n3 as int, n4 as int);
    let t = spec_sort4(m1 as int, m2 as int, m3 as int, m4 as int);
    lemma_sort4_sorted(n1 as int, n2 as int, n3 as int, n4 as int);
    lemma_sort4_sorted(m1 as int, m2 as int, m3 as int, m4 as int);
    assert forall|v: int|
        occurrences(v, s.0, s.1, s.2, s.3) == occurrences(v, t.0, t.1, t.2, t.3) by {
        lemma_sort4_permutes(v, n1 as int, n2 as int, n3 as int, n4 as int);
        lemma_sort4_permutes(v, m1 as int, m2 as int, m3 as int, m4 as int);
    }
    lemma_sorted_same_values_equal(s.0, s.1, s.2, s.3, t.0, t.1, t.2, t.3);
}

/// On an already sorted quadruple the network is the identity.
pub proof fn lemma_sort4_identity(a: int, b: int, c: int, d: int)
    requires
        nondecreasing((a, b, c, d)),
    ensures
        spec_sort4(a, b, c, d) == (a, b, c, d),
{
}

/// The canonical index of four valid digits lies in `[0, 9999]`.
pub proof fn lemma_index_in_range(n1: u8, n2: u8, n3: u8, n4: u8)
    requires
        all_digits_ok(n1, n2, n3, n4),
    ensures
        0 <= spec_index(n1 as int, n2 as int, n3 as int, n4 as int) < TABLE_SIZE,
{
}

/// Law (no collisions): positional weighting of a sorted digit quadruple is
/// inverted digit by digit, so distinct sorted quadruples receive distinct
/// indices.
pub proof fn lemma_weighted_index_roundtrip(a: int, b: int, c: int, d: int)
    requires
        0 <= a,
        d <= 9,
        nondecreasing((a, b, c, d)),
    ensures
        0 <= weighted_index(a, b, c, d) < 10000,
        digits_of(weighted_index(a, b, c, d)) == (a, b, c, d),
{
    let i = weighted_index(a, b, c, d);
    lemma_fundamental_div_mod_converse(i, 1000, a, 100 * b + 10 * c + d);
    lemma_fundamental_div_mod_converse(i, 100, 10 * a + b, 10 * c + d);
    lemma_fundamental_div_mod_converse(10 * a + b, 10, a, b);
    lemma_fundamental_div_mod_converse(i, 10, 100 * a + 10 * b + c, d);
    lemma_fundamental_div_mod_converse(100 * a + 10 * b + c, 10, 10 * a + b, c);
}

/// Law (no gaps among the produced codes): every index in `[0, 9999]` splits
/// into its four base-10 digits, and when those digits are non-decreasing the
/// index is exactly the weighting of that digit quadruple — i.e. it is reached
/// from a sorted input.
pub proof fn lemma_digits_roundtrip(i: int)
    requires
        0 <= i < 10000,
    ensures
        ({
            let q = digits_of(i);
            0 <= q.0 <= 9 && 0 <= q.1 <= 9 && 0 <= q.2 <= 9 && 0 <= q.3 <= 9 && weighted_index(
                q.0,
                q.1,
                q.2,
                q.3,
            ) == i
        }),
{
    lemma_fundamental_div_mod(i, 10);
    lemma_fundamental_div_mod_converse(i, 10, i / 10, i % 10);
    lemma_fundamental_div_mod(i / 10, 10);
    lemma_fundamental_div_mod_converse(i, 100, (i / 10) / 10, 10 * ((i / 10) % 10) + i % 10);
    lemma_fundamental_div_mod(i / 100, 10);
    lemma_fundamental_div_mod_converse(
        i,
        1000,
        (i / 100) / 10,
        100 * ((i / 100) % 10) + 10 * ((i / 10) % 10) + i % 10,
    );
    lemma_div_is_ordered(0, i, 1000);
    lemma_div_is_ordered(i, 9999, 1000);
}

/// Law: on sorted quadruples the indexer is inverted digit by digit, so it
/// maps distinct sorted quadruples to distinct indices; together with
/// `lemma_digits_roundtrip` its image is exactly the set of indices in
/// `[0, 9999]` whose own base-10 digits are non-decreasing.
pub proof fn lemma_index_bijection_on_sorted(a: u8, b: u8, c: u8, d: u8)
    requires
        a <= b,
        b <= c,
        c <= d,
        digit_ok(d),
    ensures
        0 <= spec_index(a as int, b as int, c as int, d as int) < TABLE_SIZE,
        digits_of(spec_index(a as int, b as int, c as int, d as int)) == (
            a as int,
            b as int,
            c as int,
            d as int,
        ),
{
    lemma_sort4_identity(a as int, b as int, c as int, d as int);
    lemma_weighted_index_roundtrip(a as int, b as int, c as int, d as int);
}

/// Law: every index the indexer produces has non-decreasing base-10 digits,
/// so indices whose digits are out of order are never reached.
pub proof fn lemma_produced_index_sorted(n1: u8, n2: u8, n3: u8, n4: u8)
    requires
        all_digits_ok(n1, n2, n3, n4),
    ensures
        nondecreasing(digits_of(spec_index(n1 as int, n2 as int, n3 as int, n4 as int))),
{
    let s = spec_sort4(n1 as int, n2 as int, n3 as int, n4 as int);
    lemma_sort4_sorted(n1 as int, n2 as int, n3 as int, n4 as int);
    lemma_weighted_index_roundtrip(s.0, s.1, s.2, s.3);
}

/// Canonicalize four digit values into their dense index.
///
/// Rejects the quadruple (with `None`) exactly when some value exceeds 9;
/// otherwise sorts the values with five compare-and-swap steps and weights
/// them positionally.
pub fn get_index(n1: u8, n2: u8, n3: u8, n4: u8) -> (r: Option<usize>)
    ensures
        r is Some <==> all_digits_ok(n1, n2, n3, n4),
        all_digits_ok(n1, n2, n3, n4) ==> r == Some(
            spec_index(n1 as int, n2 as int, n3 as int, n4 as int) as usize,
        ),
{
    if n1 > 9 || n2 > 9 || n3 > 9 || n4 > 9 {
        return None;
    }
    let (p0, p1) = if n1 <= n2 {
        (n1, n2)
    } else {
        (n2, n1)
    };
    let (q0, q1) = if n3 <= n4 {
        (n3, n4)
    } else {
        (n4, n3)
    };
    let (lo0, lo1) = if p0 <= q0 {
        (p0, q0)
    } else {
        (q0, p0)
    };
    let (hi0, hi1) = if p1 <= q1 {
        (p1, q1)
    } else {
        (q1, p1)
    };
    let (mid0, mid1) = if hi0 <= lo1 {
        (hi0, lo1)
    } else {
        (lo1, hi0)
    };
    let idx: usize = (lo0 as usize) * 1000 + (mid0 as usize) * 100 + (mid1 as usize) * 10 + (
    hi1 as usize);
    Some(idx)
}

} // verus!
