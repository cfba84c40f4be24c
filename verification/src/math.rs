//! Vector arithmetic in fixed point. A component is a whole number of
//! millionths, so `1_000_000` stands for 1.0. Square roots and quotients
//! are rounded toward zero, and the contracts say so exactly.

use vstd::prelude::*;

verus! {

/// One whole, in millionths.
pub const UNIT: i64 = 1_000_000;

/// The largest magnitude of a component that the arithmetic accepts: a
/// million wholes.
pub const MAX_COMPONENT: i64 = 1_000_000_000_000;

/// The longest vector that the arithmetic accepts.
pub const MAX_DIMENSION: usize = 65_536;

/// The magnitude of `x`.
pub open spec fn magnitude(x: int) -> int {
    if x >= 0 {
        x
    } else {
        -x
    }
}

/// The sum of `a[i] * b[i]`, over the indices both have.
pub open spec fn dot(a: Seq<i64>, b: Seq<i64>) -> int
    decreases a.len(),
{
    if a.len() == 0 || a.len() != b.len() {
        0
    } else {
        dot(a.drop_last(), b.drop_last()) + a.last() * b.last()
    }
}

/// The sum of the squares of the components.
pub open spec fn sum_of_squares(v: Seq<i64>) -> int {
    dot(v, v)
}

/// `r` is the square root of `n`, rounded down.
pub open spec fn is_floor_sqrt(n: int, r: int) -> bool {
    0 <= r && r * r <= n < (r + 1) * (r + 1)
}

/// The square root of `n`, rounded down.
pub open spec fn floor_sqrt(n: int) -> int {
    choose|r: int| is_floor_sqrt(n, r)
}

/// The Euclidean length of `v`, in millionths, rounded down.
pub open spec fn l2_norm(v: Seq<i64>) -> int {
    floor_sqrt(sum_of_squares(v))
}

/// Every component is within `MAX_COMPONENT` and the vector within
/// `MAX_DIMENSION`.
pub open spec fn in_bounds(v: Seq<i64>) -> bool {
    &&& v.len() <= MAX_DIMENSION
    &&& forall|i: int| 0 <= i < v.len() ==> -MAX_COMPONENT <= #[trigger] v[i] <= MAX_COMPONENT
}

/// `x * UNIT / norm`, rounded toward zero.
pub open spec fn scaled(x: int, norm: int) -> int {
    if x >= 0 {
        (x * UNIT) / norm
    } else {
        -(((-x) * UNIT) / norm)
    }
}

/// `v` divided by its length; a vector of length zero stays as it is.
pub open spec fn normalized(v: Seq<i64>) -> Seq<i64> {
    let norm = l2_norm(v);
    if norm == 0 {
        v
    } else {
        Seq::new(v.len(), |i: int| scaled(v[i] as int, norm) as i64)
    }
}

/// The cosine of the angle between `a` and `b`, in millionths: their dot
/// product over the product of their lengths, rounded toward zero and kept
/// within -1 to 1. Zero where the lengths differ or a vector has length zero.
pub open spec fn cosine(a: Seq<i64>, b: Seq<i64>) -> int {
    let na = l2_norm(a);
    let nb = l2_norm(b);
    if a.len() != b.len() || na == 0 || nb == 0 {
        0
    } else {
        let q = scaled(dot(a, b), na * nb);
        if q > UNIT {
            UNIT as int
        } else if q < -UNIT {
            -UNIT as int
        } else {
            q
        }
    }
}

/// Every component is zero.
pub open spec fn is_zero(v: Seq<i64>) -> bool {
    forall|i: int| 0 <= i < v.len() ==> #[trigger] v[i] == 0
}

/// The squares of a zero vector sum to zero.
pub proof fn lemma_zero_has_no_length(v: Seq<i64>)
    requires
        is_zero(v),
    ensures
        sum_of_squares(v) == 0,
    decreases v.len(),
{
    if v.len() > 0 {
        let rest = v.drop_last();
        assert forall|i: int| 0 <= i < rest.len() implies #[trigger] rest[i] == 0 by {
            assert(rest[i] == v[i]);
        }
        lemma_zero_has_no_length(rest);
        assert(v.last() == v[v.len() - 1]);
    }
}

/// Only one number is the rounded-down square root of `n`.
pub proof fn lemma_floor_sqrt_unique(n: int, r: int)
    requires
        is_floor_sqrt(n, r),
    ensures
        floor_sqrt(n) == r,
{
    let s = floor_sqrt(n);
    assert(is_floor_sqrt(n, s));
    if s < r {
        assert((s + 1) * (s + 1) <= r * r) by (nonlinear_arith)
            requires
                0 <= s,
                s + 1 <= r,
        ;
    } else if r < s {
        assert((r + 1) * (r + 1) <= s * s) by (nonlinear_arith)
            requires
                0 <= r,
                r + 1 <= s,
        ;
    }
}

/// The sum of squares is at least every square in it, and at most the
/// number of components times the largest square.
pub proof fn lemma_sum_of_squares_bounds(v: Seq<i64>, bound: int)
    requires
        forall|i: int| 0 <= i < v.len() ==> -bound <= #[trigger] v[i] <= bound,
        bound >= 0,
    ensures
        0 <= sum_of_squares(v) <= v.len() * (bound * bound),
        forall|i: int| 0 <= i < v.len() ==> (#[trigger] v[i]) * v[i] <= sum_of_squares(v),
    decreases v.len(),
{
    if v.len() > 0 {
        let rest = v.drop_last();
        let x = v.last() as int;
        assert forall|i: int| 0 <= i < rest.len() implies -bound <= #[trigger] rest[i] <= bound by {
            assert(rest[i] == v[i]);
        }
        lemma_sum_of_squares_bounds(rest, bound);
        assert(0 <= x * x <= bound * bound) by (nonlinear_arith)
            requires
                -bound <= x <= bound,
        ;
        assert(v.len() * (bound * bound) == rest.len() * (bound * bound) + bound * bound)
            by (nonlinear_arith)
            requires
                v.len() == rest.len() + 1,
        ;
        assert forall|i: int| 0 <= i < v.len() implies (#[trigger] v[i]) * v[i] <= sum_of_squares(v) by {
            if i < rest.len() {
                assert(rest[i] == v[i]);
            }
        }
    } else {
        assert(v.len() * (bound * bound) == 0) by (nonlinear_arith)
            requires
                v.len() == 0,
        ;
    }
}

/// The square root of `n`, rounded down.
pub fn isqrt(n: u128) -> (root: u64)
    requires
        n < 0x10_0000_0000_0000_0000_0000_0000,
    ensures
        is_floor_sqrt(n as int, root as int),
        root == floor_sqrt(n as int),
        root < 0x4_0000_0000_0000,
{
    let mut low: u128 = 0;
    let mut high: u128 = 0x4_0000_0000_0000;
    assert(high * high == 0x10_0000_0000_0000_0000_0000_0000) by (nonlinear_arith)
        requires
            high == 0x4_0000_0000_0000,
    ;
    while high - low > 1
        invariant
            low < high <= 0x4_0000_0000_0000,
            low * low <= n < high * high,
        decreases high - low,
    {
        let middle: u128 = low + (high - low) / 2;
        assert(middle * middle <= 0x10_0000_0000_0000_0000_0000_0000) by (nonlinear_arith)
            requires
                middle <= 0x4_0000_0000_0000,
        ;
        if middle * middle <= n {
            low = middle;
        } else {
            high = middle;
        }
    }
    proof {
        lemma_floor_sqrt_unique(n as int, low as int);
    }
    low as u64
}

/// The magnitude of a component.
pub fn abs_component(x: i64) -> (m: u128)
    requires
        -MAX_COMPONENT <= x <= MAX_COMPONENT,
    ensures
        m == magnitude(x as int),
        m <= MAX_COMPONENT,
{
    if x >= 0 {
        x as u128
    } else {
        (-x) as u128
    }
}

/// The dot product of two vectors of one length: its magnitude, and
/// whether it is negative.
pub fn dot_product(a: &Vec<i64>, b: &Vec<i64>) -> (product: (u128, bool))
    requires
        in_bounds(a@),
        in_bounds(b@),
        a.len() == b.len(),
    ensures
        product.0 == magnitude(dot(a@, b@)),
        product.1 == (dot(a@, b@) < 0),
        product.0 <= a.len() * (MAX_COMPONENT * MAX_COMPONENT),
{
    let mut positive: u128 = 0;
    let mut negative: u128 = 0;
    let mut i: usize = 0;
    let ghost square: int = MAX_COMPONENT * MAX_COMPONENT;
    while i < a.len()
        invariant
            i <= a.len(),
            a.len() == b.len(),
            in_bounds(a@),
            in_bounds(b@),
            square == MAX_COMPONENT * MAX_COMPONENT,
            positive - negative == dot(a@.take(i as int), b@.take(i as int)),
            positive + negative <= i * square,
        decreases a.len() - i,
    {
        let x = abs_component(a[i]);
        let y = abs_component(b[i]);
        assert(x * y <= square) by (nonlinear_arith)
            requires
                0 <= x <= MAX_COMPONENT,
                0 <= y <= MAX_COMPONENT,
                square == MAX_COMPONENT * MAX_COMPONENT,
        ;
        assert((i + 1) * square == i * square + square) by (nonlinear_arith);
        assert((i + 1) * square <= 65_536 * square) by (nonlinear_arith)
            requires
                i + 1 <= 65_536,
                square >= 0,
        ;
        let term: u128 = x * y;
        proof {
            let ai = a@[i as int] as int;
            let bi = b@[i as int] as int;
            assert(a@.take(i + 1).drop_last() =~= a@.take(i as int));
            assert(b@.take(i + 1).drop_last() =~= b@.take(i as int));
            assert(a@.take(i + 1).last() == a@[i as int]);
            assert(b@.take(i + 1).last() == b@[i as int]);
            assert(ai * bi == if (ai < 0) == (bi < 0) { x * y } else { -(x * y) }) by (nonlinear_arith)
                requires
                    x == magnitude(ai),
                    y == magnitude(bi),
            ;
        }
        if (a[i] < 0) == (b[i] < 0) {
            positive = positive + term;
        } else {
            negative = negative + term;
        }
        i += 1;
    }
    proof {
        assert(a@.take(a.len() as int) =~= a@);
        assert(b@.take(b.len() as int) =~= b@);
    }
    if positive >= negative {
        (positive - negative, false)
    } else {
        (negative - positive, true)
    }
}

/// The Euclidean length of a vector, in millionths, rounded down.
pub fn norm(v: &Vec<i64>) -> (length: u64)
    requires
        in_bounds(v@),
    ensures
        length == l2_norm(v@),
        length < 0x4_0000_0000_0000,
        forall|i: int| 0 <= i < v.len() ==> magnitude(#[trigger] v@[i] as int) <= length,
        length == 0 <==> is_zero(v@),
{
    let (squares, _) = dot_product(v, v);
    proof {
        lemma_sum_of_squares_bounds(v@, MAX_COMPONENT as int);
        assert(v.len() * (MAX_COMPONENT * MAX_COMPONENT) <= 65_536 * (MAX_COMPONENT * MAX_COMPONENT))
            by (nonlinear_arith)
            requires
                v.len() <= 65_536,
        ;
    }
    let length = isqrt(squares);
    proof {
        if is_zero(v@) {
            lemma_zero_has_no_length(v@);
            assert(length == 0) by (nonlinear_arith)
                requires
                    length * length <= 0,
            ;
        }
        assert forall|i: int| 0 <= i < v.len() implies magnitude(#[trigger] v@[i] as int) <= length by {
            let x = v@[i] as int;
            let m = magnitude(x);
            let r = length as int;
            assert(x * x <= sum_of_squares(v@));
            assert(m * m == x * x) by (nonlinear_arith)
                requires
                    m == magnitude(x),
            ;
            if m > r {
                assert((r + 1) * (r + 1) <= m * m) by (nonlinear_arith)
                    requires
                        0 <= r,
                        r + 1 <= m,
                ;
            }
        }
    }
    proof {
        if length == 0 {
            assert forall|i: int| 0 <= i < v.len() implies #[trigger] v@[i] == 0 by {
                assert(magnitude(v@[i] as int) <= length);
            }
        }
    }
    length
}

/// Divides a vector by its length. A vector of length zero is returned as
/// it is. Every component of the result lies within -1 to 1.
pub fn normalize_vector(v: &Vec<i64>) -> (out: Vec<i64>)
    requires
        in_bounds(v@),
    ensures
        out@ == normalized(v@),
        out.len() == v.len(),
        is_zero(v@) ==> out@ == v@,
        !is_zero(v@) ==> forall|i: int| 0 <= i < out.len() ==> -UNIT <= #[trigger] out@[i] <= UNIT,
{
    let length = norm(v);
    let mut out: Vec<i64> = Vec::new();
    let mut i: usize = 0;
    while i < v.len()
        invariant
            i <= v.len(),
            in_bounds(v@),
            length == l2_norm(v@),
            forall|j: int| 0 <= j < v.len() ==> magnitude(#[trigger] v@[j] as int) <= length,
            out.len() == i,
            forall|j: int| 0 <= j < i ==> #[trigger] out@[j] == (if length == 0 {
                v@[j] as int
            } else {
                scaled(v@[j] as int, length as int)
            }),
            length != 0 ==> forall|j: int| 0 <= j < i ==> -UNIT <= #[trigger] out@[j] <= UNIT,
        decreases v.len() - i,
    {
        let x = v[i];
        if length == 0 {
            out.push(x);
        } else {
            let m = abs_component(x);
            assert(m * 1_000_000 <= 1_000_000_000_000_000_000) by (nonlinear_arith)
                requires
                    m <= 1_000_000_000_000,
            ;
            let numerator: u128 = m * 1_000_000;
            let quotient: u128 = numerator / (length as u128);
            assert(quotient <= 1_000_000) by (nonlinear_arith)
                requires
                    quotient == (m * 1_000_000) / (length as int),
                    0 <= m <= length,
                    length > 0,
            ;
            let component: i64 = if x >= 0 { quotient as i64 } else { -(quotient as i64) };
            out.push(component);
        }
        i += 1;
    }
    proof {
        assert(out@ =~= normalized(v@));
    }
    out
}

/// The cosine of the angle between two vectors, in millionths.
pub fn cosine_similarity(a: &Vec<i64>, b: &Vec<i64>) -> (similarity: i64)
    requires
        in_bounds(a@),
        in_bounds(b@),
    ensures
        similarity == cosine(a@, b@),
        -UNIT <= similarity <= UNIT,
{
    if a.len() != b.len() {
        return 0;
    }
    let na = norm(a);
    let nb = norm(b);
    if na == 0 || nb == 0 {
        return 0;
    }
    let (product, negative) = dot_product(a, b);
    assert(a.len() * (MAX_COMPONENT * MAX_COMPONENT) <= 65_536 * (MAX_COMPONENT * MAX_COMPONENT))
        by (nonlinear_arith)
        requires
            a.len() <= 65_536,
    ;
    assert(product * 1_000_000 <= 65_536 * (MAX_COMPONENT * MAX_COMPONENT) * 1_000_000)
        by (nonlinear_arith)
        requires
            product <= 65_536 * (MAX_COMPONENT * MAX_COMPONENT),
    ;
    assert(0 < (na as u128) * (nb as u128) <= 0x4_0000_0000_0000 * 0x4_0000_0000_0000)
        by (nonlinear_arith)
        requires
            0 < na < 0x4_0000_0000_0000,
            0 < nb < 0x4_0000_0000_0000,
    ;
    let numerator: u128 = product * 1_000_000;
    let denominator: u128 = (na as u128) * (nb as u128);
    let quotient: u128 = numerator / denominator;
    let capped: i64 = if quotient > 1_000_000 { 1_000_000 } else { quotient as i64 };
    if negative {
        -capped
    } else {
        capped
    }
}

/// Checks `in_bounds`.
pub fn within_bounds(v: &Vec<i64>) -> (ok: bool)
    ensures
        ok == in_bounds(v@),
{
    if v.len() > MAX_DIMENSION {
        return false;
    }
    let mut i: usize = 0;
    while i < v.len()
        invariant
            i <= v.len(),
            v.len() <= MAX_DIMENSION,
            forall|j: int| 0 <= j < i ==> -MAX_COMPONENT <= #[trigger] v@[j] <= MAX_COMPONENT,
        decreases v.len() - i,
    {
        if v[i] < -MAX_COMPONENT || v[i] > MAX_COMPONENT {
            return false;
        }
        i += 1;
    }
    true
}

/// A copy of a vector.
pub fn copy_vector(v: &Vec<i64>) -> (out: Vec<i64>)
    ensures
        out@ == v@,
{
    let mut out: Vec<i64> = Vec::new();
    let mut i: usize = 0;
    while i < v.len()
        invariant
            i <= v.len(),
            out@ == v@.take(i as int),
        decreases v.len() - i,
    {
        out.push(v[i]);
        proof {
            assert(v@.take(i + 1) =~= v@.take(i as int).push(v@[i as int]));
        }
        i += 1;
    }
    proof {
        assert(v@.take(v.len() as int) =~= v@);
    }
    out
}

} // verus!
