use vstd::prelude::*;

verus! {

/// A match confidence: the exact nonnegative value `num / sqrt(den)`.
///
/// A normalized cross-correlation score has an integer numerator and an
/// integer under the square root of its denominator, so this shape holds
/// every score of the pipeline exactly, and every comparison the pipeline
/// makes (maximum across directions, cutoff against a threshold) is decided
/// by integer arithmetic alone.
#[derive(Clone, Copy, Debug, PartialEq, Eq, Structural)]
pub struct Score {
    /// Numerator; nonnegative.
    pub num: u64,
    /// The square of the denominator; at least 1.
    pub den: u64,
}

impl Score {
    /// Bounds under which every comparison fits in 128-bit arithmetic.
    pub open spec fn valid(self) -> bool {
        self.num <= u32::MAX && 1 <= self.den
    }

    /// Value order: `self.num / sqrt(self.den) <= other.num / sqrt(other.den)`,
    /// cross-multiplied and squared (both sides are nonnegative).
    pub open spec fn spec_le(self, other: Score) -> bool {
        self.num * self.num * other.den <= other.num * other.num * self.den
    }

    pub open spec fn spec_lt(self, other: Score) -> bool {
        !other.spec_le(self)
    }

    /// Value equality; coarser than `==`, which compares representations.
    pub open spec fn spec_eqv(self, other: Score) -> bool {
        self.num * self.num * other.den == other.num * other.num * self.den
    }

    /// The larger value of the two; on equal values, `self`.
    pub open spec fn spec_max(self, other: Score) -> Score {
        if self.spec_lt(other) {
            other
        } else {
            self
        }
    }

    /// The score `num / den`; e.g. `Score::ratio(9, 10)` is 0.9.
    pub fn ratio(num: u32, den: u32) -> (r: Score)
        requires
            1 <= den,
        ensures
            r.valid(),
            r.num == num,
            r.den == den * den,
    {
        proof {
            lemma_square_fits_u64(den as int);
        }
        Score { num: num as u64, den: (den as u64) * (den as u64) }
    }

    /// The score 0.
    pub fn zero() -> (r: Score)
        ensures
            r.valid(),
            r.num == 0,
            r.den == 1,
    {
        Score { num: 0, den: 1 }
    }

    pub fn le(self, other: Score) -> (r: bool)
        requires
            self.valid(),
            other.valid(),
        ensures
            r == self.spec_le(other),
    {
        proof {
            lemma_cross_product_bound(self.num as int, other.den as int);
            lemma_cross_product_bound(other.num as int, self.den as int);
        }
        let a = (self.num as u128) * (self.num as u128) * (other.den as u128);
        let b = (other.num as u128) * (other.num as u128) * (self.den as u128);
        a <= b
    }

    pub fn lt(self, other: Score) -> (r: bool)
        requires
            self.valid(),
            other.valid(),
        ensures
            r == self.spec_lt(other),
    {
        !other.le(self)
    }

    pub fn eqv(self, other: Score) -> (r: bool)
        requires
            self.valid(),
            other.valid(),
        ensures
            r == self.spec_eqv(other),
    {
        self.le(other) && other.le(self)
    }

    pub fn max_with(self, other: Score) -> (r: Score)
        requires
            self.valid(),
            other.valid(),
        ensures
            r == self.spec_max(other),
    {
        if self.lt(other) {
            other
        } else {
            self
        }
    }
}

/// The two cross products of a comparison fit in `u128`.
proof fn lemma_cross_product_bound(n: int, d: int) by (nonlinear_arith)
    requires
        0 <= n <= u32::MAX,
        1 <= d <= u64::MAX,
    ensures
        0 <= n * n <= u64::MAX,
        0 <= n * n * d < u128::MAX,
{
}

proof fn lemma_square_fits_u64(n: int) by (nonlinear_arith)
    requires
        0 <= n <= u32::MAX,
    ensures
        0 <= n * n <= u64::MAX,
        1 <= n ==> 1 <= n * n,
{
}

/// Transitivity of the cross-multiplied order, stated over the squared
/// numerators `p`, `q`, `r`.
proof fn lemma_cross_trans(p: int, q: int, r: int, da: int, db: int, dc: int) by (nonlinear_arith)
    requires
        0 <= p,
        0 <= q,
        0 <= r,
        1 <= da,
        1 <= db,
        1 <= dc,
        p * db <= q * da,
        q * dc <= r * db,
    ensures
        p * dc <= r * da,
{
}

/// Scores equal in value compare `<=` both ways.
pub proof fn lemma_eqv_le(a: Score, b: Score)
    requires
        a.spec_eqv(b),
    ensures
        a.spec_le(b),
        b.spec_le(a),
{
}

pub proof fn lemma_le_trans(a: Score, b: Score, c: Score)
    requires
        a.valid(),
        b.valid(),
        c.valid(),
        a.spec_le(b),
        b.spec_le(c),
    ensures
        a.spec_le(c),
{
    lemma_cross_trans(
        a.num * a.num,
        b.num * b.num,
        c.num * c.num,
        a.den as int,
        b.den as int,
        c.den as int,
    );
}

} // verus!
