//! Powers of two, as far as ring capacities and frame lengths need them.

use vstd::arithmetic::power2::is_pow2;
use vstd::prelude::*;

verus! {

/// A power of two is positive.
pub proof fn lemma_pow2_positive(n: int)
    requires
        is_pow2(n),
    ensures
        n >= 1,
{
    reveal(is_pow2);
}

/// Twice a power of two is a power of two.
pub proof fn lemma_pow2_double(n: int)
    requires
        is_pow2(n),
    ensures
        is_pow2(2 * n),
{
    reveal(is_pow2);
    assert((2 * n) / 2 == n);
    assert((2 * n) % 2 == 0);
}

/// No power of two lies strictly between a power of two and its double.
pub proof fn lemma_pow2_gap(p: int, q: int)
    requires
        is_pow2(p),
        is_pow2(q),
        p < q,
    ensures
        2 * p <= q,
    decreases p,
{
    reveal(is_pow2);
    if p == 1 {
        assert(q % 2 == 0);
    } else {
        lemma_pow2_gap(p / 2, q / 2);
    }
}

/// Whether `n` is a power of two.
pub fn is_power_of_two(n: usize) -> (r: bool)
    ensures
        r == is_pow2(n as int),
{
    if n == 0 {
        proof {
            reveal(is_pow2);
        }
        return false;
    }
    let mut m: usize = n;
    while m % 2 == 0
        invariant
            0 < m <= n,
            is_pow2(m as int) == is_pow2(n as int),
        decreases m,
    {
        proof {
            reveal(is_pow2);
        }
        m = m / 2;
    }
    proof {
        reveal(is_pow2);
    }
    m == 1
}

/// `r` is the least power of two that is not below `n`.
pub open spec fn is_next_pow2(n: int, r: int) -> bool {
    &&& is_pow2(r)
    &&& n <= r
    &&& forall|p: int| is_pow2(p) && n <= p ==> r <= p
}

/// The least power of two that is not below `n`, or `None` where it does
/// not fit a `usize`.
pub fn next_power_of_two(n: usize) -> (r: Option<usize>)
    ensures
        match r {
            Some(p) => is_next_pow2(n as int, p as int),
            None => forall|p: int| is_pow2(p) && n <= p ==> p > usize::MAX,
        },
{
    let mut p: usize = 1;
    proof {
        reveal(is_pow2);
        assert(is_pow2(1));
        assert forall|q: int| is_pow2(q) && n <= q implies q >= 1 by {
            lemma_pow2_positive(q);
        }
    }
    while p < n
        invariant
            is_pow2(p as int),
            forall|q: int| is_pow2(q) && n <= q ==> p <= q,
        decreases usize::MAX - p,
    {
        if p > usize::MAX / 2 {
            assert forall|q: int| is_pow2(q) && n <= q implies q > usize::MAX by {
                lemma_pow2_gap(p as int, q);
            }
            return None;
        }
        proof {
            lemma_pow2_double(p as int);
            assert forall|q: int| is_pow2(q) && n <= q implies 2 * p <= q by {
                lemma_pow2_gap(p as int, q);
            }
            lemma_pow2_positive(p as int);
        }
        p = 2 * p;
    }
    Some(p)
}

} // verus!
