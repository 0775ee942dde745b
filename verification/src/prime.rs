//! Primality by trial division over the candidates of the form 6k ± 1.

use vstd::prelude::*;
use vstd::arithmetic::div_mod::{lemma_fundamental_div_mod, lemma_mod_multiples_basic};

verus! {

/// `n` is a prime number: at least 2, and no number strictly between 1 and `n`
/// divides it.
pub open spec fn is_prime_number(n: nat) -> bool {
    &&& n >= 2
    &&& forall|d: nat| 2 <= d < n ==> #[trigger] (n % d) != 0
}

/// No number from 2 up to, but not including, `bound` divides `n`.
pub open spec fn no_divisor_below(n: nat, bound: nat) -> bool {
    forall|d: nat| 2 <= d < bound ==> #[trigger] (n % d) != 0
}

/// Divisibility is transitive: a divisor of a divisor of `n` divides `n`.
proof fn lemma_divisor_of_divisor(n: nat, d: nat, k: nat)
    requires
        k > 0,
        d > 0,
        d % k == 0,
        n % d == 0,
    ensures
        n % k == 0,
{
    lemma_fundamental_div_mod(n as int, d as int);
    lemma_fundamental_div_mod(d as int, k as int);
    let q: int = n as int / d as int;
    let r: int = d as int / k as int;
    assert(n as int == (r * q) * k) by (nonlinear_arith)
        requires
            n as int == d as int * q,
            d as int == k as int * r,
    ;
    lemma_mod_multiples_basic(r * q, k as int);
}

/// A number that neither 2 nor 3 divides has no divisor among the four
/// numbers that lie between two candidates 6k - 1 and 6k + 1, 6k + 5.
proof fn lemma_skipped_candidates(n: nat, i: nat)
    requires
        i % 6 == 5,
        n % 2 != 0,
        n % 3 != 0,
        n % i != 0,
        n % (i + 2) != 0,
        no_divisor_below(n, i),
    ensures
        no_divisor_below(n, i + 6),
{
    assert forall|d: nat| 2 <= d < i + 6 implies #[trigger] (n % d) != 0 by {
        if d >= i && n % d == 0 {
            if d == i + 1 || d == i + 3 || d == i + 5 {
                assert(d % 2 == 0);
                lemma_divisor_of_divisor(n, d, 2);
            } else if d == i + 4 {
                assert(d % 3 == 0);
                lemma_divisor_of_divisor(n, d, 3);
            }
        }
    }
}

/// Once the square of `i` exceeds `n`, a number without a divisor below `i`
/// has none at all: the cofactor of a larger divisor would be a smaller one.
proof fn lemma_square_bound(n: nat, i: nat)
    requires
        i >= 2,
        n >= 2,
        n / i < i,
        no_divisor_below(n, i),
    ensures
        is_prime_number(n),
{
    assert forall|d: nat| 2 <= d < n implies #[trigger] (n % d) != 0 by {
        if d >= i && n % d == 0 {
            lemma_fundamental_div_mod(n as int, d as int);
            lemma_fundamental_div_mod(n as int, i as int);
            let q: int = n as int / d as int;
            let h: int = n as int / i as int;
            let m: int = n as int % i as int;
            assert(q >= 2) by (nonlinear_arith)
                requires
                    n as int == d as int * q,
                    2 <= d < n,
            ;
            assert(q < i) by (nonlinear_arith)
                requires
                    n as int == d as int * q,
                    n as int == i as int * h + m,
                    0 <= m < i,
                    h < i,
                    d >= i,
                    i >= 2,
            ;
            lemma_mod_multiples_basic(d as int, q);
            assert(n % (q as nat) == 0);
        }
    }
}

/// A candidate whose square does not exceed `n` leaves room for the next one.
proof fn lemma_candidate_fits(n: nat, i: nat)
    requires
        i >= 5,
        i <= n / i,
    ensures
        5 * i <= n,
{
    lemma_fundamental_div_mod(n as int, i as int);
    let h: int = n as int / i as int;
    let m: int = n as int % i as int;
    assert(5 * i <= n) by (nonlinear_arith)
        requires
            n as int == i as int * h + m,
            0 <= m,
            i <= h,
            i >= 5,
    ;
}

/// Tells whether `n` is prime.
///
/// After 2 and 3 only the numbers 6k - 1 and 6k + 1 are tried as divisors, up
/// to the square root of `n`.
pub fn is_prime(n: usize) -> (prime: bool)
    ensures
        prime == is_prime_number(n as nat),
{
    if n <= 1 {
        return false;
    }
    if n <= 3 {
        return true;
    }
    if n % 2 == 0 || n % 3 == 0 {
        return false;
    }
    assert(no_divisor_below(n as nat, 5)) by {
        assert forall|d: nat| 2 <= d < 5 implies #[trigger] (n as nat % d) != 0 by {
            if d == 4 && n as nat % d == 0 {
                lemma_divisor_of_divisor(n as nat, 4, 2);
            }
        }
    }
    let mut i: usize = 5;
    while i <= n / i
        invariant
            n > 3,
            n % 2 != 0,
            n % 3 != 0,
            i >= 5,
            i % 6 == 5,
            no_divisor_below(n as nat, i as nat),
        decreases n - i,
    {
        proof {
            lemma_candidate_fits(n as nat, i as nat);
        }
        if n % i == 0 || n % (i + 2) == 0 {
            return false;
        }
        proof {
            lemma_skipped_candidates(n as nat, i as nat);
        }
        i += 6;
    }
    proof {
        lemma_square_bound(n as nat, i as nat);
    }
    true
}

} // verus!
