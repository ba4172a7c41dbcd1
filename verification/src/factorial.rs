//! Factorials of small numbers.

use vstd::prelude::*;

verus! {

/// The product of the numbers from 1 to `n`; 1 for `n == 0`.
pub open spec fn factorial_of(n: nat) -> nat
    decreases n,
{
    if n == 0 {
        1
    } else {
        n * factorial_of((n - 1) as nat)
    }
}

/// The largest argument whose factorial fits in 64 bits.
pub const MAX_FACTORIAL_ARGUMENT: u64 = 20;

/// Factorials grow with their argument.
pub proof fn lemma_factorial_grows(a: nat, b: nat)
    requires
        a <= b,
    ensures
        1 <= factorial_of(a) <= factorial_of(b),
    decreases b,
{
    if b == 0 {
    } else if a == b {
        lemma_factorial_grows((a - 1) as nat, (a - 1) as nat);
        assert(factorial_of(a) >= 1) by (nonlinear_arith)
            requires
                factorial_of(a) == a * factorial_of((a - 1) as nat),
                a >= 1,
                factorial_of((a - 1) as nat) >= 1,
        ;
    } else {
        lemma_factorial_grows(a, (b - 1) as nat);
        assert(factorial_of(b) >= factorial_of((b - 1) as nat)) by (nonlinear_arith)
            requires
                factorial_of(b) == b * factorial_of((b - 1) as nat),
                b >= 1,
                factorial_of((b - 1) as nat) >= 1,
        ;
    }
}

/// The factorial of twenty, the last one below 2^64.
pub proof fn lemma_factorial_of_twenty()
    ensures
        factorial_of(20) == 2432902008176640000,
{
    assert(factorial_of(0) == 1);
    assert(factorial_of(1) == 1);
    assert(factorial_of(2) == 2);
    assert(factorial_of(3) == 6);
    assert(factorial_of(4) == 24);
    assert(factorial_of(5) == 120);
    assert(factorial_of(6) == 720);
    assert(factorial_of(7) == 5040);
    assert(factorial_of(8) == 40320);
    assert(factorial_of(9) == 362880);
    assert(factorial_of(10) == 3628800);
    assert(factorial_of(11) == 39916800);
    assert(factorial_of(12) == 479001600);
    assert(factorial_of(13) == 6227020800);
    assert(factorial_of(14) == 87178291200);
    assert(factorial_of(15) == 1307674368000);
    assert(factorial_of(16) == 20922789888000);
    assert(factorial_of(17) == 355687428096000);
    assert(factorial_of(18) == 6402373705728000);
    assert(factorial_of(19) == 121645100408832000);
}

/// The factorial of `n`.
pub fn factorial(n: u64) -> (result: u64)
    requires
        n <= MAX_FACTORIAL_ARGUMENT,
    ensures
        result == factorial_of(n as nat),
{
    let mut result: u64 = 1;
    let mut i: u64 = 1;
    while i <= n
        invariant
            n <= 20,
            1 <= i <= n + 1,
            result == factorial_of((i - 1) as nat),
        decreases n + 1 - i,
    {
        proof {
            lemma_factorial_grows(i as nat, 20);
            lemma_factorial_of_twenty();
            assert(factorial_of(i as nat) == i * factorial_of((i - 1) as nat));
            assert(result * i == factorial_of(i as nat)) by (nonlinear_arith)
                requires
                    factorial_of(i as nat) == i * result,
            ;
        }
        result = result * i;
        i = i + 1;
    }
    result
}

} // verus!
