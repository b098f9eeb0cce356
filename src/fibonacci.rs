//! Fibonacci numbers on 64-bit signed integers.
use vstd::prelude::*;

verus! {

/// The Fibonacci numbers: 0, 1, 1, 2, 3, 5, ...
pub open spec fn fib(n: nat) -> nat
    decreases n,
{
    if n == 0 {
        0
    } else if n == 1 {
        1
    } else {
        fib((n - 1) as nat) + fib((n - 2) as nat)
    }
}

/// The Fibonacci numbers do not decrease.
pub proof fn lemma_fib_monotonic(i: nat, j: nat)
    requires
        i <= j,
    ensures
        fib(i) <= fib(j),
    decreases j - i,
{
    if i < j {
        lemma_fib_monotonic(i, (j - 1) as nat);
        if j >= 2 {
            assert(fib(j) == fib((j - 1) as nat) + fib((j - 2) as nat));
        }
    }
}

/// Relies on num-traits' `Zero` for `i64`: `is_zero` compares with 0.
#[verifier::external_body]
fn is_zero(n: i64) -> (r: bool)
    ensures
        r == (n == 0),
{
    num_traits::Zero::is_zero(&n)
}

/// Relies on num-traits' `One` for `i64`: `is_one` compares with 1.
#[verifier::external_body]
fn is_one(n: i64) -> (r: bool)
    ensures
        r == (n == 1),
{
    num_traits::One::is_one(&n)
}

/// The `n`th Fibonacci number for positive `n`, and 0 for negative `n`. Zero is not an
/// argument, and the result must fit in an `i64`.
pub fn fibonacci(n: i64) -> (r: i64)
    requires
        n != 0,
        n > 0 ==> fib(n as nat) <= i64::MAX,
    ensures
        n > 0 ==> r == fib(n as nat),
        n < 0 ==> r == 0,
{
    if is_zero(n) {
        return 0;
    } else if is_one(n) {
        return 1;
    }
    let mut sum: i64 = 0;
    let mut last: i64 = 0;
    let mut curr: i64 = 1;
    let mut i: i64 = 1;
    while i < n
        invariant
            1 <= i,
            i > 1 ==> i <= n,
            n > 0 ==> fib(n as nat) <= i64::MAX,
            last == fib((i - 1) as nat),
            curr == fib(i as nat),
            i > 1 ==> sum == curr,
            i == 1 ==> sum == 0,
        decreases n - i,
    {
        proof {
            lemma_fib_monotonic((i + 1) as nat, n as nat);
            assert(fib((i + 1) as nat) == fib(i as nat) + fib((i - 1) as nat));
        }
        sum = last + curr;
        last = curr;
        curr = sum;
        i = i + 1;
    }
    sum
}

} // verus!
