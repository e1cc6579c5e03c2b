use vstd::prelude::*;
use vstd::arithmetic::div_mod::{lemma_fundamental_div_mod, lemma_mod_multiples_basic};

verus! {

/// The Fibonacci sequence counted from one: 1, 1, 2, 3, 5, 8, ...
pub open spec fn fib_spec(n: nat) -> nat
    decreases n,
{
    if n < 2 {
        1
    } else {
        fib_spec((n - 1) as nat) + fib_spec((n - 2) as nat)
    }
}

/// The sequence starts 1, 1, and every later term is the sum of the two before it.
pub proof fn lemma_fib_recurrence(n: nat)
    ensures
        fib_spec(0) == 1,
        fib_spec(1) == 1,
        fib_spec(n + 2) == fib_spec(n + 1) + fib_spec(n),
{
}

/// Every term is at least the one before it.
pub proof fn lemma_fib_monotonic(i: nat, j: nat)
    requires
        i <= j,
    ensures
        fib_spec(i) <= fib_spec(j),
    decreases j - i,
{
    if i < j {
        lemma_fib_monotonic(i, (j - 1) as nat);
        if j >= 2 {
            assert(fib_spec(j) == fib_spec((j - 1) as nat) + fib_spec((j - 2) as nat));
        }
    }
}

/// The last term that fits in a `u32` is the 46th: 2971215073; the 47th, 4807526976, does not.
#[verifier::rlimit(100)]
pub proof fn lemma_fib_u32_limit(n: nat)
    ensures
        n <= 46 ==> fib_spec(n) <= u32::MAX,
        n > 46 ==> fib_spec(n) > u32::MAX,
{
    reveal_with_fuel(fib_spec, 48);
    assert(fib_spec(47) == 4807526976);
    assert(fib_spec(46) == 2971215073);
    if n <= 46 {
        lemma_fib_monotonic(n, 46);
    } else {
        lemma_fib_monotonic(47, n);
    }
}

/// The `n`-th term of the Fibonacci sequence that starts 1, 1, 2, 3, 5, ... (counting from
/// zero); the terms past the 46th do not fit in a `u32`.
pub fn fib(n: u32) -> (r: u32)
    requires
        n <= 46,
    ensures
        r == fib_spec(n as nat),
{
    proof {
        lemma_fib_u32_limit(n as nat);
    }
    if n < 2 {
        return 1;
    }
    let mut a: u32 = 1;
    let mut b: u32 = 1;
    let mut i: u32 = 1;
    while i < n
        invariant
            1 <= i <= n,
            a == fib_spec((i - 1) as nat),
            b == fib_spec(i as nat),
            fib_spec(n as nat) <= u32::MAX,
        decreases n - i,
    {
        proof {
            lemma_fib_monotonic((i + 1) as nat, n as nat);
            assert(fib_spec((i + 1) as nat) == fib_spec(i as nat) + fib_spec((i - 1) as nat));
        }
        let c = a + b;
        a = b;
        b = c;
        i = i + 1;
    }
    b
}

/// `n` is a prime number.
pub open spec fn prime(n: nat) -> bool {
    &&& n >= 2
    &&& forall|d: nat| 2 <= d < n ==> #[trigger] (n % d) != 0
}

/// The numbers the trial division of `is_prime` tries: those of the form 6k - 1 or 6k + 1.
pub open spec fn wheel_candidate(e: int) -> bool {
    e % 6 == 1 || e % 6 == 5
}

/// What `is_prime` answers: whether `n` is prime, where 1 counts as prime too.
pub open spec fn is_prime_spec(n: nat) -> bool {
    n == 1 || prime(n)
}

/// What `is_prime` answers, spelled out: `true` for 1 and for every number of at least 2
/// that no number between 2 and itself divides, `false` for every other number; in
/// particular a number with a divisor of the form 6k +- 1 is not prime.
pub proof fn lemma_is_prime_spec_meaning(n: nat, d: nat)
    ensures
        is_prime_spec(n) <==> (n == 1 || (n >= 2 && forall|e: nat| 2 <= e < n ==> #[trigger] (n % e) != 0)),
        2 <= d < n && n % d == 0 ==> !is_prime_spec(n),
        n == 0 ==> !is_prime_spec(n),
{
}

/// The inputs on which the square-root search of `is_prime` would overflow a `u32`.
pub open spec fn is_prime_overflows(n: u32) -> bool {
    wheel_candidate(n as int) && n >= 65535 * 65535
}

proof fn lemma_divisor_of_divisor(n: int, e: int, k: int)
    requires
        n > 0,
        e > 0,
        k > 0,
        n % e == 0,
        e % k == 0,
    ensures
        n % k == 0,
{
    lemma_fundamental_div_mod(n, e);
    lemma_fundamental_div_mod(e, k);
    let q = n / e;
    let p = e / k;
    assert(n == k * (p * q)) by (nonlinear_arith)
        requires
            n == e * q,
            e == k * p,
    ;
    lemma_mod_multiples_basic(p * q, k);
    assert((p * q) * k == k * (p * q)) by (nonlinear_arith);
}

/// A number that is odd, not a multiple of three and has no divisor of the form 6k +- 1
/// up to its integer square root `r` is prime.
proof fn lemma_wheel_prime(n: int, r: int)
    requires
        n >= 2,
        r >= 0,
        n % 2 != 0,
        n % 3 != 0,
        r * r <= n < (r + 1) * (r + 1),
        forall|e: int| 5 <= e <= r && #[trigger] wheel_candidate(e) ==> n % e != 0,
    ensures
        prime(n as nat),
{
    assert forall|d: nat| 2 <= d < n implies #[trigger] ((n as nat) % d) != 0 by {
        if (n as nat) % d == 0 {
            let di = d as int;
            lemma_fundamental_div_mod(n, di);
            let q = n / di;
            assert(n == di * q);
            assert(q >= 2) by (nonlinear_arith)
                requires
                    n == di * q,
                    2 <= di < n,
            ;
            lemma_mod_multiples_basic(di, q);
            assert(di * q == q * di) by (nonlinear_arith);
            assert(n % q == 0);
            let e = if di <= q { di } else { q };
            assert(n % e == 0);
            assert(e * e <= n) by (nonlinear_arith)
                requires
                    n == di * q,
                    e == di || e == q,
                    e <= di,
                    e <= q,
                    e >= 2,
            ;
            assert(e <= r) by (nonlinear_arith)
                requires
                    e * e <= n,
                    n < (r + 1) * (r + 1),
                    e >= 0,
                    r >= 0,
            ;
            if e % 2 == 0 {
                lemma_divisor_of_divisor(n, e, 2);
            }
            if e % 3 == 0 {
                lemma_divisor_of_divisor(n, e, 3);
            }
            assert(wheel_candidate(e));
            assert(5 <= e);
        }
    }
}

/// Whether `n` is prime, by trial division with the divisors 6k - 1 and 6k + 1 up to the
/// integer square root of `n`. It answers `true` for 1.
pub fn is_prime(n: u32) -> (r: bool)
    requires
        !is_prime_overflows(n),
    ensures
        r == is_prime_spec(n as nat),
        r <==> (n == 1 || (n >= 2 && forall|d: nat| 2 <= d < n ==> #[trigger] ((n as nat) % d) != 0)),
{
    if n == 2 || n == 3 {
        return true;
    } else if n % 6 != 1 && n % 6 != 5 {
        proof {
            if n >= 2 {
                if n % 2 == 0 {
                    assert((n as nat) % 2 == 0);
                } else {
                    assert((n as nat) % 3 == 0);
                }
            }
        }
        return false;
    }
    // the largest x with x * x <= n
    let mut n_sqrt: u32 = 1;
    loop
        invariant
            1 <= n_sqrt <= 65535,
            n_sqrt * n_sqrt <= n,
            n < 65535 * 65535,
        ensures
            1 <= n_sqrt <= 65535,
            n_sqrt * n_sqrt <= n < (n_sqrt + 1) * (n_sqrt + 1),
        decreases 65535 - n_sqrt,
    {
        let next: u64 = n_sqrt as u64 + 1;
        assert(next * next <= 65536 * 65536) by (nonlinear_arith)
            requires
                next <= 65536,
        ;
        if next * next > n as u64 {
            break;
        }
        assert(n_sqrt < 65535) by (nonlinear_arith)
            requires
                (n_sqrt + 1) * (n_sqrt + 1) <= n,
                n < 65535 * 65535,
                n_sqrt >= 1,
        ;
        n_sqrt = n_sqrt + 1;
    }
    let mut x: u32 = 5;
    while x <= n_sqrt
        invariant
            5 <= x <= n_sqrt + 6,
            x % 6 == 5,
            n_sqrt <= 65535,
            n_sqrt * n_sqrt <= n < (n_sqrt + 1) * (n_sqrt + 1),
            forall|e: int| 5 <= e < x && #[trigger] wheel_candidate(e) ==> (n as int) % e != 0,
        decreases n_sqrt + 6 - x,
    {
        if n % x == 0 || n % (x + 2) == 0 {
            proof {
                assert(x * x <= n) by (nonlinear_arith)
                    requires
                        x <= n_sqrt,
                        n_sqrt * n_sqrt <= n,
                ;
                assert(x + 2 < n) by (nonlinear_arith)
                    requires
                        x * x <= n,
                        x >= 5,
                ;
                if n % x == 0 {
                    assert((n as nat) % (x as nat) == 0);
                } else {
                    assert((n as nat) % ((x + 2) as nat) == 0);
                }
            }
            return false;
        }
        x = x + 6;
    }
    proof {
        if n != 1 {
            lemma_wheel_prime(n as int, n_sqrt as int);
        }
    }
    true
}

} // verus!
