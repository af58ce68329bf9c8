//! Arithmetic specifications shared by the numeric candidate variants:
//! divisor sums and counts, primality, prime counting and Fibonacci, with
//! the lemmas that justify the square-root pairing loops.

use vstd::prelude::*;

verus! {

/// The larger of two naturals.
pub open spec fn max_nat(a: nat, b: nat) -> nat {
    if a >= b {
        a
    } else {
        b
    }
}

/// Sum of the divisors of `n` that are at most `k`.
pub open spec fn sum_divisors_upto(n: nat, k: nat) -> nat
    decreases k,
{
    if k == 0 {
        0
    } else {
        sum_divisors_upto(n, (k - 1) as nat) + if n % k == 0 {
            k
        } else {
            0nat
        }
    }
}

/// Sum of all divisors of `n` (0 for `n == 0`).
pub open spec fn sigma(n: nat) -> nat {
    sum_divisors_upto(n, n)
}

/// Sum of the proper divisors of `n`: every divisor except `n` itself.
pub open spec fn sigma_proper(n: nat) -> nat {
    if n == 0 {
        0
    } else {
        sum_divisors_upto(n, (n - 1) as nat)
    }
}

/// Number of divisors of `n` that are at most `k`.
pub open spec fn count_divisors_upto(n: nat, k: nat) -> nat
    decreases k,
{
    if k == 0 {
        0
    } else {
        count_divisors_upto(n, (k - 1) as nat) + if n % k == 0 {
            1nat
        } else {
            0nat
        }
    }
}

/// Number of divisors of `n` (0 for `n == 0`).
pub open spec fn divisor_count(n: nat) -> nat {
    count_divisors_upto(n, n)
}

/// A natural is prime when it is at least 2 and no smaller natural above 1
/// divides it.
pub open spec fn is_prime(p: nat) -> bool {
    p >= 2 && forall|d: nat| 2 <= d < p ==> #[trigger] (p % d) != 0
}

/// Number of primes strictly below `n`.
pub open spec fn prime_count(n: nat) -> nat
    decreases n,
{
    if n <= 2 {
        0
    } else {
        prime_count((n - 1) as nat) + if is_prime((n - 1) as nat) {
            1nat
        } else {
            0nat
        }
    }
}

/// The Fibonacci sequence.
pub open spec fn fib(n: nat) -> nat
    decreases n,
{
    if n == 0 {
        0
    } else if n == 1 {
        1
    } else {
        fib((n - 1) as nat) + fib((n - 2) as nat)
    }
}

/// Divisor sums over a longer prefix are no smaller.
pub proof fn lemma_sum_divisors_mono(n: nat, a: nat, b: nat)
    requires
        a <= b,
    ensures
        sum_divisors_upto(n, a) <= sum_divisors_upto(n, b),
    decreases b,
{
    if a < b {
        lemma_sum_divisors_mono(n, a, (b - 1) as nat);
    }
}

/// A divisor-free interval contributes nothing to the divisor sum.
pub proof fn lemma_sum_divisors_no_div(n: nat, a: nat, b: nat)
    requires
        a <= b,
        forall|d: nat| a < d <= b ==> #[trigger] (n % d) != 0,
    ensures
        sum_divisors_upto(n, b) == sum_divisors_upto(n, a),
    decreases b,
{
    if a < b {
        lemma_sum_divisors_no_div(n, a, (b - 1) as nat);
    }
}

/// Quotients shrink as the denominator grows, and related division facts used
/// when pairing a small divisor `j` with its large partner `n / j`.
pub proof fn lemma_div_sandwich(n: nat, j: nat, d: nat)
    requires
        1 <= j,
        j * j <= n,
        n / (j + 1) < d,
        d <= n / j,
    ensures
        n / d == j,
        n % d == 0 ==> d == n / j && n % j == 0,
{
    vstd::arithmetic::div_mod::lemma_fundamental_div_mod(n as int, j as int);
    vstd::arithmetic::div_mod::lemma_fundamental_div_mod(n as int, (j + 1) as int);
    vstd::arithmetic::div_mod::lemma_fundamental_div_mod(n as int, d as int);
    assert(d * j <= n && n < d * (j + 1)) by (nonlinear_arith)
        requires
            1 <= j,
            1 <= d,
            n / (j + 1) < d,
            d <= n / j,
            n == j * (n / j) + n % j,
            n % j < j,
            n == (j + 1) * (n / (j + 1)) + n % (j + 1),
            n % (j + 1) < j + 1,
    {
    }
    assert(n / d == j) by (nonlinear_arith)
        requires
            1 <= d,
            d * j <= n,
            n < d * (j + 1),
            n == d * (n / d) + n % d,
            n % d < d,
    {
    }
    if n % d == 0 {
        assert(n == d * j) by (nonlinear_arith)
            requires
                1 <= d,
                n / d == j,
                n % d == 0,
                n == d * (n / d) + n % d,
        {
        }
        assert(n % j == 0 && n / j == d) by (nonlinear_arith)
            requires
                1 <= j,
                n == d * j,
                n == j * (n / j) + n % j,
                n % j < j,
        {
        }
    }
}

/// Peeling one band of large divisors: between `n / (j + 1)` (exclusive) and
/// `n / j` (inclusive) the only possible divisor of `n` is `n / j` itself,
/// present exactly when `j` divides `n`.
pub proof fn lemma_peel(n: nat, j: nat)
    requires
        1 <= j,
        j * j <= n,
    ensures
        sum_divisors_upto(n, n / j) == sum_divisors_upto(n, n / (j + 1)) + if n % j == 0 {
            n / j
        } else {
            0nat
        },
{
    let a = n / (j + 1);
    let b = n / j;
    vstd::arithmetic::div_mod::lemma_div_is_ordered_by_denominator(
        n as int,
        j as int,
        (j + 1) as int,
    );
    assert(a <= b);
    assert forall|d: nat| a < d < b implies #[trigger] (n % d) != 0 by {
        if n % d == 0 {
            lemma_div_sandwich(n, j, d);
        }
    }
    vstd::arithmetic::div_mod::lemma_fundamental_div_mod(n as int, j as int);
    vstd::arithmetic::div_mod::lemma_fundamental_div_mod(n as int, (j + 1) as int);
    assert(b >= j) by (nonlinear_arith)
        requires
            1 <= j,
            j * j <= n,
            n == j * (n / j) + n % j,
            n % j < j,
            b == n / j,
    {
    }
    if n % j == 0 {
        assert(b * j == n) by (nonlinear_arith)
            requires
                n == j * (n / j) + n % j,
                n % j == 0,
                b == n / j,
        {
        }
        vstd::arithmetic::div_mod::lemma_fundamental_div_mod(n as int, b as int);
        assert(n % b == 0) by (nonlinear_arith)
            requires
                1 <= b,
                n == b * j,
                n == b * (n / b) + n % b,
                n % b < b,
        {
        }
        assert(a < b) by (nonlinear_arith)
            requires
                1 <= j,
                1 <= b,
                n == b * j,
                n == (j + 1) * a + n % (j + 1),
                n % (j + 1) < j + 1,
        {
        }
        assert(sum_divisors_upto(n, b) == sum_divisors_upto(n, (b - 1) as nat) + b);
        lemma_sum_divisors_no_div(n, a, (b - 1) as nat);
    } else {
        assert forall|d: nat| a < d <= b implies #[trigger] (n % d) != 0 by {
            if n % d == 0 {
                lemma_div_sandwich(n, j, d);
            }
        }
        lemma_sum_divisors_no_div(n, a, b);
    }
}

/// Partial sums of the square-root pairing loop: by step `k` it has collected
/// every divisor up to `k` together with each one's large partner.
pub open spec fn pair_sum(n: nat, k: nat) -> nat
    decreases k,
{
    if k == 0 {
        0
    } else {
        pair_sum(n, (k - 1) as nat) + if n % k == 0 {
            k + if k * k < n {
                n / k
            } else {
                0nat
            }
        } else {
            0nat
        }
    }
}

/// Loop invariant of the pairing loop, stated additively: what the loop has
/// collected plus the still-uncollected band of large divisors equals the
/// small-divisor prefix plus the full divisor sum.
pub proof fn lemma_pair_sum_inv(n: nat, j: nat)
    requires
        1 <= n,
        j * j <= n,
    ensures
        pair_sum(n, j) + sum_divisors_upto(n, max_nat(j, n / (j + 1))) == sum_divisors_upto(n, j)
            + sigma(n),
    decreases j,
{
    if j == 0 {
        assert(pair_sum(n, 0) == 0);
        assert(n / 1 == n);
        assert(max_nat(0, n) == n);
    } else {
        assert((j - 1) * (j - 1) <= n) by (nonlinear_arith)
            requires
                1 <= j,
                j * j <= n,
        {
        }
        lemma_pair_sum_inv(n, (j - 1) as nat);
        let m1 = max_nat((j - 1) as nat, n / j);
        let m2 = max_nat(j, n / (j + 1));
        vstd::arithmetic::div_mod::lemma_fundamental_div_mod(n as int, j as int);
        assert(n / j >= j) by (nonlinear_arith)
            requires
                1 <= j,
                j * j <= n,
                n == j * (n / j) + n % j,
                n % j < j,
        {
        }
        assert(m1 == n / j);
        lemma_peel(n, j);
        if j * j == n {
            assert(n / j == j) by (nonlinear_arith)
                requires
                    1 <= j,
                    j * j == n,
                    n == j * (n / j) + n % j,
                    n % j < j,
            {
            }
            assert(n % j == 0) by (nonlinear_arith)
                requires
                    1 <= j,
                    j * j == n,
                    n == j * (n / j) + n % j,
                    n / j == j,
            {
            }
            vstd::arithmetic::div_mod::lemma_div_is_ordered_by_denominator(
                n as int,
                j as int,
                (j + 1) as int,
            );
            assert(m2 == j);
        } else {
            assert(j * j < n);
            if n % j == 0 {
                assert(n / j > j) by (nonlinear_arith)
                    requires
                        1 <= j,
                        j * j < n,
                        n == j * (n / j) + n % j,
                        n % j == 0,
                {
                }
            }
            if n / (j + 1) >= j {
                assert(m2 == n / (j + 1));
            } else {
                assert(m2 == j);
                assert forall|d: nat| n / (j + 1) < d <= j implies #[trigger] (n % d) != 0 by {
                    if n % d == 0 {
                        lemma_div_sandwich(n, j, d);
                    }
                }
                lemma_sum_divisors_no_div(n, n / (j + 1), j);
            }
        }
    }
}

/// After the pairing loop has run through the whole square-root range, it has
/// collected exactly the sum of all divisors.
pub proof fn lemma_pair_sum_sigma(n: nat, r: nat)
    requires
        1 <= n,
        r * r <= n,
        n < (r + 1) * (r + 1),
    ensures
        pair_sum(n, r) == sigma(n),
{
    lemma_pair_sum_inv(n, r);
    vstd::arithmetic::div_mod::lemma_fundamental_div_mod(n as int, (r + 1) as int);
    assert(n / (r + 1) <= r) by (nonlinear_arith)
        requires
            n < (r + 1) * (r + 1),
            n == (r + 1) * (n / (r + 1)) + n % (r + 1),
            n % (r + 1) < r + 1,
    {
    }
    assert(max_nat(r, n / (r + 1)) == r);
}

/// The pairing loop's partial sums never exceed the full divisor sum.
pub proof fn lemma_pair_sum_le_sigma(n: nat, k: nat)
    requires
        1 <= n,
        k * k <= n,
    ensures
        pair_sum(n, k) <= sigma(n),
{
    lemma_pair_sum_inv(n, k);
    lemma_sum_divisors_mono(n, k, max_nat(k, n / (k + 1)));
}


/// Number-of-divisor counts over a longer prefix are no smaller.
pub proof fn lemma_count_divisors_mono(n: nat, a: nat, b: nat)
    requires
        a <= b,
    ensures
        count_divisors_upto(n, a) <= count_divisors_upto(n, b),
    decreases b,
{
    if a < b {
        lemma_count_divisors_mono(n, a, (b - 1) as nat);
    }
}

/// A divisor-free interval contributes nothing to the divisor count.
pub proof fn lemma_count_divisors_no_div(n: nat, a: nat, b: nat)
    requires
        a <= b,
        forall|d: nat| a < d <= b ==> #[trigger] (n % d) != 0,
    ensures
        count_divisors_upto(n, b) == count_divisors_upto(n, a),
    decreases b,
{
    if a < b {
        lemma_count_divisors_no_div(n, a, (b - 1) as nat);
    }
}

/// The counting analogue of [`lemma_peel`].
pub proof fn lemma_peel_count(n: nat, j: nat)
    requires
        1 <= j,
        j * j <= n,
    ensures
        count_divisors_upto(n, n / j) == count_divisors_upto(n, n / (j + 1)) + if n % j == 0 {
            1nat
        } else {
            0nat
        },
{
    let a = n / (j + 1);
    let b = n / j;
    vstd::arithmetic::div_mod::lemma_div_is_ordered_by_denominator(
        n as int,
        j as int,
        (j + 1) as int,
    );
    assert(a <= b);
    assert forall|d: nat| a < d < b implies #[trigger] (n % d) != 0 by {
        if n % d == 0 {
            lemma_div_sandwich(n, j, d);
        }
    }
    vstd::arithmetic::div_mod::lemma_fundamental_div_mod(n as int, j as int);
    assert(b >= j) by (nonlinear_arith)
        requires
            1 <= j,
            j * j <= n,
            n == j * (n / j) + n % j,
            n % j < j,
            b == n / j,
    {
    }
    if n % j == 0 {
        assert(b * j == n) by (nonlinear_arith)
            requires
                n == j * (n / j) + n % j,
                n % j == 0,
                b == n / j,
        {
        }
        vstd::arithmetic::div_mod::lemma_fundamental_div_mod(n as int, b as int);
        assert(n % b == 0) by (nonlinear_arith)
            requires
                1 <= b,
                n == b * j,
                n == b * (n / b) + n % b,
                n % b < b,
        {
        }
        vstd::arithmetic::div_mod::lemma_fundamental_div_mod(n as int, (j + 1) as int);
        assert(a < b) by (nonlinear_arith)
            requires
                1 <= j,
                1 <= b,
                n == b * j,
                n == (j + 1) * a + n % (j + 1),
                n % (j + 1) < j + 1,
        {
        }
        assert(count_divisors_upto(n, b) == count_divisors_upto(n, (b - 1) as nat) + 1);
        lemma_count_divisors_no_div(n, a, (b - 1) as nat);
    } else {
        assert forall|d: nat| a < d <= b implies #[trigger] (n % d) != 0 by {
            if n % d == 0 {
                lemma_div_sandwich(n, j, d);
            }
        }
        lemma_count_divisors_no_div(n, a, b);
    }
}

/// Partial counts of the square-root pairing loop: by step `k` it has seen
/// every divisor up to `k` together with each one's large partner.
pub open spec fn pair_count(n: nat, k: nat) -> nat
    decreases k,
{
    if k == 0 {
        0
    } else {
        pair_count(n, (k - 1) as nat) + if n % k == 0 {
            1nat + if k * k < n {
                1nat
            } else {
                0nat
            }
        } else {
            0nat
        }
    }
}

/// The counting analogue of [`lemma_pair_sum_inv`].
pub proof fn lemma_pair_count_inv(n: nat, j: nat)
    requires
        1 <= n,
        j * j <= n,
    ensures
        pair_count(n, j) + count_divisors_upto(n, max_nat(j, n / (j + 1))) == count_divisors_upto(
            n,
            j,
        ) + divisor_count(n),
    decreases j,
{
    if j == 0 {
        assert(pair_count(n, 0) == 0);
        assert(n / 1 == n);
        assert(max_nat(0, n) == n);
    } else {
        assert((j - 1) * (j - 1) <= n) by (nonlinear_arith)
            requires
                1 <= j,
                j * j <= n,
        {
        }
        lemma_pair_count_inv(n, (j - 1) as nat);
        let m1 = max_nat((j - 1) as nat, n / j);
        let m2 = max_nat(j, n / (j + 1));
        vstd::arithmetic::div_mod::lemma_fundamental_div_mod(n as int, j as int);
        assert(n / j >= j) by (nonlinear_arith)
            requires
                1 <= j,
                j * j <= n,
                n == j * (n / j) + n % j,
                n % j < j,
        {
        }
        assert(m1 == n / j);
        lemma_peel_count(n, j);
        if j * j == n {
            assert(n / j == j) by (nonlinear_arith)
                requires
                    1 <= j,
                    j * j == n,
                    n == j * (n / j) + n % j,
                    n % j < j,
            {
            }
            assert(n % j == 0) by (nonlinear_arith)
                requires
                    1 <= j,
                    j * j == n,
                    n == j * (n / j) + n % j,
                    n / j == j,
            {
            }
            vstd::arithmetic::div_mod::lemma_div_is_ordered_by_denominator(
                n as int,
                j as int,
                (j + 1) as int,
            );
            assert(m2 == j);
        } else {
            assert(j * j < n);
            if n % j == 0 {
                assert(n / j > j) by (nonlinear_arith)
                    requires
                        1 <= j,
                        j * j < n,
                        n == j * (n / j) + n % j,
                        n % j == 0,
                {
                }
            }
            if n / (j + 1) >= j {
                assert(m2 == n / (j + 1));
            } else {
                assert(m2 == j);
                assert forall|d: nat| n / (j + 1) < d <= j implies #[trigger] (n % d) != 0 by {
                    if n % d == 0 {
                        lemma_div_sandwich(n, j, d);
                    }
                }
                lemma_count_divisors_no_div(n, n / (j + 1), j);
            }
        }
    }
}

/// The counting analogue of [`lemma_pair_sum_sigma`].
pub proof fn lemma_pair_count_full(n: nat, r: nat)
    requires
        1 <= n,
        r * r <= n,
        n < (r + 1) * (r + 1),
    ensures
        pair_count(n, r) == divisor_count(n),
{
    lemma_pair_count_inv(n, r);
    vstd::arithmetic::div_mod::lemma_fundamental_div_mod(n as int, (r + 1) as int);
    assert(n / (r + 1) <= r) by (nonlinear_arith)
        requires
            n < (r + 1) * (r + 1),
            n == (r + 1) * (n / (r + 1)) + n % (r + 1),
            n % (r + 1) < r + 1,
    {
    }
    assert(max_nat(r, n / (r + 1)) == r);
}

/// The counting loop's partial counts never exceed the full divisor count.
pub proof fn lemma_pair_count_le(n: nat, k: nat)
    requires
        1 <= n,
        k * k <= n,
    ensures
        pair_count(n, k) <= divisor_count(n),
{
    lemma_pair_count_inv(n, k);
    lemma_count_divisors_mono(n, k, max_nat(k, n / (k + 1)));
}

/// The divisor sum splits into the proper divisors and `n` itself.
pub proof fn lemma_sigma_proper(n: nat)
    requires
        1 <= n,
    ensures
        sigma(n) == sigma_proper(n) + n,
{
    assert(n % n == 0);
}

/// Fibonacci numbers never shrink as the index grows.
pub proof fn lemma_fib_mono(a: nat, b: nat)
    requires
        a <= b,
    ensures
        fib(a) <= fib(b),
    decreases b,
{
    if a < b {
        if b >= 2 {
            lemma_fib_mono(a, (b - 1) as nat);
        } else {
            assert(fib(0) == 0 && fib(1) == 1);
        }
    }
}

/// The largest Fibonacci number a 64-bit word can hold, established value by
/// value along the recurrence.
pub proof fn lemma_fib_93()
    ensures
        fib(92) == 7540113804746346429,
        fib(93) == 12200160415121876738,
{
    reveal_with_fuel(fib, 3);
    assert(fib(2) == 1);
    assert(fib(3) == 2);
    assert(fib(4) == 3);
    assert(fib(5) == 5);
    assert(fib(6) == 8);
    assert(fib(7) == 13);
    assert(fib(8) == 21);
    assert(fib(9) == 34);
    assert(fib(10) == 55);
    assert(fib(11) == 89);
    assert(fib(12) == 144);
    assert(fib(13) == 233);
    assert(fib(14) == 377);
    assert(fib(15) == 610);
    assert(fib(16) == 987);
    assert(fib(17) == 1597);
    assert(fib(18) == 2584);
    assert(fib(19) == 4181);
    assert(fib(20) == 6765);
    assert(fib(21) == 10946);
    assert(fib(22) == 17711);
    assert(fib(23) == 28657);
    assert(fib(24) == 46368);
    assert(fib(25) == 75025);
    assert(fib(26) == 121393);
    assert(fib(27) == 196418);
    assert(fib(28) == 317811);
    assert(fib(29) == 514229);
    assert(fib(30) == 832040);
    assert(fib(31) == 1346269);
    assert(fib(32) == 2178309);
    assert(fib(33) == 3524578);
    assert(fib(34) == 5702887);
    assert(fib(35) == 9227465);
    assert(fib(36) == 14930352);
    assert(fib(37) == 24157817);
    assert(fib(38) == 39088169);
    assert(fib(39) == 63245986);
    assert(fib(40) == 102334155);
    assert(fib(41) == 165580141);
    assert(fib(42) == 267914296);
    assert(fib(43) == 433494437);
    assert(fib(44) == 701408733);
    assert(fib(45) == 1134903170);
    assert(fib(46) == 1836311903);
    assert(fib(47) == 2971215073);
    assert(fib(48) == 4807526976);
    assert(fib(49) == 7778742049);
    assert(fib(50) == 12586269025);
    assert(fib(51) == 20365011074);
    assert(fib(52) == 32951280099);
    assert(fib(53) == 53316291173);
    assert(fib(54) == 86267571272);
    assert(fib(55) == 139583862445);
    assert(fib(56) == 225851433717);
    assert(fib(57) == 365435296162);
    assert(fib(58) == 591286729879);
    assert(fib(59) == 956722026041);
    assert(fib(60) == 1548008755920);
    assert(fib(61) == 2504730781961);
    assert(fib(62) == 4052739537881);
    assert(fib(63) == 6557470319842);
    assert(fib(64) == 10610209857723);
    assert(fib(65) == 17167680177565);
    assert(fib(66) == 27777890035288);
    assert(fib(67) == 44945570212853);
    assert(fib(68) == 72723460248141);
    assert(fib(69) == 117669030460994);
    assert(fib(70) == 190392490709135);
    assert(fib(71) == 308061521170129);
    assert(fib(72) == 498454011879264);
    assert(fib(73) == 806515533049393);
    assert(fib(74) == 1304969544928657);
    assert(fib(75) == 2111485077978050);
    assert(fib(76) == 3416454622906707);
    assert(fib(77) == 5527939700884757);
    assert(fib(78) == 8944394323791464);
    assert(fib(79) == 14472334024676221);
    assert(fib(80) == 23416728348467685);
    assert(fib(81) == 37889062373143906);
    assert(fib(82) == 61305790721611591);
    assert(fib(83) == 99194853094755497);
    assert(fib(84) == 160500643816367088);
    assert(fib(85) == 259695496911122585);
    assert(fib(86) == 420196140727489673);
    assert(fib(87) == 679891637638612258);
    assert(fib(88) == 1100087778366101931);
    assert(fib(89) == 1779979416004714189);
    assert(fib(90) == 2880067194370816120);
    assert(fib(91) == 4660046610375530309);
    assert(fib(92) == 7540113804746346429);
    assert(fib(93) == 12200160415121876738);
}


/// Any proper divisor yields one whose square is at most `n`: either the
/// divisor itself or its cofactor.
pub proof fn lemma_small_factor(n: nat, d: nat)
    requires
        2 <= d < n,
        n % d == 0,
    ensures
        exists|e: nat| 2 <= e && e * e <= n && #[trigger] (n % e) == 0,
{
    vstd::arithmetic::div_mod::lemma_fundamental_div_mod(n as int, d as int);
    let q = n / d;
    assert(n == d * q) by (nonlinear_arith)
        requires
            n == d * (n / d) + n % d,
            n % d == 0,
            q == n / d,
    {
    }
    if d * d <= n {
        assert(2 <= d && d * d <= n && n % d == 0);
    } else {
        assert(2 <= q && q * q <= n) by (nonlinear_arith)
            requires
                2 <= d < n,
                n == d * q,
                d * d > n,
        {
        }
        vstd::arithmetic::div_mod::lemma_fundamental_div_mod(n as int, q as int);
        assert(n % q == 0) by (nonlinear_arith)
            requires
                1 <= q,
                n == d * q,
                n == q * (n / q) + n % q,
                n % q < q,
        {
        }
    }
}

/// At most `k` divisors lie below `k`.
pub proof fn lemma_count_divisors_le(n: nat, k: nat)
    ensures
        count_divisors_upto(n, k) <= k,
    decreases k,
{
    if k > 0 {
        lemma_count_divisors_le(n, (k - 1) as nat);
    }
}


/// The Fibonacci sequence reduced modulo the 64-bit range, the value the
/// wrapping implementations compute for every index.
pub open spec fn fib_mod(n: nat) -> nat {
    fib(n) % 0x1_0000_0000_0000_0000
}

/// One step of the wrapped recurrence.
pub proof fn lemma_fib_mod_step(n: nat)
    requires
        2 <= n,
    ensures
        fib_mod(n) == (fib_mod((n - 1) as nat) + fib_mod((n - 2) as nat))
            % 0x1_0000_0000_0000_0000,
{
    vstd::arithmetic::div_mod::lemma_add_mod_noop(
        fib((n - 1) as nat) as int,
        fib((n - 2) as nat) as int,
        0x1_0000_0000_0000_0000,
    );
}

/// The value an upward search for the next number with more divisors than
/// `n` arrives at when it starts from `x`: the first hit, or the end of the
/// 64-bit range.
pub open spec fn hc_search(n: u64, x: u64) -> u64
    decreases u64::MAX - x,
{
    if divisor_count(x as nat) > divisor_count(n as nat) || x == u64::MAX {
        x
    } else {
        hc_search(n, (x + 1) as u64)
    }
}


/// Whether the sum of divisors of `n` fits a 64-bit word, decided by running
/// the sum with overflow checks.
pub fn sigma_fits(n: u64) -> (r: bool)
    ensures
        r == (sigma(n as nat) <= u64::MAX),
{
    let mut sum: u64 = 0;
    let mut i: u64 = 0;
    while i < n
        invariant
            i <= n,
            sum == sum_divisors_upto(n as nat, i as nat),
        decreases n - i,
    {
        i = i + 1;
        if n % i == 0 {
            match sum.checked_add(i) {
                Some(s) => {
                    sum = s;
                },
                None => {
                    proof {
                        lemma_sum_divisors_mono(n as nat, i as nat, n as nat);
                    }
                    return false;
                },
            }
        }
    }
    true
}

/// Whether the sum of proper divisors of `n` fits a 64-bit word.
pub fn sigma_proper_fits(n: u64) -> (r: bool)
    ensures
        r == (sigma_proper(n as nat) <= u64::MAX),
{
    if n == 0 {
        return true;
    }
    let mut sum: u64 = 0;
    let mut i: u64 = 0;
    while i + 1 < n
        invariant
            n >= 1,
            i <= n - 1,
            sum == sum_divisors_upto(n as nat, i as nat),
        decreases n - i,
    {
        i = i + 1;
        if n % i == 0 {
            match sum.checked_add(i) {
                Some(s) => {
                    sum = s;
                },
                None => {
                    proof {
                        lemma_sum_divisors_mono(n as nat, i as nat, (n - 1) as nat);
                    }
                    return false;
                },
            }
        }
    }
    true
}


/// Some natural in `[2, i)` properly divides `m`.
pub open spec fn has_factor_below(m: nat, i: nat) -> bool {
    exists|d: nat| 2 <= d < i && d < m && #[trigger] (m % d) == 0
}

/// Divisibility carries through a chain: a divisor of a divisor divides.
pub proof fn lemma_divides_trans(d: nat, i: nat, m: nat)
    requires
        1 <= d,
        1 <= i,
        i % d == 0,
        m % i == 0,
    ensures
        m % d == 0,
{
    vstd::arithmetic::div_mod::lemma_fundamental_div_mod(i as int, d as int);
    vstd::arithmetic::div_mod::lemma_fundamental_div_mod(m as int, i as int);
    let q = (i / d) * (m / i);
    assert(m == d * q) by (nonlinear_arith)
        requires
            i == d * (i / d) + i % d,
            i % d == 0,
            m == i * (m / i) + m % i,
            m % i == 0,
            q == (i / d) * (m / i),
    {
    }
    vstd::arithmetic::div_mod::lemma_mod_multiples_basic(q as int, d as int);
    assert(m % d == (q * (d as int)) % (d as int)) by (nonlinear_arith)
        requires
            m == d * q,
    {
    }
}

/// A struck-out entry stays struck out as the factor bound grows.
pub proof fn lemma_factor_bound_grows(m: nat, i: nat, j: nat)
    requires
        i <= j,
        has_factor_below(m, i),
    ensures
        has_factor_below(m, j),
{
}


/// Raising the factor bound by one admits exactly the bound itself as a new
/// potential factor.
pub proof fn lemma_hfb_succ(x: nat, i: nat)
    requires
        2 <= i,
    ensures
        has_factor_below(x, (i + 1) as nat) == (has_factor_below(x, i) || (x % i == 0 && i < x)),
{
    if has_factor_below(x, i) {
        lemma_factor_bound_grows(x, i, (i + 1) as nat);
    }
    if x % i == 0 && i < x {
        assert(2 <= i < i + 1 && i < x && x % i == 0);
        assert(has_factor_below(x, (i + 1) as nat));
    }
    if has_factor_below(x, (i + 1) as nat) {
        let d = choose|d: nat| 2 <= d < i + 1 && d < x && #[trigger] (x % d) == 0;
        if d < i {
            assert(has_factor_below(x, i));
        } else {
            assert(d == i);
        }
    }
}

/// Number of primes below `n`, by the sieve of Eratosthenes: every multiple
/// of each remaining candidate up to the square root is struck out, and the
/// survivors are counted.
#[verifier::rlimit(100)]
pub fn prime_sieve_count(n: u64) -> (r: u64)
    requires
        n <= usize::MAX,
    ensures
        r == prime_count(n as nat),
{
    if n <= 2 {
        return 0;
    }
    let nn = n as usize;
    let mut sieve: Vec<bool> = Vec::new();
    let mut m: usize = 0;
    while m < nn
        invariant
            m <= nn,
            sieve@.len() == m,
            forall|x: int| 0 <= x < m ==> sieve@[x] == true,
        decreases nn - m,
    {
        sieve.push(true);
        m = m + 1;
    }
    sieve.set(0, false);
    sieve.set(1, false);
    let mut i: usize = 2;
    while i <= (nn - 1) / i
        invariant
            2 <= i,
            3 <= nn <= usize::MAX,
            nn == n,
            sieve@.len() == nn,
            sieve@[0] == false,
            sieve@[1] == false,
            forall|x: int|
                2 <= x < nn ==> sieve@[x] == !has_factor_below(x as nat, i as nat),
        decreases nn - i,
    {
        proof {
            vstd::arithmetic::div_mod::lemma_fundamental_div_mod((nn - 1) as int, i as int);
            assert(i * i <= nn - 1) by (nonlinear_arith)
                requires
                    1 <= i,
                    i <= (nn - 1) as int / (i as int),
                    nn - 1 == i * ((nn - 1) as int / (i as int)) + (nn - 1) as int % (i as int),
            {
            }
        }
        if sieve[i] {
            let mut k: usize = i;
            while k <= (nn - 1) / i
                invariant
                    2 <= i <= k,
                    i * i <= nn - 1,
                    3 <= nn <= usize::MAX,
                    sieve@.len() == nn,
                    sieve@[0] == false,
                    sieve@[1] == false,
                    forall|x: int|
                        2 <= x < nn ==> sieve@[x] == (!has_factor_below(x as nat, i as nat) && !(
                        (x as nat) % (i as nat) == 0 && i <= (x as int) / (i as int) < k)),
                decreases nn - k,
            {
                proof {
                    vstd::arithmetic::div_mod::lemma_fundamental_div_mod(
                        (nn - 1) as int,
                        i as int,
                    );
                    assert(i * k <= nn - 1 && k < nn) by (nonlinear_arith)
                        requires
                            2 <= i <= k,
                            k <= (nn - 1) as int / (i as int),
                            nn - 1 == i * ((nn - 1) as int / (i as int)) + (nn - 1) as int % (i as int),
                    {
                    }
                }
                let j = i * k;
                let ghost old_sieve = sieve@;
                sieve.set(j, false);
                proof {
                    vstd::arithmetic::div_mod::lemma_mod_multiples_basic(k as int, i as int);
                    vstd::arithmetic::div_mod::lemma_fundamental_div_mod(j as int, i as int);
                    assert((j as nat) % (i as nat) == 0 && (j as int) / (i as int) == k as int)
                        by (nonlinear_arith)
                        requires
                            1 <= i,
                            j == i * k,
                            (k * (i as int)) % (i as int) == 0,
                            j == i * ((j as int) / (i as int)) + (j as int) % (i as int),
                            0 <= (j as int) % (i as int) < i,
                    {
                    }
                    assert forall|x: int| 2 <= x < nn implies sieve@[x] == (!has_factor_below(
                        x as nat,
                        i as nat,
                    ) && !((x as nat) % (i as nat) == 0 && i <= (x as int) / (i as int) < k + 1)) by {
                        if x != j {
                            assert(sieve@[x] == old_sieve[x]);
                            if (x as nat) % (i as nat) == 0 && (x as int) / (i as int) == k as int {
                                vstd::arithmetic::div_mod::lemma_fundamental_div_mod(
                                    x as int,
                                    i as int,
                                );
                                assert(x == j) by (nonlinear_arith)
                                    requires
                                        x == i * ((x as int) / (i as int)) + (x as int) % (i as int),
                                        (x as int) % (i as int) == 0,
                                        (x as int) / (i as int) == k as int,
                                        j == i * k,
                                {
                                }
                            }
                        }
                    }
                }
                k = k + 1;
            }
            proof {
                assert forall|x: int|
                    2 <= x < nn implies sieve@[x] == !has_factor_below(x as nat, (i + 1) as nat) by {
                    lemma_hfb_succ(x as nat, i as nat);
                    vstd::arithmetic::div_mod::lemma_fundamental_div_mod(x as int, i as int);
                    if (x as nat) % (i as nat) == 0 && i < x {
                        let q = (x as int) / (i as int);
                        assert(1 <= q && x == i * q) by (nonlinear_arith)
                            requires
                                2 <= i < x,
                                x == i * q + (x as int) % (i as int),
                                (x as int) % (i as int) == 0,
                                0 <= (x as int) % (i as int),
                        {
                        }
                        if q >= i {
                            assert(k > (nn - 1) as int / (i as int));
                            vstd::arithmetic::div_mod::lemma_fundamental_div_mod(
                                (nn - 1) as int,
                                i as int,
                            );
                            assert(q < k) by (nonlinear_arith)
                                requires
                                    1 <= i,
                                    x == i * q,
                                    x <= nn - 1,
                                    nn - 1 == i * ((nn - 1) as int / (i as int)) + (nn - 1) as int
                                        % (i as int),
                                    0 <= (nn - 1) as int % (i as int),
                                    k > (nn - 1) as int / (i as int),
                            {
                            }
                            assert(!sieve@[x]);
                        } else if q == 1 {
                            assert(x == i) by (nonlinear_arith)
                                requires
                                    x == i * q,
                                    q == 1,
                            {
                            }
                            assert(false);
                        } else {
                            assert(2 <= q < i && q < x);
                            vstd::arithmetic::div_mod::lemma_mod_multiples_basic(
                                i as int,
                                q as int,
                            );
                            assert((x as nat) % (q as nat) == 0) by (nonlinear_arith)
                                requires
                                    1 <= q,
                                    x == i * q,
                                    ((i as int) * (q as int)) % (q as int) == 0,
                            {
                            }
                            assert(has_factor_below(x as nat, i as nat));
                            assert(!sieve@[x]);
                        }
                        assert(has_factor_below(x as nat, (i + 1) as nat));
                    } else {
                        assert(has_factor_below(x as nat, (i + 1) as nat) == has_factor_below(
                            x as nat,
                            i as nat,
                        ));
                        if (x as nat) % (i as nat) == 0 {
                            assert(x == i) by (nonlinear_arith)
                                requires
                                    2 <= x <= i,
                                    x == i * ((x as int) / (i as int)) + (x as int) % (i as int),
                                    (x as int) % (i as int) == 0,
                                    0 <= (x as int) % (i as int) < i,
                            {
                            }
                            assert((x as int) / (i as int) == 1) by (nonlinear_arith)
                                requires
                                    x == i,
                                    1 <= i,
                                    x == i * ((x as int) / (i as int)) + (x as int) % (i as int),
                                    (x as int) % (i as int) == 0,
                                    0 <= (x as int) % (i as int) < i,
                            {
                            }
                        }
                        assert(sieve@[x] == !has_factor_below(x as nat, i as nat));
                    }
                }
            }
        } else {
            proof {
                assert(has_factor_below(i as nat, i as nat));
                let d0 = choose|d: nat| 2 <= d < i && d < i && #[trigger] ((i as nat) % d) == 0;
                assert forall|x: int|
                    2 <= x < nn implies sieve@[x] == !has_factor_below(x as nat, (i + 1) as nat) by {
                    lemma_hfb_succ(x as nat, i as nat);
                    if (x as nat) % (i as nat) == 0 && i < x {
                        lemma_divides_trans(d0, i as nat, x as nat);
                        assert(2 <= d0 < i && d0 < x && (x as nat) % d0 == 0);
                        assert(has_factor_below(x as nat, i as nat));
                    }
                }
            }
        }
        i = i + 1;
    }
    proof {
        vstd::arithmetic::div_mod::lemma_fundamental_div_mod((nn - 1) as int, i as int);
        assert(i * i > nn - 1) by (nonlinear_arith)
            requires
                1 <= i,
                i > (nn - 1) as int / (i as int),
                nn - 1 == i * ((nn - 1) as int / (i as int)) + (nn - 1) as int % (i as int),
                0 <= (nn - 1) as int % (i as int) < i,
        {
        }
        assert forall|x: int| 2 <= x < nn implies sieve@[x] == is_prime(x as nat) by {
            if is_prime(x as nat) {
                assert forall|d: nat|
                    2 <= d < i && d < x implies #[trigger] ((x as nat) % d) != 0 by {
                    if (x as nat) % d == 0 {
                        assert(2 <= d < x);
                    }
                }
                assert(!has_factor_below(x as nat, i as nat));
            } else {
                if has_factor_below(x as nat, i as nat) {
                } else {
                    assert forall|d: nat|
                        2 <= d < x implies #[trigger] ((x as nat) % d) != 0 by {
                        if (x as nat) % d == 0 {
                            lemma_small_factor(x as nat, d);
                            let e = choose|e: nat|
                                2 <= e && e * e <= x && #[trigger] ((x as nat) % e) == 0;
                            assert(e < i && e < x) by (nonlinear_arith)
                                requires
                                    2 <= e,
                                    e * e <= x,
                                    x <= nn - 1,
                                    (i as int) * (i as int) > nn - 1,
                                    0 < i,
                                    2 <= x,
                            {
                            }
                            assert(has_factor_below(x as nat, i as nat));
                        }
                    }
                    assert(is_prime(x as nat));
                }
            }
        }
    }
    let mut count: u64 = 0;
    let mut x: usize = 0;
    while x < nn
        invariant
            x <= nn,
            nn == n,
            count <= x,
            sieve@.len() == nn,
            sieve@[0] == false,
            sieve@[1] == false,
            forall|y: int| 2 <= y < nn ==> sieve@[y] == is_prime(y as nat),
            count == prime_count(x as nat),
        decreases nn - x,
    {
        if sieve[x] {
            count = count + 1;
        }
        x = x + 1;
    }
    count
}

} // verus!
