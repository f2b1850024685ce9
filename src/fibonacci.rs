//! Fibonacci numbers, computed by walking consecutive pairs.

use vstd::prelude::*;

verus! {

/// The Fibonacci numbers: 0, 1, 1, 2, 3, 5, ...
pub open spec fn fib(n: nat) -> nat
    decreases n,
{
    if n == 0 {
        0
    } else if n == 1 {
        1
    } else {
        fib((n - 2) as nat) + fib((n - 1) as nat)
    }
}

/// Where a walk of `steps` moves from the pair `(a, b)` to `(b, a + b)`
/// ends: the second number of the pair reached after `steps - 1` moves.
pub open spec fn fib_walk(a: int, b: int, steps: int) -> int
    decreases steps,
{
    if steps <= 1 {
        b
    } else {
        fib_walk(b, a + b, steps - 1)
    }
}

proof fn lemma_walk_46()
    ensures
        fib_walk(0, 1, 46) == 1836311903,
{
    reveal_with_fuel(fib_walk, 47);
}

/// Whether every sum formed on such a walk fits an `i32`.
pub open spec fn walk_fits(a: int, b: int, steps: int) -> bool
    decreases steps,
{
    steps <= 1 || (i32::MIN <= a + b <= i32::MAX && walk_fits(b, a + b, steps - 1))
}

/// The greatest `n` whose Fibonacci number fits an `i32`.
pub const LARGEST_I32_FIB_INDEX: i32 = 46;

proof fn lemma_walk_from_fib(k: nat, m: int)
    requires
        k >= 1,
        m >= 1,
    ensures
        fib_walk(fib((k - 1) as nat) as int, fib(k) as int, m) == fib((k + m - 1) as nat),
    decreases m,
{
    if m > 1 {
        assert(fib(k + 1) == fib((k - 1) as nat) + fib(k));
        lemma_walk_from_fib(k + 1, m - 1);
    }
}

proof fn lemma_fib_monotone(i: nat, j: nat)
    requires
        i <= j,
    ensures
        fib(i) <= fib(j),
    decreases j,
{
    if i < j {
        lemma_fib_monotone(i, (j - 1) as nat);
        if j >= 2 {
            assert(fib(j) == fib((j - 2) as nat) + fib((j - 1) as nat));
        }
    }
}

proof fn lemma_fib_fits_i32(n: nat)
    requires
        n <= LARGEST_I32_FIB_INDEX,
    ensures
        fib(n) <= i32::MAX,
{
    lemma_walk_46();
    lemma_walk_from_fib(1, 46);
    lemma_fib_monotone(n, 46);
}

proof fn lemma_fib_walk_fits(k: nat, m: int)
    requires
        k >= 1,
        m >= 1,
        k + m - 1 <= LARGEST_I32_FIB_INDEX,
    ensures
        walk_fits(fib((k - 1) as nat) as int, fib(k) as int, m),
    decreases m,
{
    if m > 1 {
        assert(fib(k + 1) == fib((k - 1) as nat) + fib(k));
        lemma_fib_fits_i32(k + 1);
        lemma_fib_walk_fits(k + 1, m - 1);
    }
}

/// Walks `max - 1` moves from the pair `x`, each from `(a, b)` to
/// `(b, a + b)`, and returns the second number of the last pair.
pub fn fib_iterator(x: (i32, i32), max: i32) -> (r: i32)
    requires
        max >= 1,
        walk_fits(x.0 as int, x.1 as int, max as int),
    ensures
        r == fib_walk(x.0 as int, x.1 as int, max as int),
    decreases max,
{
    let (f0, f1) = x;
    if max == 1 {
        f1
    } else {
        fib_iterator((f1, f0 + f1), max - 1)
    }
}

/// The `n`-th Fibonacci number, counting from `fib(1) == 1`.
pub fn nth_fib_num(n: i32) -> (r: i32)
    requires
        1 <= n <= LARGEST_I32_FIB_INDEX,
    ensures
        r == fib(n as nat),
{
    proof {
        lemma_fib_walk_fits(1, n as int);
        lemma_walk_from_fib(1, n as int);
    }
    fib_iterator((0, 1), n)
}

} // verus!
