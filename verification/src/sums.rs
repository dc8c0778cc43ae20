//! Finite sums of integers, and the facts about them that counting needs.
use vstd::prelude::*;

verus! {

/// `f(0) + f(1) + ... + f(n - 1)`.
pub open spec fn sum(f: spec_fn(int) -> int, n: int) -> int
    decreases n,
{
    if n <= 0 {
        0
    } else {
        sum(f, n - 1) + f(n - 1)
    }
}

/// Sums of functions that agree below `n` agree.
pub proof fn lemma_sum_ext(f: spec_fn(int) -> int, g: spec_fn(int) -> int, n: int)
    requires
        forall|i: int| 0 <= i < n ==> #[trigger] f(i) == g(i),
    ensures
        sum(f, n) == sum(g, n),
    decreases n,
{
    if n > 0 {
        lemma_sum_ext(f, g, n - 1);
    }
}

/// The sum of a pointwise sum is the sum of the sums.
pub proof fn lemma_sum_add(f: spec_fn(int) -> int, g: spec_fn(int) -> int, n: int)
    ensures
        sum(|i: int| f(i) + g(i), n) == sum(f, n) + sum(g, n),
    decreases n,
{
    if n > 0 {
        lemma_sum_add(f, g, n - 1);
    }
}

/// The sum of a pointwise difference is the difference of the sums.
pub proof fn lemma_sum_sub(f: spec_fn(int) -> int, g: spec_fn(int) -> int, n: int)
    ensures
        sum(|i: int| f(i) - g(i), n) == sum(f, n) - sum(g, n),
    decreases n,
{
    if n > 0 {
        lemma_sum_sub(f, g, n - 1);
    }
}

/// A sum of non-negative terms is non-negative, and at least each of its terms.
pub proof fn lemma_sum_nonneg(f: spec_fn(int) -> int, n: int)
    requires
        forall|i: int| 0 <= i < n ==> #[trigger] f(i) >= 0,
    ensures
        sum(f, n) >= 0,
        forall|i: int| 0 <= i < n ==> #[trigger] f(i) <= sum(f, n),
    decreases n,
{
    if n > 0 {
        lemma_sum_nonneg(f, n - 1);
    }
}

/// A sum of terms that are each at most `b` is at most `n * b`.
pub proof fn lemma_sum_bound(f: spec_fn(int) -> int, n: int, b: int)
    requires
        n >= 0,
        forall|i: int| 0 <= i < n ==> #[trigger] f(i) <= b,
    ensures
        sum(f, n) <= n * b,
    decreases n,
{
    if n > 0 {
        lemma_sum_bound(f, n - 1, b);
        assert((n - 1) * b + b == n * b) by (nonlinear_arith);
        assert(sum(f, n) == sum(f, n - 1) + f(n - 1));
        assert(f(n - 1) <= b);
    } else {
        assert(n * b == 0) by (nonlinear_arith)
            requires
                n == 0,
        ;
    }
}

/// A sum of `n` copies of `b` is `n * b`.
pub proof fn lemma_sum_const(f: spec_fn(int) -> int, n: int, b: int)
    requires
        n >= 0,
        forall|i: int| 0 <= i < n ==> #[trigger] f(i) == b,
    ensures
        sum(f, n) == n * b,
    decreases n,
{
    if n > 0 {
        lemma_sum_const(f, n - 1, b);
        assert((n - 1) * b + b == n * b) by (nonlinear_arith);
        assert(sum(f, n) == sum(f, n - 1) + f(n - 1));
        assert(f(n - 1) == b);
    } else {
        assert(n * b == 0) by (nonlinear_arith)
            requires
                n == 0,
        ;
    }
}

/// Summing in reverse order gives the same sum.
pub proof fn lemma_sum_reverse(f: spec_fn(int) -> int, n: int)
    requires
        n >= 0,
    ensures
        sum(|i: int| f(n - 1 - i), n) == sum(f, n),
    decreases n,
{
    if n > 0 {
        // sum_{i<n} f(n-1-i) = f(n-1) + sum_{i<n-1} f(n-2-i)
        let g = |i: int| f(n - 1 - i);
        let h = |i: int| g(i + 1);
        lemma_sum_shift(g, n);
        lemma_sum_ext(h, |i: int| f((n - 1) - 1 - i), n - 1);
        lemma_sum_reverse(f, n - 1);
    }
}

/// A sum split off at its first term.
pub proof fn lemma_sum_shift(f: spec_fn(int) -> int, n: int)
    requires
        n > 0,
    ensures
        sum(f, n) == f(0) + sum(|i: int| f(i + 1), n - 1),
    decreases n,
{
    let g = |i: int| f(i + 1);
    if n > 1 {
        lemma_sum_shift(f, n - 1);
        assert(sum(f, n) == sum(f, n - 1) + f(n - 1));
        assert(sum(g, n - 1) == sum(g, n - 2) + g(n - 2));
        assert(g(n - 2) == f(n - 1));
    } else {
        assert(sum(f, 1) == sum(f, 0) + f(0));
        assert(sum(g, 0) == 0);
    }
}

/// The order of a double sum can be swapped.
pub proof fn lemma_sum_swap(h: spec_fn(int, int) -> int, m: int, n: int)
    ensures
        sum(|i: int| sum(|j: int| h(i, j), n), m) == sum(|j: int| sum(|i: int| h(i, j), m), n),
    decreases m,
{
    let rows = |i: int| sum(|j: int| h(i, j), n);
    let cols_m = |j: int| sum(|i: int| h(i, j), m);
    if m > 0 {
        lemma_sum_swap(h, m - 1, n);
        let a = |j: int| sum(|i: int| h(i, j), m - 1);
        let b = |j: int| h(m - 1, j);
        lemma_sum_add(a, b, n);
        assert forall|j: int| 0 <= j < n implies #[trigger] cols_m(j) == a(j) + b(j) by {
            assert(sum(|i: int| h(i, j), m) == sum(|i: int| h(i, j), m - 1) + h(m - 1, j));
        }
        lemma_sum_ext(cols_m, |j: int| a(j) + b(j), n);
        assert(sum(rows, m) == sum(rows, m - 1) + rows(m - 1));
        assert(rows(m - 1) == sum(b, n));
    } else {
        assert(sum(rows, m) == 0);
        if n >= 0 {
            lemma_sum_const(cols_m, n, 0);
            assert(sum(cols_m, n) == n * 0);
        }
    }
}

} // verus!
