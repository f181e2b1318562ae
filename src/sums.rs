use vstd::prelude::*;

verus! {

/// Sum of `f(0) + ... + f(n - 1)`.
pub open spec fn sum_fn(f: spec_fn(int) -> int, n: nat) -> int
    decreases n,
{
    if n == 0 {
        0
    } else {
        sum_fn(f, (n - 1) as nat) + f(n - 1)
    }
}

/// Sums over `[0, n)` agree when the summands do.
pub proof fn lemma_sum_fn_ext(f: spec_fn(int) -> int, g: spec_fn(int) -> int, n: nat)
    requires
        forall|i: int| 0 <= i < n ==> #[trigger] f(i) == g(i),
    ensures
        sum_fn(f, n) == sum_fn(g, n),
    decreases n,
{
    if n > 0 {
        lemma_sum_fn_ext(f, g, (n - 1) as nat);
    }
}

/// A sum over `[0, n)` of pointwise sums splits in two.
pub proof fn lemma_sum_fn_add(f: spec_fn(int) -> int, g: spec_fn(int) -> int, h: spec_fn(int) -> int, n: nat)
    requires
        forall|i: int| 0 <= i < n ==> #[trigger] h(i) == f(i) + g(i),
    ensures
        sum_fn(h, n) == sum_fn(f, n) + sum_fn(g, n),
    decreases n,
{
    if n > 0 {
        lemma_sum_fn_add(f, g, h, (n - 1) as nat);
    }
}

/// A constant summed over `[0, n)`.
pub proof fn lemma_sum_fn_const(f: spec_fn(int) -> int, c: int, n: nat)
    requires
        forall|i: int| 0 <= i < n ==> #[trigger] f(i) == c,
    ensures
        sum_fn(f, n) == n * c,
    decreases n,
{
    if n > 0 {
        let m = (n - 1) as nat;
        lemma_sum_fn_const(f, c, m);
        assert(sum_fn(f, n) == sum_fn(f, m) + f(m as int));
        assert(m * c + c == n * c) by (nonlinear_arith)
            requires
                m + 1 == n,
        ;
    } else {
        assert(n * c == 0) by (nonlinear_arith)
            requires
                n == 0,
        ;
    }
}

/// Summing the indicator of `k` over `[0, n)` counts whether `k` lies there.
pub proof fn lemma_sum_indicator(k: int, n: nat)
    ensures
        sum_fn(|i: int| if i == k { 1int } else { 0 }, n) == if 0 <= k < n { 1int } else { 0 },
    decreases n,
{
    if n > 0 {
        lemma_sum_indicator(k, (n - 1) as nat);
    }
}

/// With no negative summand, the sum bounds each summand from above.
pub proof fn lemma_sum_fn_ge_term(f: spec_fn(int) -> int, n: nat, i: int)
    requires
        forall|j: int| 0 <= j < n ==> #[trigger] f(j) >= 0,
        0 <= i < n,
    ensures
        sum_fn(f, n) >= f(i),
    decreases n,
{
    if i < n - 1 {
        lemma_sum_fn_ge_term(f, (n - 1) as nat, i);
    }
    lemma_sum_fn_nonneg(f, (n - 1) as nat);
}

/// With no negative summand, the sum is not negative.
pub proof fn lemma_sum_fn_nonneg(f: spec_fn(int) -> int, n: nat)
    requires
        forall|j: int| 0 <= j < n ==> #[trigger] f(j) >= 0,
    ensures
        sum_fn(f, n) >= 0,
    decreases n,
{
    if n > 0 {
        lemma_sum_fn_nonneg(f, (n - 1) as nat);
    }
}

} // verus!
