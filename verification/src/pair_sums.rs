use vstd::prelude::*;

use crate::hands::{
    lemma_pair_index_step_i, lemma_pair_index_step_j, spec_pair_index, valid_pair,
};

verus! {

/// The sum of `f` over every holding `(p, q)` from `(m, n)` on, in the
/// lexicographic enumeration order of `crate::hands::spec_pair_index`.
pub open spec fn sum_over_pairs(f: spec_fn(int, int) -> int, m: int, n: int) -> int
    decreases 52 - m, 52 - n,
{
    if !(0 <= m && m < n && n <= 52) || m >= 51 {
        0
    } else if n == 52 {
        sum_over_pairs(f, m + 1, m + 2)
    } else {
        f(m, n) + sum_over_pairs(f, m, n + 1)
    }
}

/// Two functions that agree on every holding have equal sums.
pub proof fn lemma_sum_congruence(f: spec_fn(int, int) -> int, g: spec_fn(int, int) -> int, m: int, n: int)
    requires
        forall|p: int, q: int| valid_pair(p, q) ==> #[trigger] f(p, q) == g(p, q),
    ensures
        sum_over_pairs(f, m, n) == sum_over_pairs(g, m, n),
    decreases 52 - m, 52 - n,
{
    if !(0 <= m && m < n && n <= 52) || m >= 51 {
    } else if n == 52 {
        lemma_sum_congruence(f, g, m + 1, m + 2);
    } else {
        lemma_sum_congruence(f, g, m, n + 1);
    }
}

/// The sum of a function that is `c` on every holding counts `c` once per
/// remaining holding.
pub proof fn lemma_sum_const(f: spec_fn(int, int) -> int, c: int, m: int, n: int)
    requires
        forall|p: int, q: int| valid_pair(p, q) ==> #[trigger] f(p, q) == c,
        0 <= m < n < 52,
    ensures
        sum_over_pairs(f, m, n) == c * (1326 - spec_pair_index(m, n)),
    decreases 52 - m, 52 - n,
{
    if m == 50 && n == 51 {
        assert(sum_over_pairs(f, 51, 52) == 0);
        assert(sum_over_pairs(f, 50, 52) == sum_over_pairs(f, 51, 52));
        assert(sum_over_pairs(f, 50, 51) == f(50, 51) + sum_over_pairs(f, 50, 52));
        assert(f(50, 51) == c);
        assert(spec_pair_index(50, 51) == 1325);
    } else if n == 51 {
        lemma_sum_const(f, c, m + 1, m + 2);
        lemma_pair_index_step_i(m);
        assert(sum_over_pairs(f, m, 52) == sum_over_pairs(f, m + 1, m + 2));
        assert(sum_over_pairs(f, m, 51) == f(m, 51) + sum_over_pairs(f, m, 52));
        assert(f(m, 51) == c);
        assert(c * (1326 - spec_pair_index(m + 1, m + 2)) + c == c * (1326 - spec_pair_index(
            m,
            51,
        ))) by (nonlinear_arith)
            requires
                spec_pair_index(m + 1, m + 2) == spec_pair_index(m, 51) + 1,
        ;
    } else {
        lemma_sum_const(f, c, m, n + 1);
        lemma_pair_index_step_j(m, n);
        assert(sum_over_pairs(f, m, n) == f(m, n) + sum_over_pairs(f, m, n + 1));
        assert(f(m, n) == c);
        assert(c * (1326 - spec_pair_index(m, n + 1)) + c == c * (1326 - spec_pair_index(m, n)))
            by (nonlinear_arith)
            requires
                spec_pair_index(m, n + 1) == spec_pair_index(m, n) + 1,
        ;
    }
}

/// Sums distribute over a pointwise sum of functions.
pub proof fn lemma_sum_add(
    f: spec_fn(int, int) -> int,
    g: spec_fn(int, int) -> int,
    h: spec_fn(int, int) -> int,
    m: int,
    n: int,
)
    requires
        forall|p: int, q: int| valid_pair(p, q) ==> #[trigger] h(p, q) == f(p, q) + g(p, q),
    ensures
        sum_over_pairs(h, m, n) == sum_over_pairs(f, m, n) + sum_over_pairs(g, m, n),
    decreases 52 - m, 52 - n,
{
    if !(0 <= m && m < n && n <= 52) || m >= 51 {
    } else if n == 52 {
        lemma_sum_add(f, g, h, m + 1, m + 2);
    } else {
        lemma_sum_add(f, g, h, m, n + 1);
    }
}

/// Sums commute with scaling by a constant.
pub proof fn lemma_sum_scale(
    f: spec_fn(int, int) -> int,
    g: spec_fn(int, int) -> int,
    c: int,
    m: int,
    n: int,
)
    requires
        forall|p: int, q: int| valid_pair(p, q) ==> #[trigger] g(p, q) == c * f(p, q),
    ensures
        sum_over_pairs(g, m, n) == c * sum_over_pairs(f, m, n),
    decreases 52 - m, 52 - n,
{
    if !(0 <= m && m < n && n <= 52) || m >= 51 {
    } else if n == 52 {
        lemma_sum_scale(f, g, c, m + 1, m + 2);
    } else {
        lemma_sum_scale(f, g, c, m, n + 1);
        assert(c * (f(m, n) + sum_over_pairs(f, m, n + 1)) == c * f(m, n) + c * sum_over_pairs(
            f,
            m,
            n + 1,
        )) by (nonlinear_arith);
    }
}

/// How many holdings from `(m, n)` on contain the card `c`: the pairs
/// `(p, c)` with `p` still to come, plus the pairs `(c, q)`.
pub open spec fn remaining_containing(c: int, m: int, n: int) -> int {
    (if c > m + 1 {
        c - m - 1
    } else {
        0int
    }) + (if m < c && c >= n {
        1int
    } else {
        0int
    }) + (if c > m {
        51 - c
    } else if c == m {
        52 - n
    } else {
        0int
    })
}

/// The sum of the indicator of holdings containing card `c`.
pub proof fn lemma_sum_containing(f: spec_fn(int, int) -> int, c: int, m: int, n: int)
    requires
        0 <= c < 52,
        0 <= m < n < 52,
        forall|p: int, q: int|
            valid_pair(p, q) ==> #[trigger] f(p, q) == (if p == c || q == c {
                1int
            } else {
                0int
            }),
    ensures
        sum_over_pairs(f, m, n) == remaining_containing(c, m, n),
    decreases 52 - m, 52 - n,
{
    if m == 50 && n == 51 {
        assert(sum_over_pairs(f, 51, 52) == 0);
        assert(sum_over_pairs(f, 50, 52) == sum_over_pairs(f, 51, 52));
        assert(sum_over_pairs(f, 50, 51) == f(50, 51) + sum_over_pairs(f, 50, 52));
        assert(valid_pair(50, 51));
    } else if n == 51 {
        lemma_sum_containing(f, c, m + 1, m + 2);
        assert(sum_over_pairs(f, m, 52) == sum_over_pairs(f, m + 1, m + 2));
        assert(sum_over_pairs(f, m, 51) == f(m, 51) + sum_over_pairs(f, m, 52));
        assert(valid_pair(m, 51));
    } else {
        lemma_sum_containing(f, c, m, n + 1);
        assert(sum_over_pairs(f, m, n) == f(m, n) + sum_over_pairs(f, m, n + 1));
        assert(valid_pair(m, n));
    }
}

/// The sum of the indicator of the single holding `(i, j)`: one, once the
/// enumeration from `(m, n)` on still reaches `(i, j)`.
pub proof fn lemma_sum_exact(f: spec_fn(int, int) -> int, i: int, j: int, m: int, n: int)
    requires
        valid_pair(i, j),
        0 <= m < n < 52,
        forall|p: int, q: int|
            valid_pair(p, q) ==> #[trigger] f(p, q) == (if p == i && q == j {
                1int
            } else {
                0int
            }),
    ensures
        sum_over_pairs(f, m, n) == if m < i || (m == i && n <= j) {
            1int
        } else {
            0int
        },
    decreases 52 - m, 52 - n,
{
    if m == 50 && n == 51 {
        assert(sum_over_pairs(f, 51, 52) == 0);
        assert(sum_over_pairs(f, 50, 52) == sum_over_pairs(f, 51, 52));
        assert(sum_over_pairs(f, 50, 51) == f(50, 51) + sum_over_pairs(f, 50, 52));
        assert(valid_pair(50, 51));
    } else if n == 51 {
        lemma_sum_exact(f, i, j, m + 1, m + 2);
        assert(sum_over_pairs(f, m, 52) == sum_over_pairs(f, m + 1, m + 2));
        assert(sum_over_pairs(f, m, 51) == f(m, 51) + sum_over_pairs(f, m, 52));
        assert(valid_pair(m, 51));
    } else {
        lemma_sum_exact(f, i, j, m, n + 1);
        assert(sum_over_pairs(f, m, n) == f(m, n) + sum_over_pairs(f, m, n + 1));
        assert(valid_pair(m, n));
    }
}

/// Each holding is disjoint from exactly 1225 others, 50 choose 2: all
/// but the 51 + 51 - 1 holdings that share one of its two cards.
pub proof fn lemma_count_disjoint(f: spec_fn(int, int) -> int, i: int, j: int)
    requires
        valid_pair(i, j),
        forall|p: int, q: int|
            valid_pair(p, q) ==> #[trigger] f(p, q) == (if crate::hands::spec_overlap(i, j, p, q) {
                0int
            } else {
                1int
            }),
    ensures
        sum_over_pairs(f, 0, 1) == 1225,
{
    let fi = |p: int, q: int| if p == i || q == i { 1int } else { 0int };
    let fj = |p: int, q: int| if p == j || q == j { 1int } else { 0int };
    let ones = |p: int, q: int| 1int;
    let fb = |p: int, q: int| if p == i && q == j { 1int } else { 0int };
    let lhs1 = |p: int, q: int| f(p, q) + fi(p, q);
    let lhs2 = |p: int, q: int| lhs1(p, q) + fj(p, q);
    let rhs = |p: int, q: int| ones(p, q) + fb(p, q);
    lemma_sum_add(f, fi, lhs1, 0, 1);
    lemma_sum_add(lhs1, fj, lhs2, 0, 1);
    lemma_sum_add(ones, fb, rhs, 0, 1);
    lemma_sum_congruence(lhs2, rhs, 0, 1);
    lemma_sum_containing(fi, i, 0, 1);
    lemma_sum_containing(fj, j, 0, 1);
    lemma_sum_const(ones, 1, 0, 1);
    lemma_sum_exact(fb, i, j, 0, 1);
    assert(remaining_containing(i, 0, 1) == 51);
    assert(remaining_containing(j, 0, 1) == 51);
    assert(spec_pair_index(0, 1) == 0);
}

/// The induction behind `lemma_sum_swap`: summing rows from `(m, n)` on
/// equals summing, over every column, that column's entries from `(m, n)`
/// on.
proof fn lemma_sum_swap_rec(F: spec_fn(int, int, int, int) -> int, a: spec_fn(int, int) -> int, m: int, n: int)
    requires
        forall|p: int, q: int|
            valid_pair(p, q) ==> #[trigger] a(p, q) == sum_over_pairs(
                (|r: int, s: int| F(p, q, r, s)),
                0,
                1,
            ),
    ensures
        sum_over_pairs(a, m, n) == sum_over_pairs(
            (|r: int, s: int| sum_over_pairs((|p: int, q: int| F(p, q, r, s)), m, n)),
            0,
            1,
        ),
    decreases 52 - m, 52 - n,
{
    let bmn = |r: int, s: int| sum_over_pairs((|p: int, q: int| F(p, q, r, s)), m, n);
    if !(0 <= m && m < n && n <= 52) || m >= 51 {
        assert(sum_over_pairs(a, m, n) == 0);
        assert forall|r: int, s: int| valid_pair(r, s) implies #[trigger] bmn(r, s) == 0int by {
            assert(sum_over_pairs((|p: int, q: int| F(p, q, r, s)), m, n) == 0);
        }
        lemma_sum_const(bmn, 0, 0, 1);
    } else if n == 52 {
        lemma_sum_swap_rec(F, a, m + 1, m + 2);
        let bnext = |r: int, s: int| sum_over_pairs((|p: int, q: int| F(p, q, r, s)), m + 1, m + 2);
        assert forall|r: int, s: int| valid_pair(r, s) implies #[trigger] bmn(r, s) == bnext(
            r,
            s,
        ) by {
            assert(sum_over_pairs((|p: int, q: int| F(p, q, r, s)), m, n) == sum_over_pairs(
                (|p: int, q: int| F(p, q, r, s)),
                m + 1,
                m + 2,
            ));
        }
        lemma_sum_congruence(bmn, bnext, 0, 1);
        assert(sum_over_pairs(a, m, n) == sum_over_pairs(a, m + 1, m + 2));
    } else {
        lemma_sum_swap_rec(F, a, m, n + 1);
        let row = |r: int, s: int| F(m, n, r, s);
        let bnext = |r: int, s: int| sum_over_pairs((|p: int, q: int| F(p, q, r, s)), m, n + 1);
        assert forall|r: int, s: int| valid_pair(r, s) implies #[trigger] bmn(r, s) == row(r, s)
            + bnext(r, s) by {
            assert(sum_over_pairs((|p: int, q: int| F(p, q, r, s)), m, n) == F(m, n, r, s)
                + sum_over_pairs((|p: int, q: int| F(p, q, r, s)), m, n + 1));
        }
        lemma_sum_add(row, bnext, bmn, 0, 1);
        assert(sum_over_pairs(a, m, n) == a(m, n) + sum_over_pairs(a, m, n + 1));
        assert(a(m, n) == sum_over_pairs(row, 0, 1));
    }
}

/// A finite double sum over holdings can be taken in either order: summing
/// each row of `F` and adding the rows equals summing each column and
/// adding the columns.
pub proof fn lemma_sum_swap(
    F: spec_fn(int, int, int, int) -> int,
    a: spec_fn(int, int) -> int,
    b: spec_fn(int, int) -> int,
)
    requires
        forall|p: int, q: int|
            valid_pair(p, q) ==> #[trigger] a(p, q) == sum_over_pairs(
                (|r: int, s: int| F(p, q, r, s)),
                0,
                1,
            ),
        forall|r: int, s: int|
            valid_pair(r, s) ==> #[trigger] b(r, s) == sum_over_pairs(
                (|p: int, q: int| F(p, q, r, s)),
                0,
                1,
            ),
    ensures
        sum_over_pairs(a, 0, 1) == sum_over_pairs(b, 0, 1),
{
    lemma_sum_swap_rec(F, a, 0, 1);
    let b01 = |r: int, s: int| sum_over_pairs((|p: int, q: int| F(p, q, r, s)), 0, 1);
    lemma_sum_congruence(b01, b, 0, 1);
}

} // verus!
