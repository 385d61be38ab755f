use vstd::prelude::*;

verus! {

/// Number of cards in a standard deck.
pub const NUM_CARDS: usize = 52;

/// Number of unordered two-card holdings: 52 choose 2.
pub const NUM_HANDS: usize = 1326;

/// A two-card holding is written as a card pair `(i, j)` with `i < j < 52`.
pub open spec fn valid_pair(i: int, j: int) -> bool {
    0 <= i < j < 52
}

/// Index of the holding `(i, j)` in the fixed lexicographic enumeration of
/// all 1326 holdings: all pairs whose lower card precedes `i` come first,
/// then the pairs `(i, i+1)`, `(i, i+2)`, and so on.
pub open spec fn spec_pair_index(i: int, j: int) -> int {
    i * (103 - i) / 2 + j - i - 1
}

/// Two holdings overlap when they share a card; the joint probability of
/// being dealt both is then zero.
pub open spec fn spec_overlap(i: int, j: int, m: int, n: int) -> bool {
    i == m || i == n || j == m || j == n
}

/// The enumeration index of every holding lies below 1326.
pub proof fn lemma_pair_index_bounds(i: int, j: int)
    requires
        valid_pair(i, j),
    ensures
        0 <= spec_pair_index(i, j) < 1326,
{
    assert((103 - i) * i % 2 == 0 && i * (103 - i) >= 2 * i && (101 - i) * i <= 2550) by (nonlinear_arith)
        requires
            0 <= i <= 50,
    ;
    assert(spec_pair_index(i, j) >= 0);
    assert(i * (103 - i) == (101 - i) * i + 2 * i) by (nonlinear_arith);
    assert(i * (103 - i) <= 2550 + 2 * i);
    assert(i * (103 - i) / 2 <= (2550 + 2 * i) / 2);
    assert((2550 + 2 * i) / 2 == 1275 + i);
    assert(spec_pair_index(i, j) <= 1275 + i + j - i - 1);
}

/// Within one lower card the enumeration is contiguous in the higher card.
pub proof fn lemma_pair_index_step_j(i: int, j: int)
    requires
        valid_pair(i, j),
        j + 1 < 52,
    ensures
        spec_pair_index(i, j + 1) == spec_pair_index(i, j) + 1,
{
}

/// The pair after `(i, 51)` in the enumeration is `(i + 1, i + 2)`.
pub proof fn lemma_pair_index_step_i(i: int)
    requires
        0 <= i,
        i + 2 < 52,
    ensures
        spec_pair_index(i + 1, i + 2) == spec_pair_index(i, 51) + 1,
{
    assert((i + 1) * (103 - (i + 1)) == i * (103 - i) + 2 * (51 - i)) by (nonlinear_arith);
    assert((i * (103 - i) + 2 * (51 - i)) / 2 == i * (103 - i) / 2 + (51 - i)) by (nonlinear_arith);
}

/// The enumeration is strictly increasing in the lexicographic order of
/// the pairs; in particular rows with a smaller lower card come first.
proof fn lemma_pair_index_lex_rows(i1: int, i2: int)
    requires
        0 <= i1 < i2,
        i2 + 1 < 52,
    ensures
        spec_pair_index(i1, 51) < spec_pair_index(i2, i2 + 1),
    decreases i2 - i1,
{
    lemma_pair_index_step_i(i1);
    if i1 + 1 < i2 {
        lemma_pair_index_lex_rows(i1 + 1, i2);
        assert(spec_pair_index(i1 + 1, i1 + 2) <= spec_pair_index(i1 + 1, 51));
    }
}

/// No two holdings share an enumeration index: the row-major equity-table
/// layout has exactly one slot per ordered pair of holdings.
pub proof fn lemma_pair_index_injective(i: int, j: int, m: int, n: int)
    requires
        valid_pair(i, j),
        valid_pair(m, n),
        !(i == m && j == n),
    ensures
        spec_pair_index(i, j) != spec_pair_index(m, n),
{
    if i == m {
        assert(spec_pair_index(i, j) - spec_pair_index(m, n) == j - n);
    } else if i < m {
        lemma_pair_index_lex_rows(i, m);
        assert(spec_pair_index(i, j) <= spec_pair_index(i, 51));
        assert(spec_pair_index(m, m + 1) <= spec_pair_index(m, n));
    } else {
        lemma_pair_index_lex_rows(m, i);
        assert(spec_pair_index(m, n) <= spec_pair_index(m, 51));
        assert(spec_pair_index(i, i + 1) <= spec_pair_index(i, j));
    }
}

/// The index of the holding `(i, j)` with `i < j < 52` in the fixed
/// lexicographic enumeration of all 1326 holdings.
pub fn pair_index(i: usize, j: usize) -> (k: usize)
    requires
        i < j,
        j < 52,
    ensures
        k == spec_pair_index(i as int, j as int),
        k < 1326,
{
    proof {
        lemma_pair_index_bounds(i as int, j as int);
        assert(i * (103 - i) == (i as int) * (103 - (i as int))) by (nonlinear_arith)
            requires
                i <= 50,
        ;
        assert((i as int) * (103 - (i as int)) <= 2550 + 2 * i) by (nonlinear_arith)
            requires
                0 <= i <= 50,
        ;
    }
    i * (103 - i) / 2 + j - i - 1
}

} // verus!
