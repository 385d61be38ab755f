use vstd::prelude::*;

use crate::hands::{
    lemma_pair_index_bounds, lemma_pair_index_step_i, lemma_pair_index_step_j, pair_index,
    spec_overlap, spec_pair_index, valid_pair, NUM_HANDS,
};
use crate::pair_sums::{
    lemma_count_disjoint, lemma_sum_add, lemma_sum_congruence, lemma_sum_const, lemma_sum_scale,
    lemma_sum_swap, sum_over_pairs,
};

verus! {

/// Number of distinct five-card boards drawn from the 48 cards left once
/// two disjoint two-card holdings are dealt: 48 choose 5.
pub const NUM_BOARDS: i64 = 1712304;

/// What the entries of a correct equity table add up to. The entry for an
/// ordered pair of disjoint holdings counts two per board won plus one per
/// board tied, so the two entries of each unordered pair add up to twice
/// the board count, shared-card entries are zero, and the whole table sums
/// to (52 choose 2) * (50 choose 2) * (48 choose 5).
pub const TABLE_SUM: i64 = 1326 * 1225 * NUM_BOARDS;

/// The sum of all entries of a table.
pub open spec fn table_sum(s: Seq<i32>) -> int {
    s.fold_left(0int, |acc: int, x: i32| acc + x)
}

/// The entry of table `v` for the holding `(i, j)` evaluated against the
/// opponent holding `(m, n)`, in the row-major layout over the pair
/// enumeration.
pub open spec fn spec_entry_at(v: Seq<i32>, i: int, j: int, m: int, n: int) -> i32 {
    v[spec_pair_index(i, j) * 1326 + spec_pair_index(m, n)]
}

/// Every entry for two holdings that share a card is zero: such a deal is
/// impossible and must not contribute, rather than carry a stale weight.
pub open spec fn spec_overlaps_zero(v: Seq<i32>) -> bool {
    forall|i: int, j: int, m: int, n: int|
        valid_pair(i, j) && valid_pair(m, n) && spec_overlap(i, j, m, n) ==> #[trigger] spec_entry_at(
            v,
            i,
            j,
            m,
            n,
        ) == 0
}

/// A stored equity table is credible exactly when it has one entry per
/// ordered pair of holdings, its entries add up to the combinatorial total,
/// and every shared-card entry is zero.
pub open spec fn spec_valid_table(v: Seq<i32>) -> bool {
    &&& v.len() == NUM_HANDS * NUM_HANDS
    &&& table_sum(v) == TABLE_SUM as int
    &&& spec_overlaps_zero(v)
}

/// The sum of the entries `v[a]` through `v[b - 1]`.
pub open spec fn slice_sum(v: Seq<i32>, a: int, b: int) -> int {
    table_sum(v.subrange(a, b))
}

/// A non-empty sum can be peeled at the front.
proof fn lemma_sum_peel_first(s: Seq<i32>)
    requires
        s.len() > 0,
    ensures
        table_sum(s) == s[0] + table_sum(s.drop_first()),
    decreases s.len(),
{
    if s.len() == 1 {
        assert(s.drop_last() =~= Seq::<i32>::empty());
        assert(s.drop_first() =~= Seq::<i32>::empty());
        assert(table_sum(s) == table_sum(s.drop_last()) + s.last());
    } else {
        lemma_sum_peel_first(s.drop_last());
        assert(table_sum(s) == table_sum(s.drop_last()) + s.last());
        assert(s.drop_last()[0] == s[0]);
        assert(s.drop_last().drop_first() =~= s.drop_first().drop_last());
        assert(table_sum(s.drop_first()) == table_sum(s.drop_first().drop_last())
            + s.drop_first().last());
        assert(s.drop_first().last() == s.last());
    }
}

/// A slice sum splits at any point in between.
proof fn lemma_slice_sum_split(v: Seq<i32>, a: int, b: int, c: int)
    requires
        0 <= a <= b <= c <= v.len(),
    ensures
        slice_sum(v, a, c) == slice_sum(v, a, b) + slice_sum(v, b, c),
    decreases c - b,
{
    if b == c {
        assert(v.subrange(b, c) =~= Seq::<i32>::empty());
        assert(v.subrange(a, c) =~= v.subrange(a, b));
    } else {
        lemma_slice_sum_split(v, a, b, c - 1);
        let s = v.subrange(a, c);
        assert(table_sum(s) == table_sum(s.drop_last()) + s.last());
        assert(s.drop_last() =~= v.subrange(a, c - 1));
        let t = v.subrange(b, c);
        assert(table_sum(t) == table_sum(t.drop_last()) + t.last());
        assert(t.drop_last() =~= v.subrange(b, c - 1));
        assert(s.last() == v[c - 1] && t.last() == v[c - 1]);
    }
}

/// The sum of one table row's entries from the holding `(m, n)` on, read
/// through the pair enumeration, is the flat sum of the corresponding
/// slice: the layout is row-major and the enumeration is its order.
proof fn lemma_row_sum(v: Seq<i32>, f: spec_fn(int, int) -> int, o: int, m: int, n: int)
    requires
        0 <= m < n < 52,
        0 <= o,
        o + 1326 <= v.len(),
        forall|p: int, q: int|
            valid_pair(p, q) ==> #[trigger] f(p, q) == v[o + spec_pair_index(p, q)] as int,
    ensures
        sum_over_pairs(f, m, n) == slice_sum(v, o + spec_pair_index(m, n), o + 1326),
    decreases 52 - m, 52 - n,
{
    lemma_pair_index_bounds(m as int, n as int);
    if m == 50 && n == 51 {
        assert(sum_over_pairs(f, 51, 52) == 0);
        assert(sum_over_pairs(f, 50, 52) == sum_over_pairs(f, 51, 52));
        assert(sum_over_pairs(f, 50, 51) == f(50, 51) + sum_over_pairs(f, 50, 52));
        assert(valid_pair(50, 51));
        let s = v.subrange(o + 1325, o + 1326);
        assert(s.drop_last() =~= Seq::<i32>::empty());
        assert(table_sum(s) == table_sum(s.drop_last()) + s.last());
        assert(s.last() == v[o + 1325]);
        assert(spec_pair_index(50, 51) == 1325) by (nonlinear_arith);
    } else {
        let x = o + spec_pair_index(m, n);
        let s = v.subrange(x, o + 1326);
        lemma_sum_peel_first(s);
        assert(s[0] == v[x]);
        assert(s.drop_first() =~= v.subrange(x + 1, o + 1326));
        if n == 51 {
            lemma_row_sum(v, f, o, m + 1, m + 2);
            lemma_pair_index_step_i(m);
            assert(sum_over_pairs(f, m, 52) == sum_over_pairs(f, m + 1, m + 2));
            assert(sum_over_pairs(f, m, 51) == f(m, 51) + sum_over_pairs(f, m, 52));
            assert(valid_pair(m, 51));
        } else {
            lemma_row_sum(v, f, o, m, n + 1);
            lemma_pair_index_step_j(m, n);
            assert(sum_over_pairs(f, m, n) == f(m, n) + sum_over_pairs(f, m, n + 1));
            assert(valid_pair(m, n));
        }
    }
}

/// The flat sum of the whole table from the row of holding `(m, n)` on is
/// the sum of the per-row slice sums.
proof fn lemma_rows_sum(v: Seq<i32>, g: spec_fn(int, int) -> int, m: int, n: int)
    requires
        v.len() == 1326 * 1326,
        0 <= m < n < 52,
        forall|p: int, q: int|
            valid_pair(p, q) ==> #[trigger] g(p, q) == slice_sum(
                v,
                spec_pair_index(p, q) * 1326,
                (spec_pair_index(p, q) + 1) * 1326,
            ),
    ensures
        sum_over_pairs(g, m, n) == slice_sum(v, spec_pair_index(m, n) * 1326, (1326int * 1326)),
    decreases 52 - m, 52 - n,
{
    lemma_pair_index_bounds(m as int, n as int);
    let a = spec_pair_index(m, n);
    if m == 50 && n == 51 {
        assert(sum_over_pairs(g, 51, 52) == 0);
        assert(sum_over_pairs(g, 50, 52) == sum_over_pairs(g, 51, 52));
        assert(sum_over_pairs(g, 50, 51) == g(50, 51) + sum_over_pairs(g, 50, 52));
        assert(valid_pair(50, 51));
        assert(spec_pair_index(50, 51) == 1325) by (nonlinear_arith);
    } else {
        lemma_slice_sum_split(v, a * 1326, (a + 1) * 1326, (1326int * 1326));
        if n == 51 {
            lemma_rows_sum(v, g, m + 1, m + 2);
            lemma_pair_index_step_i(m);
            assert(sum_over_pairs(g, m, 52) == sum_over_pairs(g, m + 1, m + 2));
            assert(sum_over_pairs(g, m, 51) == g(m, 51) + sum_over_pairs(g, m, 52));
            assert(valid_pair(m, 51));
        } else {
            lemma_rows_sum(v, g, m, n + 1);
            lemma_pair_index_step_j(m, n);
            assert(sum_over_pairs(g, m, n) == g(m, n) + sum_over_pairs(g, m, n + 1));
            assert(valid_pair(m, n));
        }
    }
}

/// The combinatorial identity behind the grand total: in a table where
/// every shared-card entry is zero and the two entries of each unordered
/// pair of disjoint holdings add up to twice the board count, all entries
/// add up to (52 choose 2) * (50 choose 2) * (48 choose 5). A correctly
/// generated equity table has exactly those per-matchup totals, since each
/// matchup's boards are won, lost, or tied.
pub proof fn lemma_matchup_totals_give_table_sum(v: Seq<i32>)
    requires
        v.len() == NUM_HANDS * NUM_HANDS,
        forall|i: int, j: int, m: int, n: int|
            valid_pair(i, j) && valid_pair(m, n) && !spec_overlap(i, j, m, n)
                ==> #[trigger] spec_entry_at(v, i, j, m, n) + spec_entry_at(v, m, n, i, j) == 2
                * NUM_BOARDS,
        spec_overlaps_zero(v),
    ensures
        table_sum(v) == TABLE_SUM as int,
        spec_valid_table(v),
{
    let ef = |p: int, q: int, r: int, s: int| spec_entry_at(v, p, q, r, s) as int;
    let rowf = |p: int, q: int| sum_over_pairs((|r: int, s: int| ef(p, q, r, s)), 0, 1);
    let colf = |p: int, q: int| sum_over_pairs((|r: int, s: int| ef(r, s, p, q)), 0, 1);
    let slices = |p: int, q: int|
        slice_sum(v, spec_pair_index(p, q) * 1326, (spec_pair_index(p, q) + 1) * 1326);

    // The flat sum equals the sum of row sums.
    lemma_rows_sum(v, slices, 0, 1);
    assert(spec_pair_index(0, 1) == 0);
    assert(v.subrange(0, (1326int * 1326)) =~= v);
    assert(table_sum(v) == sum_over_pairs(slices, 0, 1));
    assert forall|p: int, q: int| valid_pair(p, q) implies #[trigger] slices(p, q) == rowf(
        p,
        q,
    ) by {
        lemma_pair_index_bounds(p, q);
        let o = spec_pair_index(p, q) * 1326;
        let inner = |r: int, s: int| ef(p, q, r, s);
        assert forall|r: int, s: int| valid_pair(r, s) implies #[trigger] inner(r, s) == v[o
            + spec_pair_index(r, s)] as int by {
            assert(spec_entry_at(v, p, q, r, s) == v[o + spec_pair_index(r, s)]);
        }
        lemma_row_sum(v, inner, o, 0, 1);
        assert(spec_pair_index(0, 1) == 0);
    }
    lemma_sum_congruence(slices, rowf, 0, 1);

    // The same terms, summed column by column instead.
    lemma_sum_swap(ef, rowf, colf);

    // Adding each entry to its mirrored entry gives a constant per row.
    let symf = |p: int, q: int| rowf(p, q) + colf(p, q);
    lemma_sum_add(rowf, colf, symf, 0, 1);
    assert forall|p: int, q: int| valid_pair(p, q) implies #[trigger] symf(p, q) == 2 * NUM_BOARDS
        * 1225 by {
        let rowi = |r: int, s: int| ef(p, q, r, s);
        let coli = |r: int, s: int| ef(r, s, p, q);
        let addf = |r: int, s: int| rowi(r, s) + coli(r, s);
        lemma_sum_add(rowi, coli, addf, 0, 1);
        let disj = |r: int, s: int|
            if spec_overlap(p, q, r, s) {
                0int
            } else {
                1int
            };
        let scaled = |r: int, s: int| 2 * NUM_BOARDS * disj(r, s);
        assert forall|r: int, s: int| valid_pair(r, s) implies #[trigger] addf(r, s) == scaled(
            r,
            s,
        ) by {
            if spec_overlap(p, q, r, s) {
                assert(spec_entry_at(v, p, q, r, s) == 0);
                assert(spec_entry_at(v, r, s, p, q) == 0);
            } else {
                assert(spec_entry_at(v, p, q, r, s) + spec_entry_at(v, r, s, p, q) == 2
                    * NUM_BOARDS);
            }
        }
        lemma_sum_congruence(addf, scaled, 0, 1);
        lemma_sum_scale(disj, scaled, 2 * NUM_BOARDS, 0, 1);
        lemma_count_disjoint(disj, p, q);
    }
    lemma_sum_const(symf, 2 * NUM_BOARDS * 1225, 0, 1);
    assert(spec_pair_index(0, 1) == 0);
    assert(2 * table_sum(v) == 2 * NUM_BOARDS * 1225 * 1326);
}

/// Adds up all entries of a table.
fn table_total(v: &Vec<i32>) -> (total: i64)
    requires
        v@.len() <= 0x200000,
    ensures
        total == table_sum(v@),
{
    let mut total: i64 = 0;
    let mut idx: usize = 0;
    while idx < v.len()
        invariant
            idx <= v@.len(),
            v@.len() <= 0x200000,
            total == table_sum(v@.take(idx as int)),
            -0x80000000 * (idx as int) <= total <= 0x80000000 * (idx as int),
        decreases v@.len() - idx,
    {
        proof {
            let s = v@.take(idx as int + 1);
            assert(s.drop_last() =~= v@.take(idx as int));
            assert(table_sum(s) == table_sum(v@.take(idx as int)) + v@[idx as int]);
        }
        total = total + (v[idx] as i64);
        idx = idx + 1;
    }
    proof {
        assert(v@.take(v@.len() as int) =~= v@);
    }
    total
}

/// Checks that every entry of the row of holding `(i, j)` whose opponent
/// holding shares a card with it is zero.
fn overlap_row_zero(v: &Vec<i32>, i: usize, j: usize) -> (ok: bool)
    requires
        i < j,
        j < 52,
        v@.len() == NUM_HANDS * NUM_HANDS,
    ensures
        ok == forall|m: int, n: int|
            valid_pair(m, n) && spec_overlap(i as int, j as int, m, n)
                ==> #[trigger] spec_entry_at(v@, i as int, j as int, m, n) == 0,
{
    let a = pair_index(i, j);
    let mut m: usize = 0;
    while m < 52
        invariant
            m <= 52,
            i < j,
            j < 52,
            a == spec_pair_index(i as int, j as int),
            a < 1326,
            v@.len() == NUM_HANDS * NUM_HANDS,
            forall|m0: int, n0: int|
                0 <= m0 < m && m0 < n0 < 52 && spec_overlap(i as int, j as int, m0, n0)
                    ==> #[trigger] spec_entry_at(v@, i as int, j as int, m0, n0) == 0,
        decreases 52 - m,
    {
        let mut n: usize = m + 1;
        while n < 52
            invariant
                m < 52,
                m < n,
                n <= 52,
                i < j,
                j < 52,
                a == spec_pair_index(i as int, j as int),
                a < 1326,
                v@.len() == NUM_HANDS * NUM_HANDS,
                forall|m0: int, n0: int|
                    0 <= m0 < m && m0 < n0 < 52 && spec_overlap(i as int, j as int, m0, n0)
                        ==> #[trigger] spec_entry_at(v@, i as int, j as int, m0, n0) == 0,
                forall|n0: int|
                    m < n0 < n && spec_overlap(i as int, j as int, m as int, n0)
                        ==> #[trigger] spec_entry_at(v@, i as int, j as int, m as int, n0) == 0,
            decreases 52 - n,
        {
            if m == i || m == j || n == i || n == j {
                let b = pair_index(m, n);
                if v[a * 1326 + b] != 0 {
                    proof {
                        assert(spec_entry_at(v@, i as int, j as int, m as int, n as int) != 0);
                    }
                    return false;
                }
                proof {
                    assert(spec_entry_at(v@, i as int, j as int, m as int, n as int) == 0);
                }
            }
            n = n + 1;
        }
        m = m + 1;
    }
    true
}

/// Checks that every shared-card entry of the whole table is zero.
fn overlaps_zero(v: &Vec<i32>) -> (ok: bool)
    requires
        v@.len() == NUM_HANDS * NUM_HANDS,
    ensures
        ok == spec_overlaps_zero(v@),
{
    let mut i: usize = 0;
    while i < 52
        invariant
            i <= 52,
            v@.len() == NUM_HANDS * NUM_HANDS,
            forall|i0: int, j0: int, m0: int, n0: int|
                0 <= i0 < i && i0 < j0 < 52 && valid_pair(m0, n0) && spec_overlap(i0, j0, m0, n0)
                    ==> #[trigger] spec_entry_at(v@, i0, j0, m0, n0) == 0,
        decreases 52 - i,
    {
        let mut j: usize = i + 1;
        while j < 52
            invariant
                i < 52,
                i < j,
                j <= 52,
                v@.len() == NUM_HANDS * NUM_HANDS,
                forall|i0: int, j0: int, m0: int, n0: int|
                    0 <= i0 < i && i0 < j0 < 52 && valid_pair(m0, n0) && spec_overlap(
                        i0,
                        j0,
                        m0,
                        n0,
                    ) ==> #[trigger] spec_entry_at(v@, i0, j0, m0, n0) == 0,
                forall|j0: int, m0: int, n0: int|
                    i < j0 < j && valid_pair(m0, n0) && spec_overlap(i as int, j0, m0, n0)
                        ==> #[trigger] spec_entry_at(v@, i as int, j0, m0, n0) == 0,
            decreases 52 - j,
        {
            if !overlap_row_zero(v, i, j) {
                proof {
                    if spec_overlaps_zero(v@) {
                        assert forall|m: int, n: int|
                            valid_pair(m, n) && spec_overlap(i as int, j as int, m, n)
                                implies #[trigger] spec_entry_at(v@, i as int, j as int, m, n)
                            == 0 by {}
                    }
                }
                return false;
            }
            j = j + 1;
        }
        i = i + 1;
    }
    true
}

/// Decides whether `v` is a credible equity table: the right size, the
/// exact combinatorial total, and zero at every shared-card entry. A table
/// failing this check is corrupt and a solve over it would be meaningless.
pub fn validate_equity_table(v: &Vec<i32>) -> (ok: bool)
    ensures
        ok == spec_valid_table(v@),
{
    if v.len() != NUM_HANDS * NUM_HANDS {
        return false;
    }
    let total = table_total(v);
    if total != TABLE_SUM {
        return false;
    }
    overlaps_zero(v)
}

} // verus!
