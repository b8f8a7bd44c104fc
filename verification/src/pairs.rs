use vstd::prelude::*;
use vstd::relations::injective_on;
use vstd::set_lib::{lemma_len_subset, lemma_map_size, lemma_set_disjoint_lens};
use crate::collide::{close_pairs, column_hits, is_symmetric, row_hits};

verus! {

broadcast use vstd::set::group_set_axioms;

/// The ordered pairs `(i, j)` of distinct indices below `n` whose entry
/// `m[i][j]` is set.
pub open spec fn pair_set(m: Seq<Seq<bool>>, n: nat) -> Set<(int, int)> {
    Set::new(|q: (int, int)| 0 <= q.0 < n && 0 <= q.1 < n && q.0 != q.1 && m[q.0][q.1])
}

spec fn row_set(m: Seq<Seq<bool>>, i: int, k: nat) -> Set<(int, int)> {
    Set::new(|q: (int, int)| q.0 == i && 0 <= q.1 < k && m[i][q.1])
}

spec fn column_set(m: Seq<Seq<bool>>, i: int, k: nat) -> Set<(int, int)> {
    Set::new(|q: (int, int)| q.1 == i && 0 <= q.0 < k && m[q.0][i])
}

proof fn lemma_row_set_len(m: Seq<Seq<bool>>, i: int, k: nat)
    ensures
        row_set(m, i, k).finite(),
        row_set(m, i, k).len() == row_hits(m, i, k),
    decreases k,
{
    if k == 0 {
        assert(row_set(m, i, k) =~= Set::empty());
    } else {
        let j = (k - 1) as nat;
        lemma_row_set_len(m, i, j);
        if m[i][j as int] {
            assert(row_set(m, i, k) =~= row_set(m, i, j).insert((i, j as int)));
            assert(!row_set(m, i, j).contains((i, j as int)));
        } else {
            assert(row_set(m, i, k) =~= row_set(m, i, j));
        }
    }
}

proof fn lemma_column_set_len(m: Seq<Seq<bool>>, i: int, k: nat)
    ensures
        column_set(m, i, k).finite(),
        column_set(m, i, k).len() == column_hits(m, i, k),
    decreases k,
{
    if k == 0 {
        assert(column_set(m, i, k) =~= Set::empty());
    } else {
        let j = (k - 1) as nat;
        lemma_column_set_len(m, i, j);
        if m[j as int][i] {
            assert(column_set(m, i, k) =~= column_set(m, i, j).insert((j as int, i)));
            assert(!column_set(m, i, j).contains((j as int, i)));
        } else {
            assert(column_set(m, i, k) =~= column_set(m, i, j));
        }
    }
}

/// `close_pairs` counts exactly the set of close ordered pairs.
pub proof fn lemma_close_pairs_is_pair_set_len(m: Seq<Seq<bool>>, n: nat)
    ensures
        pair_set(m, n).finite(),
        pair_set(m, n).len() == close_pairs(m, n),
    decreases n,
{
    if n == 0 {
        assert(pair_set(m, n) =~= Set::empty());
    } else {
        let k = (n - 1) as nat;
        lemma_close_pairs_is_pair_set_len(m, k);
        lemma_row_set_len(m, k as int, k);
        lemma_column_set_len(m, k as int, k);
        let a = pair_set(m, k);
        let r = row_set(m, k as int, k);
        let c = column_set(m, k as int, k);
        assert(a.disjoint(r));
        assert(a.disjoint(c));
        assert(r.disjoint(c));
        lemma_set_disjoint_lens(a, r);
        assert((a + r).disjoint(c));
        lemma_set_disjoint_lens(a + r, c);
        assert(pair_set(m, n) =~= a + r + c);
    }
}

/// `p` lists each of the indices `0`, ..., `n - 1` exactly once.
pub open spec fn is_permutation(p: Seq<int>, n: nat) -> bool {
    &&& p.len() == n
    &&& forall|i: int| 0 <= i < n ==> 0 <= #[trigger] p[i] < n
    &&& forall|i: int, j: int| 0 <= i < n && 0 <= j < n && #[trigger] p[i] == #[trigger] p[j] ==> i == j
    &&& forall|k: int| 0 <= k < n ==> #[trigger] p.contains(k)
}

/// The closeness table of the same particles listed in another order: particle
/// `i` of the new order is particle `p[i]` of the old.
pub open spec fn permuted(m: Seq<Seq<bool>>, p: Seq<int>) -> Seq<Seq<bool>> {
    Seq::new(p.len(), |i: int| Seq::new(p.len(), |j: int| m[p[i]][p[j]]))
}

/// The count of close pairs does not depend on the order of the particles:
/// listing them in another order leaves it unchanged.
pub proof fn lemma_count_ignores_order(m: Seq<Seq<bool>>, p: Seq<int>)
    requires
        is_permutation(p, m.len()),
    ensures
        close_pairs(permuted(m, p), m.len()) == close_pairs(m, m.len()),
{
    let n = m.len();
    let mp = permuted(m, p);
    let x = pair_set(mp, n);
    let y = pair_set(m, n);
    let f = |q: (int, int)| (p[q.0], p[q.1]);
    lemma_close_pairs_is_pair_set_len(mp, n);
    lemma_close_pairs_is_pair_set_len(m, n);
    assert(injective_on(f, x)) by {
        assert forall|a: (int, int), b: (int, int)|
            x.contains(a) && x.contains(b) && #[trigger] f(a) == #[trigger] f(b) implies a == b by {
            assert(p[a.0] == p[b.0]);
            assert(p[a.1] == p[b.1]);
        }
    }
    assert forall|b: (int, int)| #[trigger] y.contains(b) implies x.map(f).contains(b) by {
        assert(p.contains(b.0));
        assert(p.contains(b.1));
        let i = choose|i: int| 0 <= i < p.len() && #[trigger] p[i] == b.0;
        let j = choose|j: int| 0 <= j < p.len() && #[trigger] p[j] == b.1;
        assert(mp[i][j] == m[p[i]][p[j]]);
        assert(x.contains((i, j)));
        assert(f((i, j)) == b);
    }
    assert forall|b: (int, int)| #[trigger] x.map(f).contains(b) implies y.contains(b) by {
        let a = choose|a: (int, int)| x.contains(a) && b == f(a);
        assert(mp[a.0][a.1] == m[p[a.0]][p[a.1]]);
        assert(0 <= p[a.0] < n);
        assert(0 <= p[a.1] < n);
    }
    assert(x.map(f) =~= y);
    lemma_map_size(x, y, f);
}

/// The closeness table of the particles `lo`, ..., `hi - 1` alone.
pub open spec fn sub_table(m: Seq<Seq<bool>>, lo: int, hi: int) -> Seq<Seq<bool>> {
    Seq::new((hi - lo) as nat, |i: int| Seq::new((hi - lo) as nat, |j: int| m[lo + i][lo + j]))
}

/// The close ordered pairs of distinct indices below `n` with one index below `k`
/// and the other not: the pairs that straddle the cut at `k`, in either order.
pub open spec fn straddling_set(m: Seq<Seq<bool>>, k: nat, n: nat) -> Set<(int, int)> {
    Set::new(
        |q: (int, int)| 0 <= q.0 < n && 0 <= q.1 < n && (q.0 < k) != (q.1 < k) && m[q.0][q.1],
    )
}

/// How many close ordered pairs straddle the cut at `k`.
pub open spec fn straddling_pairs(m: Seq<Seq<bool>>, k: nat, n: nat) -> nat {
    straddling_set(m, k, n).len()
}

/// The close pairs `(i, j)` with `i` below the cut at `k` and `j` at or above it.
pub open spec fn cross_set(m: Seq<Seq<bool>>, k: nat, n: nat) -> Set<(int, int)> {
    Set::new(|q: (int, int)| 0 <= q.0 < k && k <= q.1 < n && m[q.0][q.1])
}

/// How many pairs of a particle below the cut and one at or above it are close.
pub open spec fn cross_pairs(m: Seq<Seq<bool>>, k: nat, n: nat) -> nat {
    cross_set(m, k, n).len()
}

spec fn upper_set(m: Seq<Seq<bool>>, k: nat, n: nat) -> Set<(int, int)> {
    Set::new(|q: (int, int)| k <= q.0 < n && k <= q.1 < n && q.0 != q.1 && m[q.0][q.1])
}

/// Counting a group as a whole counts the close pairs of its first `k`
/// particles, those of the rest, and the close pairs that straddle the two
/// parts: counting the parts apart misses exactly the straddling pairs.
pub proof fn lemma_count_of_joined_groups(m: Seq<Seq<bool>>, k: nat)
    requires
        k <= m.len(),
    ensures
        close_pairs(m, m.len()) == close_pairs(sub_table(m, 0, k as int), k) + close_pairs(
            sub_table(m, k as int, m.len() as int),
            (m.len() - k) as nat,
        ) + straddling_pairs(m, k, m.len()),
        close_pairs(m, m.len()) >= close_pairs(sub_table(m, 0, k as int), k) + close_pairs(
            sub_table(m, k as int, m.len() as int),
            (m.len() - k) as nat,
        ),
        straddling_set(m, k, m.len()).finite(),
{
    let n = m.len();
    let all = pair_set(m, n);
    let lower = pair_set(m, k);
    let upper = upper_set(m, k, n);
    let across = straddling_set(m, k, n);
    lemma_close_pairs_is_pair_set_len(m, n);
    lemma_len_subset(lower, all);
    lemma_len_subset(upper, all);
    lemma_len_subset(across, all);
    assert(lower.disjoint(upper));
    lemma_set_disjoint_lens(lower, upper);
    assert((lower + upper).disjoint(across));
    lemma_set_disjoint_lens(lower + upper, across);
    assert(all =~= lower + upper + across);

    let low_table = sub_table(m, 0, k as int);
    lemma_close_pairs_is_pair_set_len(low_table, k);
    assert(pair_set(low_table, k) =~= lower);

    let high_table = sub_table(m, k as int, n as int);
    let h = (n - k) as nat;
    let x = pair_set(high_table, h);
    lemma_close_pairs_is_pair_set_len(high_table, h);
    let shift = |q: (int, int)| (q.0 + k, q.1 + k);
    assert(injective_on(shift, x));
    assert forall|b: (int, int)| #[trigger] upper.contains(b) implies x.map(shift).contains(b) by {
        let a = (b.0 - k, b.1 - k);
        assert(high_table[a.0][a.1] == m[b.0][b.1]);
        assert(x.contains(a));
        assert(shift(a) == b);
    }
    assert forall|b: (int, int)| #[trigger] x.map(shift).contains(b) implies upper.contains(b) by {
        let a = choose|a: (int, int)| x.contains(a) && b == shift(a);
        assert(high_table[a.0][a.1] == m[a.0 + k][a.1 + k]);
    }
    assert(x.map(shift) =~= upper);
    lemma_map_size(x, upper, shift);
}

/// Where closeness reads the same both ways, the straddling pairs are the close
/// pairs across the cut counted once in each order: the whole group's count is
/// the two parts' counts plus twice the close pairs across the cut.
pub proof fn lemma_count_of_joined_symmetric_groups(m: Seq<Seq<bool>>, k: nat)
    requires
        k <= m.len(),
        is_symmetric(m),
    ensures
        straddling_pairs(m, k, m.len()) == 2 * cross_pairs(m, k, m.len()),
        close_pairs(m, m.len()) == close_pairs(sub_table(m, 0, k as int), k) + close_pairs(
            sub_table(m, k as int, m.len() as int),
            (m.len() - k) as nat,
        ) + 2 * cross_pairs(m, k, m.len()),
{
    let n = m.len();
    lemma_count_of_joined_groups(m, k);
    let across = straddling_set(m, k, n);
    let fwd = cross_set(m, k, n);
    let swap = |q: (int, int)| (q.1, q.0);
    let bwd = fwd.map(swap);
    lemma_len_subset(fwd, across);
    assert(injective_on(swap, fwd));
    lemma_map_size(fwd, bwd, swap);
    assert forall|b: (int, int)| #[trigger] across.contains(b) implies (fwd + bwd).contains(b) by {
        if b.1 < k {
            let a = (b.1, b.0);
            assert(m[b.0][b.1] == m[b.1][b.0]);
            assert(fwd.contains(a));
            assert(swap(a) == b);
        }
    }
    assert forall|b: (int, int)| #[trigger] (fwd + bwd).contains(b) implies across.contains(b) by {
        if !fwd.contains(b) {
            let a = choose|a: (int, int)| fwd.contains(a) && b == swap(a);
            assert(m[a.0][a.1] == m[a.1][a.0]);
        }
    }
    assert(across =~= fwd + bwd);
    assert(fwd.disjoint(bwd));
    lemma_set_disjoint_lens(fwd, bwd);
}

} // verus!
