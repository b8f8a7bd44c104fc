use vstd::prelude::*;

verus! {

/// `m` is a square table: as many rows as columns, `m[i][j]` telling whether
/// particles `i` and `j` are close.
pub open spec fn is_square(m: Seq<Seq<bool>>) -> bool {
    forall|i: int| 0 <= i < m.len() ==> #[trigger] m[i].len() == m.len()
}

/// The table reads the same both ways: `i` is close to `j` exactly when `j` is
/// close to `i`.
pub open spec fn is_symmetric(m: Seq<Seq<bool>>) -> bool {
    forall|i: int, j: int| 0 <= i < m.len() && 0 <= j < m.len() ==> #[trigger] m[i][j] == #[trigger] m[j][i]
}

/// How many of `m[i][0]`, ..., `m[i][k - 1]` are set.
pub open spec fn row_hits(m: Seq<Seq<bool>>, i: int, k: nat) -> nat
    decreases k,
{
    if k == 0 {
        0
    } else {
        row_hits(m, i, (k - 1) as nat) + if m[i][k - 1] { 1nat } else { 0nat }
    }
}

/// How many of `m[0][i]`, ..., `m[k - 1][i]` are set.
pub open spec fn column_hits(m: Seq<Seq<bool>>, i: int, k: nat) -> nat
    decreases k,
{
    if k == 0 {
        0
    } else {
        column_hits(m, i, (k - 1) as nat) + if m[k - 1][i] { 1nat } else { 0nat }
    }
}

/// The number of ordered pairs `(i, j)` of distinct indices below `n` whose
/// entry `m[i][j]` is set. The pairs that involve the last index `n - 1` are
/// those of its row and of its column, left of and above the diagonal.
pub open spec fn close_pairs(m: Seq<Seq<bool>>, n: nat) -> nat
    decreases n,
{
    if n == 0 {
        0
    } else {
        let k = (n - 1) as nat;
        close_pairs(m, k) + row_hits(m, k as int, k) + column_hits(m, k as int, k)
    }
}

/// The collision counter after one group of particles: `collisions` raised by one
/// for every ordered pair of distinct particles of the group that are close,
/// unless that overflows a `u32`.
pub open spec fn counter_after(m: Seq<Seq<bool>>, collisions: u32) -> Option<u32> {
    if collisions + close_pairs(m, m.len()) <= u32::MAX {
        Some((collisions + close_pairs(m, m.len())) as u32)
    } else {
        None
    }
}

/// The same counter, with the close pairs counted as a row-by-row scan of the
/// whole table meets them: every set entry off the diagonal.
pub open spec fn counter_after_scan(m: Seq<Seq<bool>>, collisions: u32) -> Option<u32> {
    if collisions + row_by_row(m, m.len(), m.len()) <= u32::MAX {
        Some((collisions + row_by_row(m, m.len(), m.len())) as u32)
    } else {
        None
    }
}

proof fn lemma_row_hits_monotone(m: Seq<Seq<bool>>, i: int, a: nat, b: nat)
    requires
        a <= b,
    ensures
        row_hits(m, i, a) <= row_hits(m, i, b),
    decreases b,
{
    if a < b {
        lemma_row_hits_monotone(m, i, a, (b - 1) as nat);
    }
}

proof fn lemma_column_hits_monotone(m: Seq<Seq<bool>>, i: int, a: nat, b: nat)
    requires
        a <= b,
    ensures
        column_hits(m, i, a) <= column_hits(m, i, b),
    decreases b,
{
    if a < b {
        lemma_column_hits_monotone(m, i, a, (b - 1) as nat);
    }
}

proof fn lemma_close_pairs_monotone(m: Seq<Seq<bool>>, a: nat, b: nat)
    requires
        a <= b,
    ensures
        close_pairs(m, a) <= close_pairs(m, b),
    decreases b,
{
    if a < b {
        lemma_close_pairs_monotone(m, a, (b - 1) as nat);
    }
}

/// Counts, for one group of particles, the ordered pairs of distinct particles
/// that are close (`close[i][j]`), and adds them to the collision counter.
/// Each close pair is counted once in each order. `None` where the counter would
/// pass `u32::MAX`.
pub fn thread_collide(close: &Vec<Vec<bool>>, collisions: u32) -> (r: Option<u32>)
    requires
        is_square(close.deep_view()),
    ensures
        r == counter_after(close.deep_view(), collisions),
        r == counter_after_scan(close.deep_view(), collisions),
{
    let ghost m = close.deep_view();
    proof {
        lemma_close_pairs_row_by_row(m, m.len());
    }
    let n = close.len();
    let mut total: u32 = collisions;
    let mut i: usize = 0;
    while i < n
        invariant
            m == close.deep_view(),
            is_square(m),
            close_pairs(m, m.len()) == row_by_row(m, m.len(), m.len()),
            n == m.len(),
            i <= n,
            total == collisions + close_pairs(m, i as nat),
        decreases n - i,
    {
        assert(m[i as int].len() == n);
        let row = &close[i];
        let mut j: usize = 0;
        while j < i
            invariant
                m == close.deep_view(),
                is_square(m),
                close_pairs(m, m.len()) == row_by_row(m, m.len(), m.len()),
                n == m.len(),
                i < n,
                j <= i,
                row@ == m[i as int],
                total == collisions + close_pairs(m, i as nat) + row_hits(m, i as int, j as nat)
                    + column_hits(m, i as int, j as nat),
            decreases i - j,
        {
            assert(m[j as int].len() == n);
            proof {
                lemma_row_hits_monotone(m, i as int, (j + 1) as nat, i as nat);
                lemma_column_hits_monotone(m, i as int, (j + 1) as nat, i as nat);
                lemma_close_pairs_monotone(m, (i + 1) as nat, n as nat);
            }
            if row[j] {
                if total == u32::MAX {
                    return None;
                }
                total = total + 1;
            }
            if close[j][i] {
                if total == u32::MAX {
                    return None;
                }
                total = total + 1;
            }
            j = j + 1;
        }
        i = i + 1;
    }
    Some(total)
}

proof fn lemma_row_equals_column(m: Seq<Seq<bool>>, i: int, k: nat)
    requires
        is_square(m),
        is_symmetric(m),
        0 <= i < m.len(),
        k <= m.len(),
    ensures
        row_hits(m, i, k) == column_hits(m, i, k),
    decreases k,
{
    if k > 0 {
        lemma_row_equals_column(m, i, (k - 1) as nat);
        assert(m[i][k - 1] == m[k - 1][i]);
    }
}

/// How many of `m[i][0]`, ..., `m[i][k - 1]` are set, leaving out `m[i][i]`.
pub open spec fn off_diagonal_hits(m: Seq<Seq<bool>>, i: int, k: nat) -> nat
    decreases k,
{
    if k == 0 {
        0
    } else {
        off_diagonal_hits(m, i, (k - 1) as nat) + if k - 1 != i && m[i][k - 1] {
            1nat
        } else {
            0nat
        }
    }
}

/// The close pairs counted row by row, as a scan of the table meets them: the
/// off-diagonal entries set in rows `0`, ..., `r - 1`, columns below `n`.
pub open spec fn row_by_row(m: Seq<Seq<bool>>, n: nat, r: nat) -> nat
    decreases r,
{
    if r == 0 {
        0
    } else {
        row_by_row(m, n, (r - 1) as nat) + off_diagonal_hits(m, (r - 1) as int, n)
    }
}

proof fn lemma_off_diagonal_below_is_row(m: Seq<Seq<bool>>, i: int, k: nat)
    requires
        k <= i,
    ensures
        off_diagonal_hits(m, i, k) == row_hits(m, i, k),
    decreases k,
{
    if k > 0 {
        lemma_off_diagonal_below_is_row(m, i, (k - 1) as nat);
    }
}

proof fn lemma_row_by_row_one_more_column(m: Seq<Seq<bool>>, n: nat, r: nat)
    requires
        r <= n,
    ensures
        row_by_row(m, n + 1, r) == row_by_row(m, n, r) + column_hits(m, n as int, r),
    decreases r,
{
    if r > 0 {
        lemma_row_by_row_one_more_column(m, n, (r - 1) as nat);
    }
}

/// The count of close pairs is the count a row-by-row scan makes: every
/// off-diagonal entry that is set, each row in turn.
pub proof fn lemma_close_pairs_row_by_row(m: Seq<Seq<bool>>, n: nat)
    ensures
        close_pairs(m, n) == row_by_row(m, n, n),
    decreases n,
{
    if n > 0 {
        let k = (n - 1) as nat;
        lemma_close_pairs_row_by_row(m, k);
        lemma_row_by_row_one_more_column(m, k, k);
        lemma_off_diagonal_below_is_row(m, k as int, k);
    }
}

/// Where closeness reads the same both ways, every close pair is counted twice:
/// the count of close ordered pairs is even.
pub proof fn lemma_symmetric_count_even(m: Seq<Seq<bool>>, n: nat)
    requires
        is_square(m),
        is_symmetric(m),
        n <= m.len(),
    ensures
        close_pairs(m, n) % 2 == 0,
    decreases n,
{
    if n > 0 {
        let k = (n - 1) as nat;
        lemma_symmetric_count_even(m, k);
        lemma_row_equals_column(m, k as int, k);
    }
}

/// The collision counter never goes down: where it does not overflow, it
/// grows by the number of close ordered pairs, an even number where closeness is
/// symmetric.
pub proof fn lemma_counter_grows_by_even(m: Seq<Seq<bool>>, collisions: u32)
    requires
        is_square(m),
        is_symmetric(m),
        counter_after(m, collisions) is Some,
    ensures
        counter_after(m, collisions)->0 >= collisions,
        (counter_after(m, collisions)->0 - collisions) % 2 == 0,
{
    lemma_symmetric_count_even(m, m.len());
}

} // verus!
