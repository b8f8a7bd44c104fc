use particles::collide::thread_collide;

fn square(n: usize, close: &[(usize, usize)]) -> Vec<Vec<bool>> {
    let mut m = vec![vec![false; n]; n];
    for &(i, j) in close {
        m[i][j] = true;
    }
    m
}

#[test]
fn empty_group_adds_nothing() {
    assert_eq!(thread_collide(&Vec::new(), 9), Some(9));
}

#[test]
fn no_close_pair_adds_nothing() {
    assert_eq!(thread_collide(&square(4, &[]), 3), Some(3));
}

#[test]
fn diagonal_is_never_counted() {
    assert_eq!(thread_collide(&square(3, &[(0, 0), (1, 1), (2, 2)]), 0), Some(0));
}

#[test]
fn close_pair_counts_twice() {
    assert_eq!(thread_collide(&square(3, &[(0, 1), (1, 0)]), 5), Some(7));
}

#[test]
fn every_ordered_pair_of_a_crowd() {
    let n = 4;
    let mut pairs = Vec::new();
    for i in 0..n {
        for j in 0..n {
            pairs.push((i, j));
        }
    }
    assert_eq!(thread_collide(&square(n, &pairs), 0), Some(12));
}

#[test]
fn one_sided_entries_count_once() {
    assert_eq!(thread_collide(&square(3, &[(2, 0), (1, 2)]), 0), Some(2));
}

#[test]
fn symmetric_closeness_gives_even_growth() {
    let m = square(5, &[(0, 3), (3, 0), (1, 4), (4, 1), (2, 4), (4, 2)]);
    let r = thread_collide(&m, 11).unwrap();
    assert_eq!(r, 17);
    assert_eq!((r - 11) % 2, 0);
}

#[test]
fn counter_reaching_max_exactly() {
    assert_eq!(thread_collide(&square(2, &[(0, 1), (1, 0)]), u32::MAX - 2), Some(u32::MAX));
}

#[test]
fn counter_overflow_is_refused() {
    assert_eq!(thread_collide(&square(2, &[(0, 1), (1, 0)]), u32::MAX - 1), None);
    assert_eq!(thread_collide(&square(2, &[(1, 0)]), u32::MAX), None);
}

fn permute(m: &Vec<Vec<bool>>, p: &[usize]) -> Vec<Vec<bool>> {
    p.iter().map(|&i| p.iter().map(|&j| m[i][j]).collect()).collect()
}

fn block(m: &Vec<Vec<bool>>, lo: usize, hi: usize) -> Vec<Vec<bool>> {
    (lo..hi).map(|i| (lo..hi).map(|j| m[i][j]).collect()).collect()
}

#[test]
fn count_ignores_particle_order() {
    let m = square(5, &[(0, 3), (3, 0), (1, 4), (2, 1), (4, 2)]);
    let p = [4, 2, 0, 1, 3];
    assert_eq!(thread_collide(&m, 0), Some(5));
    assert_eq!(thread_collide(&permute(&m, &p), 0), Some(5));
}

#[test]
fn joined_group_counts_the_straddling_pairs() {
    // particles 0..3 and 3..6; close pairs (0,1) inside the first part,
    // (4,5) inside the second, (2,3) and (1,5) across the cut
    let m = square(
        6,
        &[(0, 1), (1, 0), (4, 5), (5, 4), (2, 3), (3, 2), (1, 5), (5, 1)],
    );
    let whole = thread_collide(&m, 0).unwrap();
    let first = thread_collide(&block(&m, 0, 3), 0).unwrap();
    let second = thread_collide(&block(&m, 3, 6), 0).unwrap();
    assert_eq!(whole, 8);
    assert_eq!(first, 2);
    assert_eq!(second, 2);
    assert_eq!(whole, first + second + 2 * 2);
}
