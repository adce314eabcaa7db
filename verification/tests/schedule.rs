use pathtracer::schedule::{fits, gather, row_owner, rows_of, rows_owned};

#[test]
fn owner_is_the_remainder() {
    assert_eq!(row_owner(0, 4), 0);
    assert_eq!(row_owner(3, 4), 3);
    assert_eq!(row_owner(4, 4), 0);
    assert_eq!(row_owner(1079, 8), 7);
    assert_eq!(row_owner(5, 1), 0);
    assert_eq!(row_owner(usize::MAX, 2), 1);
}

#[test]
fn rows_come_in_strides() {
    assert_eq!(rows_of(0, 3, 8), vec![0, 3, 6]);
    assert_eq!(rows_of(1, 3, 8), vec![1, 4, 7]);
    assert_eq!(rows_of(2, 3, 8), vec![2, 5]);
}

#[test]
fn one_worker_owns_every_row() {
    assert_eq!(rows_of(0, 1, 5), vec![0, 1, 2, 3, 4]);
}

#[test]
fn no_rows_no_work() {
    assert_eq!(rows_of(0, 4, 0), Vec::<usize>::new());
    assert_eq!(rows_of(3, 4, 0), Vec::<usize>::new());
}

#[test]
fn workers_beyond_the_height_are_idle() {
    assert_eq!(rows_of(0, 8, 3), vec![0]);
    assert_eq!(rows_of(2, 8, 3), vec![2]);
    assert_eq!(rows_of(3, 8, 3), Vec::<usize>::new());
    assert_eq!(rows_of(7, 8, 3), Vec::<usize>::new());
}

#[test]
fn strides_stop_at_the_largest_height() {
    let rows = rows_of(usize::MAX - 1, usize::MAX, usize::MAX);
    assert_eq!(rows, vec![usize::MAX - 1]);
    let rows = rows_of(0, usize::MAX, usize::MAX);
    assert_eq!(rows, vec![0]);
}

#[test]
fn every_row_has_exactly_one_owner() {
    for workers in 1..12usize {
        for height in 0..40usize {
            let mut seen = vec![0usize; height];
            for worker in 0..workers {
                let rows = rows_of(worker, workers, height);
                assert!(rows.windows(2).all(|pair| pair[0] + workers == pair[1]));
                for row in rows {
                    assert!(row < height);
                    assert_eq!(row_owner(row, workers), worker);
                    seen[row] += 1;
                }
            }
            assert!(seen.iter().all(|&count| count == 1));
        }
    }
}

#[test]
fn gather_interleaves() {
    let parts = vec![vec!["r0", "r3", "r6"], vec!["r1", "r4", "r7"], vec!["r2", "r5"]];
    assert_eq!(gather(parts, 8), vec!["r0", "r1", "r2", "r3", "r4", "r5", "r6", "r7"]);
}

#[test]
fn gather_of_nothing() {
    let parts: Vec<Vec<u8>> = vec![Vec::new(), Vec::new()];
    assert_eq!(gather(parts, 0), Vec::<u8>::new());
}

#[test]
fn gather_with_idle_workers() {
    let parts = vec![vec![10], vec![11], vec![], vec![]];
    assert_eq!(gather(parts, 2), vec![10, 11]);
}

#[test]
fn gather_moves_values_that_cannot_be_copied() {
    let parts = vec![
        vec![String::from("bottom"), String::from("top")],
        vec![String::from("middle")],
    ];
    assert_eq!(gather(parts, 3), vec!["bottom", "middle", "top"]);
}

#[test]
fn gather_undoes_the_split() {
    for workers in 1..10usize {
        for height in 0..50usize {
            let parts: Vec<Vec<usize>> = (0..workers)
                .map(|worker| {
                    rows_of(worker, workers, height).into_iter().map(|row| row * row + 1).collect()
                })
                .collect();
            let grid = gather(parts, height);
            let expected: Vec<usize> = (0..height).map(|row| row * row + 1).collect();
            assert_eq!(grid, expected);
        }
    }
}

#[test]
fn gather_gives_the_same_grid_every_time() {
    let make = || -> Vec<Vec<(usize, usize)>> {
        (0..5usize)
            .map(|worker| rows_of(worker, 5, 23).into_iter().map(|row| (worker, row)).collect())
            .collect()
    };
    let first = gather(make(), 23);
    let second = gather(make(), 23);
    assert_eq!(first, second);
    assert_eq!(first.len(), 23);
}

#[test]
fn shares_differ_by_at_most_one() {
    assert_eq!(rows_owned(0, 3, 8), 3);
    assert_eq!(rows_owned(1, 3, 8), 3);
    assert_eq!(rows_owned(2, 3, 8), 2);
    assert_eq!(rows_owned(0, 1, 0), 0);
    assert_eq!(rows_owned(0, 1, usize::MAX), usize::MAX);
    assert_eq!(rows_owned(0, 2, usize::MAX), usize::MAX / 2 + 1);
    assert_eq!(rows_owned(1, 2, usize::MAX), usize::MAX / 2);
    assert_eq!(rows_owned(5, 8, 3), 0);
}

#[test]
fn shares_count_the_rows() {
    for workers in 1..12usize {
        for height in 0..40usize {
            let mut total = 0;
            for worker in 0..workers {
                let count = rows_owned(worker, workers, height);
                assert_eq!(count, rows_of(worker, workers, height).len());
                total += count;
            }
            assert_eq!(total, height);
        }
    }
}

#[test]
fn parts_that_fit_and_parts_that_do_not() {
    assert!(fits(&vec![vec![0, 3, 6], vec![1, 4, 7], vec![2, 5]], 8));
    assert!(!fits(&vec![vec![0, 3, 6], vec![1, 4, 7], vec![2, 5]], 9));
    assert!(!fits(&vec![vec![0, 3, 6], vec![1, 4], vec![2, 5]], 8));
    assert!(!fits(&vec![vec![0, 3], vec![1, 4, 7], vec![2, 5, 8]], 8));
    assert!(fits(&vec![Vec::<u8>::new()], 0));
    assert!(!fits(&Vec::<Vec<u8>>::new(), 0));
    assert!(!fits(&Vec::<Vec<u8>>::new(), 4));
}
