//! Row ownership: which worker renders which rows of the image.
//!
//! With `workers` workers, row `row` belongs to worker `row % workers`. Every
//! worker therefore owns a strided set of rows, no row has two owners, and no
//! two workers ever write the same row. When the workers are done, the rows
//! they rendered are gathered back into one grid in row order.

use vstd::prelude::*;

verus! {

/// The worker that owns `row`.
pub open spec fn owner_of(row: int, workers: int) -> int {
    row % workers
}

/// How many of the first `height` rows belong to `worker`: every worker has
/// `height / workers` of them, and the first `height % workers` workers have
/// one more.
pub open spec fn share(worker: int, workers: int, height: int) -> int {
    height / workers + if worker < height % workers {
        1int
    } else {
        0int
    }
}

/// The rows below `height` that belong to `worker`, in rising order.
pub open spec fn owned_rows(worker: int, workers: int, height: int) -> Seq<int> {
    Seq::new(share(worker, workers, height) as nat, |k: int| worker + k * workers)
}

/// The grid that the workers' parts make up: row `row` is entry
/// `row / workers` of the part of worker `row % workers`.
pub open spec fn gathered<T>(parts: Seq<Seq<T>>, height: int) -> Seq<T> {
    Seq::new(height as nat, |row: int| parts[row % (parts.len() as int)][row / (parts.len() as int)])
}

/// Whether `parts` holds, for every worker, as many entries as the worker
/// owns rows below `height`.
pub open spec fn parts_fit<T>(parts: Seq<Seq<T>>, height: int) -> bool {
    forall|w: int|
        0 <= w < parts.len() ==> (#[trigger] parts[w]).len() == share(w, parts.len() as int, height)
}

/// The parts as plain sequences.
pub open spec fn parts_view<T>(parts: Seq<Vec<T>>) -> Seq<Seq<T>> {
    Seq::new(parts.len(), |w: int| parts[w]@)
}

/// The `k`th stride of a worker lies below `height` exactly when `k` is
/// less than the worker's share.
pub proof fn lemma_share_bound(worker: int, workers: int, height: int, k: int)
    requires
        0 <= worker < workers,
        0 <= height,
        0 <= k,
    ensures
        k < share(worker, workers, height) <==> worker + k * workers < height,
{
    let q = height / workers;
    let m = height % workers;
    assert(height == q * workers + m && 0 <= m < workers) by (nonlinear_arith)
        requires
            0 < workers,
            q == height / workers,
            m == height % workers,
    ;
    assert(k < q ==> worker + k * workers < q * workers + m) by (nonlinear_arith)
        requires
            0 <= worker < workers,
            0 <= m < workers,
    ;
    assert(k > q ==> worker + k * workers >= q * workers + m) by (nonlinear_arith)
        requires
            0 <= worker < workers,
            0 <= m < workers,
    ;
    assert(k == q ==> worker + k * workers == q * workers + worker) by (nonlinear_arith);
}

/// A row below `height` belongs to exactly one worker, the one that
/// [`owner_of`] names, and it is entry `row / workers` of that worker's rows.
pub proof fn lemma_one_owner(row: int, workers: int, height: int)
    requires
        0 < workers,
        0 <= row < height,
    ensures
        0 <= owner_of(row, workers) < workers,
        0 <= row / workers < share(owner_of(row, workers), workers, height),
        owned_rows(owner_of(row, workers), workers, height)[row / workers] == row,
        forall|w: int|
            0 <= w < workers ==> (owned_rows(w, workers, height).contains(row) <==> w == owner_of(
                row,
                workers,
            )),
{
    let q = row / workers;
    let m = row % workers;
    assert(row == q * workers + m && 0 <= m < workers && 0 <= q) by (nonlinear_arith)
        requires
            0 < workers,
            0 <= row,
            q == row / workers,
            m == row % workers,
    ;
    lemma_share_bound(m, workers, height, q);
    assert(owned_rows(m, workers, height)[q] == row);
    assert forall|w: int| 0 <= w < workers implies (owned_rows(w, workers, height).contains(row)
        <==> w == m) by {
        if owned_rows(w, workers, height).contains(row) {
            let k = choose|k: int|
                0 <= k < owned_rows(w, workers, height).len() && owned_rows(w, workers, height)[k]
                    == row;
            assert(w + k * workers == q * workers + m);
            assert(w == m) by (nonlinear_arith)
                requires
                    w + k * workers == q * workers + m,
                    0 <= w < workers,
                    0 <= m < workers,
            ;
        }
    }
}

/// Every row that a worker owns lies below `height` and names that worker as
/// its owner, and the rows rise by `workers` from one to the next.
pub proof fn lemma_owned_rows(worker: int, workers: int, height: int)
    requires
        0 <= worker < workers,
        0 <= height,
    ensures
        forall|k: int|
            0 <= k < owned_rows(worker, workers, height).len() ==> {
                let row = #[trigger] owned_rows(worker, workers, height)[k];
                &&& 0 <= row < height
                &&& owner_of(row, workers) == worker
                &&& row / workers == k
            },
{
    assert forall|k: int| 0 <= k < owned_rows(worker, workers, height).len() implies {
        let row = #[trigger] owned_rows(worker, workers, height)[k];
        &&& 0 <= row < height
        &&& owner_of(row, workers) == worker
        &&& row / workers == k
    } by {
        lemma_share_bound(worker, workers, height, k);
        let row = worker + k * workers;
        assert(0 <= row && row % workers == worker && row / workers == k) by (nonlinear_arith)
            requires
                row == worker + k * workers,
                0 <= worker < workers,
                0 <= k,
        ;
    }
}

/// Adding one row at the bottom of the image gives one more row to the owner
/// of that row, as its entry `height / workers`, and nothing to anyone else.
pub proof fn lemma_share_step(worker: int, workers: int, height: int)
    requires
        0 <= worker < workers,
        0 <= height,
    ensures
        owner_of(height, workers) == worker ==> share(worker, workers, height + 1) == share(
            worker,
            workers,
            height,
        ) + 1 && share(worker, workers, height) == height / workers,
        owner_of(height, workers) != worker ==> share(worker, workers, height + 1) == share(
            worker,
            workers,
            height,
        ),
{
    let s = share(worker, workers, height);
    let q = height / workers;
    let m = height % workers;
    assert(height == q * workers + m && 0 <= m < workers && 0 <= q) by (nonlinear_arith)
        requires
            0 < workers,
            0 <= height,
            q == height / workers,
            m == height % workers,
    ;
    assert(0 <= s);
    lemma_share_bound(worker, workers, height, s);
    lemma_share_bound(worker, workers, height + 1, s);
    lemma_share_bound(worker, workers, height + 1, s + 1);
    if s > 0 {
        lemma_share_bound(worker, workers, height, s - 1);
        lemma_share_bound(worker, workers, height + 1, s - 1);
    }
    assert(worker + (s + 1) * workers == worker + s * workers + workers) by (nonlinear_arith);
    if m == worker {
        assert(s == q);
        assert(worker + s * workers == height);
    } else {
        assert(worker + s * workers != height) by (nonlinear_arith)
            requires
                height == q * workers + m,
                0 <= m < workers,
                0 <= worker < workers,
                m != worker,
        ;
    }
}

/// What the workers hand in when each renders the rows it owns: part `w`
/// holds `render(row)` for every row of worker `w`, in rising row order.
pub open spec fn rendered_parts<T>(render: spec_fn(int) -> T, workers: int, height: int) -> Seq<
    Seq<T>,
> {
    Seq::new(
        workers as nat,
        |w: int| owned_rows(w, workers, height).map_values(|row: int| render(row)),
    )
}

/// The number of workers does not change the picture: when every worker
/// renders the rows it owns, the parts fit, and gathering them gives the grid
/// that rendering row after row gives.
pub proof fn lemma_gather_restores_rows<T>(render: spec_fn(int) -> T, workers: int, height: int)
    requires
        0 < workers,
        0 <= height,
    ensures
        parts_fit(rendered_parts(render, workers, height), height),
        gathered(rendered_parts(render, workers, height), height) == Seq::new(
            height as nat,
            |row: int| render(row),
        ),
{
    let parts = rendered_parts(render, workers, height);
    assert forall|row: int| 0 <= row < height implies #[trigger] gathered(parts, height)[row]
        == render(row) by {
        lemma_one_owner(row, workers, height);
    }
    assert(gathered(parts, height) =~= Seq::new(height as nat, |row: int| render(row)));
}

/// The worker that owns `row`.
pub fn row_owner(row: usize, workers: usize) -> (worker: usize)
    requires
        workers > 0,
    ensures
        worker == owner_of(row as int, workers as int),
        worker < workers,
{
    row % workers
}

/// The rows below `height` that belong to `worker`, in rising order: the
/// rows whose remainder by `workers` is `worker`, and no others.
pub fn rows_of(worker: usize, workers: usize, height: usize) -> (rows: Vec<usize>)
    requires
        worker < workers,
    ensures
        rows@.len() == owned_rows(worker as int, workers as int, height as int).len(),
        forall|k: int|
            0 <= k < rows@.len() ==> #[trigger] rows@[k] == owned_rows(
                worker as int,
                workers as int,
                height as int,
            )[k],
        forall|row: usize| rows@.contains(row) <==> row < height && row % workers == worker,
{
    let rows = strides(worker, workers, height);
    proof {
        let owned = owned_rows(worker as int, workers as int, height as int);
        lemma_owned_rows(worker as int, workers as int, height as int);
        assert forall|row: usize| row < height && row % workers == worker implies rows@.contains(
            row,
        ) by {
            lemma_one_owner(row as int, workers as int, height as int);
            assert(rows@[row as int / workers as int] == owned[row as int / workers as int]);
        }
        assert forall|row: usize| rows@.contains(row) implies row < height && row % workers
            == worker by {
            let k = choose|k: int| 0 <= k < rows@.len() && rows@[k] == row;
            assert(owned[k] == row);
        }
    }
    rows
}

/// Walks from `worker` up in steps of `workers` while the row lies below
/// `height`.
fn strides(worker: usize, workers: usize, height: usize) -> (rows: Vec<usize>)
    requires
        worker < workers,
    ensures
        rows@.len() == share(worker as int, workers as int, height as int),
        forall|k: int| 0 <= k < rows@.len() ==> #[trigger] rows@[k] == worker + k * workers,
{
    let mut rows: Vec<usize> = Vec::new();
    if worker >= height {
        proof {
            lemma_share_bound(worker as int, workers as int, height as int, 0);
        }
        return rows;
    }
    let mut row: usize = worker;
    assert(0 * workers == 0) by (nonlinear_arith);
    loop
        invariant_except_break
            row == worker + rows@.len() * workers,
        invariant
            worker < workers,
            row < height,
            forall|k: int| 0 <= k < rows@.len() ==> #[trigger] rows@[k] == worker + k * workers,
        ensures
            rows@.len() == share(worker as int, workers as int, height as int),
        decreases height - row,
    {
        let ghost k = rows@.len() as int;
        rows.push(row);
        proof {
            lemma_share_bound(worker as int, workers as int, height as int, k);
            lemma_share_bound(worker as int, workers as int, height as int, k + 1);
            assert(worker + (k + 1) * workers == worker + k * workers + workers)
                by (nonlinear_arith);
        }
        if height - row <= workers {
            break ;
        }
        row += workers;
    }
    rows
}

/// How many rows below `height` belong to `worker`.
pub fn rows_owned(worker: usize, workers: usize, height: usize) -> (count: usize)
    requires
        worker < workers,
    ensures
        count == share(worker as int, workers as int, height as int),
{
    let full: usize = height / workers;
    if worker < height % workers {
        assert(full < usize::MAX) by (nonlinear_arith)
            requires
                full == height as int / workers as int,
                height <= usize::MAX,
                workers >= 2,
        ;
        full + 1
    } else {
        full
    }
}

/// Tells whether there is at least one part and every part holds as many
/// entries as its worker owns rows below `height`.
pub fn fits<T>(parts: &Vec<Vec<T>>, height: usize) -> (ok: bool)
    ensures
        ok == (parts.len() > 0 && parts_fit(parts_view(parts@), height as int)),
{
    let workers: usize = parts.len();
    let mut w: usize = 0;
    while w < workers
        invariant
            w <= workers,
            workers == parts.len(),
            forall|v: int|
                0 <= v < w ==> (#[trigger] parts_view(parts@)[v]).len() == share(
                    v,
                    workers as int,
                    height as int,
                ),
        decreases workers - w,
    {
        if parts[w].len() != rows_owned(w, workers, height) {
            assert(parts_view(parts@)[w as int].len() != share(
                w as int,
                workers as int,
                height as int,
            ));
            return false;
        }
        w += 1;
    }
    workers > 0
}

/// Puts the rows that the workers rendered back into one grid.
///
/// `parts[w]` holds what worker `w` rendered for the rows it owns, in rising
/// row order. The grid that comes back has row `row` at index `row`.
pub fn gather<T>(parts: Vec<Vec<T>>, height: usize) -> (grid: Vec<T>)
    requires
        parts.len() > 0,
        parts_fit(parts_view(parts@), height as int),
    ensures
        grid@ == gathered(parts_view(parts@), height as int),
{
    let ghost given = parts_view(parts@);
    let workers = parts.len();
    let mut parts = parts;
    let mut stack: Vec<T> = Vec::new();
    let mut left: usize = height;
    while left > 0
        invariant
            left <= height,
            workers > 0,
            parts.len() == workers,
            given.len() == workers,
            parts_fit(given, height as int),
            forall|w: int|
                0 <= w < workers ==> (#[trigger] parts[w])@ == given[w].take(
                    share(w, workers as int, left as int),
                ),
            stack@.len() == height - left,
            forall|k: int|
                0 <= k < stack@.len() ==> #[trigger] stack@[k] == gathered(given, height as int)[height
                    - 1 - k],
        decreases left,
    {
        let row: usize = left - 1;
        let w: usize = row % workers;
        proof {
            lemma_one_owner(row as int, workers as int, height as int);
            assert forall|v: int| 0 <= v < workers implies (if v == w {
                share(v, workers as int, left as int) == share(v, workers as int, row as int) + 1
                    && share(v, workers as int, row as int) == row / workers
            } else {
                share(v, workers as int, left as int) == share(v, workers as int, row as int)
            }) by {
                lemma_share_step(v, workers as int, row as int);
            }
            assert(given[w as int].len() == share(w as int, workers as int, height as int));
        }
        let ghost before = parts@;
        let item = parts[w].pop();
        assert(item == Some(given[w as int][(row / workers) as int]));
        assert(parts@[w as int]@ == before[w as int]@.drop_last());
        assert forall|v: int| 0 <= v < workers implies (#[trigger] parts[v])@ == given[v].take(
            share(v, workers as int, row as int),
        ) by {
            if v == w {
                assert(before[v]@.drop_last() =~= given[v].take(
                    share(v, workers as int, row as int),
                ));
            } else {
                assert(parts[v] == before[v]);
            }
        }
        match item {
            Some(x) => {
                stack.push(x);
            },
            None => {},
        }
        left = row;
    }
    let mut grid: Vec<T> = Vec::new();
    while stack.len() > 0
        invariant
            stack@.len() + grid@.len() == height,
            forall|k: int|
                0 <= k < stack@.len() ==> #[trigger] stack@[k] == gathered(given, height as int)[height
                    - 1 - k],
            forall|r: int| 0 <= r < grid@.len() ==> #[trigger] grid@[r] == gathered(
                given,
                height as int,
            )[r],
        decreases stack@.len(),
    {
        let item = stack.pop();
        match item {
            Some(x) => {
                grid.push(x);
            },
            None => {},
        }
    }
    assert(grid@ =~= gathered(given, height as int));
    grid
}

} // verus!
