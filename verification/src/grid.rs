//! Toroidal grid topology: movement arithmetic on linear cell indices.
//!
//! Cells of a `width` x `width` grid are numbered in row-major order, so a
//! cell index lies in `[0, width * width)`, its row is `index / width` and
//! its column is `index % width`.  Moving off an edge re-enters the grid on
//! the opposite edge.

use vstd::arithmetic::div_mod::lemma_fundamental_div_mod;
use vstd::arithmetic::div_mod::lemma_fundamental_div_mod_converse;
use vstd::prelude::*;

verus! {

/// A movement direction on the grid.
#[derive(Clone, Copy, PartialEq, Eq, Structural, Debug)]
pub enum Direction {
    Up,
    Right,
    Down,
    Left,
}

/// The direction opposite to `dir`.
pub open spec fn opposite(dir: Direction) -> Direction {
    match dir {
        Direction::Up => Direction::Down,
        Direction::Right => Direction::Left,
        Direction::Down => Direction::Up,
        Direction::Left => Direction::Right,
    }
}

/// The cell reached from `index` by one step in direction `dir`, with
/// toroidal wraparound at the grid edges.
pub open spec fn next_index_spec(width: int, index: int, dir: Direction) -> int
    recommends
        1 <= width,
        0 <= index < width * width,
{
    match dir {
        Direction::Right => if (index + 1) % width == 0 {
            index + 1 - width
        } else {
            index + 1
        },
        Direction::Left => if index % width == 0 {
            index + width - 1
        } else {
            index - 1
        },
        Direction::Up => if index < width {
            index + width * width - width
        } else {
            index - width
        },
        Direction::Down => if index + width >= width * width {
            index % width
        } else {
            index + width
        },
    }
}

/// Row/column decomposition of a valid cell index.
proof fn lemma_row_col(width: int, index: int)
    requires
        1 <= width,
        0 <= index < width * width,
    ensures
        index == width * (index / width) + index % width,
        0 <= index % width < width,
        0 <= index / width < width,
{
    lemma_fundamental_div_mod(index, width);
    assert(0 <= index % width < width) by (nonlinear_arith)
        requires
            1 <= width,
            0 <= index,
    ;
    assert(0 <= index / width < width) by (nonlinear_arith)
        requires
            1 <= width,
            0 <= index < width * width,
            index == width * (index / width) + index % width,
            0 <= index % width < width,
    ;
}

/// One step on the torus stays on the grid and moves to an orthogonally
/// adjacent cell: `Left`/`Right` keep the row and shift the column by one
/// modulo `width`; `Up`/`Down` keep the column and shift the row by one
/// modulo `width`.
pub proof fn lemma_next_index_one_step(width: int, index: int, dir: Direction)
    requires
        1 <= width,
        0 <= index < width * width,
    ensures
        0 <= next_index_spec(width, index, dir) < width * width,
        ({
            let n = next_index_spec(width, index, dir);
            match dir {
                Direction::Right => n / width == index / width && n % width == (index % width + 1)
                    % width,
                Direction::Left => n / width == index / width && n % width == (index % width + width
                    - 1) % width,
                Direction::Up => n % width == index % width && n / width == (index / width + width
                    - 1) % width,
                Direction::Down => n % width == index % width && n / width == (index / width + 1)
                    % width,
            }
        }),
{
    let w = width;
    let q = index / w;
    let c = index % w;
    lemma_row_col(w, index);
    let n = next_index_spec(w, index, dir);
    match dir {
        Direction::Right => {
            if c == w - 1 {
                assert(index + 1 == (q + 1) * w) by (nonlinear_arith)
                    requires
                        index == w * q + c,
                        c == w - 1,
                ;
                lemma_fundamental_div_mod_converse(index + 1, w, q + 1, 0);
                assert(n == w * q) by (nonlinear_arith)
                    requires
                        n == index + 1 - w,
                        index == w * q + c,
                        c == w - 1,
                ;
                lemma_fundamental_div_mod_converse(n, w, q, 0);
                lemma_fundamental_div_mod_converse(c + 1, w, 1, 0);
            } else {
                assert(index + 1 == q * w + (c + 1));
                lemma_fundamental_div_mod_converse(index + 1, w, q, c + 1);
                lemma_fundamental_div_mod_converse(c + 1, w, 0, c + 1);
            }
            assert(0 <= n < w * w) by (nonlinear_arith)
                requires
                    n == w * (n / w) + n % w,
                    0 <= n % w < w,
                    0 <= n / w < w,
            ;
        },
        Direction::Left => {
            if c == 0 {
                assert(index % w == 0);
                assert(n == w * q + (w - 1));
                lemma_fundamental_div_mod_converse(n, w, q, w - 1);
                lemma_fundamental_div_mod_converse(c + w - 1, w, 0, w - 1);
            } else {
                assert(n == w * q + (c - 1));
                lemma_fundamental_div_mod_converse(n, w, q, c - 1);
                lemma_fundamental_div_mod_converse(c + w - 1, w, 1, c - 1);
            }
            assert(0 <= n < w * w) by (nonlinear_arith)
                requires
                    n == w * (n / w) + n % w,
                    0 <= n % w < w,
                    0 <= n / w < w,
            ;
        },
        Direction::Up => {
            if index < w {
                assert(q == 0) by (nonlinear_arith)
                    requires
                        index == w * q + c,
                        0 <= c < w,
                        0 <= q,
                        index < w,
                ;
                assert(n == w * (w - 1) + c) by (nonlinear_arith)
                    requires
                        n == index + w * w - w,
                        index == w * q + c,
                        q == 0,
                ;
                lemma_fundamental_div_mod_converse(n, w, w - 1, c);
                lemma_fundamental_div_mod_converse(q + w - 1, w, 0, w - 1);
            } else {
                assert(1 <= q) by (nonlinear_arith)
                    requires
                        index == w * q + c,
                        0 <= c < w,
                        0 <= q,
                        w <= index,
                ;
                assert(n == w * (q - 1) + c) by (nonlinear_arith)
                    requires
                        n == index - w,
                        index == w * q + c,
                ;
                lemma_fundamental_div_mod_converse(n, w, q - 1, c);
                lemma_fundamental_div_mod_converse(q + w - 1, w, 1, q - 1);
            }
            assert(0 <= n < w * w) by (nonlinear_arith)
                requires
                    n == w * (n / w) + n % w,
                    0 <= n % w < w,
                    0 <= n / w < w,
            ;
        },
        Direction::Down => {
            if index + w >= w * w {
                assert(q == w - 1) by (nonlinear_arith)
                    requires
                        index == w * q + c,
                        0 <= c < w,
                        0 <= q < w,
                        index + w >= w * w,
                ;
                assert(n == c);
                lemma_fundamental_div_mod_converse(n, w, 0, c);
                lemma_fundamental_div_mod_converse(q + 1, w, 1, 0);
            } else {
                assert(q < w - 1) by (nonlinear_arith)
                    requires
                        index == w * q + c,
                        0 <= c < w,
                        0 <= q < w,
                        index + w < w * w,
                ;
                assert(n == w * (q + 1) + c) by (nonlinear_arith)
                    requires
                        n == index + w,
                        index == w * q + c,
                ;
                lemma_fundamental_div_mod_converse(n, w, q + 1, c);
                lemma_fundamental_div_mod_converse(q + 1, w, 0, q + 1);
            }
            assert(0 <= n < w * w) by (nonlinear_arith)
                requires
                    n == w * (n / w) + n % w,
                    0 <= n % w < w,
                    0 <= n / w < w,
            ;
        },
    }
}

/// Stepping in a direction and then in the opposite direction returns to the
/// starting cell.  In particular, after the snake has just moved in direction
/// `dir` (so its neck occupies the cell it came from), the candidate cell for
/// a turn into `opposite(dir)` is exactly the neck, and such a reversal is
/// rejected by the direction-change rule.
pub proof fn lemma_opposite_inverse(width: int, index: int, dir: Direction)
    requires
        1 <= width,
        0 <= index < width * width,
    ensures
        next_index_spec(width, next_index_spec(width, index, dir), opposite(dir)) == index,
{
    let w = width;
    let q = index / w;
    let c = index % w;
    lemma_row_col(w, index);
    let n = next_index_spec(w, index, dir);
    lemma_next_index_one_step(w, index, dir);
    lemma_row_col(w, n);
    match dir {
        Direction::Right => {
            if c == w - 1 {
                assert(index + 1 == (q + 1) * w) by (nonlinear_arith)
                    requires
                        index == w * q + c,
                        c == w - 1,
                ;
                lemma_fundamental_div_mod_converse(index + 1, w, q + 1, 0);
                assert(n == w * q) by (nonlinear_arith)
                    requires
                        n == index + 1 - w,
                        index == w * q + c,
                        c == w - 1,
                ;
                lemma_fundamental_div_mod_converse(n, w, q, 0);
                assert(n % w == 0);
                assert(next_index_spec(w, n, Direction::Left) == n + w - 1);
                assert(n + w - 1 == index);
            } else {
                assert(n == index + 1);
                lemma_fundamental_div_mod_converse(n, w, q, c + 1);
                assert(n % w == c + 1);
                assert(next_index_spec(w, n, Direction::Left) == n - 1);
            }
        },
        Direction::Left => {
            if c == 0 {
                assert(n == w * q + (w - 1));
                lemma_fundamental_div_mod_converse(n, w, q, w - 1);
                assert(n + 1 == (q + 1) * w) by (nonlinear_arith)
                    requires
                        n == w * q + (w - 1),
                ;
                lemma_fundamental_div_mod_converse(n + 1, w, q + 1, 0);
                assert((n + 1) % w == 0);
                assert(next_index_spec(w, n, Direction::Right) == n + 1 - w == index)
                    by (nonlinear_arith)
                    requires
                        (n + 1) % w == 0,
                        n == w * q + (w - 1),
                        index == w * q + c,
                        c == 0,
                ;
            } else {
                assert(n == index - 1);
                lemma_fundamental_div_mod_converse(n + 1, w, q, c);
                assert((n + 1) % w == c);
                assert(next_index_spec(w, n, Direction::Right) == n + 1);
            }
        },
        Direction::Up => {
            if index < w {
                assert(q == 0) by (nonlinear_arith)
                    requires
                        index == w * q + c,
                        0 <= c < w,
                        0 <= q,
                        index < w,
                ;
                assert(n == w * (w - 1) + c) by (nonlinear_arith)
                    requires
                        n == index + w * w - w,
                        index == w * q + c,
                        q == 0,
                ;
                assert(n + w >= w * w) by (nonlinear_arith)
                    requires
                        n == w * (w - 1) + c,
                        0 <= c,
                ;
                lemma_fundamental_div_mod_converse(n, w, w - 1, c);
                assert(next_index_spec(w, n, Direction::Down) == n % w);
                assert(index == c) by (nonlinear_arith)
                    requires
                        index == w * q + c,
                        q == 0,
                ;
                assert(n % w == index);
            } else {
                assert(1 <= q) by (nonlinear_arith)
                    requires
                        index == w * q + c,
                        0 <= c < w,
                        0 <= q,
                        w <= index,
                ;
                assert(n == index - w);
                assert(n + w < w * w);
                assert(next_index_spec(w, n, Direction::Down) == n + w);
            }
        },
        Direction::Down => {
            if index + w >= w * w {
                assert(q == w - 1) by (nonlinear_arith)
                    requires
                        index == w * q + c,
                        0 <= c < w,
                        0 <= q < w,
                        index + w >= w * w,
                ;
                assert(n == c);
                assert(n < w);
                assert(n + w * w - w == index) by (nonlinear_arith)
                    requires
                        n == c,
                        index == w * q + c,
                        q == w - 1,
                ;
                assert(next_index_spec(w, n, Direction::Up) == n + w * w - w);
            } else {
                assert(n == index + w);
                assert(w <= n);
                assert(next_index_spec(w, n, Direction::Up) == n - w);
            }
        },
    }
}

/// The cell reached from `index` by one step in direction `dir` on a
/// `width` x `width` toroidal grid with `size == width * width` cells.
pub fn next_index(width: usize, size: usize, index: usize, dir: Direction) -> (r: usize)
    requires
        1 <= width,
        size == width * width,
        index < size,
    ensures
        r == next_index_spec(width as int, index as int, dir),
        r < size,
{
    proof {
        lemma_next_index_one_step(width as int, index as int, dir);
        lemma_row_col(width as int, index as int);
        assert(width <= size) by (nonlinear_arith)
            requires
                1 <= width,
                size == width * width,
        ;
    }
    match dir {
        Direction::Right => {
            if (index + 1) % width == 0 {
                proof {
                    if index as int + 1 < width {
                        lemma_fundamental_div_mod_converse(
                            index as int + 1,
                            width as int,
                            0,
                            index as int + 1,
                        );
                    }
                }
                index + 1 - width
            } else {
                index + 1
            }
        },
        Direction::Left => {
            if index % width == 0 {
                proof {
                    assert(index + width - 1 < size) by (nonlinear_arith)
                        requires
                            index == width * ((index as int) / (width as int)),
                            0 <= ((index as int) / (width as int)) < width,
                            size == width * width,
                            1 <= width,
                    ;
                }
                index + (width - 1)
            } else {
                index - 1
            }
        },
        Direction::Up => {
            if index < width {
                index + (size - width)
            } else {
                index - width
            }
        },
        Direction::Down => {
            if index >= size - width {
                index % width
            } else {
                index + width
            }
        },
    }
}

} // verus!
