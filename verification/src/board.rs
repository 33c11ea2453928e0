//! The cells of the board that the snake leaves free, in row-major order.

use crate::geometry::{in_grid, Position};
use std::collections::VecDeque;
use vstd::arithmetic::div_mod::lemma_fundamental_div_mod_converse;
use vstd::prelude::*;
use vstd::relations::injective_on;
use vstd::set_lib::{lemma_int_range, lemma_len_subset, lemma_map_size, set_int_range};

verus! {

/// The largest width or height a board can have: cell coordinates are `i16`.
pub const MAX_SIDE: u16 = 0x7fff;

/// Whether `width` and `height` are the sides of a board.
pub open spec fn valid_sides(width: int, height: int) -> bool {
    1 <= width <= MAX_SIDE && 1 <= height <= MAX_SIDE
}

/// The cell with row-major index `i` on a board `width` wide: cells are
/// numbered along each row from the left, rows from the top.
pub open spec fn cell_of_index(width: int, i: int) -> Position {
    Position { x: (i % width) as i16, y: (i / width) as i16 }
}

/// The row-major index of the cell `p` on a board `width` wide.
pub open spec fn index_of_cell(width: int, p: Position) -> int {
    p.y * width + p.x
}

/// The free cells among the first `n` cells in row-major order: those
/// that no segment of `snake` occupies, in increasing order of index.
pub open spec fn free_prefix(snake: Seq<Position>, width: int, n: nat) -> Seq<Position>
    decreases n,
{
    if n == 0 {
        Seq::empty()
    } else {
        let rest = free_prefix(snake, width, (n - 1) as nat);
        let cell = cell_of_index(width, n - 1);
        if snake.contains(cell) {
            rest
        } else {
            rest.push(cell)
        }
    }
}

/// All free cells of the board, in row-major order.
pub open spec fn free_cells(snake: Seq<Position>, width: int, height: int) -> Seq<Position> {
    free_prefix(snake, width, (width * height) as nat)
}

/// Index and cell determine each other on a board.
pub proof fn lemma_index_of_cell(width: int, height: int, p: Position)
    requires
        valid_sides(width, height),
        in_grid(p, width, height),
    ensures
        0 <= index_of_cell(width, p) < width * height,
        cell_of_index(width, index_of_cell(width, p)) == p,
{
    let i = index_of_cell(width, p);
    lemma_fundamental_div_mod_converse(i, width, p.y as int, p.x as int);
    assert(0 <= p.y * width) by (nonlinear_arith)
        requires
            0 <= p.y,
            0 < width,
    ;
    assert(p.y * width + width <= height * width) by (nonlinear_arith)
        requires
            p.y < height,
            0 < width,
    ;
    assert(height * width == width * height) by (nonlinear_arith);
}

/// Every index below `width * height` names a cell of the board, and is
/// that cell's index.
pub proof fn lemma_cell_of_index(width: int, height: int, i: int)
    requires
        valid_sides(width, height),
        0 <= i < width * height,
    ensures
        in_grid(cell_of_index(width, i), width, height),
        index_of_cell(width, cell_of_index(width, i)) == i,
{
    let q = i / width;
    let r = i % width;
    assert(i == q * width + r && 0 <= r < width) by (nonlinear_arith)
        requires
            q == i / width,
            r == i % width,
            0 < width,
    ;
    assert(0 <= q < height) by (nonlinear_arith)
        requires
            i == q * width + r,
            0 <= r < width,
            0 <= i < width * height,
            0 < width,
    ;
}

/// A shorter prefix of the board yields a prefix of the free cells.
pub proof fn lemma_free_prefix_grows(snake: Seq<Position>, width: int, n: nat, m: nat)
    requires
        n <= m,
    ensures
        free_prefix(snake, width, n).len() <= free_prefix(snake, width, m).len(),
        forall|k: int|
            0 <= k < free_prefix(snake, width, n).len() ==> free_prefix(snake, width, m)[k]
                == free_prefix(snake, width, n)[k],
    decreases m,
{
    if n < m {
        lemma_free_prefix_grows(snake, width, n, (m - 1) as nat);
    }
}

/// What `free_prefix` holds: exactly the free cells with index below `n`,
/// each once, in increasing order of index.
pub proof fn lemma_free_prefix_members(snake: Seq<Position>, width: int, height: int, n: nat)
    requires
        valid_sides(width, height),
        n <= width * height,
    ensures
        free_prefix(snake, width, n).len() <= n,
        forall|k: int|
            0 <= k < free_prefix(snake, width, n).len() ==> {
                let p = #[trigger] free_prefix(snake, width, n)[k];
                &&& in_grid(p, width, height)
                &&& !snake.contains(p)
                &&& k <= index_of_cell(width, p) < n
            },
        forall|j: int, k: int|
            0 <= j < k < free_prefix(snake, width, n).len() ==> index_of_cell(
                width,
                #[trigger] free_prefix(snake, width, n)[j],
            ) < index_of_cell(width, #[trigger] free_prefix(snake, width, n)[k]),
        forall|p: Position|
            in_grid(p, width, height) && !snake.contains(p) && index_of_cell(width, p) < n
                ==> free_prefix(snake, width, n).contains(p),
    decreases n,
{
    if n > 0 {
        let rest = free_prefix(snake, width, (n - 1) as nat);
        let all = free_prefix(snake, width, n);
        let cell = cell_of_index(width, n - 1);
        lemma_free_prefix_members(snake, width, height, (n - 1) as nat);
        lemma_cell_of_index(width, height, n - 1);
        assert forall|p: Position|
            in_grid(p, width, height) && !snake.contains(p) && index_of_cell(width, p)
                < n implies all.contains(p) by {
            if index_of_cell(width, p) < n - 1 {
                assert(rest.contains(p));
                let k = choose|k: int| 0 <= k < rest.len() && rest[k] == p;
                assert(all[k] == p);
            } else {
                lemma_index_of_cell(width, height, p);
                assert(p == cell);
                assert(all[all.len() - 1] == p);
            }
        }
    }
}

/// The free cells are the cells of the board that the snake does not
/// occupy, and none is listed twice.
pub proof fn lemma_free_cells_exact(snake: Seq<Position>, width: int, height: int)
    requires
        valid_sides(width, height),
    ensures
        forall|p: Position| #[trigger]
            free_cells(snake, width, height).contains(p) <==> in_grid(p, width, height)
                && !snake.contains(p),
        free_cells(snake, width, height).no_duplicates(),
        free_cells(snake, width, height).len() <= width * height,
{
    let total = (width * height) as nat;
    assert(width * height >= 1) by (nonlinear_arith)
        requires
            width >= 1,
            height >= 1,
    ;
    let free = free_cells(snake, width, height);
    lemma_free_prefix_members(snake, width, height, total);
    assert forall|p: Position| in_grid(p, width, height) && !snake.contains(p) implies free.contains(
        p,
    ) by {
        lemma_index_of_cell(width, height, p);
    }
}

/// Cells of the board, no two the same, cannot outnumber the board's cells.
pub proof fn lemma_distinct_cells_bounded(cells: Seq<Position>, width: int, height: int)
    requires
        valid_sides(width, height),
        cells.no_duplicates(),
        forall|i: int| 0 <= i < cells.len() ==> in_grid(#[trigger] cells[i], width, height),
    ensures
        cells.len() <= width * height,
{
    let index = |p: Position| index_of_cell(width, p);
    let placed = cells.to_set();
    let indices = placed.map(index);
    let all = set_int_range(0, width * height);
    cells.unique_seq_to_set();
    assert(placed.finite()) by {
        broadcast use vstd::seq_lib::seq_to_set_is_finite;
    }
    assert(injective_on(index, placed)) by {
        assert forall|p: Position, q: Position|
            placed.contains(p) && placed.contains(q) && #[trigger] index(p) == #[trigger] index(
                q,
            ) implies p == q by {
            lemma_index_of_cell(width, height, p);
            lemma_index_of_cell(width, height, q);
        }
    }
    lemma_map_size(placed, indices, index);
    assert(indices.subset_of(all)) by {
        assert forall|i: int| indices.contains(i) implies all.contains(i) by {
            let p = choose|p: Position| placed.contains(p) && index(p) == i;
            lemma_index_of_cell(width, height, p);
        }
    }
    assert(0 <= width * height) by (nonlinear_arith)
        requires
            width >= 1,
            height >= 1,
    ;
    lemma_int_range(0, width * height);
    lemma_len_subset(indices, all);
}

/// Whether some segment of `snake` lies on `p`.
pub fn occupies(snake: &VecDeque<Position>, p: Position) -> (found: bool)
    ensures
        found == snake@.contains(p),
{
    let mut i: usize = 0;
    while i < snake.len()
        invariant
            i <= snake@.len(),
            forall|j: int| 0 <= j < i ==> snake@[j] != p,
        decreases snake@.len() - i,
    {
        if snake[i] == p {
            return true;
        }
        i += 1;
    }
    false
}

/// The number of free cells on the board.
pub fn count_free(snake: &VecDeque<Position>, width: u16, height: u16) -> (count: u32)
    requires
        valid_sides(width as int, height as int),
    ensures
        count == free_cells(snake@, width as int, height as int).len(),
{
    let mut count: u32 = 0;
    let mut y: u16 = 0;
    while y < height
        invariant
            valid_sides(width as int, height as int),
            y <= height,
            count == free_prefix(snake@, width as int, (y * width) as nat).len(),
            count <= y * width,
        decreases height - y,
    {
        let mut x: u16 = 0;
        while x < width
            invariant
                valid_sides(width as int, height as int),
                y < height,
                x <= width,
                count == free_prefix(snake@, width as int, (y * width + x) as nat).len(),
                count <= y * width + x,
            decreases width - x,
        {
            proof {
                lemma_row_bound(width as int, height as int, y as int, x as int);
                lemma_fundamental_div_mod_converse(
                    y * width + x,
                    width as int,
                    y as int,
                    x as int,
                );
            }
            if !occupies(snake, Position { x: x as i16, y: y as i16 }) {
                count += 1;
            }
            x += 1;
        }
        proof {
            assert(y * width + width == (y + 1) * width) by (nonlinear_arith);
        }
        y += 1;
    }
    proof {
        assert(height * width == width * height) by (nonlinear_arith);
    }
    count
}

/// The `k`-th free cell of the board in row-major order, counting from
/// zero; `None` when fewer than `k + 1` cells are free.
pub fn nth_free(snake: &VecDeque<Position>, width: u16, height: u16, k: u32) -> (cell: Option<
    Position,
>)
    requires
        valid_sides(width as int, height as int),
    ensures
        cell == if k < free_cells(snake@, width as int, height as int).len() {
            Some(free_cells(snake@, width as int, height as int)[k as int])
        } else {
            None
        },
{
    let mut count: u32 = 0;
    let mut y: u16 = 0;
    while y < height
        invariant
            valid_sides(width as int, height as int),
            y <= height,
            count == free_prefix(snake@, width as int, (y * width) as nat).len(),
            count <= k,
        decreases height - y,
    {
        let mut x: u16 = 0;
        while x < width
            invariant
                valid_sides(width as int, height as int),
                y < height,
                x <= width,
                count == free_prefix(snake@, width as int, (y * width + x) as nat).len(),
                count <= k,
            decreases width - x,
        {
            let here = Position { x: x as i16, y: y as i16 };
            proof {
                lemma_row_bound(width as int, height as int, y as int, x as int);
                lemma_fundamental_div_mod_converse(
                    y * width + x,
                    width as int,
                    y as int,
                    x as int,
                );
            }
            if !occupies(snake, here) {
                if count == k {
                    proof {
                        lemma_free_prefix_grows(
                            snake@,
                            width as int,
                            (y * width + x + 1) as nat,
                            (width * height) as nat,
                        );
                    }
                    return Some(here);
                }
                count += 1;
            }
            x += 1;
        }
        proof {
            assert(y * width + width == (y + 1) * width) by (nonlinear_arith);
        }
        y += 1;
    }
    proof {
        assert(height * width == width * height) by (nonlinear_arith);
    }
    None
}

/// Cell `(x, y)` of the board has an index below the number of cells.
proof fn lemma_row_bound(width: int, height: int, y: int, x: int)
    requires
        valid_sides(width, height),
        0 <= y < height,
        0 <= x < width,
    ensures
        0 <= y * width + x < width * height,
        width * height <= MAX_SIDE * MAX_SIDE,
{
    assert(0 <= y * width && y * width + width <= height * width && height * width == width
        * height) by (nonlinear_arith)
        requires
            0 <= y < height,
            0 < width,
    ;
    assert(width * height <= MAX_SIDE * MAX_SIDE) by (nonlinear_arith)
        requires
            1 <= width <= MAX_SIDE,
            1 <= height <= MAX_SIDE,
    ;
}

} // verus!
