//! Finding a free cell for the pellet by probing the board in row-major
//! order.

use vstd::prelude::*;
use vstd::arithmetic::div_mod::lemma_fundamental_div_mod;
use vstd::set_lib::{lemma_int_range, lemma_len_subset, set_int_range};
use std::collections::VecDeque;
use crate::grid::Cell;

verus! {

/// The cell number after `index` on a board of `cells` cells; the last cell
/// is followed by the first.
pub open spec fn following(index: int, cells: int) -> int {
    if index + 1 >= cells {
        0
    } else {
        index + 1
    }
}

/// The number of the first cell at or after number `start`, in cyclic order,
/// that `snake` leaves free, looking at no more than `budget` cells.
pub open spec fn probe(snake: Seq<Cell>, width: usize, cells: int, start: int, budget: nat) -> int
    decreases budget,
{
    if budget == 0 || !snake.contains(Cell::at(start, width)) {
        start
    } else {
        probe(snake, width, cells, following(start, cells), (budget - 1) as nat)
    }
}

/// The free cell that a search from cell number `start` finds on a board of
/// `width` by `height` cells.
pub open spec fn free_cell_from(snake: Seq<Cell>, width: usize, height: usize, start: int) -> Cell {
    Cell::at(probe(snake, width, width * height, start, (width * height) as nat), width)
}

/// How many steps lead from cell number `from` to cell number `to` in cyclic
/// order.
pub open spec fn cyclic_distance(from: int, to: int, cells: int) -> int {
    if from <= to {
        to - from
    } else {
        to + cells - from
    }
}

/// Numbering the cells row by row and reading a cell back from its number
/// undo each other.
pub proof fn lemma_cell_numbering(index: int, width: usize, height: usize)
    requires
        0 <= index < width * height,
    ensures
        Cell::at(index, width).within(width, height),
        Cell::at(index, width).index(width) == index,
{
    let w = width as int;
    lemma_fundamental_div_mod(index, w);
    assert(w * (index / w) == (index / w) * w) by (nonlinear_arith);
    assert(0 <= index % w < w);
    assert(0 <= index / w < height) by (nonlinear_arith)
        requires
            0 <= index < w * height,
            0 < w,
    ;
}

/// A snake shorter than the board leaves a cell free.
pub proof fn lemma_free_cell_exists(snake: Seq<Cell>, width: usize, height: usize) -> (free: int)
    requires
        snake.len() < width * height,
    ensures
        0 <= free < width * height,
        !snake.contains(Cell::at(free, width)),
{
    let cells = width * height;
    let all = set_int_range(0, cells);
    if forall|f: int| 0 <= f < cells ==> snake.contains(Cell::at(f, width)) {
        let numbers = snake.map_values(|c: Cell| c.index(width));
        assert forall|f: int| all.contains(f) implies numbers.to_set().contains(f) by {
            let j = choose|j: int| 0 <= j < snake.len() && snake[j] == Cell::at(f, width);
            lemma_cell_numbering(f, width, height);
            assert(numbers[j] == f);
        }
        lemma_int_range(0, cells);
        numbers.lemma_cardinality_of_set();
        vstd::seq_lib::seq_to_set_is_finite(numbers);
        lemma_len_subset(all, numbers.to_set());
        assert(false);
        0
    } else {
        choose|f: int| 0 <= f < cells && !snake.contains(Cell::at(f, width))
    }
}

/// What a search that has a free cell within its budget finds: a free cell
/// of the board, reached from the start over occupied cells only.
pub proof fn lemma_probe_finds_first_free(
    snake: Seq<Cell>,
    width: usize,
    height: usize,
    start: int,
    free: int,
    budget: nat,
) -> (steps: int)
    requires
        0 <= start < width * height,
        0 <= free < width * height,
        !snake.contains(Cell::at(free, width)),
        cyclic_distance(start, free, width * height) < budget,
    ensures
        0 <= steps <= cyclic_distance(start, free, width * height),
        0 <= probe(snake, width, width * height, start, budget) < width * height,
        !snake.contains(Cell::at(probe(snake, width, width * height, start, budget), width)),
        cyclic_distance(start, probe(snake, width, width * height, start, budget), width * height)
            == steps,
        forall|i: int|
            0 <= i < width * height && cyclic_distance(start, i, width * height) < steps
                ==> snake.contains(#[trigger] Cell::at(i, width)),
    decreases budget,
{
    let cells = width * height;
    if !snake.contains(Cell::at(start, width)) {
        0
    } else {
        let next = following(start, cells);
        let rest = lemma_probe_finds_first_free(
            snake,
            width,
            height,
            next,
            free,
            (budget - 1) as nat,
        );
        rest + 1
    }
}

/// On a board that the snake does not fill, the search from any cell finds
/// the first free cell in cyclic row-major order: the cell found is free and
/// on the board, and every cell passed on the way to it is part of the snake.
pub proof fn search_finds_the_first_free_cell(
    snake: Seq<Cell>,
    width: usize,
    height: usize,
    start: int,
)
    requires
        snake.len() < width * height,
        0 <= start < width * height,
    ensures
        free_cell_from(snake, width, height, start).within(width, height),
        !snake.contains(free_cell_from(snake, width, height, start)),
        0 <= free_cell_from(snake, width, height, start).index(width) < width * height,
        forall|i: int|
            0 <= i < width * height && cyclic_distance(start, i, width * height) < cyclic_distance(
                start,
                free_cell_from(snake, width, height, start).index(width),
                width * height,
            ) ==> snake.contains(#[trigger] Cell::at(i, width)),
{
    let cells = width * height;
    let free = lemma_free_cell_exists(snake, width, height);
    let steps = lemma_probe_finds_first_free(snake, width, height, start, free, cells as nat);
    lemma_cell_numbering(probe(snake, width, cells, start, cells as nat), width, height);
}

/// Whether `cell` is part of `snake`.
pub fn occupies(snake: &VecDeque<Cell>, cell: Cell) -> (b: bool)
    ensures
        b == snake@.contains(cell),
{
    let n: usize = snake.len();
    let mut j: usize = 0;
    while j < n
        invariant
            j <= n,
            n == snake@.len(),
            forall|k: int| 0 <= k < j ==> snake@[k] != cell,
        decreases n - j,
    {
        if snake[j] == cell {
            return true;
        }
        j += 1;
    }
    false
}

/// Searches the board row by row, from cell number `start` on and round
/// through the first cell, for a cell that `snake` leaves free.
pub fn find_free_cell(snake: &VecDeque<Cell>, width: usize, height: usize, start: usize) -> (cell:
    Cell)
    requires
        width * height <= usize::MAX,
        snake@.len() < width * height,
        start < width * height,
    ensures
        cell == free_cell_from(snake@, width, height, start as int),
        cell.within(width, height),
        !snake@.contains(cell),
{
    let cells: usize = width * height;
    let ghost free = lemma_free_cell_exists(snake@, width, height);
    let mut index: usize = start;
    let ghost mut budget: nat = cells as nat;
    loop
        invariant
            cells == width * height,
            index < cells,
            0 <= free < cells,
            !snake@.contains(Cell::at(free, width)),
            cyclic_distance(index as int, free, cells as int) < budget,
            probe(snake@, width, cells as int, index as int, budget) == probe(
                snake@,
                width,
                cells as int,
                start as int,
                cells as nat,
            ),
        decreases cyclic_distance(index as int, free, cells as int),
    {
        let cell = Cell { x: index % width, y: index / width };
        proof {
            lemma_cell_numbering(index as int, width, height);
        }
        if !occupies(snake, cell) {
            return cell;
        }
        index = if index + 1 >= cells { 0 } else { index + 1 };
        proof {
            budget = (budget - 1) as nat;
        }
    }
}

} // verus!
