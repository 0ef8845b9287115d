//! The surface shows the state: every cell of the play area is painted as the
//! snake, as the pellet, or blank, according to what lies on it.

use vstd::prelude::*;
use vstd::arithmetic::div_mod::{lemma_fundamental_div_mod, lemma_fundamental_div_mod_converse};
use crate::engine::{pellet_tint, record_of, GameModel};
use crate::grid::Cell;
use crate::input::{key_of, turned, Key, Poll};
use crate::outcome::Action;
use crate::surface::{cleared, covers, painted, painted_each, BLANK};

verus! {

/// Pixel `i` of a surface `xres` pixels wide lies in the play area of a board
/// of `width` by `height` cells.
pub open spec fn in_play_area(xres: usize, scale: usize, width: usize, height: usize, i: int) -> bool {
    &&& 0 <= i % (xres as int) < width * scale
    &&& 0 <= i / (xres as int) < height * scale
}

/// The cell in whose block pixel `i` lies.
pub open spec fn cell_of_pixel(xres: usize, scale: usize, i: int) -> Cell {
    Cell {
        x: ((i % (xres as int)) / (scale as int)) as usize,
        y: ((i / (xres as int)) / (scale as int)) as usize,
    }
}

impl GameModel {
    /// The colour that a cell of the board is shown in.
    pub open spec fn shade(self, cell: Cell) -> u32 {
        if self.snake.contains(cell) {
            self.colour
        } else if cell == self.pellet {
            pellet_tint(self.colour)
        } else {
            BLANK
        }
    }

    /// The surface shows the state: each pixel of the play area has the
    /// colour of its cell.
    pub open spec fn shown_on(self, pixels: Seq<u32>, xres: usize, scale: usize) -> bool {
        forall|i: int|
            0 <= i < pixels.len() && in_play_area(xres, scale, self.width, self.height, i)
                ==> #[trigger] pixels[i] == self.shade(cell_of_pixel(xres, scale, i))
    }
}

/// A coordinate lies in the stretch of `scale` pixels that belongs to cell
/// coordinate `c` exactly when dividing it by `scale` gives `c`.
proof fn lemma_stretch(scale: int, c: int, p: int)
    requires
        0 < scale,
        0 <= c,
    ensures
        (c * scale <= p < c * scale + scale) <==> (0 <= p && p / scale == c),
{
    if c * scale <= p < c * scale + scale {
        assert(0 <= c * scale) by (nonlinear_arith)
            requires
                0 < scale,
                0 <= c,
        ;
        lemma_fundamental_div_mod_converse(p, scale, c, p - c * scale);
    }
    if 0 <= p && p / scale == c {
        lemma_fundamental_div_mod(p, scale);
        assert(scale * c == c * scale) by (nonlinear_arith);
    }
}

/// A coordinate inside `n` stretches of `scale` pixels belongs to one of the
/// first `n` cell coordinates.
proof fn lemma_stretch_bound(scale: int, n: int, p: int)
    requires
        0 < scale,
        0 <= p < n * scale,
    ensures
        0 <= p / scale < n,
{
    lemma_fundamental_div_mod(p, scale);
    let q = p / scale;
    assert(0 <= q < n) by (nonlinear_arith)
        requires
            0 < scale,
            0 <= p < n * scale,
            p == scale * q + p % scale,
            0 <= p % scale < scale,
    ;
}

/// The block of a cell of the board is made of the pixels of the play area
/// that belong to that cell.
pub proof fn lemma_block_is_cell(
    xres: usize,
    scale: usize,
    width: usize,
    height: usize,
    cell: Cell,
    i: int,
)
    requires
        cell.within(width, height),
    ensures
        covers(xres, scale, cell, i) <==> (in_play_area(xres, scale, width, height, i)
            && cell_of_pixel(xres, scale, i) == cell),
{
    let px = i % (xres as int);
    let py = i / (xres as int);
    let s = scale as int;
    if s > 0 {
        lemma_stretch(s, cell.x as int, px);
        lemma_stretch(s, cell.y as int, py);
        assert(cell.x * s + s <= width * s) by (nonlinear_arith)
            requires
                cell.x + 1 <= width,
                0 < s,
        ;
        assert(cell.y * s + s <= height * s) by (nonlinear_arith)
            requires
                cell.y + 1 <= height,
                0 < s,
        ;
        if in_play_area(xres, scale, width, height, i) {
            lemma_stretch_bound(s, width as int, px);
            lemma_stretch_bound(s, height as int, py);
        }
    } else {
        assert(width * s == 0) by (nonlinear_arith)
            requires
                s == 0,
        ;
    }
}

/// Painting the blocks of some cells gives each pixel under one of them the
/// new colour and leaves the others as they were.
pub proof fn lemma_painted_each(
    pixels: Seq<u32>,
    xres: usize,
    scale: usize,
    cells: Seq<Cell>,
    colour: u32,
)
    ensures
        painted_each(pixels, xres, scale, cells, colour).len() == pixels.len(),
        forall|i: int|
            0 <= i < pixels.len() ==> #[trigger] painted_each(pixels, xres, scale, cells, colour)[i]
                == if exists|j: int| 0 <= j < cells.len() && covers(xres, scale, cells[j], i) {
                colour
            } else {
                pixels[i]
            },
    decreases cells.len(),
{
    if cells.len() > 0 {
        let front = cells.drop_last();
        lemma_painted_each(pixels, xres, scale, front, colour);
        assert forall|i: int| 0 <= i < pixels.len() implies #[trigger] painted_each(
            pixels,
            xres,
            scale,
            cells,
            colour,
        )[i] == if exists|j: int| 0 <= j < cells.len() && covers(xres, scale, cells[j], i) {
            colour
        } else {
            pixels[i]
        } by {
            if covers(xres, scale, cells.last(), i) {
                assert(covers(xres, scale, cells[cells.len() - 1], i));
            } else if exists|j: int| 0 <= j < front.len() && covers(xres, scale, front[j], i) {
                let j = choose|j: int| 0 <= j < front.len() && covers(xres, scale, front[j], i);
                assert(covers(xres, scale, cells[j], i));
            } else {
                if exists|j: int| 0 <= j < cells.len() && covers(xres, scale, cells[j], i) {
                    let j = choose|j: int| 0 <= j < cells.len() && covers(xres, scale, cells[j], i);
                    assert(j < front.len());
                    assert(covers(xres, scale, front[j], i));
                }
            }
        }
    }
}

/// After a repaint the surface shows the state, whatever it held before.
pub proof fn redraw_shows_the_state(state: GameModel, pixels: Seq<u32>, xres: usize, scale: usize)
    requires
        state.wf(),
    ensures
        state.shown_on(state.redrawn_pixels(pixels, xres, scale), xres, scale),
        state.redrawn_pixels(pixels, xres, scale).len() == pixels.len(),
{
    let blank = cleared(pixels, xres, scale, state.width, state.height);
    let body = painted_each(blank, xres, scale, state.snake, state.colour);
    let all = state.redrawn_pixels(pixels, xres, scale);
    lemma_painted_each(blank, xres, scale, state.snake, state.colour);
    assert forall|i: int|
        0 <= i < all.len() && in_play_area(xres, scale, state.width, state.height, i) implies #[trigger] all[i]
        == state.shade(cell_of_pixel(xres, scale, i)) by {
        let cell = cell_of_pixel(xres, scale, i);
        lemma_block_is_cell(xres, scale, state.width, state.height, state.pellet, i);
        if state.snake.contains(cell) {
            let j = choose|j: int| 0 <= j < state.snake.len() && state.snake[j] == cell;
            lemma_block_is_cell(xres, scale, state.width, state.height, state.snake[j], i);
            assert(covers(xres, scale, state.snake[j], i));
        } else {
            if exists|j: int| 0 <= j < state.snake.len() && covers(xres, scale, state.snake[j], i) {
                let j = choose|j: int|
                    0 <= j < state.snake.len() && covers(xres, scale, state.snake[j], i);
                lemma_block_is_cell(xres, scale, state.width, state.height, state.snake[j], i);
                assert(state.snake.contains(cell));
            }
        }
    }
}

/// A move that goes on keeps the surface showing the state.
pub proof fn step_shows_the_state(state: GameModel, pixels: Seq<u32>, xres: usize, scale: usize)
    requires
        state.wf(),
        state.shown_on(pixels, xres, scale),
        state.stepped().1 == Action::Sleep,
    ensures
        state.stepped().0.shown_on(state.stepped_pixels(pixels, xres, scale), xres, scale),
        state.stepped_pixels(pixels, xres, scale).len() == pixels.len(),
{
    state.lemma_step_keeps_wf();
    state.lemma_pushed();
    let next = state.stepped().0;
    let after = state.stepped_pixels(pixels, xres, scale);
    let head = state.next_head();
    let pushed = state.pushed();
    let tail = pushed.last();
    if state.captures() {
        state.lemma_respawn();
    }
    assert(tail.within(state.width, state.height)) by {
        assert(pushed[pushed.len() - 1].within(state.width, state.height));
    }
    assert forall|i: int|
        0 <= i < after.len() && in_play_area(xres, scale, state.width, state.height, i) implies #[trigger] after[i]
        == next.shade(cell_of_pixel(xres, scale, i)) by {
        let cell = cell_of_pixel(xres, scale, i);
        lemma_block_is_cell(xres, scale, state.width, state.height, head, i);
        lemma_block_is_cell(xres, scale, state.width, state.height, tail, i);
        if state.captures() {
            lemma_block_is_cell(xres, scale, state.width, state.height, state.respawned(), i);
        }
        assert(pixels[i] == state.shade(cell));
        assert(pushed[0] == head);
        if state.trims() {
            assert(!next.snake.contains(tail)) by {
                if next.snake.contains(tail) {
                    let j = choose|j: int| 0 <= j < next.snake.len() && next.snake[j] == tail;
                    assert(pushed[j] == tail);
                }
            }
            if cell != tail && pushed.contains(cell) {
                let j = choose|j: int| 0 <= j < pushed.len() && pushed[j] == cell;
                assert(next.snake[j] == cell);
            }
        }
    }
}

/// A move paints inside the play area only.
pub proof fn step_stays_in_the_play_area(
    state: GameModel,
    pixels: Seq<u32>,
    xres: usize,
    scale: usize,
)
    requires
        state.wf(),
    ensures
        state.stepped_pixels(pixels, xres, scale).len() == pixels.len(),
        forall|i: int|
            0 <= i < pixels.len() && !in_play_area(xres, scale, state.width, state.height, i)
                ==> #[trigger] state.stepped_pixels(pixels, xres, scale)[i] == pixels[i],
{
    state.lemma_step_keeps_wf();
    let after = state.stepped_pixels(pixels, xres, scale);
    let pushed = state.pushed();
    assert forall|i: int|
        0 <= i < pixels.len() && !in_play_area(
            xres,
            scale,
            state.width,
            state.height,
            i,
        ) implies #[trigger] after[i] == pixels[i] by {
        lemma_block_is_cell(xres, scale, state.width, state.height, state.next_head(), i);
        if !state.collides() && state.grown_length() < state.cells() {
            state.lemma_pushed();
            assert(pushed[pushed.len() - 1].within(state.width, state.height));
            lemma_block_is_cell(xres, scale, state.width, state.height, pushed.last(), i);
            if state.captures() {
                state.lemma_respawn();
                lemma_block_is_cell(xres, scale, state.width, state.height, state.respawned(), i);
            }
        }
    }
}

/// A repaint paints inside the play area only.
pub proof fn redraw_stays_in_the_play_area(
    state: GameModel,
    pixels: Seq<u32>,
    xres: usize,
    scale: usize,
)
    requires
        state.wf(),
    ensures
        state.redrawn_pixels(pixels, xres, scale).len() == pixels.len(),
        forall|i: int|
            0 <= i < pixels.len() && !in_play_area(xres, scale, state.width, state.height, i)
                ==> #[trigger] state.redrawn_pixels(pixels, xres, scale)[i] == pixels[i],
{
    let blank = cleared(pixels, xres, scale, state.width, state.height);
    let all = state.redrawn_pixels(pixels, xres, scale);
    lemma_painted_each(blank, xres, scale, state.snake, state.colour);
    assert forall|i: int|
        0 <= i < pixels.len() && !in_play_area(
            xres,
            scale,
            state.width,
            state.height,
            i,
        ) implies #[trigger] all[i] == pixels[i] by {
        lemma_block_is_cell(xres, scale, state.width, state.height, state.pellet, i);
        if exists|j: int| 0 <= j < state.snake.len() && covers(xres, scale, state.snake[j], i) {
            let j = choose|j: int|
                0 <= j < state.snake.len() && covers(xres, scale, state.snake[j], i);
            lemma_block_is_cell(xres, scale, state.width, state.height, state.snake[j], i);
        }
    }
}

/// No poll changes a pixel outside the play area.
pub proof fn advance_stays_in_the_play_area(
    state: GameModel,
    event: Poll,
    pixels: Seq<u32>,
    xres: usize,
    scale: usize,
)
    requires
        state.wf(),
    ensures
        state.advanced_pixels(event, pixels, xres, scale).len() == pixels.len(),
        forall|i: int|
            0 <= i < pixels.len() && !in_play_area(xres, scale, state.width, state.height, i)
                ==> #[trigger] state.advanced_pixels(event, pixels, xres, scale)[i] == pixels[i],
{
    let record = record_of(event);
    let key = key_of(record[0], record[1], record[2]);
    redraw_stays_in_the_play_area(state, pixels, xres, scale);
    step_stays_in_the_play_area(GameModel { paused: false, ..state }, pixels, xres, scale);
    step_stays_in_the_play_area(
        GameModel { dir: turned(state.dir, key), ..state.stirred(record) },
        pixels,
        xres,
        scale,
    );
}

/// Whatever is polled, as long as the match goes on the surface keeps showing
/// the state.
pub proof fn advance_shows_the_state(
    state: GameModel,
    event: Poll,
    pixels: Seq<u32>,
    xres: usize,
    scale: usize,
)
    requires
        state.wf(),
        state.shown_on(pixels, xres, scale),
    ensures
        !(state.advanced(event).1 is Finish) ==> state.advanced(event).0.shown_on(
            state.advanced_pixels(event, pixels, xres, scale),
            xres,
            scale,
        ),
{
    let record = record_of(event);
    let key = key_of(record[0], record[1], record[2]);
    if event != Poll::Disconnected {
        if state.paused {
            if key == Key::Redraw {
                redraw_shows_the_state(state, pixels, xres, scale);
            } else if key != Key::Idle && key != Key::Quit {
                let resumed = GameModel { paused: false, ..state };
                assert(resumed.shown_on(pixels, xres, scale)) by {
                    assert forall|i: int|
                        0 <= i < pixels.len() && in_play_area(
                            xres,
                            scale,
                            resumed.width,
                            resumed.height,
                            i,
                        ) implies #[trigger] pixels[i] == resumed.shade(
                        cell_of_pixel(xres, scale, i),
                    ) by {
                        assert(resumed.shade(cell_of_pixel(xres, scale, i)) == state.shade(
                            cell_of_pixel(xres, scale, i),
                        ));
                    }
                }
                if resumed.stepped().1 == Action::Sleep {
                    step_shows_the_state(resumed, pixels, xres, scale);
                }
            }
        } else {
            let stirred = state.stirred(record);
            if key == Key::Pause {
                let paused = GameModel { paused: true, ..stirred };
                assert forall|i: int|
                    0 <= i < pixels.len() && in_play_area(xres, scale, paused.width, paused.height, i) implies #[trigger] pixels[i]
                    == paused.shade(cell_of_pixel(xres, scale, i)) by {
                    assert(paused.shade(cell_of_pixel(xres, scale, i)) == state.shade(
                        cell_of_pixel(xres, scale, i),
                    ));
                }
            } else if key != Key::Quit {
                let turning = GameModel { dir: turned(state.dir, key), ..stirred };
                assert(turning.shown_on(pixels, xres, scale)) by {
                    assert forall|i: int|
                        0 <= i < pixels.len() && in_play_area(
                            xres,
                            scale,
                            turning.width,
                            turning.height,
                            i,
                        ) implies #[trigger] pixels[i] == turning.shade(
                        cell_of_pixel(xres, scale, i),
                    ) by {
                        assert(turning.shade(cell_of_pixel(xres, scale, i)) == state.shade(
                            cell_of_pixel(xres, scale, i),
                        ));
                    }
                }
                turning.lemma_step_keeps_wf();
                if turning.stepped().1 == Action::Sleep {
                    step_shows_the_state(turning, pixels, xres, scale);
                }
            }
        }
    }
}

} // verus!
