//! Painting board cells as solid square blocks on a linear pixel surface.

use vstd::prelude::*;
use vstd::arithmetic::div_mod::{lemma_fundamental_div_mod, lemma_fundamental_div_mod_converse};
use std::collections::VecDeque;
use crate::grid::Cell;

verus! {

/// The background colour.
pub const BLANK: u32 = 0;

/// Pixel `i` of a surface `xres` pixels wide lies in the block of `cell`,
/// where a cell is a square of `scale` by `scale` pixels.
pub open spec fn covers(xres: usize, scale: usize, cell: Cell, i: int) -> bool {
    let px = i % (xres as int);
    let py = i / (xres as int);
    &&& cell.x * scale <= px < cell.x * scale + scale
    &&& cell.y * scale <= py < cell.y * scale + scale
}

/// The surface `pixels` after the block of `cell` was overwritten with
/// `colour`.
pub open spec fn painted(pixels: Seq<u32>, xres: usize, scale: usize, cell: Cell, colour: u32) -> Seq<
    u32,
> {
    Seq::new(
        pixels.len(),
        |i: int|
            if covers(xres, scale, cell, i) {
                colour
            } else {
                pixels[i]
            },
    )
}

/// The surface `pixels` after the blocks of `cells` were overwritten with
/// `colour`, first cell first.
pub open spec fn painted_each(
    pixels: Seq<u32>,
    xres: usize,
    scale: usize,
    cells: Seq<Cell>,
    colour: u32,
) -> Seq<u32>
    decreases cells.len(),
{
    if cells.len() == 0 {
        pixels
    } else {
        painted(
            painted_each(pixels, xres, scale, cells.drop_last(), colour),
            xres,
            scale,
            cells.last(),
            colour,
        )
    }
}

/// The surface `pixels` after the play area of `width` by `height` cells was
/// overwritten with the background colour.
pub open spec fn cleared(pixels: Seq<u32>, xres: usize, scale: usize, width: usize, height: usize) -> Seq<
    u32,
> {
    Seq::new(
        pixels.len(),
        |i: int|
            if 0 <= i % (xres as int) < width * scale && 0 <= i / (xres as int) < height * scale {
                BLANK
            } else {
                pixels[i]
            },
    )
}

/// The pixels of the first `rows` pixel rows of a block with corner
/// `(x0, y0)`, and the first `cols` pixels of its next row.
spec fn block_begun(xres: usize, scale: usize, x0: int, y0: int, rows: int, cols: int, i: int) -> bool {
    let px = i % (xres as int);
    let py = i / (xres as int);
    ||| (x0 <= px < x0 + scale && y0 <= py < y0 + rows)
    ||| (x0 <= px < x0 + cols && py == y0 + rows)
}

/// The pixels of the first `rows` cell rows of the play area, and of the first
/// `cols` cells of its next row.
spec fn area_begun(xres: usize, scale: usize, width: usize, rows: int, cols: int, i: int) -> bool {
    let px = i % (xres as int);
    let py = i / (xres as int);
    ||| (0 <= px < width * scale && 0 <= py < rows * scale)
    ||| (0 <= px < cols * scale && rows * scale <= py < rows * scale + scale)
}

/// A pixel's number fixes its column and row, and the other way round.
proof fn lemma_pixel_coordinates(xres: int, px: int, py: int, i: int)
    requires
        0 <= px < xres,
    ensures
        i == py * xres + px <==> (i % xres == px && i / xres == py),
{
    if i == py * xres + px {
        lemma_fundamental_div_mod_converse(i, xres, py, px);
    }
    if i % xres == px && i / xres == py {
        lemma_fundamental_div_mod(i, xres);
        assert(xres * py == py * xres) by (nonlinear_arith);
    }
}

/// A surface of `xres` by `yres` pixels on which each board cell is a square
/// of `scale` by `scale` pixels. Pixels are stored row by row.
pub struct Renderer<'a> {
    pub pixels: &'a mut [u32],
    pub xres: usize,
    pub yres: usize,
    pub scale: usize,
}

impl<'a> Renderer<'a> {
    /// The pixel buffer holds every pixel of the surface.
    pub open spec fn wf(&self) -> bool {
        self.xres * self.yres <= self.pixels@.len()
    }

    /// The block of `cell` lies on the surface.
    pub open spec fn holds(&self, cell: Cell) -> bool {
        &&& cell.x * self.scale + self.scale <= self.xres
        &&& cell.y * self.scale + self.scale <= self.yres
    }

    /// The blocks of all cells of a board of `width` by `height` cells lie on
    /// the surface.
    pub open spec fn fits(&self, width: usize, height: usize) -> bool {
        &&& width * self.scale <= self.xres
        &&& height * self.scale <= self.yres
    }

    /// Only the pixels changed: the surface has the dimensions of `before`.
    pub open spec fn same_geometry(&self, before: &Self) -> bool {
        &&& self.xres == before.xres
        &&& self.yres == before.yres
        &&& self.scale == before.scale
        &&& self.pixels@.len() == before.pixels@.len()
    }

    /// Whether the pixel buffer holds every pixel of the surface.
    pub fn is_wf(&self) -> (ok: bool)
        ensures
            ok == self.wf(),
    {
        let len: usize = self.pixels.len();
        match self.xres.checked_mul(self.yres) {
            Some(count) => count <= len,
            None => false,
        }
    }

    /// On a surface that fits the board, the block of every cell of the
    /// board lies on the surface.
    pub proof fn lemma_fits_holds(&self, width: usize, height: usize, cell: Cell)
        requires
            self.fits(width, height),
            cell.within(width, height),
        ensures
            self.holds(cell),
    {
        let s = self.scale as int;
        assert((cell.x + 1) * s <= width * s) by (nonlinear_arith)
            requires
                cell.x + 1 <= width,
                0 <= s,
        ;
        assert((cell.x + 1) * s == cell.x * s + s) by (nonlinear_arith);
        assert((cell.y + 1) * s <= height * s) by (nonlinear_arith)
            requires
                cell.y + 1 <= height,
                0 <= s,
        ;
        assert((cell.y + 1) * s == cell.y * s + s) by (nonlinear_arith);
    }

    /// Overwrites the block of `cell` with `colour`.
    pub fn fill_cell(&mut self, cell: Cell, colour: u32)
        requires
            old(self).wf(),
            old(self).holds(cell),
        ensures
            final(self).pixels@ == painted(
                old(self).pixels@,
                old(self).xres,
                old(self).scale,
                cell,
                colour,
            ),
            final(self).same_geometry(old(self)),
            final(self).wf(),
    {
        let scale: usize = self.scale;
        let xres: usize = self.xres;
        let x0: usize = cell.x * scale;
        let y0: usize = cell.y * scale;
        let ghost before = self.pixels@;
        let len: usize = self.pixels.len();
        let mut row: usize = 0;
        while row < scale
            invariant
                row <= scale,
                len == before.len(),
                scale == self.scale == old(self).scale,
                xres == self.xres == old(self).xres,
                self.yres == old(self).yres,
                x0 == cell.x * scale,
                y0 == cell.y * scale,
                x0 + scale <= xres,
                y0 + scale <= self.yres,
                before == old(self).pixels@,
                self.pixels@.len() == before.len(),
                xres * self.yres <= before.len(),
                forall|i: int|
                    0 <= i < before.len() ==> self.pixels@[i] == if block_begun(
                        xres,
                        scale,
                        x0 as int,
                        y0 as int,
                        row as int,
                        0,
                        i,
                    ) {
                        colour
                    } else {
                        before[i]
                    },
            decreases scale - row,
        {
            let mut col: usize = 0;
            while col < scale
                invariant
                    row < scale,
                    col <= scale,
                    len == before.len(),
                    scale == self.scale == old(self).scale,
                    xres == self.xres == old(self).xres,
                    self.yres == old(self).yres,
                    x0 + scale <= xres,
                    y0 + scale <= self.yres,
                    self.pixels@.len() == before.len(),
                    xres * self.yres <= before.len(),
                    forall|i: int|
                        0 <= i < before.len() ==> self.pixels@[i] == if block_begun(
                            xres,
                            scale,
                            x0 as int,
                            y0 as int,
                            row as int,
                            col as int,
                            i,
                        ) {
                            colour
                        } else {
                            before[i]
                        },
                decreases scale - col,
            {
                proof {
                    assert((y0 + row) * xres + xres <= xres * self.yres) by (nonlinear_arith)
                        requires
                            y0 + row + 1 <= self.yres,
                            0 <= xres,
                    ;
                }
                let k: usize = (y0 + row) * xres + x0 + col;
                self.pixels[k] = colour;
                proof {
                    assert forall|i: int| 0 <= i < before.len() implies self.pixels@[i]
                        == if block_begun(
                        xres,
                        scale,
                        x0 as int,
                        y0 as int,
                        row as int,
                        col + 1,
                        i,
                    ) {
                        colour
                    } else {
                        before[i]
                    } by {
                        lemma_pixel_coordinates(xres as int, x0 + col, y0 + row, i);
                    }
                }
                col += 1;
            }
            row += 1;
        }
        proof {
            assert(self.pixels@ =~= painted(before, xres, scale, cell, colour));
        }
    }

    /// Overwrites the blocks of `cells` with `colour`, front to back.
    pub fn fill_cells(&mut self, cells: &VecDeque<Cell>, colour: u32)
        requires
            old(self).wf(),
            forall|j: int| 0 <= j < cells@.len() ==> old(self).holds(#[trigger] cells@[j]),
        ensures
            final(self).pixels@ == painted_each(
                old(self).pixels@,
                old(self).xres,
                old(self).scale,
                cells@,
                colour,
            ),
            final(self).same_geometry(old(self)),
            final(self).wf(),
    {
        let n: usize = cells.len();
        let mut j: usize = 0;
        while j < n
            invariant
                j <= n,
                n == cells@.len(),
                self.wf(),
                self.same_geometry(old(self)),
                forall|j: int| 0 <= j < cells@.len() ==> old(self).holds(#[trigger] cells@[j]),
                self.pixels@ == painted_each(
                    old(self).pixels@,
                    old(self).xres,
                    old(self).scale,
                    cells@.take(j as int),
                    colour,
                ),
            decreases n - j,
        {
            proof {
                assert(cells@.take(j + 1).drop_last() =~= cells@.take(j as int));
                assert(old(self).holds(cells@[j as int]));
            }
            self.fill_cell(cells[j], colour);
            j += 1;
        }
        proof {
            assert(cells@.take(n as int) =~= cells@);
        }
    }

    /// Overwrites the play area of `width` by `height` cells with the
    /// background colour.
    pub fn clear(&mut self, width: usize, height: usize)
        requires
            old(self).wf(),
            old(self).fits(width, height),
        ensures
            final(self).pixels@ == cleared(
                old(self).pixels@,
                old(self).xres,
                old(self).scale,
                width,
                height,
            ),
            final(self).same_geometry(old(self)),
            final(self).wf(),
    {
        let ghost before = self.pixels@;
        let ghost xres = self.xres;
        let ghost scale = self.scale;
        let mut y: usize = 0;
        while y < height
            invariant
                y <= height,
                self.wf(),
                self.same_geometry(old(self)),
                self.fits(width, height),
                xres == self.xres,
                scale == self.scale,
                before == old(self).pixels@,
                forall|i: int|
                    0 <= i < before.len() ==> self.pixels@[i] == if area_begun(
                        xres,
                        scale,
                        width,
                        y as int,
                        0,
                        i,
                    ) {
                        BLANK
                    } else {
                        before[i]
                    },
            decreases height - y,
        {
            let mut x: usize = 0;
            while x < width
                invariant
                    y < height,
                    x <= width,
                    self.wf(),
                    self.same_geometry(old(self)),
                    self.fits(width, height),
                    xres == self.xres,
                    scale == self.scale,
                    before == old(self).pixels@,
                    forall|i: int|
                        0 <= i < before.len() ==> self.pixels@[i] == if area_begun(
                            xres,
                            scale,
                            width,
                            y as int,
                            x as int,
                            i,
                        ) {
                            BLANK
                        } else {
                            before[i]
                        },
                decreases width - x,
            {
                let cell = Cell { x, y };
                proof {
                    self.lemma_fits_holds(width, height, cell);
                    assert((x + 1) * scale == x * scale + scale) by (nonlinear_arith);
                }
                self.fill_cell(cell, BLANK);
                x += 1;
            }
            proof {
                assert((y + 1) * scale == y * scale + scale) by (nonlinear_arith);
            }
            y += 1;
        }
        proof {
            assert(self.pixels@ =~= cleared(before, xres, scale, width, height));
        }
    }
}

} // verus!
