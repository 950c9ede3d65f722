//! Turns a bitmap that holds a grid of glyph cells into the glyphs of a
//! font: for each cell the columns that are drawn, each as a byte of
//! vertically stacked pixels.

use crate::bitmap::{Bitmap, BitmapView, Colour};
use vstd::prelude::*;

verus! {

/// Largest height of a glyph cell.
pub const MAX_GLYPH_HEIGHT: usize = 32;

/// White, the colour of paper inside a glyph.
pub open spec fn white() -> Colour {
    Colour { red: 0xFF, green: 0xFF, blue: 0xFF }
}

/// Black, the colour of ink.
pub open spec fn black() -> Colour {
    Colour { red: 0x00, green: 0x00, blue: 0x00 }
}

/// Whether a colour is one of the two a glyph is drawn in. Any other colour
/// at the top of a column marks the column as lying outside the glyph.
pub open spec fn is_glyph_colour(colour: Colour) -> bool {
    colour == black() || colour == white()
}

/// What the pixel in row `y` of a glyph column adds to the column's byte
/// when it is black: bit `y`, or nothing for a row that a byte has no bit
/// for.
pub open spec fn bit_weight(y: int) -> int {
    if y == 0 {
        1
    } else if y == 1 {
        2
    } else if y == 2 {
        4
    } else if y == 3 {
        8
    } else if y == 4 {
        16
    } else if y == 5 {
        32
    } else if y == 6 {
        64
    } else if y == 7 {
        128
    } else {
        0
    }
}

/// The byte of the column at `x`: the bits of the rows, out of the first
/// `height` below `y_offset`, whose pixel is black.
pub open spec fn column_byte(bitmap: BitmapView, x: int, y_offset: int, height: int) -> int
    decreases height,
{
    if height <= 0 {
        0
    } else {
        column_byte(bitmap, x, y_offset, height - 1) + if bitmap.pixel(x, y_offset + height - 1)
            == black() {
            bit_weight(height - 1)
        } else {
            0
        }
    }
}

/// All the bits of the rows below `height`.
pub open spec fn weights_below(height: int) -> int {
    if height <= 0 {
        0
    } else if height == 1 {
        1
    } else if height == 2 {
        3
    } else if height == 3 {
        7
    } else if height == 4 {
        15
    } else if height == 5 {
        31
    } else if height == 6 {
        63
    } else if height == 7 {
        127
    } else {
        255
    }
}

/// The columns of the glyph in the cell at (`x_offset`, `y_offset`): of the
/// first `width` columns of the cell, from left to right, the byte of each
/// whose top pixel is black or white.
pub open spec fn glyph_columns(
    bitmap: BitmapView,
    x_offset: int,
    y_offset: int,
    width: int,
    height: int,
) -> Seq<u8>
    decreases width,
{
    if width <= 0 {
        Seq::empty()
    } else {
        let earlier = glyph_columns(bitmap, x_offset, y_offset, width - 1, height);
        if is_glyph_colour(bitmap.pixel(x_offset + width - 1, y_offset)) {
            earlier.push(column_byte(bitmap, x_offset + width - 1, y_offset, height) as u8)
        } else {
            earlier
        }
    }
}

/// The glyphs of the first `count` cells of the row of cells `row`.
pub open spec fn row_glyphs(
    bitmap: BitmapView,
    row: int,
    glyph_width: int,
    glyph_height: int,
    count: int,
) -> Seq<Seq<u8>>
    decreases count,
{
    if count <= 0 {
        Seq::empty()
    } else {
        row_glyphs(bitmap, row, glyph_width, glyph_height, count - 1).push(
            glyph_columns(
                bitmap,
                (count - 1) * glyph_width,
                row * glyph_height,
                glyph_width,
                glyph_height,
            ),
        )
    }
}

/// The glyphs of the first `rows` rows of cells, each row holding `columns`
/// cells, row after row.
pub open spec fn grid_glyphs(
    bitmap: BitmapView,
    glyph_width: int,
    glyph_height: int,
    columns: int,
    rows: int,
) -> Seq<Seq<u8>>
    decreases rows,
{
    if rows <= 0 {
        Seq::empty()
    } else {
        grid_glyphs(bitmap, glyph_width, glyph_height, columns, rows - 1) + row_glyphs(
            bitmap,
            rows - 1,
            glyph_width,
            glyph_height,
            columns,
        )
    }
}

/// A glyph: the columns that are drawn, and how many they are.
pub struct Glyph {
    pub width: usize,
    pub data: Vec<u8>,
}

impl View for Glyph {
    type V = Seq<u8>;

    /// The columns of the glyph.
    open spec fn view(&self) -> Seq<u8> {
        self.data@
    }
}

/// The columns of each glyph of a list.
pub open spec fn glyph_views(glyphs: Seq<Glyph>) -> Seq<Seq<u8>> {
    Seq::new(glyphs.len(), |i: int| glyphs[i]@)
}

/// Whether a pixel is black.
fn is_black(colour: Colour) -> (yes: bool)
    ensures
        yes == (colour == black()),
{
    colour.red == 0 && colour.green == 0 && colour.blue == 0
}

/// Whether a pixel is white.
fn is_white(colour: Colour) -> (yes: bool)
    ensures
        yes == (colour == white()),
{
    colour.red == 0xFF && colour.green == 0xFF && colour.blue == 0xFF
}

impl Glyph {
    /// The glyph of the cell of `width` by `height` pixels whose top left
    /// corner is at (`x_offset`, `y_offset`).
    pub fn from_bitmap(
        bitmap: &Bitmap,
        x_offset: usize,
        y_offset: usize,
        width: usize,
        height: usize,
    ) -> (glyph: Self)
        requires
            bitmap@.wf(),
            height <= MAX_GLYPH_HEIGHT,
            x_offset + width <= bitmap@.width,
            width > 0 ==> y_offset < bitmap@.height && y_offset + height <= bitmap@.height,
        ensures
            glyph@ == glyph_columns(
                bitmap@,
                x_offset as int,
                y_offset as int,
                width as int,
                height as int,
            ),
            glyph.width == glyph@.len(),
            glyph@.len() <= width,
    {
        let mut data: Vec<u8> = Vec::new();
        let mut column: usize = 0;
        while column < width
            invariant
                column <= width,
                bitmap@.wf(),
                height <= MAX_GLYPH_HEIGHT,
                x_offset + width <= bitmap@.width,
                width > 0 ==> y_offset < bitmap@.height && y_offset + height <= bitmap@.height,
                data@.len() <= column,
                data@ == glyph_columns(
                    bitmap@,
                    x_offset as int,
                    y_offset as int,
                    column as int,
                    height as int,
                ),
            decreases width - column,
        {
            let x = x_offset + column;
            let top = bitmap.pixel(x, y_offset);
            if is_black(top) || is_white(top) {
                let mut byte: u8 = 0;
                let mut y: usize = 0;
                while y < height
                    invariant
                        y <= height <= MAX_GLYPH_HEIGHT,
                        bitmap@.wf(),
                        x < bitmap@.width,
                        y_offset + height <= bitmap@.height,
                        byte == column_byte(bitmap@, x as int, y_offset as int, y as int),
                        byte <= weights_below(y as int),
                    decreases height - y,
                {
                    if is_black(bitmap.pixel(x, y_offset + y)) {
                        if y < 8 {
                            let shift = y as u8;
                            assert((1u8 << shift) == if shift == 0 {
                                1u8
                            } else if shift == 1 {
                                2u8
                            } else if shift == 2 {
                                4u8
                            } else if shift == 3 {
                                8u8
                            } else if shift == 4 {
                                16u8
                            } else if shift == 5 {
                                32u8
                            } else if shift == 6 {
                                64u8
                            } else {
                                128u8
                            }) by (bit_vector)
                                requires
                                    shift < 8,
                            ;
                            byte = byte + (1u8 << shift);
                        }
                    }
                    y += 1;
                }
                data.push(byte);
            }
            column += 1;
        }
        Glyph { width: data.len(), data }
    }
}

/// The glyphs of a bitmap that holds a grid of cells of `glyph_width` by
/// `glyph_height` pixels: those of each row of cells from left to right,
/// row after row from the top. What is left over at the right and at the
/// bottom, short of a whole cell, is not read.
pub fn generate_glyphs(bm: Bitmap, glyph_width: usize, glyph_height: usize) -> (glyphs: Vec<Glyph>)
    requires
        bm@.wf(),
        glyph_width > 0,
        0 < glyph_height <= MAX_GLYPH_HEIGHT,
    ensures
        glyph_views(glyphs@) == grid_glyphs(
            bm@,
            glyph_width as int,
            glyph_height as int,
            bm@.width / (glyph_width as int),
            bm@.height / (glyph_height as int),
        ),
        forall|i: int| 0 <= i < glyphs@.len() ==> (#[trigger] glyphs@[i]).width == glyphs@[i]@.len(),
{
    let mut glyphs: Vec<Glyph> = Vec::new();
    let rows = bm.height() / glyph_height;
    let columns = bm.width() / glyph_width;
    proof {
        lemma_cells_fit(bm@.width, glyph_width as int);
        lemma_cells_fit(bm@.height, glyph_height as int);
    }
    let mut y: usize = 0;
    while y < rows
        invariant
            y <= rows,
            bm@.wf(),
            glyph_width > 0,
            0 < glyph_height <= MAX_GLYPH_HEIGHT,
            rows == bm@.height / (glyph_height as int),
            columns == bm@.width / (glyph_width as int),
            rows * glyph_height <= bm@.height,
            columns * glyph_width <= bm@.width,
            glyph_views(glyphs@) == grid_glyphs(
                bm@,
                glyph_width as int,
                glyph_height as int,
                columns as int,
                y as int,
            ),
            forall|i: int|
                0 <= i < glyphs@.len() ==> (#[trigger] glyphs@[i]).width == glyphs@[i]@.len(),
        decreases rows - y,
    {
        let ghost above = glyph_views(glyphs@);
        proof {
            lemma_cell_inside(y as int, rows as int, glyph_height as int, bm@.height);
        }
        let mut x: usize = 0;
        while x < columns
            invariant
                x <= columns,
                y < rows,
                bm@.wf(),
                glyph_width > 0,
                0 < glyph_height <= MAX_GLYPH_HEIGHT,
                columns * glyph_width <= bm@.width,
                y * glyph_height + glyph_height <= bm@.height,
                glyph_views(glyphs@) == above + row_glyphs(
                    bm@,
                    y as int,
                    glyph_width as int,
                    glyph_height as int,
                    x as int,
                ),
                forall|i: int|
                    0 <= i < glyphs@.len() ==> (#[trigger] glyphs@[i]).width == glyphs@[i]@.len(),
            decreases columns - x,
        {
            proof {
                lemma_cell_inside(x as int, columns as int, glyph_width as int, bm@.width);
            }
            let ghost before = glyphs@;
            let glyph = Glyph::from_bitmap(
                &bm,
                x * glyph_width,
                y * glyph_height,
                glyph_width,
                glyph_height,
            );
            glyphs.push(glyph);
            x += 1;
            assert(glyph_views(glyphs@) =~= glyph_views(before).push(glyphs@[before.len() as int]@));
            assert(glyph_views(glyphs@) =~= above + row_glyphs(
                bm@,
                y as int,
                glyph_width as int,
                glyph_height as int,
                x as int,
            ));
        }
        y += 1;
    }
    glyphs
}

/// The whole cells that fit a length do not reach beyond it.
proof fn lemma_cells_fit(length: int, cell: int)
    requires
        0 <= length,
        0 < cell,
    ensures
        0 <= length / cell,
        (length / cell) * cell <= length,
{
    assert(0 <= length / cell && (length / cell) * cell <= length) by (nonlinear_arith)
        requires
            0 <= length,
            0 < cell,
    ;
}

/// A cell among the whole cells that fit a length lies inside the length.
proof fn lemma_cell_inside(index: int, count: int, cell: int, length: int)
    requires
        0 <= index < count,
        0 < cell,
        count * cell <= length,
    ensures
        0 <= index * cell,
        index * cell + cell <= length,
{
    assert(0 <= index * cell && index * cell + cell <= count * cell) by (nonlinear_arith)
        requires
            0 <= index,
            index + 1 <= count,
            0 < cell,
    ;
}

/// The glyphs of a grid come row after row: the glyph of the cell in column
/// `column` of row `row` of the grid stands at place `row * columns +
/// column`, and is made of the pixels of that cell.
pub proof fn lemma_grid_glyph(
    bitmap: BitmapView,
    glyph_width: int,
    glyph_height: int,
    columns: int,
    rows: int,
    row: int,
    column: int,
)
    requires
        0 <= column < columns,
        0 <= row < rows,
    ensures
        grid_glyphs(bitmap, glyph_width, glyph_height, columns, rows).len() == rows * columns,
        0 <= row * columns + column < rows * columns,
        grid_glyphs(bitmap, glyph_width, glyph_height, columns, rows)[row * columns + column]
            == glyph_columns(
            bitmap,
            column * glyph_width,
            row * glyph_height,
            glyph_width,
            glyph_height,
        ),
    decreases rows,
{
    lemma_grid_len(bitmap, glyph_width, glyph_height, columns, rows);
    lemma_grid_len(bitmap, glyph_width, glyph_height, columns, rows - 1);
    lemma_row_glyph(bitmap, rows - 1, glyph_width, glyph_height, columns, column);
    assert(0 <= row * columns && row * columns + column < rows * columns) by (nonlinear_arith)
        requires
            0 <= row,
            row + 1 <= rows,
            0 <= column < columns,
    ;
    if row < rows - 1 {
        lemma_grid_glyph(bitmap, glyph_width, glyph_height, columns, rows - 1, row, column);
    }
}

/// A grid of `rows` rows of `columns` cells has a glyph for each cell.
pub proof fn lemma_grid_len(
    bitmap: BitmapView,
    glyph_width: int,
    glyph_height: int,
    columns: int,
    rows: int,
)
    requires
        0 <= columns,
        0 <= rows,
    ensures
        grid_glyphs(bitmap, glyph_width, glyph_height, columns, rows).len() == rows * columns,
    decreases rows,
{
    if rows > 0 {
        lemma_grid_len(bitmap, glyph_width, glyph_height, columns, rows - 1);
        lemma_row_glyph(bitmap, rows - 1, glyph_width, glyph_height, columns, 0);
        assert((rows - 1) * columns + columns == rows * columns) by (nonlinear_arith);
    } else {
        assert(rows * columns == 0) by (nonlinear_arith)
            requires
                rows == 0,
        ;
    }
}

/// The glyphs of a row of cells come from left to right.
pub proof fn lemma_row_glyph(
    bitmap: BitmapView,
    row: int,
    glyph_width: int,
    glyph_height: int,
    count: int,
    column: int,
)
    requires
        0 <= count,
    ensures
        row_glyphs(bitmap, row, glyph_width, glyph_height, count).len() == count,
        0 <= column < count ==> row_glyphs(bitmap, row, glyph_width, glyph_height, count)[column]
            == glyph_columns(
            bitmap,
            column * glyph_width,
            row * glyph_height,
            glyph_width,
            glyph_height,
        ),
    decreases count,
{
    if count > 0 {
        lemma_row_glyph(bitmap, row, glyph_width, glyph_height, count - 1, column);
    }
}

} // verus!
