//! Display interface: a one-bit-per-pixel raster laid out in bands of eight
//! pixel rows. Each byte of the backing buffer holds one column of eight
//! vertically stacked pixels of a band; rows are addressed in band units.

use crate::events::Direction;
use vstd::prelude::*;
use vstd::slice::slice_to_vec;
use vstd::std_specs::iter::IteratorSpec;

verus! {

/// Number of glyphs in a font: one for each code from 0x20 to 0x7F.
pub const FONT_GLYPHS: usize = 96;

/// Number of pixel columns stored for each glyph.
pub const GLYPH_COLUMNS: usize = 5;

/// Definition of a font: for each glyph its width in columns and its
/// columns, each a byte of vertically stacked pixels.
pub type Font = [(u8, [u8; 5]); 96];

/// State of a pixel.
#[derive(Clone, Copy, Debug, PartialEq, Eq, Structural)]
pub enum Pixel {
    On,
    Off,
}

/// What a canvas holds: its size in pixels, the backing bytes and whether
/// they changed since they were last sent.
pub struct CanvasView {
    pub width: nat,
    pub height: nat,
    pub data: Seq<u8>,
    pub dirty: bool,
}

/// Index of the byte that holds pixel (`x`, `y`) on a canvas `width` pixels
/// wide.
pub open spec fn byte_index(width: nat, x: nat, y: nat) -> int {
    (width * (y / 8) + x) as int
}

/// The bit of its byte that stands for a pixel in pixel row `y`.
pub open spec fn bit_mask(y: nat) -> u8 {
    1u8 << ((y % 8) as u8)
}

/// The byte a whole-byte fill writes for a lit or an unlit colour.
pub open spec fn fill_byte(lit: bool) -> u8 {
    if lit {
        0xFF
    } else {
        0x00
    }
}

/// The byte written for one glyph column: the column moved up by two bits,
/// complemented for an unlit colour.
pub open spec fn glyph_byte(column: u8, lit: bool) -> u8 {
    if lit {
        column << 2
    } else {
        !(column << 2)
    }
}

/// `data` with every byte at an index in `start..end` replaced by `value`.
pub open spec fn filled(data: Seq<u8>, start: int, end: int, value: u8) -> Seq<u8> {
    Seq::new(data.len(), |i: int| if start <= i < end { value } else { data[i] })
}

/// `data` with every byte at an index in `start..end` complemented.
pub open spec fn inverted(data: Seq<u8>, start: int, end: int) -> Seq<u8> {
    Seq::new(data.len(), |i: int| if start <= i < end { !data[i] } else { data[i] })
}

/// `data` with the bytes of `start..end` moved `width` places towards the
/// end and the `width` bytes from `start` on cleared.
pub open spec fn scrolled_up(data: Seq<u8>, start: int, end: int, width: int) -> Seq<u8> {
    Seq::new(
        data.len(),
        |i: int|
            if start <= i < start + width {
                0u8
            } else if start + width <= i < end + width {
                data[i - width]
            } else {
                data[i]
            },
    )
}

/// `data` with the bytes of `start + width..end + width` moved `width`
/// places towards the front and the `width` bytes from `end` on cleared.
pub open spec fn scrolled_down(data: Seq<u8>, start: int, end: int, width: int) -> Seq<u8> {
    Seq::new(
        data.len(),
        |i: int|
            if start <= i < end {
                data[i + width]
            } else if end <= i < end + width {
                0u8
            } else {
                data[i]
            },
    )
}

/// `data` with the pixel of row `y` inside byte `index` set or cleared.
pub open spec fn with_pixel(data: Seq<u8>, index: int, y: nat, lit: bool) -> Seq<u8> {
    data.update(
        index,
        if lit {
            data[index] | bit_mask(y)
        } else {
            data[index] & !bit_mask(y)
        },
    )
}

/// Whether a character has a glyph: its code lies in 0x20..=0x7F.
pub open spec fn has_glyph(c: char) -> bool {
    0x20 <= c as u32 <= 0x7F
}

/// Position in the font of the glyph of a character that has one.
pub open spec fn glyph_index(c: char) -> int {
    c as u32 - 0x20
}

/// Number of columns a character writes: its glyph's width, or nothing for
/// a character without a glyph.
pub open spec fn glyph_width(c: char, font: Font) -> nat {
    if has_glyph(c) {
        font[glyph_index(c)].0 as nat
    } else {
        0
    }
}

/// No glyph of the font claims more columns than a glyph stores.
pub open spec fn font_wf(font: Font) -> bool {
    forall|i: int| 0 <= i < FONT_GLYPHS ==> (#[trigger] font[i]).0 <= GLYPH_COLUMNS
}

impl CanvasView {
    /// The backing buffer has one byte for every eight pixels, and the
    /// number of pixels fits the machine.
    pub open spec fn wf(self) -> bool {
        &&& self.width * self.height <= usize::MAX
        &&& self.data.len() == (self.width * self.height) / 8
    }

    /// Whether pixel (`x`, `y`) lies on the canvas and has a byte behind it.
    pub open spec fn in_bounds(self, x: nat, y: nat) -> bool {
        &&& x < self.width
        &&& y < self.height
        &&& byte_index(self.width, x, y) < self.data.len()
    }

    /// Whether the pixel (`x`, `y`) is lit.
    pub open spec fn pixel_lit(self, x: nat, y: nat) -> bool {
        self.data[byte_index(self.width, x, y)] & bit_mask(y) != 0
    }

    /// Whether band row `row` lies wholly inside the backing buffer.
    pub open spec fn has_row(self, row: nat) -> bool {
        (row + 1) * self.width <= self.data.len()
    }

    /// Whether the glyph of `c`, if it has one, fits the buffer when written
    /// from column `col` of band row `row` on.
    pub open spec fn char_fits(self, c: char, row: nat, col: nat, font: Font) -> bool {
        has_glyph(c) ==> row * self.width + col + glyph_width(c, font) <= self.data.len()
    }

    /// The canvas after the glyph of `c` was written from column `col` of
    /// band row `row` on; a character without a glyph changes nothing.
    pub open spec fn with_char(self, c: char, row: nat, col: nat, font: Font, lit: bool) -> Self {
        if has_glyph(c) {
            let base = row * self.width + col;
            CanvasView {
                data: Seq::new(
                    self.data.len(),
                    |i: int|
                        if base <= i < base + glyph_width(c, font) {
                            glyph_byte(font[glyph_index(c)].1[i - base], lit)
                        } else {
                            self.data[i]
                        },
                ),
                dirty: true,
                ..self
            }
        } else {
            self
        }
    }

    /// Whether every glyph of `text` fits the buffer and the cursor stays
    /// inside the machine's range, when printing starts at (`row`, `col`).
    pub open spec fn text_fits(self, text: Seq<char>, row: nat, col: nat, font: Font) -> bool
        decreases text.len(),
    {
        if text.len() == 0 {
            true
        } else if text[0] == '\n' {
            row + 1 <= usize::MAX && self.text_fits(text.drop_first(), row + 1, 0, font)
        } else {
            &&& self.char_fits(text[0], row, col, font)
            &&& col + glyph_width(text[0], font) + 1 <= usize::MAX
            &&& self.text_fits(
                text.drop_first(),
                row,
                col + glyph_width(text[0], font) + 1,
                font,
            )
        }
    }

    /// The canvas after `text` was printed from (`row`, `col`) on: a newline
    /// moves to the start of the next band row, any other character writes
    /// its glyph and moves on by the glyph's width and one spacer column.
    pub open spec fn with_text(
        self,
        text: Seq<char>,
        row: nat,
        col: nat,
        font: Font,
        lit: bool,
    ) -> Self
        decreases text.len(),
    {
        if text.len() == 0 {
            self
        } else if text[0] == '\n' {
            self.with_text(text.drop_first(), row + 1, 0, font, lit)
        } else {
            self.with_char(text[0], row, col, font, lit).with_text(
                text.drop_first(),
                row,
                col + glyph_width(text[0], font) + 1,
                font,
                lit,
            )
        }
    }
}

/// Basic display interface over a pixel representation `T`.
pub trait Canvas<T: Copy>: View<V = CanvasView> {
    /// Whether a colour lights a pixel.
    spec fn lit(colour: T) -> bool;

    /// Width of the display.
    fn width(&self) -> (w: usize)
        ensures
            w == self@.width,
    ;

    /// Height of the display.
    fn height(&self) -> (h: usize)
        ensures
            h == self@.height,
    ;

    /// Number of bytes of display data.
    fn data_size(&self) -> (n: usize)
        ensures
            n == self@.data.len(),
    ;

    /// Get display data.
    fn data(&self) -> (bytes: &[u8])
        ensures
            bytes@ == self@.data,
    ;

    /// Data is dirty (has changed since last clear).
    fn is_dirty(&self) -> (d: bool)
        ensures
            d == self@.dirty,
    ;

    /// Clear the data dirty flag.
    fn clear_dirty_flag(&mut self)
        ensures
            final(self)@ == (CanvasView { dirty: false, ..old(self)@ }),
    ;

    /// Invert all pixels.
    fn invert(&mut self)
        ensures
            final(self)@ == (CanvasView {
                data: inverted(old(self)@.data, 0, old(self)@.data.len() as int),
                dirty: true,
                ..old(self)@
            }),
    ;

    /// Invert a row (8 pixels high).
    fn invert_row(&mut self, row: usize)
        requires
            old(self)@.wf(),
            old(self)@.has_row(row as nat),
        ensures
            final(self)@ == (CanvasView {
                data: inverted(
                    old(self)@.data,
                    row * old(self)@.width,
                    (row + 1) * old(self)@.width,
                ),
                dirty: true,
                ..old(self)@
            }),
    ;

    /// Invert part of a row (8 pixels high): the columns from `start_col` up
    /// to, not including, `end_col`.
    fn invert_row_slice(&mut self, row: usize, start_col: usize, end_col: usize)
        requires
            old(self)@.wf(),
            start_col <= end_col,
            row * old(self)@.width + end_col <= old(self)@.data.len(),
        ensures
            final(self)@ == (CanvasView {
                data: inverted(
                    old(self)@.data,
                    row * old(self)@.width + start_col,
                    row * old(self)@.width + end_col,
                ),
                dirty: true,
                ..old(self)@
            }),
    ;

    /// Fill the entire canvas with a single colour.
    fn fill(&mut self, colour: T)
        ensures
            final(self)@ == (CanvasView {
                data: filled(
                    old(self)@.data,
                    0,
                    old(self)@.data.len() as int,
                    fill_byte(Self::lit(colour)),
                ),
                dirty: true,
                ..old(self)@
            }),
    ;

    /// Fill an entire row with a single colour.
    fn fill_row(&mut self, row: usize, colour: T)
        requires
            old(self)@.wf(),
            old(self)@.has_row(row as nat),
        ensures
            final(self)@ == (CanvasView {
                data: filled(
                    old(self)@.data,
                    row * old(self)@.width,
                    (row + 1) * old(self)@.width,
                    fill_byte(Self::lit(colour)),
                ),
                dirty: true,
                ..old(self)@
            }),
    ;

    /// Fill the rows from `start_row` up to, not including, `end_row` with a
    /// single colour.
    fn fill_rows(&mut self, start_row: usize, end_row: usize, colour: Pixel)
        requires
            old(self)@.wf(),
            start_row * old(self)@.width <= end_row * old(self)@.width,
            end_row * old(self)@.width <= old(self)@.data.len(),
        ensures
            final(self)@ == (CanvasView {
                data: filled(
                    old(self)@.data,
                    start_row * old(self)@.width,
                    end_row * old(self)@.width,
                    fill_byte(colour == Pixel::On),
                ),
                dirty: true,
                ..old(self)@
            }),
    ;

    /// Set a pixel; a position off the canvas is ignored.
    fn set_pixel(&mut self, x: usize, y: usize, colour: T)
        requires
            old(self)@.wf(),
        ensures
            old(self)@.in_bounds(x as nat, y as nat) ==> final(self)@ == (CanvasView {
                data: with_pixel(
                    old(self)@.data,
                    byte_index(old(self)@.width, x as nat, y as nat),
                    y as nat,
                    Self::lit(colour),
                ),
                dirty: true,
                ..old(self)@
            }),
            !old(self)@.in_bounds(x as nat, y as nat) ==> final(self)@ == old(self)@,
    ;

    /// Get the state of a pixel; a position off the canvas has none.
    fn pixel(&self, x: usize, y: usize) -> (p: Option<T>)
        requires
            self@.wf(),
        ensures
            p is Some <==> self@.in_bounds(x as nat, y as nat),
            p matches Some(colour) ==> Self::lit(colour) == self@.pixel_lit(x as nat, y as nat),
    ;

    /// Copy the data of another canvas of the same size.
    fn copy_from(&mut self, canvas: &Self)
        requires
            canvas@.data.len() == old(self)@.data.len(),
        ensures
            final(self)@ == (CanvasView { data: canvas@.data, dirty: true, ..old(self)@ }),
    ;

    /// Print, handles newlines but not scrolling.
    fn print(&mut self, s: &str, row: usize, col: usize, font: &Font, colour: T)
        requires
            old(self)@.wf(),
            font_wf(*font),
            old(self)@.text_fits(s@, row as nat, col as nat, *font),
        ensures
            final(self)@ == old(self)@.with_text(
                s@,
                row as nat,
                col as nat,
                *font,
                Self::lit(colour),
            ),
    {
        let mut row = row;
        let mut col = col;
        let mut chars = s.chars();
        let ghost target = self@.with_text(s@, row as nat, col as nat, *font, Self::lit(colour));
        loop
            invariant
                self@.wf(),
                font_wf(*font),
                chars.decrease() is Some,
                self@.text_fits(chars.remaining(), row as nat, col as nat, *font),
                self@.with_text(
                    chars.remaining(),
                    row as nat,
                    col as nat,
                    *font,
                    Self::lit(colour),
                ) == target,
            ensures
                self@ == target,
            decreases chars.decrease()->0,
        {
            let ghost text = chars.remaining();
            let ghost before = self@;
            match chars.next() {
                None => {
                    break ;
                },
                Some(c) => {
                    assert(text.len() > 0 && c == text[0] && chars.remaining()
                        == text.drop_first());
                    if c == '\n' {
                        row += 1;
                        col = 0;
                    } else {
                        let advance = self.print_char(c, row, col, font, colour);
                        proof {
                            lemma_text_fits_same_size(
                                before,
                                self@,
                                text.drop_first(),
                                row as nat,
                                (col + advance + 1) as nat,
                                *font,
                            );
                        }
                        col += advance + 1;
                    }
                },
            }
        }
    }

    /// Print character; returns the number of columns written.
    fn print_char(&mut self, t: char, row: usize, col: usize, font: &Font, colour: T) -> (advance:
        usize)
        requires
            old(self)@.wf(),
            font_wf(*font),
            old(self)@.char_fits(t, row as nat, col as nat, *font),
        ensures
            advance == glyph_width(t, *font),
            final(self)@ == old(self)@.with_char(
                t,
                row as nat,
                col as nat,
                *font,
                Self::lit(colour),
            ),
    ;

    /// Vertical scroll the rows in a particular direction: the band rows
    /// from the smaller up to, not including, the larger of the two row
    /// numbers move by one band, and the band they leave is cleared.
    fn vscroll_rows(&mut self, row_start: usize, row_end: usize, direction: Direction)
        requires
            old(self)@.wf(),
            old(self)@.has_row(row_start as nat),
            old(self)@.has_row(row_end as nat),
        ensures
            final(self)@ == (CanvasView {
                data: if direction == Direction::Up {
                    scrolled_up(
                        old(self)@.data,
                        spec_lower(row_start, row_end) * old(self)@.width,
                        spec_upper(row_start, row_end) * old(self)@.width,
                        old(self)@.width as int,
                    )
                } else {
                    scrolled_down(
                        old(self)@.data,
                        spec_lower(row_start, row_end) * old(self)@.width,
                        spec_upper(row_start, row_end) * old(self)@.width,
                        old(self)@.width as int,
                    )
                },
                dirty: true,
                ..old(self)@
            }),
    ;
}

/// The smaller of two row numbers.
pub open spec fn spec_lower(a: usize, b: usize) -> int {
    if a <= b {
        a as int
    } else {
        b as int
    }
}

/// The larger of two row numbers.
pub open spec fn spec_upper(a: usize, b: usize) -> int {
    if a <= b {
        b as int
    } else {
        a as int
    }
}

/// Whether a text fits depends on the size of a canvas only, not on what is
/// drawn on it.
pub proof fn lemma_text_fits_same_size(
    a: CanvasView,
    b: CanvasView,
    text: Seq<char>,
    row: nat,
    col: nat,
    font: Font,
)
    requires
        a.width == b.width,
        a.data.len() == b.data.len(),
    ensures
        a.text_fits(text, row, col, font) == b.text_fits(text, row, col, font),
    decreases text.len(),
{
    if text.len() == 0 {
    } else if text[0] == '\n' {
        lemma_text_fits_same_size(a, b, text.drop_first(), row + 1, 0, font);
    } else {
        lemma_text_fits_same_size(
            a,
            b,
            text.drop_first(),
            row,
            col + glyph_width(text[0], font) + 1,
            font,
        );
    }
}

/// Monochrome display that uses 1bpp for data display.
///
/// Optimally the display height is a multiple of 8.
pub struct MonochromeCanvas {
    width: usize,
    height: usize,
    buffer: Vec<u8>,
    dirty: bool,
}

impl View for MonochromeCanvas {
    type V = CanvasView;

    closed spec fn view(&self) -> CanvasView {
        CanvasView {
            width: self.width as nat,
            height: self.height as nat,
            data: self.buffer@,
            dirty: self.dirty,
        }
    }
}

impl MonochromeCanvas {
    /// A canvas of the given size with every pixel unlit, marked dirty.
    pub fn new(width: usize, height: usize) -> (canvas: Self)
        requires
            width * height <= usize::MAX,
        ensures
            canvas@.wf(),
            canvas@ == (CanvasView {
                width: width as nat,
                height: height as nat,
                data: Seq::new(((width * height) / 8) as nat, |i: int| 0u8),
                dirty: true,
            }),
    {
        let buffer = vec![0u8; (width * height) / 8];
        assert(buffer@ =~= Seq::new(((width * height) / 8) as nat, |i: int| 0u8));
        MonochromeCanvas { width, height, buffer, dirty: true }
    }

    /// A canvas of the given size over a copy of `buffer`, marked dirty.
    pub fn from_buffer(width: usize, height: usize, buffer: &[u8]) -> (canvas: Self)
        requires
            width * height <= usize::MAX,
            buffer@.len() == (width * height) / 8,
        ensures
            canvas@.wf(),
            canvas@ == (CanvasView {
                width: width as nat,
                height: height as nat,
                data: buffer@,
                dirty: true,
            }),
    {
        MonochromeCanvas { width, height, buffer: slice_to_vec(buffer), dirty: true }
    }

    /// Complement the bytes of `start..end`.
    fn invert_range(&mut self, start: usize, end: usize)
        requires
            start <= end <= old(self).buffer@.len(),
        ensures
            final(self).width == old(self).width,
            final(self).height == old(self).height,
            final(self).dirty == old(self).dirty,
            final(self).buffer@ == inverted(old(self).buffer@, start as int, end as int),
    {
        let mut i: usize = start;
        while i < end
            invariant
                start <= i <= end <= self.buffer@.len(),
                self.width == old(self).width,
                self.height == old(self).height,
                self.dirty == old(self).dirty,
                self.buffer@ == inverted(old(self).buffer@, start as int, i as int),
            decreases end - i,
        {
            let byte = self.buffer[i];
            self.buffer[i] = !byte;
            i += 1;
        }
    }

    /// Overwrite the bytes of `start..end` with `value`.
    fn fill_range(&mut self, start: usize, end: usize, value: u8)
        requires
            start <= end <= old(self).buffer@.len(),
        ensures
            final(self).width == old(self).width,
            final(self).height == old(self).height,
            final(self).dirty == old(self).dirty,
            final(self).buffer@ == filled(old(self).buffer@, start as int, end as int, value),
    {
        let mut i: usize = start;
        while i < end
            invariant
                start <= i <= end <= self.buffer@.len(),
                self.width == old(self).width,
                self.height == old(self).height,
                self.dirty == old(self).dirty,
                self.buffer@ == filled(old(self).buffer@, start as int, i as int, value),
            decreases end - i,
        {
            self.buffer[i] = value;
            i += 1;
        }
    }
}

/// The byte that a whole-byte fill writes for a pixel state.
fn pixel_fill_byte(colour: Pixel) -> (value: u8)
    ensures
        value == fill_byte(colour == Pixel::On),
{
    match colour {
        Pixel::On => 0xFFu8,
        Pixel::Off => 0x00u8,
    }
}

impl Canvas<Pixel> for MonochromeCanvas {
    open spec fn lit(colour: Pixel) -> bool {
        colour == Pixel::On
    }

    fn width(&self) -> (w: usize) {
        self.width
    }

    fn height(&self) -> (h: usize) {
        self.height
    }

    fn data_size(&self) -> (n: usize) {
        self.buffer.len()
    }

    fn data(&self) -> (bytes: &[u8]) {
        self.buffer.as_slice()
    }

    fn is_dirty(&self) -> (d: bool) {
        self.dirty
    }

    fn clear_dirty_flag(&mut self) {
        self.dirty = false;
    }

    fn invert(&mut self) {
        let n = self.buffer.len();
        self.invert_range(0, n);
        self.dirty = true;
    }

    fn invert_row(&mut self, row: usize) {
        proof {
            lemma_row_bounds(row as int, self.width as int, self.buffer@.len() as int);
        }
        let start = row * self.width;
        let end = start + self.width;
        self.invert_range(start, end);
        self.dirty = true;
    }

    fn invert_row_slice(&mut self, row: usize, start_col: usize, end_col: usize) {
        let start = row * self.width + start_col;
        let end = start + (end_col - start_col);
        self.invert_range(start, end);
        self.dirty = true;
    }

    fn fill(&mut self, colour: Pixel) {
        let value = pixel_fill_byte(colour);
        let n = self.buffer.len();
        self.fill_range(0, n, value);
        self.dirty = true;
    }

    fn fill_row(&mut self, row: usize, colour: Pixel) {
        let value = pixel_fill_byte(colour);
        proof {
            lemma_row_bounds(row as int, self.width as int, self.buffer@.len() as int);
        }
        let start = row * self.width;
        let end = start + self.width;
        self.fill_range(start, end, value);
        self.dirty = true;
    }

    fn fill_rows(&mut self, start_row: usize, end_row: usize, colour: Pixel) {
        let value = pixel_fill_byte(colour);
        let start = start_row * self.width;
        let end = end_row * self.width;
        self.fill_range(start, end, value);
        self.dirty = true;
    }

    fn set_pixel(&mut self, x: usize, y: usize, colour: Pixel) {
        let width = self.width;
        let height = self.height;
        if x >= width || y >= height {
            return ;
        }
        proof {
            lemma_byte_index_bound(width as nat, height as nat, x as nat, y as nat);
        }
        assert(y >> 3 == y / 8) by (bit_vector);
        let byte_index = (width * (y >> 3)) + x;
        if byte_index >= self.buffer.len() {
            return ;
        }
        assert(y & 7 == y % 8) by (bit_vector);
        let shift = (y & 7) as u8;
        let mask = 1u8 << shift;
        let byte = self.buffer[byte_index];
        match colour {
            Pixel::On => {
                self.buffer[byte_index] = byte | mask;
            },
            Pixel::Off => {
                self.buffer[byte_index] = byte & !mask;
            },
        }
        self.dirty = true;
    }

    fn pixel(&self, x: usize, y: usize) -> (p: Option<Pixel>)
        ensures
            p == if self@.in_bounds(x as nat, y as nat) {
                Some(
                    if self@.pixel_lit(x as nat, y as nat) {
                        Pixel::On
                    } else {
                        Pixel::Off
                    },
                )
            } else {
                None
            },
    {
        if x >= self.width || y >= self.height {
            return None;
        }
        proof {
            lemma_byte_index_bound(self.width as nat, self.height as nat, x as nat, y as nat);
        }
        assert(y >> 3 == y / 8) by (bit_vector);
        let byte_index = (self.width * (y >> 3)) + x;
        if byte_index >= self.buffer.len() {
            return None;
        }
        assert(y & 7 == y % 8) by (bit_vector);
        let shift = (y & 7) as u8;
        let mask = 1u8 << shift;
        let bit = self.buffer[byte_index] & mask;
        Some(if bit == 0 { Pixel::Off } else { Pixel::On })
    }

    fn copy_from(&mut self, canvas: &Self) {
        self.buffer = slice_to_vec(canvas.data());
        self.dirty = true;
    }

    fn print_char(&mut self, c: char, row: usize, col: usize, font: &Font, colour: Pixel) -> (advance:
        usize) {
        let raw = c as u32;
        if raw < 0x20 || raw > 0x7F {
            return 0;
        }
        let char_idx = (raw - 0x20) as usize;
        let (width, glyph) = font[char_idx];
        let count = width as usize;
        assert(font[char_idx as int].0 <= GLYPH_COLUMNS);
        let ghost before = self@;
        let ghost lit = colour == Pixel::On;
        proof {
            lemma_cell_bounds(
                row as int,
                self.width as int,
                col as int,
                count as int,
                self.buffer@.len() as int,
            );
        }
        let base = (row * self.width) + col;
        let mut slice: usize = 0;
        while slice < count
            invariant
                slice <= count <= GLYPH_COLUMNS,
                base + count <= self.buffer.len(),
                self.width == old(self).width,
                self.height == old(self).height,
                self.dirty == old(self).dirty,
                self.buffer@.len() == before.data.len(),
                lit == (colour == Pixel::On),
                forall|i: int|
                    0 <= i < self.buffer@.len() ==> #[trigger] self.buffer@[i] == if base <= i
                        < base + slice {
                        glyph_byte(glyph[i - base], lit)
                    } else {
                        before.data[i]
                    },
            decreases count - slice,
        {
            let column = glyph[slice];
            let value = match colour {
                Pixel::On => column << 2,
                Pixel::Off => !(column << 2),
            };
            self.buffer[base + slice] = value;
            slice += 1;
        }
        self.dirty = true;
        assert(self@.data =~= before.with_char(c, row as nat, col as nat, *font, lit).data);
        count
    }

    fn vscroll_rows(&mut self, row_start: usize, row_end: usize, direction: Direction) {
        let lower = if row_start <= row_end { row_start } else { row_end };
        let upper = if row_start <= row_end { row_end } else { row_start };
        let width = self.width;
        proof {
            lemma_row_bounds(lower as int, width as int, self.buffer@.len() as int);
            lemma_row_bounds(upper as int, width as int, self.buffer@.len() as int);
            lemma_rows_ordered(lower as int, upper as int, width as int);
        }
        let start = lower * width;
        let end = upper * width;
        let ghost before = self.buffer@;
        match direction {
            Direction::Up => {
                let mut row: usize = end;
                while row > start
                    invariant
                        start <= row <= end,
                        end + width <= self.buffer.len(),
                        self.width == old(self).width,
                        self.height == old(self).height,
                        self.buffer@.len() == before.len(),
                        forall|i: int|
                            0 <= i < self.buffer@.len() ==> #[trigger] self.buffer@[i] == if row
                                + width <= i < end + width {
                                before[i - width]
                            } else {
                                before[i]
                            },
                    decreases row,
                {
                    row -= 1;
                    let byte = self.buffer[row];
                    self.buffer[row + width] = byte;
                }
                self.fill_range(start, start + width, 0);
                assert(self.buffer@ =~= scrolled_up(
                    before,
                    start as int,
                    end as int,
                    width as int,
                ));
            },
            Direction::Down => {
                let mut row: usize = start;
                while row < end
                    invariant
                        start <= row <= end,
                        end + width <= self.buffer.len(),
                        self.width == old(self).width,
                        self.height == old(self).height,
                        self.buffer@.len() == before.len(),
                        forall|i: int|
                            0 <= i < self.buffer@.len() ==> #[trigger] self.buffer@[i] == if start
                                <= i < row {
                                before[i + width]
                            } else {
                                before[i]
                            },
                    decreases end - row,
                {
                    let byte = self.buffer[row + width];
                    self.buffer[row] = byte;
                    row += 1;
                }
                self.fill_range(end, end + width, 0);
                assert(self.buffer@ =~= scrolled_down(
                    before,
                    start as int,
                    end as int,
                    width as int,
                ));
            },
        }
        self.dirty = true;
    }
}

/// A band row that ends inside `len` bytes starts inside them too.
proof fn lemma_row_bounds(row: int, width: int, len: int)
    requires
        0 <= row,
        0 <= width,
        (row + 1) * width <= len,
    ensures
        0 <= row * width,
        row * width + width == (row + 1) * width,
        row * width + width <= len,
{
    assert((row + 1) * width == row * width + width) by (nonlinear_arith);
    assert(0 <= row * width) by (nonlinear_arith)
        requires
            0 <= row,
            0 <= width,
    ;
}

/// Band rows start in the order of their numbers.
proof fn lemma_rows_ordered(lower: int, upper: int, width: int)
    requires
        0 <= lower <= upper,
        0 <= width,
    ensures
        lower * width <= upper * width,
{
    assert(lower * width <= upper * width) by (nonlinear_arith)
        requires
            0 <= lower <= upper,
            0 <= width,
    ;
}

/// The cells of a glyph that fits start inside the buffer.
proof fn lemma_cell_bounds(row: int, width: int, col: int, count: int, len: int)
    requires
        0 <= row,
        0 <= width,
        0 <= col,
        0 <= count,
        row * width + col + count <= len,
    ensures
        0 <= row * width <= len,
{
    assert(0 <= row * width) by (nonlinear_arith)
        requires
            0 <= row,
            0 <= width,
    ;
}

/// The byte index of a pixel on the canvas stays below the number of pixels.
pub proof fn lemma_byte_index_bound(width: nat, height: nat, x: nat, y: nat)
    requires
        x < width,
        y < height,
    ensures
        width * (y / 8) <= width * height,
        byte_index(width, x, y) < width * height,
{
    let band = y / 8;
    assert(band + 1 <= height);
    assert(width * band + width == width * (band + 1)) by (nonlinear_arith);
    assert(width * (band + 1) <= width * height) by (nonlinear_arith)
        requires
            band + 1 <= height,
    ;
    assert(width * band <= width * (band + 1)) by (nonlinear_arith);
}

/// Filling a whole buffer leaves nothing but the fill byte, in a buffer of
/// unchanged length: a lit fill of a canvas gives `width * height / 8`
/// bytes that are all 0xFF.
pub proof fn lemma_fill_covers(v: CanvasView, lit: bool)
    requires
        v.wf(),
    ensures
        filled(v.data, 0, v.data.len() as int, fill_byte(lit)).len() == (v.width * v.height) / 8,
        forall|i: int|
            0 <= i < v.data.len() ==> #[trigger] filled(
                v.data,
                0,
                v.data.len() as int,
                fill_byte(lit),
            )[i] == fill_byte(lit),
        fill_byte(true) == 0xFF,
        fill_byte(false) == 0x00,
{
}

/// Inverting the same range twice restores the buffer exactly.
pub proof fn lemma_invert_involution(data: Seq<u8>, start: int, end: int)
    ensures
        inverted(inverted(data, start, end), start, end) == data,
{
    assert forall|b: u8| !(!b) == b by {
        assert(!(!b) == b) by (bit_vector);
    }
    assert(inverted(inverted(data, start, end), start, end) =~= data);
}

/// Inverting complements every pixel of the range: a pixel is lit after
/// the inversion exactly if it was not lit before.
pub proof fn lemma_invert_flips_pixels(v: CanvasView, x: nat, y: nat)
    requires
        v.in_bounds(x, y),
    ensures
        (CanvasView { data: inverted(v.data, 0, v.data.len() as int), ..v }).pixel_lit(x, y)
            == !v.pixel_lit(x, y),
{
    let byte = v.data[byte_index(v.width, x, y)];
    let shift = (y % 8) as u8;
    assert(((!byte) & (1u8 << shift) != 0) == !(byte & (1u8 << shift) != 0)) by (bit_vector)
        requires
            shift < 8,
    ;
}

/// A pixel that was set reads back as it was set, and every other pixel
/// keeps its state.
pub proof fn lemma_set_then_get(v: CanvasView, x: nat, y: nat, lit: bool, x2: nat, y2: nat)
    requires
        v.in_bounds(x, y),
        v.in_bounds(x2, y2),
    ensures
        ({
            let after = CanvasView {
                data: with_pixel(v.data, byte_index(v.width, x, y), y, lit),
                dirty: true,
                ..v
            };
            &&& after.in_bounds(x2, y2)
            &&& after.pixel_lit(x, y) == lit
            &&& (x2 != x || y2 != y) ==> after.pixel_lit(x2, y2) == v.pixel_lit(x2, y2)
        }),
{
    let index = byte_index(v.width, x, y);
    let index2 = byte_index(v.width, x2, y2);
    let byte = v.data[index];
    let shift = (y % 8) as u8;
    let shift2 = (y2 % 8) as u8;
    assert(((byte | (1u8 << shift)) & (1u8 << shift)) != 0) by (bit_vector)
        requires
            shift < 8,
    ;
    assert(((byte & !(1u8 << shift)) & (1u8 << shift)) == 0) by (bit_vector)
        requires
            shift < 8,
    ;
    if x2 != x || y2 != y {
        if index2 == index {
            assert(x2 == x && y2 / 8 == y / 8) by (nonlinear_arith)
                requires
                    v.width * (y2 / 8) + x2 == v.width * (y / 8) + x,
                    x < v.width,
                    x2 < v.width,
            ;
            assert(shift2 != shift);
            assert(((byte | (1u8 << shift)) & (1u8 << shift2)) == (byte & (1u8 << shift2)))
                by (bit_vector)
                requires
                    shift < 8,
                    shift2 < 8,
                    shift != shift2,
            ;
            assert(((byte & !(1u8 << shift)) & (1u8 << shift2)) == (byte & (1u8 << shift2)))
                by (bit_vector)
                requires
                    shift < 8,
                    shift2 < 8,
                    shift != shift2,
            ;
        }
    }
}

/// On a canvas whose height is a multiple of eight every pixel position
/// inside the width and the height has a byte behind it.
pub proof fn lemma_whole_bands_in_bounds(v: CanvasView, x: nat, y: nat)
    requires
        v.wf(),
        v.height % 8 == 0,
    ensures
        v.in_bounds(x, y) <==> x < v.width && y < v.height,
{
    if x < v.width && y < v.height {
        let bands = v.height / 8;
        let band = y / 8;
        assert(band + 1 <= bands);
        assert(v.width * v.height == (v.width * bands) * 8) by (nonlinear_arith)
            requires
                v.height == bands * 8,
        ;
        assert(v.width * band + v.width <= v.width * bands) by (nonlinear_arith)
            requires
                band + 1 <= bands,
        ;
    }
}

} // verus!
