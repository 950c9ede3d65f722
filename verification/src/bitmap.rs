//! Cut down bitmap loader.
//!
//! Reads uncompressed version 4 bitmaps, three bytes to a pixel. Colour
//! space information is ignored, and pixels are handed out with the origin
//! at the top left.

use byteorder::{ByteOrder, LittleEndian};
use vstd::prelude::*;
use vstd::slice::slice_subrange;

verus! {

/// The bitmap signature, "BM" read as a little-endian number.
pub const SIGNATURE: u16 = 0x4D42;

/// Size of the signature in bytes.
pub const SIGNATURE_SIZE: usize = 2;

/// Offset behind the file header: signature, file size, reserved word and
/// offset of the pixel data.
pub const FILE_HEADER_END: usize = 14;

/// Offset behind the version field of the image header.
pub const VERSION_END: usize = 18;

/// Offset behind the compression field of the image header.
pub const COMPRESSION_END: usize = 34;

/// Offset behind the part of the image header that is read.
pub const HEADER_END: usize = 54;

/// Header size that marks a version 4 image header.
pub const VERSION_FOUR: u32 = 108;

/// Potential errors loading images.
#[derive(Debug, Copy, Clone, PartialEq, Eq, Structural)]
pub enum Error {
    /// The input ended inside a header field.
    IOError,
    /// Bitmap signature is invalid or unsupported.
    InvalidSignature,
    /// Invalid or unsupported bitmap format version.
    UnsupportedFileVersion,
    /// Invalid or unsupported compression method.
    UnsupportedCompressionMethod,
    /// Invalid or unsupported number of bits per pixel.
    UnsupportedBitDepth,
}

/// Version of the image header.
#[derive(Debug, Copy, Clone, PartialEq, Eq, Structural)]
pub enum BitmapVersion {
    Four,
}

impl BitmapVersion {
    /// The version that a header size stands for: 108 is version four,
    /// nothing else is supported.
    pub fn from_u32(v: u32) -> (result: Result<BitmapVersion, Error>)
        ensures
            result == if v == VERSION_FOUR {
                Ok::<BitmapVersion, Error>(BitmapVersion::Four)
            } else {
                Err(Error::UnsupportedFileVersion)
            },
    {
        if v == 108 {
            Ok(BitmapVersion::Four)
        } else {
            Err(Error::UnsupportedFileVersion)
        }
    }
}

/// Compression of the pixel data.
#[derive(Debug, Copy, Clone, PartialEq, Eq, Structural)]
pub enum CompressionMethod {
    /// The pixel data is not compressed.
    Uncompressed,
}

impl CompressionMethod {
    /// The method that a compression field stands for: 0 is no
    /// compression, nothing else is supported.
    pub fn from_u32(v: u32) -> (result: Result<CompressionMethod, Error>)
        ensures
            result == if v == 0 {
                Ok::<CompressionMethod, Error>(CompressionMethod::Uncompressed)
            } else {
                Err(Error::UnsupportedCompressionMethod)
            },
    {
        if v == 0 {
            Ok(CompressionMethod::Uncompressed)
        } else {
            Err(Error::UnsupportedCompressionMethod)
        }
    }
}

/// The number that two bytes hold in little-endian order.
pub open spec fn le_u16(bytes: Seq<u8>) -> u16 {
    (bytes[0] + 256 * bytes[1]) as u16
}

/// The number that four bytes hold in little-endian order.
pub open spec fn le_u32(bytes: Seq<u8>) -> u32 {
    (bytes[0] + 256 * bytes[1] + 65536 * bytes[2] + 16777216 * bytes[3]) as u32
}

/// The signed number that four bytes hold in little-endian order, in two's
/// complement.
pub open spec fn le_i32(bytes: Seq<u8>) -> i32 {
    if le_u32(bytes) < 0x8000_0000 {
        le_u32(bytes) as i32
    } else {
        (le_u32(bytes) - 0x1_0000_0000) as i32
    }
}

/// The 16-bit field at offset `at`.
pub open spec fn field_u16(bytes: Seq<u8>, at: int) -> u16 {
    le_u16(bytes.subrange(at, at + 2))
}

/// The 32-bit field at offset `at`.
pub open spec fn field_u32(bytes: Seq<u8>, at: int) -> u32 {
    le_u32(bytes.subrange(at, at + 4))
}

/// The signed 32-bit field at offset `at`.
pub open spec fn field_i32(bytes: Seq<u8>, at: int) -> i32 {
    le_i32(bytes.subrange(at, at + 4))
}

/// The absolute value of a number.
pub open spec fn magnitude(v: int) -> int {
    if v < 0 {
        -v
    } else {
        v
    }
}

/// `byteorder::ByteOrder::read_u16` of `LittleEndian`: the first two bytes
/// as a little-endian number. It panics on fewer than two bytes.
#[verifier::external_body]
fn read_le_u16(bytes: &[u8]) -> (value: u16)
    requires
        bytes@.len() >= 2,
    ensures
        value == le_u16(bytes@),
{
    LittleEndian::read_u16(bytes)
}

/// `byteorder::ByteOrder::read_u32` of `LittleEndian`: the first four bytes
/// as a little-endian number. It panics on fewer than four bytes.
#[verifier::external_body]
fn read_le_u32(bytes: &[u8]) -> (value: u32)
    requires
        bytes@.len() >= 4,
    ensures
        value == le_u32(bytes@),
{
    LittleEndian::read_u32(bytes)
}

/// `byteorder::ByteOrder::read_i32` of `LittleEndian`: the first four bytes
/// as a little-endian number in two's complement. It panics on fewer than
/// four bytes.
#[verifier::external_body]
fn read_le_i32(bytes: &[u8]) -> (value: i32)
    requires
        bytes@.len() >= 4,
    ensures
        value == le_i32(bytes@),
{
    LittleEndian::read_i32(bytes)
}

/// Read the 16-bit field at offset `at`; the input must hold all of it.
fn take_u16(buffer: &[u8], at: usize) -> (result: Result<u16, Error>)
    requires
        at <= 64,
    ensures
        result == if buffer@.len() < at + 2 {
            Err::<u16, Error>(Error::IOError)
        } else {
            Ok(field_u16(buffer@, at as int))
        },
{
    if buffer.len() < at + 2 {
        return Err(Error::IOError);
    }
    Ok(read_le_u16(slice_subrange(buffer, at, at + 2)))
}

/// Read the 32-bit field at offset `at`; the input must hold all of it.
fn take_u32(buffer: &[u8], at: usize) -> (result: Result<u32, Error>)
    requires
        at <= 64,
    ensures
        result == if buffer@.len() < at + 4 {
            Err::<u32, Error>(Error::IOError)
        } else {
            Ok(field_u32(buffer@, at as int))
        },
{
    if buffer.len() < at + 4 {
        return Err(Error::IOError);
    }
    Ok(read_le_u32(slice_subrange(buffer, at, at + 4)))
}

/// Read the signed 32-bit field at offset `at`; the input must hold all of
/// it.
fn take_i32(buffer: &[u8], at: usize) -> (result: Result<i32, Error>)
    requires
        at <= 64,
    ensures
        result == if buffer@.len() < at + 4 {
            Err::<i32, Error>(Error::IOError)
        } else {
            Ok(field_i32(buffer@, at as int))
        },
{
    if buffer.len() < at + 4 {
        return Err(Error::IOError);
    }
    Ok(read_le_i32(slice_subrange(buffer, at, at + 4)))
}

/// The header of the file: its size and where the pixel data starts.
#[derive(Debug, Copy, Clone, PartialEq, Eq, Structural)]
pub struct FileHeader {
    pub file_size: u32,
    pub pixel_data_offset: u32,
}

/// The file header that the bytes hold behind the signature.
pub open spec fn file_header_of(bytes: Seq<u8>) -> FileHeader {
    FileHeader { file_size: field_u32(bytes, 2), pixel_data_offset: field_u32(bytes, 10) }
}

impl FileHeader {
    /// Read the file header, which follows the signature.
    pub fn read(buffer: &[u8]) -> (result: Result<Self, Error>)
        ensures
            result == if buffer@.len() < FILE_HEADER_END {
                Err::<FileHeader, Error>(Error::IOError)
            } else {
                Ok(file_header_of(buffer@))
            },
    {
        let file_size = take_u32(buffer, 2)?;
        take_u32(buffer, 6)?;
        Ok(FileHeader { file_size, pixel_data_offset: take_u32(buffer, 10)? })
    }
}

/// The header of the image.
#[derive(Debug, Copy, Clone, PartialEq, Eq, Structural)]
pub struct DIBHeader {
    pub version: BitmapVersion,
    pub width: i32,
    pub height: i32,
    pub planes: u16,
    pub bits_per_pixel: u16,
    pub compression: CompressionMethod,
    pub data_size: u32,
    pub x_ppm: u32,
    pub y_ppm: u32,
    pub colour_count: u32,
    pub important_colour_count: u32,
}

/// The image header that the bytes hold behind the file header.
pub open spec fn dib_header_of(bytes: Seq<u8>) -> DIBHeader {
    DIBHeader {
        version: BitmapVersion::Four,
        width: field_i32(bytes, 18),
        height: field_i32(bytes, 22),
        planes: field_u16(bytes, 26),
        bits_per_pixel: field_u16(bytes, 28),
        compression: CompressionMethod::Uncompressed,
        data_size: field_u32(bytes, 34),
        x_ppm: field_u32(bytes, 38),
        y_ppm: field_u32(bytes, 42),
        colour_count: field_u32(bytes, 46),
        important_colour_count: field_u32(bytes, 50),
    }
}

/// Whether the bytes hold an image header that can be read: the fields
/// are taken in order, and the first that is cut short or not supported
/// decides the error.
pub open spec fn dib_header_result(bytes: Seq<u8>) -> Result<(), Error> {
    if bytes.len() < VERSION_END {
        Err(Error::IOError)
    } else if field_u32(bytes, 14) != VERSION_FOUR {
        Err(Error::UnsupportedFileVersion)
    } else if bytes.len() < COMPRESSION_END {
        Err(Error::IOError)
    } else if field_u32(bytes, 30) != 0 {
        Err(Error::UnsupportedCompressionMethod)
    } else if bytes.len() < HEADER_END {
        Err(Error::IOError)
    } else {
        Ok(())
    }
}

/// Whether a number of bits per pixel is supported.
pub open spec fn depth_supported(bits_per_pixel: u16) -> bool {
    bits_per_pixel == 4 || bits_per_pixel == 8 || bits_per_pixel == 24
}

/// Whether the bytes start with headers that can be read, and if not, why:
/// the signature, the file header and the image header are taken in order,
/// then the bit depth is checked.
pub open spec fn header_result(bytes: Seq<u8>) -> Result<(), Error> {
    if bytes.len() < SIGNATURE_SIZE {
        Err(Error::IOError)
    } else if field_u16(bytes, 0) != SIGNATURE {
        Err(Error::InvalidSignature)
    } else if bytes.len() < FILE_HEADER_END {
        Err(Error::IOError)
    } else if dib_header_result(bytes) is Err {
        dib_header_result(bytes)
    } else if !depth_supported(field_u16(bytes, 28)) {
        Err(Error::UnsupportedBitDepth)
    } else {
        Ok(())
    }
}

impl DIBHeader {
    /// Read the image header, which follows the file header.
    pub fn read(buffer: &[u8]) -> (result: Result<Self, Error>)
        ensures
            result == match dib_header_result(buffer@) {
                Ok(_) => Ok::<DIBHeader, Error>(dib_header_of(buffer@)),
                Err(error) => Err(error),
            },
    {
        Ok(
            DIBHeader {
                version: BitmapVersion::from_u32(take_u32(buffer, 14)?)?,
                width: take_i32(buffer, 18)?,
                height: take_i32(buffer, 22)?,
                planes: take_u16(buffer, 26)?,
                bits_per_pixel: take_u16(buffer, 28)?,
                compression: CompressionMethod::from_u32(take_u32(buffer, 30)?)?,
                data_size: take_u32(buffer, 34)?,
                x_ppm: take_u32(buffer, 38)?,
                y_ppm: take_u32(buffer, 42)?,
                colour_count: take_u32(buffer, 46)?,
                important_colour_count: take_u32(buffer, 50)?,
            },
        )
    }

    /// Number of pixels of the image.
    pub fn pixel_data_size(&self) -> (size: usize)
        requires
            magnitude(self.width as int) * magnitude(self.height as int) <= usize::MAX,
        ensures
            size == magnitude(self.width as int) * magnitude(self.height as int),
    {
        let width = magnitude_of(self.width);
        let height = magnitude_of(self.height);
        assert(width * height <= 0x8000_0000 * 0x8000_0000) by (nonlinear_arith)
            requires
                0 <= width <= 0x8000_0000,
                0 <= height <= 0x8000_0000,
        ;
        (width * height) as usize
    }

    /// Number of bytes that pad each row of pixels.
    pub fn pixel_data_padding(&self) -> (padding: i64)
        ensures
            padding == magnitude(self.width as int) % 4,
    {
        (magnitude_of(self.width) % 4) as i64
    }
}

/// The absolute value of a number.
fn magnitude_of(v: i32) -> (m: u64)
    ensures
        m == magnitude(v as int),
        m <= 0x8000_0000,
{
    let wide = v as i64;
    if wide < 0 {
        (-wide) as u64
    } else {
        wide as u64
    }
}

/// A pixel of an image.
#[derive(Debug, Eq, PartialEq, Copy, Clone, Structural)]
pub struct Colour {
    pub red: u8,
    pub green: u8,
    pub blue: u8,
}

/// Where the reading of pixel data stands: the position in the input and
/// the three bytes last read, blue first.
pub struct Scan {
    pub pos: int,
    pub last: (u8, u8, u8),
}

/// Number of bytes that a read of three bytes at `pos` brings: as many as
/// the input still holds, three at most.
pub open spec fn available(bytes: Seq<u8>, pos: int) -> int {
    if pos >= bytes.len() {
        0
    } else if bytes.len() - pos >= 3 {
        3
    } else {
        bytes.len() - pos
    }
}

/// The colour that three bytes, blue first, stand for.
pub open spec fn colour_of(last: (u8, u8, u8)) -> Colour {
    Colour { red: last.2, green: last.1, blue: last.0 }
}

impl Scan {
    /// The state after one pixel was read: the bytes that the input still
    /// holds replace the first of the three, the others stay as they were.
    pub open spec fn pixel(self, bytes: Seq<u8>) -> Scan {
        let count = available(bytes, self.pos);
        Scan {
            pos: self.pos + count,
            last: (
                if count >= 1 {
                    bytes[self.pos]
                } else {
                    self.last.0
                },
                if count >= 2 {
                    bytes[self.pos + 1]
                } else {
                    self.last.1
                },
                if count >= 3 {
                    bytes[self.pos + 2]
                } else {
                    self.last.2
                },
            ),
        }
    }

    /// The state after `count` pixels of a row were read.
    pub open spec fn pixels(self, bytes: Seq<u8>, count: int) -> Scan
        decreases count,
    {
        if count <= 0 {
            self
        } else {
            self.pixels(bytes, count - 1).pixel(bytes)
        }
    }

    /// The colours of the first `count` pixels of a row.
    pub open spec fn row_colours(self, bytes: Seq<u8>, count: int) -> Seq<Colour>
        decreases count,
    {
        if count <= 0 {
            Seq::empty()
        } else {
            self.row_colours(bytes, count - 1).push(colour_of(self.pixels(bytes, count).last))
        }
    }

    /// The state after a whole row of `width` pixels and its padding.
    pub open spec fn row(self, bytes: Seq<u8>, width: int, padding: int) -> Scan {
        Scan { pos: self.pixels(bytes, width).pos + padding, ..self.pixels(bytes, width) }
    }

    /// The state after `count` rows.
    pub open spec fn rows(self, bytes: Seq<u8>, width: int, padding: int, count: int) -> Scan
        decreases count,
    {
        if count <= 0 {
            self
        } else {
            self.rows(bytes, width, padding, count - 1).row(bytes, width, padding)
        }
    }

    /// The colours of the first `count` rows, row after row.
    pub open spec fn rows_colours(
        self,
        bytes: Seq<u8>,
        width: int,
        padding: int,
        count: int,
    ) -> Seq<Colour>
        decreases count,
    {
        if count <= 0 {
            Seq::empty()
        } else {
            self.rows_colours(bytes, width, padding, count - 1) + self.rows(
                bytes,
                width,
                padding,
                count - 1,
            ).row_colours(bytes, width)
        }
    }
}

/// The pixel data that the bytes hold for an image header: from the offset
/// on, `height` rows of `width` pixels of three bytes, blue first, each row
/// followed by its padding. Where the input ends early, the bytes that are
/// missing keep the value they had in the pixel before.
pub open spec fn pixel_data(bytes: Seq<u8>, offset: u32, header: DIBHeader) -> Seq<Colour> {
    (Scan { pos: offset as int, last: (0, 0, 0) }).rows_colours(
        bytes,
        header.width as int,
        magnitude(header.width as int) % 4,
        header.height as int,
    )
}

/// What a bitmap holds: its size and its pixels, row after row as the
/// file has them.
pub struct BitmapView {
    pub width: int,
    pub height: int,
    pub pixels: Seq<Colour>,
}

impl BitmapView {
    /// The size is not negative and there is one pixel for each position.
    pub open spec fn wf(self) -> bool {
        &&& 0 <= self.width <= i32::MAX
        &&& 0 <= self.height <= i32::MAX
        &&& self.pixels.len() == self.width * self.height
    }

    /// The pixel at column `x` of row `y`, counted from the top left; the
    /// file has the bottom row first.
    pub open spec fn pixel(self, x: int, y: int) -> Colour {
        self.pixels[(self.height - y - 1) * self.width + x]
    }
}

/// A bitmap image.
pub struct Bitmap {
    pub file_header: FileHeader,
    pub dib_header: DIBHeader,
    pixel_buffer: Vec<Colour>,
}

impl View for Bitmap {
    type V = BitmapView;

    closed spec fn view(&self) -> BitmapView {
        BitmapView {
            width: self.dib_header.width as int,
            height: self.dib_header.height as int,
            pixels: self.pixel_buffer@,
        }
    }
}

impl Bitmap {
    /// Read a bitmap out of the bytes of a file.
    pub fn read_from_buffer(buffer: Vec<u8>) -> (result: Result<Self, Error>)
        ensures
            match result {
                Ok(bitmap) => {
                    &&& header_result(buffer@) is Ok
                    &&& bitmap@ == (BitmapView {
                        width: dib_header_of(buffer@).width as int,
                        height: dib_header_of(buffer@).height as int,
                        pixels: pixel_data(
                            buffer@,
                            file_header_of(buffer@).pixel_data_offset,
                            dib_header_of(buffer@),
                        ),
                    })
                    &&& bitmap@.width >= 0 && bitmap@.height >= 0 ==> bitmap@.wf()
                },
                Err(error) => header_result(buffer@) == Err::<(), Error>(error),
            },
    {
        let bytes = buffer.as_slice();
        check_signature(bytes)?;
        let file_header = FileHeader::read(bytes)?;
        let dib_header = DIBHeader::read(bytes)?;
        // Check on supported bbp are in this file.
        match dib_header.bits_per_pixel {
            4 | 8 | 24 => (),
            _ => return Err(Error::UnsupportedBitDepth),
        }
        let data = read_pixel_data(bytes, file_header.pixel_data_offset, &dib_header);
        proof {
            if dib_header.width >= 0 && dib_header.height >= 0 {
                lemma_rows_colours_len(
                    Scan { pos: file_header.pixel_data_offset as int, last: (0, 0, 0) },
                    bytes@,
                    dib_header.width as int,
                    magnitude(dib_header.width as int) % 4,
                    dib_header.height as int,
                );
            }
        }
        Ok(Bitmap { file_header, dib_header, pixel_buffer: data })
    }

    /// Whether the size is not negative and there is a pixel for each
    /// position.
    pub fn is_well_formed(&self) -> (ok: bool)
        ensures
            ok == self@.wf(),
    {
        if self.dib_header.width < 0 || self.dib_header.height < 0 {
            return false;
        }
        let width = self.dib_header.width as u64;
        let height = self.dib_header.height as u64;
        assert(width * height <= 0x8000_0000 * 0x8000_0000) by (nonlinear_arith)
            requires
                0 <= width <= 0x8000_0000,
                0 <= height <= 0x8000_0000,
        ;
        self.pixel_buffer.len() as u64 == width * height
    }

    /// Width of the image in pixels.
    pub fn width(&self) -> (w: usize)
        ensures
            w == magnitude(self@.width),
    {
        magnitude_of(self.dib_header.width) as usize
    }

    /// Height of the image in pixels.
    pub fn height(&self) -> (h: usize)
        ensures
            h == magnitude(self@.height),
    {
        magnitude_of(self.dib_header.height) as usize
    }

    /// The pixel at column `x` of row `y`, counted from the top left.
    pub fn pixel(&self, x: usize, y: usize) -> (colour: Colour)
        requires
            self@.wf(),
            x < self@.width,
            y < self@.height,
        ensures
            colour == self@.pixel(x as int, y as int),
    {
        // Inverts the buffer so origin is top-left
        let height = self.height();
        let width = self.width();
        proof {
            lemma_pixel_offset(width as int, height as int, x as int, y as int);
        }
        assert(width * height == self.pixel_buffer.len());
        let offset = ((height - y - 1) * width) + x;
        self.pixel_buffer[offset]
    }
}

/// Check for the bitmap signature value.
pub fn check_signature(buffer: &[u8]) -> (result: Result<(), Error>)
    ensures
        result == if buffer@.len() < SIGNATURE_SIZE {
            Err::<(), Error>(Error::IOError)
        } else if field_u16(buffer@, 0) != SIGNATURE {
            Err(Error::InvalidSignature)
        } else {
            Ok(())
        },
{
    let signature = take_u16(buffer, 0)?;
    if signature == SIGNATURE {
        Ok(())
    } else {
        Err(Error::InvalidSignature)
    }
}

/// Read in the pixel data, three bytes to a pixel.
pub fn read_pixel_data(buffer: &[u8], offset: u32, dib_header: &DIBHeader) -> (data: Vec<Colour>)
    ensures
        data@ == pixel_data(buffer@, offset, *dib_header),
{
    let len = buffer.len();
    let across = magnitude_of(dib_header.width);
    let down = magnitude_of(dib_header.height);
    assert(across * down <= 0x8000_0000 * 0x8000_0000) by (nonlinear_arith)
        requires
            0 <= across <= 0x8000_0000,
            0 <= down <= 0x8000_0000,
    ;
    let mut data: Vec<Colour> = if across * down <= usize::MAX as u64 {
        Vec::with_capacity(dib_header.pixel_data_size())
    } else {
        Vec::new()
    };
    let padding = dib_header.pixel_data_padding() as usize;
    let ghost start = Scan { pos: offset as int, last: (0, 0, 0) };
    let ghost width = dib_header.width as int;
    let ghost gap = magnitude(width) % 4;
    // The position never moves back, and what lies behind the end of the
    // input is all alike: it is enough to follow it up to the end.
    let mut pos: usize = if (offset as usize) < len {
        offset as usize
    } else {
        len
    };
    let mut pixels: [u8; 3] = [0u8;3];
    let mut row: i32 = 0;
    while row < dib_header.height
        invariant
            len == buffer@.len(),
            width == dib_header.width,
            gap == magnitude(width) % 4,
            padding == gap,
            0 <= row,
            row <= dib_header.height || row == 0,
            pos <= len,
            pos == clamp(start.rows(buffer@, width, gap, row as int).pos, len as int),
            (pixels[0], pixels[1], pixels[2]) == start.rows(buffer@, width, gap, row as int).last,
            data@ == start.rows_colours(buffer@, width, gap, row as int),
        decreases dib_header.height - row,
    {
        let ghost row_start = start.rows(buffer@, width, gap, row as int);
        let mut column: i32 = 0;
        while column < dib_header.width
            invariant
                len == buffer@.len(),
                width == dib_header.width,
                0 <= column,
                column <= dib_header.width || column == 0,
                pos <= len,
                pos == clamp(row_start.pixels(buffer@, column as int).pos, len as int),
                (pixels[0], pixels[1], pixels[2]) == row_start.pixels(
                    buffer@,
                    column as int,
                ).last,
                data@ == start.rows_colours(buffer@, width, gap, row as int)
                    + row_start.row_colours(buffer@, column as int),
            decreases dib_header.width - column,
        {
            let count = if len - pos >= 3 {
                3
            } else {
                len - pos
            };
            if count >= 1 {
                pixels[0] = buffer[pos];
            }
            if count >= 2 {
                pixels[1] = buffer[pos + 1];
            }
            if count >= 3 {
                pixels[2] = buffer[pos + 2];
            }
            pos = pos + count;
            data.push(Colour { red: pixels[2], green: pixels[1], blue: pixels[0] });
            column += 1;
            assert(data@ =~= start.rows_colours(buffer@, width, gap, row as int)
                + row_start.row_colours(buffer@, column as int));
        }
        proof {
            if dib_header.width <= 0 {
                assert(row_start.row_colours(buffer@, width) =~= Seq::<Colour>::empty());
                assert(row_start.row_colours(buffer@, 0) =~= Seq::<Colour>::empty());
                assert(row_start.pixels(buffer@, width) == row_start);
                assert(row_start.pixels(buffer@, 0) == row_start);
            }
            assert(data@ =~= start.rows_colours(buffer@, width, gap, row + 1));
        }
        pos = if len - pos < padding {
            len
        } else {
            pos + padding
        };
        row += 1;
    }
    proof {
        if dib_header.height <= 0 {
            assert(start.rows_colours(buffer@, width, gap, dib_header.height as int)
                =~= Seq::<Colour>::empty());
            assert(start.rows_colours(buffer@, width, gap, 0) =~= Seq::<Colour>::empty());
        }
    }
    data
}

/// A position, followed no further than the end of the input.
pub open spec fn clamp(pos: int, len: int) -> int {
    if pos < len {
        pos
    } else {
        len
    }
}

/// Rows of pixels hold as many colours as the image has positions.
pub proof fn lemma_rows_colours_len(start: Scan, bytes: Seq<u8>, width: int, padding: int, count: int)
    requires
        0 <= width,
        0 <= count,
    ensures
        start.rows_colours(bytes, width, padding, count).len() == width * count,
    decreases count,
{
    if count > 0 {
        lemma_rows_colours_len(start, bytes, width, padding, count - 1);
        lemma_row_colours_len(start.rows(bytes, width, padding, count - 1), bytes, width);
        assert(width * (count - 1) + width == width * count) by (nonlinear_arith);
    } else {
        assert(width * count == 0) by (nonlinear_arith)
            requires
                count == 0,
        ;
    }
}

/// A row of pixels holds as many colours as it has pixels.
pub proof fn lemma_row_colours_len(start: Scan, bytes: Seq<u8>, count: int)
    requires
        0 <= count,
    ensures
        start.row_colours(bytes, count).len() == count,
    decreases count,
{
    if count > 0 {
        lemma_row_colours_len(start, bytes, count - 1);
    }
}

/// The offset of a pixel inside the image lies inside the pixel buffer.
proof fn lemma_pixel_offset(width: int, height: int, x: int, y: int)
    requires
        0 <= x < width,
        0 <= y < height,
    ensures
        0 <= (height - y - 1) * width,
        (height - y - 1) * width + x < width * height,
{
    let row = height - y - 1;
    assert(0 <= row * width) by (nonlinear_arith)
        requires
            0 <= row,
            0 <= width,
    ;
    assert(row * width + width <= width * height) by (nonlinear_arith)
        requires
            row + 1 <= height,
            0 <= width,
    ;
}

/// The colour that the three bytes at `at` stand for, blue first.
pub open spec fn colour_at(bytes: Seq<u8>, at: int) -> Colour {
    Colour { red: bytes[at + 2], green: bytes[at + 1], blue: bytes[at] }
}

/// Where the input holds all the bytes of `count` pixels from the position
/// on, each pixel is made of its own three bytes and the position moves on
/// by three bytes a pixel.
pub proof fn lemma_whole_pixels(start: Scan, bytes: Seq<u8>, count: int)
    requires
        0 <= start.pos,
        0 <= count,
        start.pos + 3 * count <= bytes.len(),
    ensures
        start.pixels(bytes, count).pos == start.pos + 3 * count,
        start.row_colours(bytes, count).len() == count,
        forall|column: int|
            0 <= column < count ==> #[trigger] start.row_colours(bytes, count)[column]
                == colour_at(bytes, start.pos + 3 * column),
    decreases count,
{
    if count > 0 {
        lemma_whole_pixels(start, bytes, count - 1);
        let before = start.pixels(bytes, count - 1);
        assert(available(bytes, before.pos) == 3);
        assert(colour_of(before.pixel(bytes).last) == colour_at(bytes, before.pos));
    }
}

/// Where the input holds all the pixel data of an image of `width` by
/// `count` pixels, the pixel in column `x` of the row that the file has at
/// place `row` is made of the three bytes that lie `row` strides of
/// `3 * width + padding` bytes and `x` pixels behind the start.
pub proof fn lemma_whole_rows(
    start: Scan,
    bytes: Seq<u8>,
    width: int,
    padding: int,
    count: int,
    row: int,
    x: int,
)
    requires
        0 <= start.pos,
        0 <= width,
        0 <= padding,
        0 <= row < count,
        0 <= x < width,
        start.pos + count * (3 * width + padding) <= bytes.len() + padding,
    ensures
        start.rows(bytes, width, padding, count).pos == start.pos + count * (3 * width + padding),
        start.rows_colours(bytes, width, padding, count).len() == width * count,
        0 <= row * width + x < width * count,
        start.rows_colours(bytes, width, padding, count)[row * width + x] == colour_at(
            bytes,
            start.pos + row * (3 * width + padding) + 3 * x,
        ),
    decreases count,
{
    let stride = 3 * width + padding;
    lemma_rows_colours_len(start, bytes, width, padding, count);
    lemma_rows_colours_len(start, bytes, width, padding, count - 1);
    assert((count - 1) * stride + stride == count * stride) by (nonlinear_arith);
    assert(0 <= (count - 1) * stride) by (nonlinear_arith)
        requires
            0 <= count - 1,
            0 <= stride,
    ;
    assert(width * (count - 1) + width == width * count) by (nonlinear_arith);
    assert(row * width + x < width * count && 0 <= row * width) by (nonlinear_arith)
        requires
            0 <= row,
            row + 1 <= count,
            0 <= x < width,
    ;
    lemma_rows_position(start, bytes, width, padding, count - 1);
    let last = start.rows(bytes, width, padding, count - 1);
    lemma_whole_pixels(last, bytes, width);
    if row < count - 1 {
        lemma_whole_rows(start, bytes, width, padding, count - 1, row, x);
    } else {
        assert(row * width == width * (count - 1)) by (nonlinear_arith)
            requires
                row == count - 1,
        ;
        assert(row * stride == (count - 1) * stride);
    }
}

/// Where the input holds all the pixel data of `count` rows, the position
/// behind them lies `count` strides behind the start.
pub proof fn lemma_rows_position(start: Scan, bytes: Seq<u8>, width: int, padding: int, count: int)
    requires
        0 <= start.pos,
        0 <= width,
        0 <= padding,
        0 <= count,
        start.pos + count * (3 * width + padding) <= bytes.len() + padding || count == 0,
    ensures
        start.rows(bytes, width, padding, count).pos == start.pos + count * (3 * width + padding),
    decreases count,
{
    let stride = 3 * width + padding;
    if count > 0 {
        assert((count - 1) * stride + stride == count * stride) by (nonlinear_arith);
        assert(0 <= (count - 1) * stride) by (nonlinear_arith)
            requires
                0 <= count - 1,
                0 <= stride,
        ;
        lemma_rows_position(start, bytes, width, padding, count - 1);
        lemma_whole_pixels(start.rows(bytes, width, padding, count - 1), bytes, width);
    } else {
        assert(count * stride == 0) by (nonlinear_arith)
            requires
                count == 0,
        ;
    }
}

/// A bitmap whose file holds all of its pixel data has, at column `x` of
/// row `y` counted from the top left, the pixel whose three bytes the file
/// holds for column `x` of its row `height - 1 - y`: the file has the
/// bottom row first.
pub proof fn lemma_pixel_of_whole_file(bytes: Seq<u8>, x: int, y: int)
    requires
        header_result(bytes) is Ok,
        0 <= x < dib_header_of(bytes).width,
        0 <= y < dib_header_of(bytes).height,
        file_header_of(bytes).pixel_data_offset + dib_header_of(bytes).height * (3 * dib_header_of(
            bytes,
        ).width + dib_header_of(bytes).width % 4) <= bytes.len() + dib_header_of(bytes).width % 4,
    ensures
        (BitmapView {
            width: dib_header_of(bytes).width as int,
            height: dib_header_of(bytes).height as int,
            pixels: pixel_data(
                bytes,
                file_header_of(bytes).pixel_data_offset,
                dib_header_of(bytes),
            ),
        }).pixel(x, y) == colour_at(
            bytes,
            file_header_of(bytes).pixel_data_offset + (dib_header_of(bytes).height - 1 - y) * (3
                * dib_header_of(bytes).width + dib_header_of(bytes).width % 4) + 3 * x,
        ),
{
    let header = dib_header_of(bytes);
    let start = Scan { pos: file_header_of(bytes).pixel_data_offset as int, last: (0, 0, 0) };
    lemma_whole_rows(
        start,
        bytes,
        header.width as int,
        (header.width % 4) as int,
        header.height as int,
        header.height - 1 - y,
        x,
    );
}

} // verus!
