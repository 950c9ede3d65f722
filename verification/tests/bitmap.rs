use maschine::bitmap::{
    check_signature, read_pixel_data, Bitmap, BitmapVersion, Colour, CompressionMethod, DIBHeader,
    Error, FileHeader,
};
use maschine::font_gen::{generate_glyphs, Glyph};

const BLACK: Colour = Colour { red: 0, green: 0, blue: 0 };
const WHITE: Colour = Colour { red: 0xFF, green: 0xFF, blue: 0xFF };
const RED: Colour = Colour { red: 0xFF, green: 0, blue: 0 };

fn le32(v: u32) -> [u8; 4] {
    [v as u8, (v >> 8) as u8, (v >> 16) as u8, (v >> 24) as u8]
}

fn header(width: i32, height: i32, bits: u16, offset: u32) -> Vec<u8> {
    let mut bytes = vec![0x42u8, 0x4D];
    bytes.extend_from_slice(&le32(0x1234));
    bytes.extend_from_slice(&le32(0));
    bytes.extend_from_slice(&le32(offset));
    bytes.extend_from_slice(&le32(108));
    bytes.extend_from_slice(&le32(width as u32));
    bytes.extend_from_slice(&le32(height as u32));
    bytes.extend_from_slice(&[1, 0]);
    bytes.extend_from_slice(&[bits as u8, (bits >> 8) as u8]);
    bytes.extend_from_slice(&le32(0));
    bytes.extend_from_slice(&le32(0x0102_0304));
    bytes.extend_from_slice(&le32(2835));
    bytes.extend_from_slice(&le32(2836));
    bytes.extend_from_slice(&le32(7));
    bytes.extend_from_slice(&le32(9));
    assert_eq!(bytes.len(), 54);
    bytes
}

/// A bitmap of `rows`, given top row first, written bottom row first with
/// its padding as the file format has it.
fn image(rows: &[Vec<Colour>]) -> Vec<u8> {
    let width = rows[0].len();
    let mut bytes = header(width as i32, rows.len() as i32, 24, 60);
    bytes.extend_from_slice(&[0xEE; 6]);
    for row in rows.iter().rev() {
        for pixel in row {
            bytes.extend_from_slice(&[pixel.blue, pixel.green, pixel.red]);
        }
        for _ in 0..(width % 4) {
            bytes.push(0xDD);
        }
    }
    bytes
}

fn error_of(bytes: Vec<u8>) -> Error {
    match Bitmap::read_from_buffer(bytes) {
        Ok(_) => panic!("the bytes were read as a bitmap"),
        Err(error) => error,
    }
}

#[test]
fn version_from_u32() {
    assert_eq!(BitmapVersion::from_u32(108), Ok(BitmapVersion::Four));
    assert_eq!(BitmapVersion::from_u32(40), Err(Error::UnsupportedFileVersion));
    assert_eq!(BitmapVersion::from_u32(0), Err(Error::UnsupportedFileVersion));
}

#[test]
fn compression_from_u32() {
    assert_eq!(CompressionMethod::from_u32(0), Ok(CompressionMethod::Uncompressed));
    assert_eq!(CompressionMethod::from_u32(1), Err(Error::UnsupportedCompressionMethod));
}

#[test]
fn signature_is_checked() {
    assert_eq!(check_signature(&[0x42, 0x4D, 0x00]), Ok(()));
    assert_eq!(check_signature(&[0x4D, 0x42]), Err(Error::InvalidSignature));
    assert_eq!(check_signature(&[0x42]), Err(Error::IOError));
    assert_eq!(check_signature(&[]), Err(Error::IOError));
}

#[test]
fn headers_are_read_in_little_endian() {
    let bytes = header(-3, 0x0102_0304, 24, 0xAABB_CCDD);
    assert_eq!(
        FileHeader::read(&bytes),
        Ok(FileHeader { file_size: 0x1234, pixel_data_offset: 0xAABB_CCDD })
    );
    assert_eq!(
        DIBHeader::read(&bytes),
        Ok(DIBHeader {
            version: BitmapVersion::Four,
            width: -3,
            height: 0x0102_0304,
            planes: 1,
            bits_per_pixel: 24,
            compression: CompressionMethod::Uncompressed,
            data_size: 0x0102_0304,
            x_ppm: 2835,
            y_ppm: 2836,
            colour_count: 7,
            important_colour_count: 9,
        })
    );
}

#[test]
fn header_sizes_and_padding() {
    let bytes = header(-6, 5, 24, 54);
    let dib = DIBHeader::read(&bytes).unwrap();
    assert_eq!(dib.pixel_data_size(), 30);
    assert_eq!(dib.pixel_data_padding(), 2);
    let whole = DIBHeader::read(&header(8, 1, 24, 54)).unwrap();
    assert_eq!(whole.pixel_data_size(), 8);
    assert_eq!(whole.pixel_data_padding(), 0);
}

#[test]
fn bitmap_is_read_with_the_origin_at_the_top_left() {
    let rows = vec![vec![RED, WHITE, BLACK], vec![BLACK, RED, WHITE]];
    let bitmap = Bitmap::read_from_buffer(image(&rows)).unwrap();
    assert!(bitmap.is_well_formed());
    assert_eq!(bitmap.width(), 3);
    assert_eq!(bitmap.height(), 2);
    assert_eq!(bitmap.dib_header.bits_per_pixel, 24);
    assert_eq!(bitmap.file_header.pixel_data_offset, 60);
    for (y, row) in rows.iter().enumerate() {
        for (x, pixel) in row.iter().enumerate() {
            assert_eq!(bitmap.pixel(x, y), *pixel);
        }
    }
}

#[test]
fn pixel_bytes_are_blue_green_red() {
    let mut bytes = header(1, 1, 24, 54);
    bytes.extend_from_slice(&[0x01, 0x02, 0x03]);
    let bitmap = Bitmap::read_from_buffer(bytes).unwrap();
    assert_eq!(bitmap.pixel(0, 0), Colour { red: 3, green: 2, blue: 1 });
}

#[test]
fn depths_of_four_and_eight_bits_are_let_through() {
    for bits in [4u16, 8, 24] {
        let mut bytes = header(1, 1, bits, 54);
        bytes.extend_from_slice(&[0x01, 0x02, 0x03]);
        assert!(Bitmap::read_from_buffer(bytes).is_ok());
    }
}

#[test]
fn missing_pixel_bytes_repeat_the_pixel_before() {
    let mut bytes = header(4, 1, 24, 54);
    bytes.extend_from_slice(&[1, 2, 3, 9]);
    let bitmap = Bitmap::read_from_buffer(bytes).unwrap();
    assert!(bitmap.is_well_formed());
    assert_eq!(bitmap.pixel(0, 0), Colour { red: 3, green: 2, blue: 1 });
    assert_eq!(bitmap.pixel(1, 0), Colour { red: 3, green: 2, blue: 9 });
    assert_eq!(bitmap.pixel(2, 0), Colour { red: 3, green: 2, blue: 9 });
    assert_eq!(bitmap.pixel(3, 0), Colour { red: 3, green: 2, blue: 9 });
}

#[test]
fn pixel_data_behind_the_end_is_all_zero() {
    let bytes = header(2, 2, 24, 4000);
    let dib = DIBHeader::read(&bytes).unwrap();
    assert_eq!(read_pixel_data(&bytes, 4000, &dib), vec![BLACK; 4]);
}

#[test]
fn negative_size_gives_no_pixels() {
    let mut bytes = header(-2, 2, 24, 54);
    bytes.extend_from_slice(&[0xFF; 24]);
    let bitmap = Bitmap::read_from_buffer(bytes).unwrap();
    assert_eq!(bitmap.width(), 2);
    assert_eq!(bitmap.height(), 2);
    assert!(!bitmap.is_well_formed());
    let dib = DIBHeader::read(&header(2, -2, 24, 54)).unwrap();
    assert_eq!(read_pixel_data(&header(2, -2, 24, 54), 54, &dib), vec![]);
}

#[test]
fn error_input_ends_early() {
    assert_eq!(error_of(vec![]), Error::IOError);
    assert_eq!(error_of(vec![0x42]), Error::IOError);
    assert_eq!(error_of(vec![0x42, 0x4D, 0, 0, 0]), Error::IOError);
    let whole = header(1, 1, 24, 54);
    for cut in [13usize, 14, 17, 18, 33, 34, 53] {
        assert_eq!(error_of(whole[..cut].to_vec()), Error::IOError);
    }
    assert!(Bitmap::read_from_buffer(whole).is_ok());
}

#[test]
fn error_invalid_signature() {
    let mut bytes = header(1, 1, 24, 54);
    bytes[0] = 0x4D;
    bytes[1] = 0x42;
    assert_eq!(error_of(bytes), Error::InvalidSignature);
    assert_eq!(error_of(vec![0x00, 0x00]), Error::InvalidSignature);
}

#[test]
fn error_unsupported_version() {
    let mut bytes = header(1, 1, 24, 54);
    bytes[14] = 40;
    assert_eq!(error_of(bytes.clone()), Error::UnsupportedFileVersion);
    assert_eq!(error_of(bytes[..18].to_vec()), Error::UnsupportedFileVersion);
}

#[test]
fn error_unsupported_compression() {
    let mut bytes = header(1, 1, 24, 54);
    bytes[30] = 1;
    assert_eq!(error_of(bytes.clone()), Error::UnsupportedCompressionMethod);
    assert_eq!(error_of(bytes[..34].to_vec()), Error::UnsupportedCompressionMethod);
}

#[test]
fn error_unsupported_bit_depth() {
    assert_eq!(error_of(header(1, 1, 32, 54)), Error::UnsupportedBitDepth);
    assert_eq!(error_of(header(1, 1, 1, 54)), Error::UnsupportedBitDepth);
}

#[test]
fn version_is_checked_before_compression_and_depth() {
    let mut bytes = header(1, 1, 16, 54);
    bytes[14] = 40;
    bytes[30] = 3;
    assert_eq!(error_of(bytes.clone()), Error::UnsupportedFileVersion);
    bytes[14] = 108;
    assert_eq!(error_of(bytes.clone()), Error::UnsupportedCompressionMethod);
    bytes[30] = 0;
    assert_eq!(error_of(bytes), Error::UnsupportedBitDepth);
}

#[test]
fn glyph_takes_the_columns_in_glyph_colours() {
    let rows = vec![
        vec![BLACK, WHITE, RED, BLACK],
        vec![WHITE, BLACK, BLACK, BLACK],
        vec![BLACK, WHITE, BLACK, WHITE],
    ];
    let bitmap = Bitmap::read_from_buffer(image(&rows)).unwrap();
    let glyph = Glyph::from_bitmap(&bitmap, 0, 0, 4, 3);
    assert_eq!(glyph.data, vec![0b101, 0b010, 0b011]);
    assert_eq!(glyph.width, 3);
    let part = Glyph::from_bitmap(&bitmap, 1, 1, 2, 2);
    assert_eq!(part.data, vec![0b01, 0b11]);
    assert_eq!(part.width, 2);
    let empty = Glyph::from_bitmap(&bitmap, 2, 0, 1, 3);
    assert_eq!(empty.data, vec![]);
    assert_eq!(empty.width, 0);
}

#[test]
fn glyph_rows_beyond_the_eighth_add_nothing() {
    let rows: Vec<Vec<Colour>> = (0..10).map(|_| vec![BLACK]).collect();
    let bitmap = Bitmap::read_from_buffer(image(&rows)).unwrap();
    assert_eq!(Glyph::from_bitmap(&bitmap, 0, 0, 1, 10).data, vec![0xFF]);
    assert_eq!(Glyph::from_bitmap(&bitmap, 0, 0, 1, 8).data, vec![0xFF]);
    assert_eq!(Glyph::from_bitmap(&bitmap, 0, 0, 1, 7).data, vec![0x7F]);
    assert_eq!(Glyph::from_bitmap(&bitmap, 0, 0, 1, 0).data, vec![0x00]);
}

#[test]
fn glyphs_are_generated_row_after_row() {
    let rows = vec![
        vec![BLACK, WHITE, WHITE, BLACK, RED],
        vec![WHITE, WHITE, BLACK, BLACK, RED],
        vec![RED, BLACK, BLACK, RED, RED],
        vec![BLACK, BLACK, WHITE, BLACK, RED],
        vec![RED, RED, RED, RED, RED],
    ];
    let bitmap = Bitmap::read_from_buffer(image(&rows)).unwrap();
    let glyphs = generate_glyphs(bitmap, 2, 2);
    let data: Vec<Vec<u8>> = glyphs.iter().map(|g| g.data.clone()).collect();
    assert_eq!(data, vec![vec![0b01, 0b00], vec![0b10, 0b11], vec![0b11], vec![0b01]]);
    for glyph in glyphs.iter() {
        assert_eq!(glyph.width, glyph.data.len());
    }
}

#[test]
fn glyphs_of_a_bitmap_smaller_than_a_cell() {
    let rows = vec![vec![BLACK, WHITE]];
    let bitmap = Bitmap::read_from_buffer(image(&rows)).unwrap();
    assert!(generate_glyphs(bitmap, 5, 5).is_empty());
}
