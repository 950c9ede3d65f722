//! RGB colours: packing, monochrome reduction and random generation.

use rand::Rng;
use vstd::prelude::*;

verus! {

/// The 24-bit packed form of a channel triple: red in the low byte, then
/// green, then blue.
pub open spec fn pack_u24(c: (u8, u8, u8)) -> u32 {
    (c.0 as int + 256 * (c.1 as int) + 65536 * (c.2 as int)) as u32
}

/// The channel triple held in the low 24 bits of a packed value.
pub open spec fn unpack_u24(v: u32) -> (u8, u8, u8) {
    ((v % 256) as u8, ((v / 256) % 256) as u8, ((v / 65536) % 256) as u8)
}

/// The one-byte monochrome reduction: all ones iff any channel is above 0x7F.
pub open spec fn mono_byte(c: (u8, u8, u8)) -> u8 {
    if c.0 > 0x7F || c.1 > 0x7F || c.2 > 0x7F {
        0xFF
    } else {
        0x00
    }
}

/// Number of entries in the palette of pure hues.
pub const PALETTE_SIZE: usize = 6;

/// The palette of pure hues: red, green, blue, yellow, cyan, magenta.
pub open spec fn palette(index: int) -> (u8, u8, u8) {
    if index == 0 {
        (0xFF, 0x00, 0x00)
    } else if index == 1 {
        (0x00, 0xFF, 0x00)
    } else if index == 2 {
        (0x00, 0x00, 0xFF)
    } else if index == 3 {
        (0xFF, 0xFF, 0x00)
    } else if index == 4 {
        (0x00, 0xFF, 0xFF)
    } else {
        (0xFF, 0x00, 0xFF)
    }
}

/// Colour definition.
///
/// Can represent RGB or mono colours.
#[derive(Copy, Clone, Debug, PartialEq, Eq, Structural)]
pub struct Colour {
    r: u8,
    g: u8,
    b: u8,
}

impl View for Colour {
    type V = (u8, u8, u8);

    /// The channels as (red, green, blue).
    closed spec fn view(&self) -> (u8, u8, u8) {
        (self.r, self.g, self.b)
    }
}

impl Default for Colour {
    fn default() -> (c: Colour)
        ensures
            c@ == (0u8, 0u8, 0u8),
    {
        Colour { r: 0, g: 0, b: 0 }
    }
}

impl Colour {
    /// Black: every channel off.
    pub fn black() -> (c: Colour)
        ensures
            c@ == (0u8, 0u8, 0u8),
    {
        Colour { r: 0, g: 0, b: 0 }
    }

    /// White: every channel at full intensity.
    pub fn white() -> (c: Colour)
        ensures
            c@ == (0xFFu8, 0xFFu8, 0xFFu8),
    {
        Colour { r: 0xFF, g: 0xFF, b: 0xFF }
    }

    /// Pure red.
    pub fn red() -> (c: Colour)
        ensures
            c@ == (0xFFu8, 0u8, 0u8),
    {
        Colour { r: 0xFF, g: 0, b: 0 }
    }

    /// Pure green.
    pub fn green() -> (c: Colour)
        ensures
            c@ == (0u8, 0xFFu8, 0u8),
    {
        Colour { r: 0, g: 0xFF, b: 0 }
    }

    /// Pure blue.
    pub fn blue() -> (c: Colour)
        ensures
            c@ == (0u8, 0u8, 0xFFu8),
    {
        Colour { r: 0, g: 0, b: 0xFF }
    }

    /// Construct a new colour.
    pub fn new(r: u8, g: u8, b: u8) -> (c: Colour)
        ensures
            c@ == (r, g, b),
    {
        Colour { r, g, b }
    }

    /// Construct a random colour: each channel is drawn independently.
    pub fn random() -> Colour {
        let r = random_channel();
        let g = random_channel();
        let b = random_channel();
        Colour::new(r, g, b)
    }

    /// The palette entry at `index`.
    pub fn from_palette(index: usize) -> (c: Colour)
        requires
            index < PALETTE_SIZE,
        ensures
            c@ == palette(index as int),
    {
        if index == 0 {
            Colour { r: 0xFF, g: 0x00, b: 0x00 }
        } else if index == 1 {
            Colour { r: 0x00, g: 0xFF, b: 0x00 }
        } else if index == 2 {
            Colour { r: 0x00, g: 0x00, b: 0xFF }
        } else if index == 3 {
            Colour { r: 0xFF, g: 0xFF, b: 0x00 }
        } else if index == 4 {
            Colour { r: 0x00, g: 0xFF, b: 0xFF }
        } else {
            Colour { r: 0xFF, g: 0x00, b: 0xFF }
        }
    }

    /// Construct a random colour out of the palette of pure hues.
    pub fn random_indexed() -> (c: Colour)
        ensures
            exists|index: int| 0 <= index < PALETTE_SIZE && c@ == palette(index),
    {
        let index = random_in_range(0, PALETTE_SIZE);
        Colour::from_palette(index)
    }

    /// Construct a colour from a 24-bit number; bits above the low 24 are
    /// ignored.
    pub fn from_u24(v: u32) -> (c: Colour)
        ensures
            c@ == unpack_u24(v),
    {
        let r = (v & 0xFF) as u8;
        let g = ((v >> 8) & 0xFF) as u8;
        let b = ((v >> 16) & 0xFF) as u8;
        assert(v & 0xFF == v % 256) by (bit_vector);
        assert((v >> 8) & 0xFF == (v / 256) % 256) by (bit_vector);
        assert((v >> 16) & 0xFF == (v / 65536) % 256) by (bit_vector);
        Colour { r, g, b }
    }

    /// "Monochrome" representation of the colour.
    pub fn as_1bit(&self) -> (m: u8)
        ensures
            m == mono_byte(self@),
    {
        if self.r > 0x7F || self.g > 0x7F || self.b > 0x7F {
            0xFF
        } else {
            0x00
        }
    }

    /// Return the components of this colour.
    pub fn components(&self) -> (c: (u8, u8, u8))
        ensures
            c == self@,
    {
        (self.r, self.g, self.b)
    }

    /// Convert colour into a 24-bit value.
    pub fn as_u24(&self) -> (v: u32)
        ensures
            v == pack_u24(self@),
            v < 0x100_0000,
    {
        let r = self.r;
        let g = self.g;
        let b = self.b;
        assert((r as u32 | ((g as u32) << 8) | ((b as u32) << 16)) == (r as u32) + 256 * (g as u32)
            + 65536 * (b as u32)) by (bit_vector);
        r as u32 | ((g as u32) << 8) | ((b as u32) << 16)
    }
}

/// Unpacking a packed colour gives back its three channels, for every triple
/// of bytes.
pub proof fn lemma_pack_unpack(c: (u8, u8, u8))
    ensures
        unpack_u24(pack_u24(c)) == c,
        pack_u24(c) < 0x100_0000,
{
}

/// Packing the channels unpacked from a 24-bit value gives the value back.
pub proof fn lemma_unpack_pack(v: u32)
    requires
        v < 0x100_0000,
    ensures
        pack_u24(unpack_u24(v)) == v,
{
}

/// The monochrome byte is either all ones or all zeroes.
pub proof fn lemma_mono_byte_two_valued(c: (u8, u8, u8))
    ensures
        mono_byte(c) == 0xFF || mono_byte(c) == 0x00,
{
}

/// `rand::Rng::gen::<u8>` on the thread-local generator: one byte of the
/// standard distribution. Nothing is claimed of the value.
#[verifier::external_body]
fn random_channel() -> u8 {
    rand::thread_rng().gen::<u8>()
}

/// `rand::Rng::gen_range` on the thread-local generator with the half-open
/// range `low..high`: the value drawn lies inside that range. It panics on
/// an empty range.
#[verifier::external_body]
fn random_in_range(low: usize, high: usize) -> (value: usize)
    requires
        low < high,
    ensures
        low <= value < high,
{
    rand::thread_rng().gen_range(low..high)
}

} // verus!
