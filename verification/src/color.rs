//! Colours with three 8-bit channels and their packed form.

use vstd::prelude::*;

verus! {

/// A colour with 8-bit red, green and blue channels.
#[derive(Clone, Copy, Debug, PartialEq, Eq, Structural)]
pub struct Color {
    pub r: u8,
    pub g: u8,
    pub b: u8,
}

/// The packed form `0xRRGGBB` of three channels.
pub open spec fn pack_rgb(r: u8, g: u8, b: u8) -> u32 {
    (r as int * 0x1_0000 + g as int * 0x100 + b as int) as u32
}

/// The sum of two channels, held at full brightness where it would pass it.
pub open spec fn channel_sum(a: u8, b: u8) -> u8 {
    if a + b > 255 {
        255u8
    } else {
        (a + b) as u8
    }
}

impl Color {
    /// The packed form `0xRRGGBB` of the colour.
    pub open spec fn packed(self) -> u32 {
        pack_rgb(self.r, self.g, self.b)
    }

    /// The channel-wise sum of two colours, each channel held at 255.
    pub open spec fn sum(self, other: Color) -> Color {
        Color {
            r: channel_sum(self.r, other.r),
            g: channel_sum(self.g, other.g),
            b: channel_sum(self.b, other.b),
        }
    }

    /// The colour with the given channels.
    pub fn new(r: u8, g: u8, b: u8) -> (color: Color)
        ensures
            color == (Color { r, g, b }),
    {
        Color { r, g, b }
    }

    /// Unpacks `0xRRGGBB`; bits above the red channel are ignored.
    pub fn from_hex(hex: u32) -> (color: Color)
        ensures
            color.r == (hex / 0x1_0000) % 0x100,
            color.g == (hex / 0x100) % 0x100,
            color.b == hex % 0x100,
    {
        assert(((hex >> 16) & 0xff) == (hex / 0x1_0000) % 0x100) by (bit_vector);
        assert(((hex >> 8) & 0xff) == (hex / 0x100) % 0x100) by (bit_vector);
        assert((hex & 0xff) == hex % 0x100) by (bit_vector);
        Color {
            r: ((hex >> 16) & 0xff) as u8,
            g: ((hex >> 8) & 0xff) as u8,
            b: (hex & 0xff) as u8,
        }
    }

    /// Packs the colour as `0xRRGGBB`, the form a pixel sink stores.
    pub fn to_hex(&self) -> (hex: u32)
        ensures
            hex == self.packed(),
            hex <= 0xff_ffff,
    {
        let r: u32 = self.r as u32;
        let g: u32 = self.g as u32;
        let b: u32 = self.b as u32;
        assert(((r << 16) | (g << 8) | b) == r * 0x1_0000 + g * 0x100 + b) by (bit_vector)
            requires
                r < 0x100,
                g < 0x100,
                b < 0x100,
        ;
        (r << 16) | (g << 8) | b
    }

    /// Adds two colours channel by channel; a channel that would pass 255
    /// stays at 255.
    pub fn saturating_add(self, other: Color) -> (color: Color)
        ensures
            color == self.sum(other),
    {
        Color {
            r: add_channel(self.r, other.r),
            g: add_channel(self.g, other.g),
            b: add_channel(self.b, other.b),
        }
    }
}

fn add_channel(a: u8, b: u8) -> (c: u8)
    ensures
        c == channel_sum(a, b),
{
    if a > 255 - b {
        255
    } else {
        a + b
    }
}

/// Packing a colour and unpacking the result gives the colour back.
pub proof fn lemma_hex_round_trip(color: Color)
    ensures
        (color.packed() / 0x1_0000) % 0x100 == color.r,
        (color.packed() / 0x100) % 0x100 == color.g,
        color.packed() % 0x100 == color.b,
{
}

/// Adding black changes nothing, and the order of a sum does not matter.
pub proof fn lemma_sum_laws(a: Color, b: Color)
    ensures
        a.sum(Color { r: 0, g: 0, b: 0 }) == a,
        a.sum(b) == b.sum(a),
{
}

} // verus!
