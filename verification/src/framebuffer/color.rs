use vstd::prelude::*;

verus! {

/// The 5-bit red channel of a raw RGB565 value (bits 15–11).
pub open spec fn red_channel(raw: u16) -> int {
    raw as int / 2048
}

/// The 6-bit green channel of a raw RGB565 value (bits 10–5).
pub open spec fn green_channel(raw: u16) -> int {
    (raw as int / 32) % 64
}

/// The 5-bit blue channel of a raw RGB565 value (bits 4–0).
pub open spec fn blue_channel(raw: u16) -> int {
    raw as int % 32
}

/// The raw value whose channels are `red`, `green` and `blue`:
/// `RRRR RGGG GGGB BBBB`, from the most significant bit down.
pub open spec fn pack_channels(red: int, green: int, blue: int) -> int {
    red * 2048 + green * 32 + blue
}

/// The RGB565 value of an 8-bit-per-channel colour: each component keeps its
/// high bits (5 for red and blue, 6 for green).
pub open spec fn packed_from_rgb888(r: u8, g: u8, b: u8) -> u16 {
    pack_channels(r as int / 8, g as int / 4, b as int / 8) as u16
}

/// For each of red, green and blue: whether that channel is non-zero.
pub open spec fn one_bit(raw: u16) -> (bool, bool, bool) {
    (red_channel(raw) != 0, green_channel(raw) != 0, blue_channel(raw) != 0)
}

/// A 16-bit colour in RGB565 format (5 bits red, 6 bits green, 5 bits blue).
///
/// The value is stored as a `u16`, from the most significant bit down:
/// ```text
/// RRRR RGGG GGGB BBBB
/// ```
#[derive(Clone, Copy)]
pub struct Rgb565(u16);

impl View for Rgb565 {
    type V = u16;

    closed spec fn view(&self) -> u16 {
        self.0
    }
}

proof fn lemma_pack_bits(r: u8, g: u8, b: u8)
    by (bit_vector)
    ensures
        (((((r as u16) >> 3u16) & 0x1Fu16) << 11u16) | ((((g as u16) >> 2u16) & 0x3Fu16) << 5u16)
            | (((b as u16) >> 3u16) & 0x1Fu16)) == ((r / 8) as u16) * 2048u16 + ((g / 4) as u16)
            * 32u16 + ((b / 8) as u16),
{
}

proof fn lemma_channel_bits(x: u16)
    by (bit_vector)
    ensures
        (((x >> 11u16) & 0x1Fu16) != 0u16) == (x / 2048u16 != 0u16),
        (((x >> 5u16) & 0x3Fu16) != 0u16) == ((x / 32u16) % 64u16 != 0u16),
        ((x & 0x1Fu16) != 0u16) == (x % 32u16 != 0u16),
{
}

impl Rgb565 {
    /// Builds an RGB565 colour from 8-bit components (0–255).
    ///
    /// Each component is reduced to its channel width by dropping its low bits.
    pub fn new(r: u8, g: u8, b: u8) -> (c: Rgb565)
        ensures
            c@ == packed_from_rgb888(r, g, b),
    {
        let red = (r as u16 >> 3) & 0x1F;
        let green = (g as u16 >> 2) & 0x3F;
        let blue = (b as u16 >> 3) & 0x1F;
        proof {
            lemma_pack_bits(r, g, b);
        }
        Rgb565((red << 11) | (green << 5) | blue)
    }

    /// The raw `u16` value of the colour.
    pub fn get_raw_color(&self) -> (raw: u16)
        ensures
            raw == self@,
    {
        self.0
    }

    /// Black (all LEDs off).
    pub fn black() -> (c: Self)
        ensures
            c@ == 0x0000,
            c@ == packed_from_rgb888(0, 0, 0),
            one_bit(c@) == (false, false, false),
    {
        Self(0x0000)
    }

    /// Pure red.
    pub fn red() -> (c: Self)
        ensures
            c@ == 0xF800,
            c@ == packed_from_rgb888(255, 0, 0),
            one_bit(c@) == (true, false, false),
    {
        Self(0xF800)
    }

    /// Pure green.
    pub fn green() -> (c: Self)
        ensures
            c@ == 0x07E0,
            c@ == packed_from_rgb888(0, 255, 0),
            one_bit(c@) == (false, true, false),
    {
        Self(0x07E0)
    }

    /// Pure blue.
    pub fn blue() -> (c: Self)
        ensures
            c@ == 0x001F,
            c@ == packed_from_rgb888(0, 0, 255),
            one_bit(c@) == (false, false, true),
    {
        Self(0x001F)
    }

    /// White (all LEDs on).
    pub fn white() -> (c: Self)
        ensures
            c@ == 0xFFFF,
            c@ == packed_from_rgb888(255, 255, 255),
            one_bit(c@) == (true, true, true),
    {
        Self(0xFFFF)
    }

    /// Yellow (red + green).
    pub fn yellow() -> (c: Self)
        ensures
            c@ == 0xFFE0,
            c@ == packed_from_rgb888(255, 255, 0),
            one_bit(c@) == (true, true, false),
    {
        Self(0xFFE0)
    }

    /// Cyan (green + blue).
    pub fn cyan() -> (c: Self)
        ensures
            c@ == 0x07FF,
            c@ == packed_from_rgb888(0, 255, 255),
            one_bit(c@) == (false, true, true),
    {
        Self(0x07FF)
    }

    /// Magenta (red + blue).
    pub fn magenta() -> (c: Self)
        ensures
            c@ == 0xF81F,
            c@ == packed_from_rgb888(255, 0, 255),
            one_bit(c@) == (true, false, true),
    {
        Self(0xF81F)
    }

    /// Whether at least one colour channel is non-zero.
    pub fn non_zero(&self) -> (lit: bool)
        ensures
            lit == (self@ != 0),
    {
        self.0 != 0
    }

    /// The colour as three booleans (red, green, blue) for 1-bit display:
    /// each is true where that channel is non-zero.
    pub fn to_1bit(&self) -> (bits: (bool, bool, bool))
        ensures
            bits == one_bit(self@),
    {
        let r = (self.0 >> 11) & 0x1F != 0;
        let g = (self.0 >> 5) & 0x3F != 0;
        let b = self.0 & 0x1F != 0;
        proof {
            lemma_channel_bits(self.0);
        }
        (r, g, b)
    }
}

/// Every raw value is made of its three channels, each within its width:
/// packing the channels back gives the raw value.
pub proof fn lemma_channels_make_up_raw(raw: u16)
    ensures
        0 <= red_channel(raw) < 32,
        0 <= green_channel(raw) < 64,
        0 <= blue_channel(raw) < 32,
        pack_channels(red_channel(raw), green_channel(raw), blue_channel(raw)) == raw,
{
}

/// Channels that fit their widths are packed into a `u16` and read back unchanged.
pub proof fn lemma_channels_of_pack(red: int, green: int, blue: int)
    requires
        0 <= red < 32,
        0 <= green < 64,
        0 <= blue < 32,
    ensures
        0 <= pack_channels(red, green, blue) <= u16::MAX,
        red_channel(pack_channels(red, green, blue) as u16) == red,
        green_channel(pack_channels(red, green, blue) as u16) == green,
        blue_channel(pack_channels(red, green, blue) as u16) == blue,
{
}

/// Building a colour from 8-bit components keeps the top 5 bits of red and blue
/// and the top 6 bits of green.
pub proof fn lemma_rgb888_channels(r: u8, g: u8, b: u8)
    ensures
        red_channel(packed_from_rgb888(r, g, b)) == r as int / 8,
        green_channel(packed_from_rgb888(r, g, b)) == g as int / 4,
        blue_channel(packed_from_rgb888(r, g, b)) == b as int / 8,
{
    lemma_channels_of_pack(r as int / 8, g as int / 4, b as int / 8);
}

/// In 1-bit display, a colour built from 8-bit components lights red and blue
/// from 8 upward and green from 4 upward.
pub proof fn lemma_rgb888_one_bit(r: u8, g: u8, b: u8)
    ensures
        one_bit(packed_from_rgb888(r, g, b)) == (r >= 8, g >= 4, b >= 8),
{
    lemma_rgb888_channels(r, g, b);
}

/// A colour is non-zero exactly when its 1-bit form lights at least one channel.
pub proof fn lemma_non_zero_iff_lit(raw: u16)
    ensures
        (raw != 0) == (one_bit(raw).0 || one_bit(raw).1 || one_bit(raw).2),
{
    lemma_channels_make_up_raw(raw);
}

} // verus!
