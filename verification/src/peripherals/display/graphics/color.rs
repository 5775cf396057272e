use embedded_graphics::pixelcolor::Rgb565;
use vstd::prelude::*;

verus! {

/// The colour type `Rgb565` of `embedded-graphics`. It is opaque here:
/// nothing is known of what a value of it holds.
#[verifier::external_type_specification]
#[verifier::external_body]
pub struct ExRgb565(Rgb565);

/// An 8-bit-per-channel colour: red, green, blue.
#[derive(Debug, Clone, Copy, PartialEq, Eq)]
pub struct Color(pub u8, pub u8, pub u8);

/// A packed colour from its three channels, each cut to the width it has in
/// the packed form: five bits of red on top, six of green, five of blue.
pub open spec fn pack_channels(r: u8, g: u8, b: u8) -> u16 {
    ((r % 32) * 2048 + (g % 64) * 32 + (b % 32)) as u16
}

/// The three channels of a packed colour: five bits of red, six of green,
/// five of blue.
pub open spec fn channels_of(packed: u16) -> (u8, u8, u8) {
    ((packed / 2048) as u8, ((packed / 32) % 64) as u8, (packed % 32) as u8)
}

/// Taking a packed colour apart and packing the channels again gives the
/// colour back, for every 16-bit value.
pub proof fn lemma_pack_unpack_round_trip(packed: u16)
    ensures
        pack_channels(channels_of(packed).0, channels_of(packed).1, channels_of(packed).2)
            == packed,
{
    let (r, g, b) = channels_of(packed);
    assert(r == packed / 2048 && g == (packed / 32) % 64 && b == packed % 32);
    assert(((packed / 2048) % 32) * 2048 + (((packed / 32) % 64) % 64) * 32 + ((packed % 32) % 32)
        == packed) by (bit_vector);
}

/// Channels that fit their widths survive packing and unpacking.
pub proof fn lemma_unpack_pack_round_trip(r: u8, g: u8, b: u8)
    requires
        r < 32,
        g < 64,
        b < 32,
    ensures
        channels_of(pack_channels(r, g, b)) == (r, g, b),
{
    let packed: u16 = pack_channels(r, g, b);
    assert(packed == r * 2048 + g * 32 + b);
    assert(packed / 2048 == r && (packed / 32) % 64 == g && packed % 32 == b) by (bit_vector)
        requires
            r < 32,
            g < 64,
            b < 32,
            packed == r * 2048 + g * 32 + b,
    ;
}

/// The channels of a packed colour.
pub fn unpack_rgb565(packed: u16) -> (channels: (u8, u8, u8))
    ensures
        channels == channels_of(packed),
        channels.0 < 32,
        channels.1 < 64,
        channels.2 < 32,
{
    let r: u16 = (packed >> 11) & 0x1F;
    let g: u16 = (packed >> 5) & 0x3F;
    let b: u16 = packed & 0x1F;
    assert(r == packed / 2048 && r < 32 && g == (packed / 32) % 64 && g < 64 && b == packed % 32
        && b < 32) by (bit_vector)
        requires
            r == (packed >> 11) & 0x1F,
            g == (packed >> 5) & 0x3F,
            b == packed & 0x1F,
    ;
    (r as u8, g as u8, b as u8)
}

impl Color {
    /// Black.
    pub fn black() -> (color: Color)
        ensures
            color == Color(0, 0, 0),
            color.packed() == 0x0000,
    {
        Color(0, 0, 0)
    }

    /// White.
    pub fn white() -> (color: Color)
        ensures
            color == Color(255, 255, 255),
            color.packed() == 0xFFFF,
    {
        Color(255, 255, 255)
    }

    /// The packed 16-bit form: each channel loses its low bits, three of red
    /// and blue, two of green.
    pub open spec fn packed(self) -> u16 {
        pack_channels(self.0 / 8, self.1 / 4, self.2 / 8)
    }

    pub fn to_rgb565(&self) -> (packed: u16)
        ensures
            packed == self.packed(),
            packed == (self.0 / 8) * 2048 + (self.1 / 4) * 32 + self.2 / 8,
    {
        let r: u16 = (self.0 >> 3) as u16;
        let g: u16 = (self.1 >> 2) as u16;
        let b: u16 = (self.2 >> 3) as u16;
        let red: u8 = self.0;
        let green: u8 = self.1;
        let blue: u8 = self.2;
        assert((r << 11) | (g << 5) | b == (red / 8) * 2048 + (green / 4) * 32 + blue / 8
            && (red / 8) % 32 == red / 8 && (green / 4) % 64 == green / 4 && (blue / 8) % 32
            == blue / 8) by (bit_vector)
            requires
                r == (red >> 3) as u16,
                g == (green >> 2) as u16,
                b == (blue >> 3) as u16,
        ;
        (r << 11) | (g << 5) | b
    }

    /// The colour a packed value stands for, each channel widened to eight
    /// bits with zeros below. Packing it again gives the value back.
    pub fn from_rgb565(packed: u16) -> (color: Color)
        ensures
            color == Color(
                (channels_of(packed).0 * 8) as u8,
                (channels_of(packed).1 * 4) as u8,
                (channels_of(packed).2 * 8) as u8,
            ),
            color.packed() == packed,
    {
        let (r, g, b) = unpack_rgb565(packed);
        proof {
            lemma_pack_unpack_round_trip(packed);
            assert((r * 8) / 8 == r && (g * 4) / 4 == g && (b * 8) / 8 == b);
        }
        Color(r * 8, g * 4, b * 8)
    }

    /// The colour as `embedded-graphics` holds it: the colour that crate
    /// makes of the three channels once each has lost its low bits, three
    /// of red and blue, two of green. These are the channels that
    /// [`Color::to_rgb565`] packs.
    pub fn to_embedded_rgb565(&self) -> (color: Rgb565)
        ensures
            color == rgb565_new(self.0 / 8, self.1 / 4, self.2 / 8),
    {
        let red: u8 = self.0;
        let green: u8 = self.1;
        let blue: u8 = self.2;
        assert(red >> 3 == red / 8 && green >> 2 == green / 4 && blue >> 3 == blue / 8)
            by (bit_vector);
        rgb565_from_channels(red >> 3, green >> 2, blue >> 3)
    }
}

/// The colour that `Rgb565::new` of `embedded-graphics` makes of three
/// channels. The colour's type is opaque here, so what it holds can be
/// spoken of only by the channels it was made of.
pub uninterp spec fn rgb565_new(r: u8, g: u8, b: u8) -> Rgb565;

/// `Rgb565::new` of `embedded-graphics`: a colour of that crate from three
/// channels. The function computes its result from the three channels
/// alone; the contract names that result.
#[verifier::external_body]
fn rgb565_from_channels(r: u8, g: u8, b: u8) -> (color: Rgb565)
    ensures
        color == rgb565_new(r, g, b),
{
    Rgb565::new(r, g, b)
}

impl From<Color> for u16 {
    fn from(color: Color) -> (packed: u16) {
        color.to_rgb565()
    }
}

impl vstd::std_specs::convert::FromSpecImpl<Color> for u16 {
    open spec fn obeys_from_spec() -> bool {
        true
    }

    open spec fn from_spec(color: Color) -> u16 {
        color.packed()
    }
}

impl From<Color> for Rgb565 {
    fn from(color: Color) -> Rgb565 {
        color.to_embedded_rgb565()
    }
}

impl vstd::std_specs::convert::FromSpecImpl<Color> for Rgb565 {
    /// Nothing is stated of the converted value: its type is opaque here.
    open spec fn obeys_from_spec() -> bool {
        false
    }

    open spec fn from_spec(color: Color) -> Rgb565 {
        arbitrary()
    }
}

} // verus!
