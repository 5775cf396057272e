//! Text in a fixed-width font. The `embedded-graphics` crate lays the
//! glyphs out and renders them into a one-bit mask of the panel; the pixels
//! the mask marks are then drawn in the text's colour like those of any
//! figure.

use crate::peripherals::display::frame::PIXEL_COUNT;
use crate::peripherals::display::graphics::color::Color;
use crate::peripherals::display::graphics::{on_panel, Figure, Pixel};
use crate::peripherals::display::Display;
use embedded_graphics::framebuffer::Framebuffer;
use embedded_graphics::geometry::Point as EgPoint;
use embedded_graphics::mono_font::ascii::FONT_10X20;
use embedded_graphics::mono_font::MonoTextStyle;
use embedded_graphics::pixelcolor::raw::{LittleEndian, RawU1};
use embedded_graphics::pixelcolor::BinaryColor;
use embedded_graphics::text::{
    Alignment as EgAlignment, Baseline, LineHeight, Text as EgText, TextStyleBuilder,
};
use embedded_graphics::Drawable;
use vstd::prelude::*;
use vstd::string::StringSliceAdditionalSpecFns;

verus! {

/// Where a line of text lies relative to its anchor.
#[derive(Debug, Clone, Copy, PartialEq, Eq)]
pub enum Alignment {
    /// The line starts at the anchor.
    Left,
    /// The line is centred on the anchor.
    Center,
    /// The line ends at the anchor.
    Right,
}

/// The longest text, in bytes of UTF-8, that is handed to
/// `embedded-graphics`: far more than the panel can show, and short enough
/// that no position the crate computes can overflow.
pub const TEXT_LIMIT: usize = 1024;

/// Bytes in a one-bit mask of the panel: 30 to a row.
pub const MASK_SIZE: usize = 7200;

/// The one-bit mask `embedded-graphics` renders for `content` anchored at
/// `(x, y)`, vertically centred on the anchor, in the 10x20 font with lines
/// one and a half glyphs apart.
pub uninterp spec fn text_mask_bits(content: Seq<char>, x: u16, y: u16, alignment: Alignment) -> Seq<
    u8,
>;

/// `Text::with_text_style(..).draw(..)` of `embedded-graphics` in its
/// `FONT_10X20`, onto a blank 240x240 one-bit `Framebuffer` of the same
/// crate, whose `data()` is the result. The contract names the mask and
/// states its length, which the framebuffer's type fixes. Texts beyond
/// [`TEXT_LIMIT`] are kept out: the layout's arithmetic could overflow on
/// them.
#[verifier::external_body]
fn text_mask(content: &str, x: u16, y: u16, alignment: Alignment) -> (mask: Vec<u8>)
    requires
        content.spec_bytes().len() <= TEXT_LIMIT,
    ensures
        mask@ == text_mask_bits(content@, x, y, alignment),
        mask@.len() == MASK_SIZE,
{
    let mut target = Framebuffer::<BinaryColor, RawU1, LittleEndian, 240, 240, 7200>::new();
    let style = TextStyleBuilder::new()
        .alignment(match alignment {
            Alignment::Left => EgAlignment::Left,
            Alignment::Center => EgAlignment::Center,
            Alignment::Right => EgAlignment::Right,
        })
        .baseline(Baseline::Middle)
        .line_height(LineHeight::Percent(150))
        .build();
    let glyphs = MonoTextStyle::new(&FONT_10X20, BinaryColor::On);
    let _ = EgText::with_text_style(content, EgPoint::new(x.into(), y.into()), glyphs, style)
        .draw(&mut target);
    target.data().to_vec()
}

/// Whether a mask marks pixel `(x, y)`: each row takes 30 bytes, and within
/// a byte the leftmost pixel is the highest bit.
pub open spec fn marked(mask: Seq<u8>, x: int, y: int) -> bool {
    mask[30 * y + x / 8] & (0x80u8 >> ((x % 8) as u8)) != 0
}

/// The pixels a mask marks among the panel's first `count` pixels, row by
/// row from the top, in one colour.
pub open spec fn mask_pixels(mask: Seq<u8>, color: u16, count: int) -> Seq<Pixel>
    decreases count,
{
    if count <= 0 {
        Seq::empty()
    } else {
        let place = count - 1;
        let before = mask_pixels(mask, color, place);
        if marked(mask, place % 240, place / 240) {
            before.push(Pixel { x: (place % 240) as i32, y: (place / 240) as i32, color })
        } else {
            before
        }
    }
}

/// A run of text.
#[derive(Debug, Clone, PartialEq, Eq)]
pub struct Text {
    pub content: String,
    pub x: u16,
    pub y: u16,
    pub alignment: Alignment,
    pub color: Color,
}

impl Figure for Text {
    /// The pixels of the rendered mask, in the text's packed colour;
    /// nothing when the text is longer than [`TEXT_LIMIT`].
    open spec fn pixels(&self) -> Seq<Pixel> {
        if vstd::utf8::encode_utf8(self.content@).len() <= TEXT_LIMIT {
            mask_pixels(
                text_mask_bits(self.content@, self.x, self.y, self.alignment),
                self.color.packed(),
                PIXEL_COUNT as int,
            )
        } else {
            Seq::empty()
        }
    }

    /// Every pixel is on the panel and of the text's packed colour.
    fn rasterise(&self) -> (pixels: Vec<Pixel>)
        ensures
            forall|i: int|
                0 <= i < pixels@.len() ==> (#[trigger] pixels@[i]).color == self.color.packed()
                    && on_panel(pixels@[i].x as int, pixels@[i].y as int),
    {
        let content: &str = self.content.as_str();
        if content.as_bytes().len() > TEXT_LIMIT {
            return Vec::new();
        }
        let mask = text_mask(content, self.x, self.y, self.alignment);
        let color: u16 = self.color.to_rgb565();
        let mut pixels: Vec<Pixel> = Vec::new();
        let mut place: usize = 0;
        while place < PIXEL_COUNT
            invariant
                place <= PIXEL_COUNT,
                mask@.len() == MASK_SIZE,
                pixels@ == mask_pixels(mask@, color, place as int),
                forall|i: int|
                    0 <= i < pixels@.len() ==> (#[trigger] pixels@[i]).color == color && on_panel(
                        pixels@[i].x as int,
                        pixels@[i].y as int,
                    ),
            decreases PIXEL_COUNT - place,
        {
            let x: usize = place % 240;
            let y: usize = place / 240;
            if mask[30 * y + x / 8] & (0x80u8 >> ((x % 8) as u8)) != 0 {
                pixels.push(Pixel { x: x as i32, y: y as i32, color });
            }
            place += 1;
        }
        pixels
    }

    fn draw(&self, display: &mut Display) {
        let pixels = self.rasterise();
        let _ = display.draw_iter(pixels.as_slice());
    }
}

} // verus!
