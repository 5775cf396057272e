//! Shapes that the `embedded-graphics` crate rasterises.

use crate::peripherals::display::graphics::color::{
    channels_of, lemma_pack_unpack_round_trip, pack_channels, unpack_rgb565,
};
use crate::peripherals::display::frame::PIXEL_COUNT;
use crate::peripherals::display::graphics::{blit, lemma_blit_one_color, Figure, Pixel};
use crate::peripherals::display::Display;
use embedded_graphics::geometry::Point as EgPoint;
use embedded_graphics::pixelcolor::{IntoStorage, Rgb565};
use embedded_graphics::primitives::{
    Circle as EgCircle, Line as EgLine, Primitive, PrimitiveStyle,
};
use vstd::prelude::*;

verus! {

/// The largest coordinate and the largest diameter that are handed to
/// `embedded-graphics`. Its rasterisers square distances in 32-bit
/// arithmetic; up to this size nothing in them can overflow.
pub const RASTER_LIMIT: u16 = 4095;

/// The pixels `embedded-graphics` gives for a one-pixel-wide line from
/// `(x1, y1)` to `(x2, y2)` in the colour with channels `r`, `g`, `b`.
pub uninterp spec fn stroked_line_pixels(
    x1: u16,
    y1: u16,
    x2: u16,
    y2: u16,
    r: u8,
    g: u8,
    b: u8,
) -> Seq<Pixel>;

/// The pixels `embedded-graphics` gives for the one-pixel-wide outline of
/// the circle of diameter `diameter` centred on `(x, y)`.
pub uninterp spec fn stroked_circle_pixels(x: u16, y: u16, diameter: u16, r: u8, g: u8, b: u8) -> Seq<
    Pixel,
>;

/// The pixels `embedded-graphics` gives for the filled circle of diameter
/// `diameter` centred on `(x, y)`.
pub uninterp spec fn filled_circle_pixels(x: u16, y: u16, diameter: u16, r: u8, g: u8, b: u8) -> Seq<
    Pixel,
>;

/// `Line::new(..).into_styled(PrimitiveStyle::with_stroke(.., 1)).pixels()`
/// of `embedded-graphics`, collected, each pixel with its colour's storage
/// value. The contract names the run of pixels and adds what the iterator's
/// source shows of their colour: every pixel carries the stroke colour,
/// and `Rgb565::new` stores the channels, each masked to its width, red
/// above green above blue. Ends beyond [`RASTER_LIMIT`] are kept out: the
/// iterator's arithmetic could overflow on them.
#[verifier::external_body]
fn stroked_line(x1: u16, y1: u16, x2: u16, y2: u16, r: u8, g: u8, b: u8) -> (pixels: Vec<Pixel>)
    requires
        x1 <= RASTER_LIMIT,
        y1 <= RASTER_LIMIT,
        x2 <= RASTER_LIMIT,
        y2 <= RASTER_LIMIT,
    ensures
        pixels@ == stroked_line_pixels(x1, y1, x2, y2, r, g, b),
        forall|i: int|
            0 <= i < pixels@.len() ==> (#[trigger] pixels@[i]).color == pack_channels(r, g, b),
{
    EgLine::new(EgPoint::new(x1.into(), y1.into()), EgPoint::new(x2.into(), y2.into()))
        .into_styled(PrimitiveStyle::with_stroke(Rgb565::new(r, g, b), 1))
        .pixels()
        .map(|p| Pixel { x: p.0.x, y: p.0.y, color: p.1.into_storage() })
        .collect()
}

/// `Circle::with_center(..).into_styled(PrimitiveStyle::with_stroke(.., 1))
/// .pixels()` of `embedded-graphics`, collected, each pixel with its
/// colour's storage value. The contract names the run of pixels and adds
/// that every pixel carries the stroke colour. Diameters beyond
/// [`RASTER_LIMIT`] are kept out: the iterator's arithmetic could overflow
/// on them.
#[verifier::external_body]
fn stroked_circle(x: u16, y: u16, diameter: u16, r: u8, g: u8, b: u8) -> (pixels: Vec<Pixel>)
    requires
        diameter <= RASTER_LIMIT,
    ensures
        pixels@ == stroked_circle_pixels(x, y, diameter, r, g, b),
        forall|i: int|
            0 <= i < pixels@.len() ==> (#[trigger] pixels@[i]).color == pack_channels(r, g, b),
{
    EgCircle::with_center(EgPoint::new(x.into(), y.into()), diameter.into())
        .into_styled(PrimitiveStyle::with_stroke(Rgb565::new(r, g, b), 1))
        .pixels()
        .map(|p| Pixel { x: p.0.x, y: p.0.y, color: p.1.into_storage() })
        .collect()
}

/// `Circle::with_center(..).into_styled(PrimitiveStyle::with_fill(..))
/// .pixels()` of `embedded-graphics`, collected, each pixel with its
/// colour's storage value. The contract names the run of pixels and adds
/// that every pixel carries the fill colour. Diameters beyond
/// [`RASTER_LIMIT`] are kept out: the iterator's arithmetic could overflow
/// on them.
#[verifier::external_body]
fn filled_circle(x: u16, y: u16, diameter: u16, r: u8, g: u8, b: u8) -> (pixels: Vec<Pixel>)
    requires
        diameter <= RASTER_LIMIT,
    ensures
        pixels@ == filled_circle_pixels(x, y, diameter, r, g, b),
        forall|i: int|
            0 <= i < pixels@.len() ==> (#[trigger] pixels@[i]).color == pack_channels(r, g, b),
{
    EgCircle::with_center(EgPoint::new(x.into(), y.into()), diameter.into())
        .into_styled(PrimitiveStyle::with_fill(Rgb565::new(r, g, b)))
        .pixels()
        .map(|p| Pixel { x: p.0.x, y: p.0.y, color: p.1.into_storage() })
        .collect()
}

/// Draws a run of pixels that all have one colour into the framebuffer.
/// Every pixel of the frame is afterwards as it was or of that colour.
fn draw_in_one_color(display: &mut Display, pixels: &[Pixel], color: u16)
    requires
        old(display).wf(),
        forall|i: int| 0 <= i < pixels@.len() ==> (#[trigger] pixels@[i]).color == color,
    ensures
        final(display).wf(),
        final(display).frame() == blit(old(display).frame(), pixels@),
        final(display).wire() == old(display).wire(),
        final(display).settings() == old(display).settings(),
        final(display).asleep() == old(display).asleep(),
        forall|k: int|
            0 <= k < PIXEL_COUNT ==> #[trigger] final(display).frame()[k] == old(
                display,
            ).frame()[k] || final(display).frame()[k] == color,
{
    let _ = display.draw_iter(pixels);
    proof {
        assert forall|k: int| 0 <= k < PIXEL_COUNT implies #[trigger] display.frame()[k] == old(
            display,
        ).frame()[k] || display.frame()[k] == color by {
            lemma_blit_one_color(old(display).frame(), pixels@, color, k);
        }
    }
}

/// A one-pixel-wide line between two points, in a packed colour.
#[derive(Debug, Clone, Copy, PartialEq, Eq)]
pub struct Line {
    pub x1: u16,
    pub y1: u16,
    pub x2: u16,
    pub y2: u16,
    pub color: u16,
}

impl Line {
    /// Whether both ends are within the rasteriser's range.
    pub open spec fn in_range(&self) -> bool {
        self.x1 <= RASTER_LIMIT && self.y1 <= RASTER_LIMIT && self.x2 <= RASTER_LIMIT && self.y2
            <= RASTER_LIMIT
    }
}

impl Figure for Line {
    /// The library's line in this colour; nothing when an end is out of the
    /// rasteriser's range.
    open spec fn pixels(&self) -> Seq<Pixel> {
        if self.in_range() {
            stroked_line_pixels(
                self.x1,
                self.y1,
                self.x2,
                self.y2,
                channels_of(self.color).0,
                channels_of(self.color).1,
                channels_of(self.color).2,
            )
        } else {
            Seq::empty()
        }
    }

    /// Every pixel is of this figure's colour: taking the packed colour
    /// apart for the graphics library and packing it again loses nothing.
    fn rasterise(&self) -> (pixels: Vec<Pixel>)
        ensures
            forall|i: int| 0 <= i < pixels@.len() ==> (#[trigger] pixels@[i]).color == self.color,
    {
        if self.x1 <= RASTER_LIMIT && self.y1 <= RASTER_LIMIT && self.x2 <= RASTER_LIMIT
            && self.y2 <= RASTER_LIMIT {
            let (r, g, b) = unpack_rgb565(self.color);
            proof {
                lemma_pack_unpack_round_trip(self.color);
            }
            stroked_line(self.x1, self.y1, self.x2, self.y2, r, g, b)
        } else {
            Vec::new()
        }
    }

    /// Every pixel of the frame is afterwards as it was or of this
    /// figure's colour.
    fn draw(&self, display: &mut Display)
        ensures
            forall|k: int|
                0 <= k < PIXEL_COUNT ==> #[trigger] final(display).frame()[k] == old(
                    display,
                ).frame()[k] || final(display).frame()[k] == self.color,
    {
        let pixels = self.rasterise();
        draw_in_one_color(display, pixels.as_slice(), self.color);
    }
}

/// The one-pixel-wide outline of a circle about a centre, in a packed
/// colour. `diameter` counts the pixels across.
#[derive(Debug, Clone, Copy, PartialEq, Eq)]
pub struct Circle {
    pub x: u16,
    pub y: u16,
    pub diameter: u16,
    pub color: u16,
}

impl Figure for Circle {
    /// The library's outline in this colour; nothing when the diameter is
    /// out of the rasteriser's range.
    open spec fn pixels(&self) -> Seq<Pixel> {
        if self.diameter <= RASTER_LIMIT {
            stroked_circle_pixels(
                self.x,
                self.y,
                self.diameter,
                channels_of(self.color).0,
                channels_of(self.color).1,
                channels_of(self.color).2,
            )
        } else {
            Seq::empty()
        }
    }

    /// Every pixel is of this figure's colour: taking the packed colour
    /// apart for the graphics library and packing it again loses nothing.
    fn rasterise(&self) -> (pixels: Vec<Pixel>)
        ensures
            forall|i: int| 0 <= i < pixels@.len() ==> (#[trigger] pixels@[i]).color == self.color,
    {
        if self.diameter <= RASTER_LIMIT {
            let (r, g, b) = unpack_rgb565(self.color);
            proof {
                lemma_pack_unpack_round_trip(self.color);
            }
            stroked_circle(self.x, self.y, self.diameter, r, g, b)
        } else {
            Vec::new()
        }
    }

    /// Every pixel of the frame is afterwards as it was or of this
    /// figure's colour.
    fn draw(&self, display: &mut Display)
        ensures
            forall|k: int|
                0 <= k < PIXEL_COUNT ==> #[trigger] final(display).frame()[k] == old(
                    display,
                ).frame()[k] || final(display).frame()[k] == self.color,
    {
        let pixels = self.rasterise();
        draw_in_one_color(display, pixels.as_slice(), self.color);
    }
}

/// A filled circle about a centre, in a packed colour. `diameter` counts
/// the pixels across.
#[derive(Debug, Clone, Copy, PartialEq, Eq)]
pub struct FilledCircle {
    pub x: u16,
    pub y: u16,
    pub diameter: u16,
    pub color: u16,
}

impl Figure for FilledCircle {
    /// The library's disc in this colour; nothing when the diameter is out
    /// of the rasteriser's range.
    open spec fn pixels(&self) -> Seq<Pixel> {
        if self.diameter <= RASTER_LIMIT {
            filled_circle_pixels(
                self.x,
                self.y,
                self.diameter,
                channels_of(self.color).0,
                channels_of(self.color).1,
                channels_of(self.color).2,
            )
        } else {
            Seq::empty()
        }
    }

    /// Every pixel is of this figure's colour: taking the packed colour
    /// apart for the graphics library and packing it again loses nothing.
    fn rasterise(&self) -> (pixels: Vec<Pixel>)
        ensures
            forall|i: int| 0 <= i < pixels@.len() ==> (#[trigger] pixels@[i]).color == self.color,
    {
        if self.diameter <= RASTER_LIMIT {
            let (r, g, b) = unpack_rgb565(self.color);
            proof {
                lemma_pack_unpack_round_trip(self.color);
            }
            filled_circle(self.x, self.y, self.diameter, r, g, b)
        } else {
            Vec::new()
        }
    }

    /// Every pixel of the frame is afterwards as it was or of this
    /// figure's colour.
    fn draw(&self, display: &mut Display)
        ensures
            forall|k: int|
                0 <= k < PIXEL_COUNT ==> #[trigger] final(display).frame()[k] == old(
                    display,
                ).frame()[k] || final(display).frame()[k] == self.color,
    {
        let pixels = self.rasterise();
        draw_in_one_color(display, pixels.as_slice(), self.color);
    }
}

} // verus!
