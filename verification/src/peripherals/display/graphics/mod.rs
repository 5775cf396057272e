//! Drawing: colours, shapes and the rasterisers behind them.

pub mod color;
pub mod direct;
pub mod primitives;
pub mod raster;
pub mod text;

pub use self::color::Color;
pub use self::primitives::{Circle, FilledCircle, Line};
pub use self::text::{Alignment, Text};
use crate::peripherals::display::error::DisplayError;
use crate::peripherals::display::frame::{pixel_index, PIXEL_COUNT};
use crate::peripherals::display::{Display, DISPLAY_HEIGHT, DISPLAY_WIDTH};
use vstd::prelude::*;

verus! {

/// One coloured pixel: a position on the grid and a packed colour.
#[derive(Debug, Clone, Copy, PartialEq, Eq)]
pub struct Pixel {
    pub x: i32,
    pub y: i32,
    pub color: u16,
}

/// Whether a position is on the panel.
pub open spec fn on_panel(x: int, y: int) -> bool {
    0 <= x < DISPLAY_WIDTH && 0 <= y < DISPLAY_HEIGHT
}

/// A frame after one pixel is drawn: a pixel on the panel takes its place
/// in the frame, any other is dropped.
pub open spec fn plot(frame: Seq<u16>, pixel: Pixel) -> Seq<u16> {
    if on_panel(pixel.x as int, pixel.y as int) {
        frame.update(pixel_index(pixel.x as int, pixel.y as int), pixel.color)
    } else {
        frame
    }
}

/// A frame after a run of pixels is drawn, first to last: where two land on
/// the same spot the later one shows.
pub open spec fn blit(frame: Seq<u16>, pixels: Seq<Pixel>) -> Seq<u16>
    decreases pixels.len(),
{
    if pixels.len() == 0 {
        frame
    } else {
        plot(blit(frame, pixels.drop_last()), pixels.last())
    }
}

/// Drawing changes no pixel that none of the drawn pixels lands on.
pub proof fn lemma_blit_elsewhere(frame: Seq<u16>, pixels: Seq<Pixel>, index: int)
    requires
        frame.len() == PIXEL_COUNT,
        0 <= index < frame.len(),
        forall|i: int|
            0 <= i < pixels.len() && on_panel(pixels[i].x as int, pixels[i].y as int)
                ==> pixel_index(#[trigger] pixels[i].x as int, pixels[i].y as int) != index,
    ensures
        blit(frame, pixels)[index] == frame[index],
    decreases pixels.len(),
{
    lemma_blit_len(frame, pixels);
    if pixels.len() > 0 {
        let front = pixels.drop_last();
        assert forall|i: int|
            0 <= i < front.len() && on_panel(front[i].x as int, front[i].y as int)
                implies pixel_index(#[trigger] front[i].x as int, front[i].y as int) != index by {
            assert(front[i] == pixels[i]);
        }
        lemma_blit_elsewhere(frame, front, index);
        lemma_blit_len(frame, front);
        let last = pixels.last();
        assert(last == pixels[pixels.len() - 1]);
    }
}

/// Drawing pixels of one colour leaves every pixel of the frame as it was
/// or in that colour.
pub proof fn lemma_blit_one_color(frame: Seq<u16>, pixels: Seq<Pixel>, color: u16, index: int)
    requires
        frame.len() == PIXEL_COUNT,
        0 <= index < frame.len(),
        forall|i: int| 0 <= i < pixels.len() ==> (#[trigger] pixels[i]).color == color,
    ensures
        blit(frame, pixels)[index] == frame[index] || blit(frame, pixels)[index] == color,
    decreases pixels.len(),
{
    if pixels.len() > 0 {
        let front = pixels.drop_last();
        assert forall|i: int| 0 <= i < front.len() implies (#[trigger] front[i]).color
            == color by {
            assert(front[i] == pixels[i]);
        }
        lemma_blit_one_color(frame, front, color, index);
        lemma_blit_len(frame, front);
        assert(pixels.last() == pixels[pixels.len() - 1]);
    }
}

/// Drawing keeps the frame's size.
pub proof fn lemma_blit_len(frame: Seq<u16>, pixels: Seq<Pixel>)
    requires
        frame.len() == PIXEL_COUNT,
    ensures
        blit(frame, pixels).len() == frame.len(),
    decreases pixels.len(),
{
    if pixels.len() > 0 {
        lemma_blit_len(frame, pixels.drop_last());
    }
}

/// Something that can be drawn to a display. A figure is its pixels; the
/// display decides where they go: into the framebuffer, to reach the panel
/// with the next render, or straight to the panel.
pub trait Figure {
    /// The pixels the figure asks for, in drawing order. Those that fall
    /// outside the panel are dropped when it is drawn.
    spec fn pixels(&self) -> Seq<Pixel>;

    /// Works the figure's pixels out.
    fn rasterise(&self) -> (pixels: Vec<Pixel>)
        ensures
            pixels@ == self.pixels(),
    ;

    /// Draws the figure into the display's framebuffer. Nothing reaches the
    /// panel before the next render.
    fn draw(&self, display: &mut Display)
        requires
            old(display).wf(),
        ensures
            final(display).wf(),
            final(display).frame() == blit(old(display).frame(), self.pixels()),
            final(display).wire() == old(display).wire(),
            final(display).settings() == old(display).settings(),
            final(display).asleep() == old(display).asleep(),
    ;
}

impl Display {
    /// Draws a run of pixels into the framebuffer, first to last. Pixels
    /// outside the panel are dropped without complaint.
    pub fn draw_iter(&mut self, pixels: &[Pixel]) -> (result: Result<(), DisplayError>)
        requires
            old(self).wf(),
        ensures
            result is Ok,
            final(self).wf(),
            final(self).frame() == blit(old(self).frame(), pixels@),
            final(self).wire() == old(self).wire(),
            final(self).settings() == old(self).settings(),
            final(self).asleep() == old(self).asleep(),
    {
        let mut i: usize = 0;
        while i < pixels.len()
            invariant
                i <= pixels@.len(),
                self.wf(),
                self.frame() == blit(old(self).frame(), pixels@.take(i as int)),
                self.wire() == old(self).wire(),
                self.settings() == old(self).settings(),
                self.asleep() == old(self).asleep(),
            decreases pixels@.len() - i,
        {
            let pixel = pixels[i];
            proof {
                assert(pixels@.take(i + 1).drop_last() =~= pixels@.take(i as int));
                assert(pixels@.take(i + 1).last() == pixel);
            }
            if 0 <= pixel.x && pixel.x < DISPLAY_WIDTH as i32 && 0 <= pixel.y && pixel.y
                < DISPLAY_HEIGHT as i32 {
                self.set_pixel(pixel.x as u16, pixel.y as u16, pixel.color);
            }
            i += 1;
        }
        assert(pixels@.take(pixels@.len() as int) =~= pixels@);
        Ok(())
    }

    /// Draws a figure into the framebuffer.
    pub fn draw<T: Figure>(&mut self, shape: &T)
        requires
            old(self).wf(),
        ensures
            final(self).wf(),
            final(self).frame() == blit(old(self).frame(), shape.pixels()),
            final(self).wire() == old(self).wire(),
            final(self).settings() == old(self).settings(),
            final(self).asleep() == old(self).asleep(),
    {
        shape.draw(self);
    }
}

} // verus!
