//! Drawing straight to the panel, without the framebuffer: every pixel is
//! queued as its own one-pixel window followed by its two colour bytes.
//! This costs far more bus traffic than a render and no buffer memory.

use crate::hardware::playback::{claimed_after, lemma_claimed_after_concat};
use crate::hardware::signal::SignalView;
use crate::peripherals::display::error::DisplayError;
use crate::peripherals::display::frame::{bytes_of, solid_frame};
use crate::peripherals::display::graphics::{on_panel, Figure, Pixel};
use crate::peripherals::display::graphics::raster::{
    bresenham, circle_points, circle_poles, lemma_circle_extent, lemma_line_ends, line_points,
    midpoint_circle, within_corners, within_reach, Point,
};
use crate::peripherals::display::{
    data_signals, fill_solid, high_byte, lemma_window_leaves_bus_free,
    lemma_writes_leave_bus_free, low_byte,
    sleep_signals, wake_signals, window_fault, window_signals, window_valid, Display, ASLEEP,
    BUFFER_SIZE, DISPLAY_HEIGHT, DISPLAY_WIDTH,
};
use vstd::prelude::*;

verus! {

/// The two bytes of a packed colour, high byte first.
pub open spec fn color_bytes(color: u16) -> Seq<u8> {
    seq![(color / 256) as u8, (color % 256) as u8]
}

/// The signals that put one pixel on the panel: a window of that pixel
/// alone, then the colour's two bytes.
pub open spec fn pixel_signals(x: u16, y: u16, color: u16) -> Seq<SignalView> {
    window_signals(x, y, x, y) + data_signals(color_bytes(color))
}

/// The signals that put a run of pixels on the panel, one after another.
pub open spec fn stream_signals(points: Seq<Point>, color: u16) -> Seq<SignalView>
    decreases points.len(),
{
    if points.len() == 0 {
        Seq::empty()
    } else {
        stream_signals(points.drop_last(), color) + pixel_signals(
            points.last().x as u16,
            points.last().y as u16,
            color,
        )
    }
}

/// The signals that put a run of coloured pixels on the panel, one after
/// another; pixels off the panel are left out.
pub open spec fn pixel_stream(pixels: Seq<Pixel>) -> Seq<SignalView>
    decreases pixels.len(),
{
    if pixels.len() == 0 {
        Seq::empty()
    } else if on_panel(pixels.last().x as int, pixels.last().y as int) {
        pixel_stream(pixels.drop_last()) + pixel_signals(
            pixels.last().x as u16,
            pixels.last().y as u16,
            pixels.last().color,
        )
    } else {
        pixel_stream(pixels.drop_last())
    }
}

/// The smaller of two coordinates.
pub open spec fn lesser(a: u16, b: u16) -> u16 {
    if a < b {
        a
    } else {
        b
    }
}

/// The larger of two coordinates.
pub open spec fn greater(a: u16, b: u16) -> u16 {
    if a < b {
        b
    } else {
        a
    }
}

/// Whether both ends of a line are on the panel, and with them the whole
/// line.
pub open spec fn line_on_panel(x1: u16, y1: u16, x2: u16, y2: u16) -> bool {
    x1 < DISPLAY_WIDTH && x2 < DISPLAY_WIDTH && y1 < DISPLAY_HEIGHT && y2 < DISPLAY_HEIGHT
}

/// Whether the circle of radius `radius` about `(x, y)` lies on the panel
/// with all its pixels.
pub open spec fn circle_on_panel(x: u16, y: u16, radius: u16) -> bool {
    radius <= x && radius <= y && x + radius < DISPLAY_WIDTH && y + radius < DISPLAY_HEIGHT
}

/// Every pixel of a circle is on the panel exactly when the circle lies on
/// the panel: a circle that does has no pixel off it, and one that does
/// not has a pole off it.
pub proof fn lemma_circle_on_panel(x: u16, y: u16, radius: u16)
    ensures
        circle_on_panel(x, y, radius) <==> on_panel_prefix(circle_points(x, y, radius))
            == circle_points(x, y, radius).len(),
{
    let points = circle_points(x, y, radius);
    lemma_circle_extent(x, y, radius);
    lemma_on_panel_prefix_ends(points);
    if circle_on_panel(x, y, radius) {
        assert forall|j: int| 0 <= j < points.len() implies on_panel(
            (#[trigger] points[j]).x as int,
            points[j].y as int,
        ) by {
            assert(within_reach(points[j], x, y, radius));
        }
        lemma_on_panel_prefix(points, points.len() as int);
    } else {
        let poles = circle_poles(x as int, y as int, radius as int);
        let first = points.len() - 4;
        assert(points.skip(first)[0] == points[first]);
        assert(points.skip(first)[1] == points[first + 1]);
        assert(points.skip(first)[2] == points[first + 2]);
        assert(points.skip(first)[3] == points[first + 3]);
        assert(!on_panel(poles[0].x as int, poles[0].y as int) || !on_panel(
            poles[1].x as int,
            poles[1].y as int,
        ) || !on_panel(poles[2].x as int, poles[2].y as int) || !on_panel(
            poles[3].x as int,
            poles[3].y as int,
        ));
    }
}

/// How many points of a run come before the first that is off the panel:
/// the run's length when all are on it.
pub open spec fn on_panel_prefix(points: Seq<Point>) -> int
    decreases points.len(),
{
    if points.len() == 0 {
        0
    } else if !on_panel(points.first().x as int, points.first().y as int) {
        0
    } else {
        1 + on_panel_prefix(points.skip(1))
    }
}

/// A coordinate as a 16-bit register holds it: one that has run below zero
/// or above 65535 comes round again.
pub open spec fn wrapped(coordinate: int) -> u16 {
    (if coordinate < 0 {
        coordinate + 65536
    } else if coordinate > 65535 {
        coordinate - 65536
    } else {
        coordinate
    }) as u16
}

/// The refusal of a pixel that is off the panel: the pixel's coordinates,
/// as 16-bit registers hold them, beside the panel's width and height.
pub open spec fn off_panel_fault(p: Point) -> DisplayError {
    DisplayError::OutOfBounds {
        x1: wrapped(p.x as int),
        y1: wrapped(p.y as int),
        x2: DISPLAY_WIDTH,
        y2: DISPLAY_HEIGHT,
    }
}

/// Streams of pixels, however long, leave the bus free.
pub proof fn lemma_streams_leave_bus_free(points: Seq<Point>, color: u16, pixels: Seq<Pixel>)
    ensures
        !claimed_after(stream_signals(points, color)),
        !claimed_after(pixel_stream(pixels)),
    decreases points.len() + pixels.len(),
{
    if points.len() > 0 {
        let p = points.last();
        lemma_streams_leave_bus_free(points.drop_last(), color, seq![]);
        lemma_pixel_leaves_bus_free(p.x as u16, p.y as u16, color);
        lemma_claimed_after_concat(
            stream_signals(points.drop_last(), color),
            pixel_signals(p.x as u16, p.y as u16, color),
        );
    }
    if pixels.len() > 0 {
        let p = pixels.last();
        lemma_streams_leave_bus_free(seq![], color, pixels.drop_last());
        lemma_pixel_leaves_bus_free(p.x as u16, p.y as u16, p.color);
        lemma_claimed_after_concat(
            pixel_stream(pixels.drop_last()),
            pixel_signals(p.x as u16, p.y as u16, p.color),
        );
    }
}

/// One pixel leaves the bus free.
pub proof fn lemma_pixel_leaves_bus_free(x: u16, y: u16, color: u16)
    ensures
        !claimed_after(pixel_signals(x, y, color)),
{
    lemma_window_leaves_bus_free(x, y, x, y);
    lemma_writes_leave_bus_free(0, color_bytes(color));
    lemma_claimed_after_concat(window_signals(x, y, x, y), data_signals(color_bytes(color)));
}

/// The prefix is no longer than the run, every point in it is on the
/// panel, and the point behind it, if there is one, is not.
pub proof fn lemma_on_panel_prefix_ends(points: Seq<Point>)
    ensures
        0 <= on_panel_prefix(points) <= points.len(),
        forall|j: int|
            0 <= j < on_panel_prefix(points) ==> on_panel(
                (#[trigger] points[j]).x as int,
                points[j].y as int,
            ),
        on_panel_prefix(points) < points.len() ==> !on_panel(
            points[on_panel_prefix(points)].x as int,
            points[on_panel_prefix(points)].y as int,
        ),
    decreases points.len(),
{
    if points.len() > 0 && on_panel(points.first().x as int, points.first().y as int) {
        let rest = points.skip(1);
        lemma_on_panel_prefix_ends(rest);
        assert forall|j: int| 0 <= j < on_panel_prefix(points) implies on_panel(
            (#[trigger] points[j]).x as int,
            points[j].y as int,
        ) by {
            if j > 0 {
                assert(points[j] == rest[j - 1]);
            }
        }
        if on_panel_prefix(points) < points.len() {
            assert(points[on_panel_prefix(points)] == rest[on_panel_prefix(rest)]);
        }
    }
}

/// The prefix stops at `k` when every point before `k` is on the panel and
/// the point at `k`, if there is one, is not.
pub proof fn lemma_on_panel_prefix(points: Seq<Point>, k: int)
    requires
        0 <= k <= points.len(),
        forall|j: int| 0 <= j < k ==> on_panel((#[trigger] points[j]).x as int, points[j].y as int),
        k < points.len() ==> !on_panel(points[k].x as int, points[k].y as int),
    ensures
        on_panel_prefix(points) == k,
    decreases points.len(),
{
    if points.len() > 0 && k > 0 {
        assert(on_panel(points[0].x as int, points[0].y as int));
        let rest = points.skip(1);
        assert forall|j: int| 0 <= j < k - 1 implies on_panel(
            (#[trigger] rest[j]).x as int,
            rest[j].y as int,
        ) by {
            assert(rest[j] == points[j + 1]);
        }
        lemma_on_panel_prefix(rest, k - 1);
    }
}

impl Display {
    /// Puts one pixel on the panel. A sleeping panel is sent nothing, and a
    /// pixel off the panel is refused as its window is: before anything is
    /// queued.
    pub fn write_pixel(&mut self, x: u16, y: u16, color: u16) -> (result: Result<(), DisplayError>)
        ensures
            old(self).asleep() ==> result == Err::<(), DisplayError>(
                DisplayError::InvalidOperation(ASLEEP),
            ),
            !old(self).asleep() && window_valid(x, y, x, y) ==> result is Ok,
            !old(self).asleep() && window_valid(x, y, x, y) ==> final(self).wire() == old(
                self,
            ).wire() + pixel_signals(x, y, color),
            !old(self).asleep() && !window_valid(x, y, x, y) ==> result == Err::<(), DisplayError>(
                DisplayError::OutOfBounds { x1: x, y1: y, x2: DISPLAY_WIDTH, y2: DISPLAY_HEIGHT },
            ),
            old(self).asleep() || !window_valid(x, y, x, y) ==> final(self).wire() == old(
                self,
            ).wire(),
            final(self).bytes() == old(self).bytes(),
            final(self).settings() == old(self).settings(),
            final(self).asleep() == old(self).asleep(),
    {
        if self.is_asleep() {
            return Err(DisplayError::InvalidOperation(ASLEEP));
        }
        self.set_frame(x, y, x, y)?;
        let bytes: [u8; 2] = [high_byte(color), low_byte(color)];
        assert(bytes@ =~= color_bytes(color));
        self.write_data(bytes.as_slice())?;
        assert(final(self).wire() =~= old(self).wire() + pixel_signals(x, y, color));
        Ok(())
    }

    /// Puts a run of pixels straight on the panel, first to last. Pixels
    /// off the panel are dropped without complaint, as they are when drawn
    /// into the framebuffer. A sleeping panel is sent nothing.
    pub fn stream_iter(&mut self, pixels: &[Pixel]) -> (result: Result<(), DisplayError>)
        ensures
            !old(self).asleep() ==> result is Ok,
            !old(self).asleep() ==> final(self).wire() == old(self).wire() + pixel_stream(
                pixels@,
            ),
            old(self).asleep() ==> result == Err::<(), DisplayError>(
                DisplayError::InvalidOperation(ASLEEP),
            ),
            old(self).asleep() ==> final(self).wire() == old(self).wire(),
            final(self).bytes() == old(self).bytes(),
            final(self).settings() == old(self).settings(),
            final(self).asleep() == old(self).asleep(),
    {
        if self.is_asleep() {
            return Err(DisplayError::InvalidOperation(ASLEEP));
        }
        let mut i: usize = 0;
        while i < pixels.len()
            invariant
                i <= pixels@.len(),
                !self.asleep(),
                self.wire() == old(self).wire() + pixel_stream(pixels@.take(i as int)),
                self.bytes() == old(self).bytes(),
                self.settings() == old(self).settings(),
                self.asleep() == old(self).asleep(),
            decreases pixels@.len() - i,
        {
            let pixel = pixels[i];
            proof {
                assert(pixels@.take(i + 1).drop_last() =~= pixels@.take(i as int));
                assert(pixels@.take(i + 1).last() == pixel);
            }
            if 0 <= pixel.x && pixel.x < DISPLAY_WIDTH as i32 && 0 <= pixel.y && pixel.y
                < DISPLAY_HEIGHT as i32 {
                self.write_pixel(pixel.x as u16, pixel.y as u16, pixel.color)?;
                assert(self.wire() =~= old(self).wire() + pixel_stream(pixels@.take(i + 1)));
            }
            i += 1;
        }
        assert(pixels@.take(pixels@.len() as int) =~= pixels@);
        Ok(())
    }

    /// Draws a figure straight to the panel, bypassing the framebuffer. A
    /// sleeping panel is sent nothing.
    pub fn stream<T: Figure>(&mut self, shape: &T) -> (result: Result<(), DisplayError>)
        ensures
            !old(self).asleep() ==> result is Ok,
            !old(self).asleep() ==> final(self).wire() == old(self).wire() + pixel_stream(
                shape.pixels(),
            ),
            old(self).asleep() ==> result == Err::<(), DisplayError>(
                DisplayError::InvalidOperation(ASLEEP),
            ),
            old(self).asleep() ==> final(self).wire() == old(self).wire(),
            final(self).bytes() == old(self).bytes(),
            final(self).settings() == old(self).settings(),
            final(self).asleep() == old(self).asleep(),
    {
        if self.is_asleep() {
            return Err(DisplayError::InvalidOperation(ASLEEP));
        }
        let pixels = shape.rasterise();
        self.stream_iter(pixels.as_slice())
    }

    /// Fills the whole panel with one colour, bypassing the framebuffer:
    /// sleep, the full-panel window, one frame of the colour as a single
    /// payload, wake. The panel is awake afterwards, whatever it was
    /// before.
    pub fn set_background(&mut self, color: u16) -> (result: Result<(), DisplayError>)
        ensures
            result is Ok,
            final(self).wire() == old(self).wire() + sleep_signals(
                old(self).settings().settle_millis,
            ) + window_signals(
                0,
                0,
                (DISPLAY_WIDTH - 1) as u16,
                (DISPLAY_HEIGHT - 1) as u16,
            ) + data_signals(bytes_of(solid_frame(color))) + wake_signals(
                old(self).settings().settle_millis,
            ),
            final(self).bytes() == old(self).bytes(),
            final(self).settings() == old(self).settings(),
            !final(self).asleep(),
    {
        self.sleep()?;
        self.set_frame(0, 0, DISPLAY_WIDTH - 1, DISPLAY_HEIGHT - 1)?;

        let mut frame: Vec<u8> = vec![0u8; BUFFER_SIZE];
        fill_solid(&mut frame, color);
        self.write_data(frame.as_slice())?;

        self.wake()?;
        assert(final(self).wire() =~= old(self).wire() + sleep_signals(
            old(self).settings().settle_millis,
        ) + window_signals(
            0,
            0,
            (DISPLAY_WIDTH - 1) as u16,
            (DISPLAY_HEIGHT - 1) as u16,
        ) + data_signals(bytes_of(solid_frame(color))) + wake_signals(
            old(self).settings().settle_millis,
        ));
        Ok(())
    }

    /// Draws the line from `(x1, y1)` to `(x2, y2)` straight to the panel,
    /// in whichever direction it runs. The line opens with the window that
    /// its two ends span, so a line with an end off the panel is refused
    /// before anything is queued; every pixel then follows, from the first
    /// end to the second, with a window of its own. A sleeping panel is sent
    /// nothing.
    pub fn draw_line(&mut self, x1: u16, y1: u16, x2: u16, y2: u16, color: u16) -> (result: Result<
        (),
        DisplayError,
    >)
        ensures
            old(self).asleep() ==> result == Err::<(), DisplayError>(
                DisplayError::InvalidOperation(ASLEEP),
            ),
            !old(self).asleep() && line_on_panel(x1, y1, x2, y2) ==> result is Ok,
            !old(self).asleep() && line_on_panel(x1, y1, x2, y2) ==> final(self).wire() == old(
                self,
            ).wire() + window_signals(
                lesser(x1, x2),
                lesser(y1, y2),
                greater(x1, x2),
                greater(y1, y2),
            ) + stream_signals(line_points(x1, y1, x2, y2), color),
            !line_on_panel(x1, y1, x2, y2) ==> window_fault(
                lesser(x1, x2),
                lesser(y1, y2),
                greater(x1, x2),
                greater(y1, y2),
            ) is Some,
            !old(self).asleep() && !line_on_panel(x1, y1, x2, y2) ==> result == Err::<
                (),
                DisplayError,
            >(
                window_fault(
                    lesser(x1, x2),
                    lesser(y1, y2),
                    greater(x1, x2),
                    greater(y1, y2),
                )->Some_0,
            ),
            old(self).asleep() || !line_on_panel(x1, y1, x2, y2) ==> final(self).wire() == old(
                self,
            ).wire(),
            final(self).bytes() == old(self).bytes(),
            final(self).settings() == old(self).settings(),
            final(self).asleep() == old(self).asleep(),
    {
        if self.is_asleep() {
            return Err(DisplayError::InvalidOperation(ASLEEP));
        }
        let left: u16 = if x1 < x2 {
            x1
        } else {
            x2
        };
        let right: u16 = if x1 < x2 {
            x2
        } else {
            x1
        };
        let top: u16 = if y1 < y2 {
            y1
        } else {
            y2
        };
        let bottom: u16 = if y1 < y2 {
            y2
        } else {
            y1
        };
        self.set_frame(left, top, right, bottom)?;
        let ghost opened = self.wire();
        let points = bresenham(x1, y1, x2, y2);
        proof {
            lemma_line_ends(x1, y1, x2, y2);
        }
        let mut i: usize = 0;
        while i < points.len()
            invariant
                i <= points@.len(),
                !self.asleep(),
                line_on_panel(x1, y1, x2, y2),
                points@ == line_points(x1, y1, x2, y2),
                forall|k: int|
                    0 <= k < points@.len() ==> within_corners(#[trigger] points@[k], x1, y1, x2, y2),
                self.wire() == opened + stream_signals(points@.take(i as int), color),
                self.bytes() == old(self).bytes(),
                self.settings() == old(self).settings(),
                self.asleep() == old(self).asleep(),
            decreases points@.len() - i,
        {
            let p = points[i];
            proof {
                assert(within_corners(points@[i as int], x1, y1, x2, y2));
                assert(points@.take(i + 1).drop_last() =~= points@.take(i as int));
                assert(points@.take(i + 1).last() == p);
            }
            self.write_pixel(p.x as u16, p.y as u16, color)?;
            assert(self.wire() =~= opened + stream_signals(points@.take(i + 1), color));
            i += 1;
        }
        assert(points@.take(points@.len() as int) =~= points@);
        Ok(())
    }

    /// Draws the circle of radius `radius` about `(x, y)` straight to the
    /// panel, pixel by pixel in drawing order. A circle that lies on the
    /// panel is drawn in full. Of one that does not, the first pixel that
    /// falls off the panel ends the drawing with its refusal; the pixels
    /// before it stay queued. A sleeping panel is sent nothing.
    pub fn draw_circle(&mut self, x: u16, y: u16, radius: u16, color: u16) -> (result: Result<
        (),
        DisplayError,
    >)
        ensures
            old(self).asleep() ==> result == Err::<(), DisplayError>(
                DisplayError::InvalidOperation(ASLEEP),
            ),
            old(self).asleep() ==> final(self).wire() == old(self).wire(),
            !old(self).asleep() ==> (result is Ok <==> circle_on_panel(x, y, radius)),
            !old(self).asleep() ==> final(self).wire() == old(self).wire() + stream_signals(
                circle_points(x, y, radius).take(on_panel_prefix(circle_points(x, y, radius))),
                color,
            ),
            !old(self).asleep() && on_panel_prefix(circle_points(x, y, radius)) == circle_points(
                x,
                y,
                radius,
            ).len() ==> result is Ok,
            !old(self).asleep() && on_panel_prefix(circle_points(x, y, radius)) < circle_points(
                x,
                y,
                radius,
            ).len() ==> result == Err::<(), DisplayError>(
                off_panel_fault(
                    circle_points(x, y, radius)[on_panel_prefix(circle_points(x, y, radius))],
                ),
            ),
            final(self).bytes() == old(self).bytes(),
            final(self).settings() == old(self).settings(),
            final(self).asleep() == old(self).asleep(),
    {
        if self.is_asleep() {
            return Err(DisplayError::InvalidOperation(ASLEEP));
        }
        let points = midpoint_circle(x, y, radius);
        proof {
            lemma_circle_on_panel(x, y, radius);
        }
        let mut i: usize = 0;
        while i < points.len()
            invariant
                i <= points@.len(),
                !self.asleep(),
                points@ == circle_points(x, y, radius),
                forall|k: int|
                    0 <= k < points@.len() ==> within_reach(
                        #[trigger] points@[k],
                        x,
                        y,
                        radius,
                    ),
                forall|j: int|
                    0 <= j < i ==> on_panel((#[trigger] points@[j]).x as int, points@[j].y as int),
                self.wire() == old(self).wire() + stream_signals(points@.take(i as int), color),
                self.bytes() == old(self).bytes(),
                self.settings() == old(self).settings(),
                self.asleep() == old(self).asleep(),
            decreases points@.len() - i,
        {
            let p = points[i];
            proof {
                assert(within_reach(
                    points@[i as int],
                    x,
                    y,
                    radius,
                ));
                assert(points@.take(i + 1).drop_last() =~= points@.take(i as int));
                assert(points@.take(i + 1).last() == p);
            }
            if p.x < 0 || p.x >= DISPLAY_WIDTH as i32 || p.y < 0 || p.y >= DISPLAY_HEIGHT as i32 {
                proof {
                    lemma_on_panel_prefix(points@, i as int);
                }
                return Err(
                    DisplayError::OutOfBounds {
                        x1: wrap(p.x),
                        y1: wrap(p.y),
                        x2: DISPLAY_WIDTH,
                        y2: DISPLAY_HEIGHT,
                    },
                );
            }
            self.write_pixel(p.x as u16, p.y as u16, color)?;
            assert(self.wire() =~= old(self).wire() + stream_signals(
                points@.take(i + 1),
                color,
            ));
            i += 1;
        }
        proof {
            lemma_on_panel_prefix(points@, points@.len() as int);
            assert(points@.take(points@.len() as int) =~= points@);
        }
        Ok(())
    }
}

/// A coordinate as a 16-bit register holds it.
fn wrap(coordinate: i32) -> (value: u16)
    requires
        -65536 <= coordinate <= 131071,
    ensures
        value == wrapped(coordinate as int),
{
    if coordinate < 0 {
        (coordinate + 65536) as u16
    } else if coordinate > 65535 {
        (coordinate - 65536) as u16
    } else {
        coordinate as u16
    }
}

} // verus!
