use core::convert::Infallible;
use embedded_graphics::draw_target::DrawTarget;
use embedded_graphics::geometry::{Dimensions, OriginDimensions, Point, Size};
use embedded_graphics::mono_font::ascii::FONT_10X20;
use embedded_graphics::mono_font::MonoTextStyle;
use embedded_graphics::pixelcolor::{IntoStorage, Rgb565};
use embedded_graphics::primitives::{
    Circle as EgCircle, Line as EgLine, Primitive, PrimitiveStyle,
};
use embedded_graphics::text::{
    Alignment as EgAlignment, Baseline, LineHeight, Text as EgText, TextStyleBuilder,
};
use embedded_graphics::{Drawable, Pixel as EgPixel};
use smartknob::hardware::spi::SpiInterface;
use smartknob::peripherals::display::graphics::{
    Alignment, Circle, Color, Figure, FilledCircle, Line, Text,
};
use smartknob::peripherals::display::Display;

/// A 240x240 frame that the graphics library draws on directly.
struct Canvas {
    frame: Vec<u16>,
}

impl Canvas {
    fn new() -> Self {
        Canvas { frame: vec![0; 240 * 240] }
    }
}

impl OriginDimensions for Canvas {
    fn size(&self) -> Size {
        Size::new(240, 240)
    }
}

impl DrawTarget for Canvas {
    type Color = Rgb565;
    type Error = Infallible;

    fn draw_iter<I>(&mut self, pixels: I) -> Result<(), Self::Error>
    where
        I: IntoIterator<Item = EgPixel<Self::Color>>,
    {
        let area = self.bounding_box();
        for EgPixel(position, color) in pixels {
            if area.contains(position) {
                self.frame[(position.y * 240 + position.x) as usize] = color.into_storage();
            }
        }
        Ok(())
    }
}

fn display() -> Display {
    Display::new(SpiInterface::new(40).unwrap())
}

fn frame_of(display: &Display) -> Vec<u16> {
    display.buffer().chunks(2).map(|pair| ((pair[0] as u16) << 8) | pair[1] as u16).collect()
}

fn unpacked(color: u16) -> Rgb565 {
    Rgb565::new(((color >> 11) & 0x1F) as u8, ((color >> 5) & 0x3F) as u8, (color & 0x1F) as u8)
}

fn lit(frame: &[u16]) -> usize {
    frame.iter().filter(|&&pixel| pixel != 0).count()
}

#[test]
fn a_line_is_the_line_the_graphics_library_draws() {
    for &(x1, y1, x2, y2) in &[
        (10u16, 20u16, 200u16, 100u16),
        (0, 0, 239, 239),
        (239, 0, 0, 239),
        (5, 5, 5, 5),
        (100, 230, 130, 400),
        (300, 300, 310, 310),
    ] {
        let mut display = display();
        display.draw(&Line { x1, y1, x2, y2, color: 0xF81F });
        let mut canvas = Canvas::new();
        EgLine::new(Point::new(x1 as i32, y1 as i32), Point::new(x2 as i32, y2 as i32))
            .into_styled(PrimitiveStyle::with_stroke(unpacked(0xF81F), 1))
            .draw(&mut canvas)
            .unwrap();
        assert_eq!(frame_of(&display), canvas.frame);
    }
}

#[test]
fn a_line_draws_in_its_own_colour_only() {
    for color in [0x0001u16, 0x1234, 0x8000, 0xFFFF, 0x07E0] {
        let mut display = display();
        Line { x1: 0, y1: 0, x2: 239, y2: 17, color }.draw(&mut display);
        let frame = frame_of(&display);
        assert_eq!(lit(&frame), 240);
        assert!(frame.iter().all(|&pixel| pixel == 0 || pixel == color));
    }
}

#[test]
fn a_horizontal_line_fills_its_row_between_the_ends() {
    let mut display = display();
    display.draw(&Line { x1: 3, y1: 7, x2: 6, y2: 7, color: 0xAAAA });
    let frame = frame_of(&display);
    assert_eq!(lit(&frame), 4);
    for x in 3..=6 {
        assert_eq!(frame[7 * 240 + x], 0xAAAA);
    }
}

#[test]
fn a_line_beyond_the_rasteriser_range_draws_nothing() {
    let mut display = display();
    display.draw(&Line { x1: 0, y1: 0, x2: 4096, y2: 0, color: 0xFFFF });
    display.draw(&Line { x1: 0, y1: 65535, x2: 10, y2: 10, color: 0xFFFF });
    assert_eq!(lit(&frame_of(&display)), 0);
    display.draw(&Line { x1: 0, y1: 0, x2: 4095, y2: 0, color: 0xFFFF });
    assert_eq!(lit(&frame_of(&display)), 240);
}

#[test]
fn a_circle_is_the_outline_the_graphics_library_draws() {
    for &(x, y, diameter) in &[
        (120u16, 120u16, 100u16),
        (50, 50, 21),
        (0, 0, 30),
        (239, 120, 60),
        (120, 120, 1),
        (120, 120, 0),
        (120, 120, 2),
        (120, 120, 400),
    ] {
        let mut display = display();
        display.draw(&Circle { x, y, diameter, color: 0x07FF });
        let mut canvas = Canvas::new();
        EgCircle::with_center(Point::new(x as i32, y as i32), diameter as u32)
            .into_styled(PrimitiveStyle::with_stroke(unpacked(0x07FF), 1))
            .draw(&mut canvas)
            .unwrap();
        assert_eq!(frame_of(&display), canvas.frame);
    }
}

#[test]
fn a_circle_leaves_its_inside_alone() {
    let mut display = display();
    display.clear(Color(255, 0, 0));
    display.draw(&Circle { x: 100, y: 100, diameter: 41, color: 0x001F });
    let frame = frame_of(&display);
    assert_eq!(frame[100 * 240 + 100], 0xF800);
    assert_eq!(frame[100 * 240 + 80], 0x001F);
    assert_eq!(frame[100 * 240 + 120], 0x001F);
    assert_eq!(frame[80 * 240 + 100], 0x001F);
    assert_eq!(frame[120 * 240 + 100], 0x001F);
    assert_eq!(frame[100 * 240 + 79], 0xF800);
}

#[test]
fn a_filled_circle_is_the_disc_the_graphics_library_draws() {
    for &(x, y, diameter) in &[
        (120u16, 120u16, 100u16),
        (50, 50, 21),
        (0, 0, 30),
        (239, 239, 60),
        (120, 120, 1),
        (120, 120, 0),
        (7, 200, 340),
    ] {
        let mut display = display();
        display.draw(&FilledCircle { x, y, diameter, color: 0xFFE0 });
        let mut canvas = Canvas::new();
        EgCircle::with_center(Point::new(x as i32, y as i32), diameter as u32)
            .into_styled(PrimitiveStyle::with_fill(unpacked(0xFFE0)))
            .draw(&mut canvas)
            .unwrap();
        assert_eq!(frame_of(&display), canvas.frame);
    }
}

#[test]
fn a_filled_circle_covers_its_centre_and_its_rim() {
    let mut display = display();
    FilledCircle { x: 60, y: 60, diameter: 11, color: 0x1357 }.draw(&mut display);
    let frame = frame_of(&display);
    assert_eq!(frame[60 * 240 + 60], 0x1357);
    assert_eq!(frame[60 * 240 + 55], 0x1357);
    assert_eq!(frame[60 * 240 + 65], 0x1357);
    assert_eq!(frame[60 * 240 + 54], 0);
    assert_eq!(frame[60 * 240 + 66], 0);
    assert!(frame.iter().all(|&pixel| pixel == 0 || pixel == 0x1357));
}

#[test]
fn circles_beyond_the_rasteriser_range_draw_nothing() {
    let mut display = display();
    display.draw(&Circle { x: 120, y: 120, diameter: 4096, color: 0xFFFF });
    display.draw(&FilledCircle { x: 120, y: 120, diameter: 65535, color: 0xFFFF });
    assert_eq!(lit(&frame_of(&display)), 0);
}

#[test]
fn figures_reach_the_panel_only_with_a_render() {
    let mut display = display();
    display.draw(&Line { x1: 0, y1: 0, x2: 10, y2: 10, color: 0xFFFF });
    display.draw(&FilledCircle { x: 30, y: 30, diameter: 9, color: 0xFFFF });
    assert!(display.take_signals().is_empty());
}

fn library_text(content: &str, x: u16, y: u16, alignment: EgAlignment, color: Color) -> Vec<u16> {
    let mut canvas = Canvas::new();
    let style = TextStyleBuilder::new()
        .alignment(alignment)
        .baseline(Baseline::Middle)
        .line_height(LineHeight::Percent(150))
        .build();
    let glyphs = MonoTextStyle::new(&FONT_10X20, color.to_embedded_rgb565());
    EgText::with_text_style(content, Point::new(x as i32, y as i32), glyphs, style)
        .draw(&mut canvas)
        .unwrap();
    canvas.frame
}

#[test]
fn centred_text_is_the_text_the_graphics_library_draws() {
    let mut display = display();
    let text = Text {
        content: String::from("Luz Dormitorio"),
        x: 120,
        y: 120,
        alignment: Alignment::Center,
        color: Color(255, 255, 255),
    };
    display.draw(&text);
    let frame = frame_of(&display);
    assert_eq!(
        frame,
        library_text("Luz Dormitorio", 120, 120, EgAlignment::Center, Color(255, 255, 255))
    );
    assert!(lit(&frame) > 100);
    assert!(frame.iter().all(|&pixel| pixel == 0 || pixel == 0xFFFF));
}

#[test]
fn text_follows_its_alignment() {
    for (ours, theirs) in [
        (Alignment::Left, EgAlignment::Left),
        (Alignment::Center, EgAlignment::Center),
        (Alignment::Right, EgAlignment::Right),
    ] {
        let mut display = display();
        let text = Text {
            content: String::from("knob"),
            x: 100,
            y: 40,
            alignment: ours,
            color: Color(0, 255, 0),
        };
        text.draw(&mut display);
        assert_eq!(frame_of(&display), library_text("knob", 100, 40, theirs, Color(0, 255, 0)));
    }
}

#[test]
fn text_that_runs_off_the_panel_is_cut_at_the_edge() {
    for &(x, y) in &[(0u16, 0u16), (239, 239), (5, 120), (235, 3), (1000, 1000)] {
        let mut display = display();
        let text = Text {
            content: String::from("A long label\nin two lines"),
            x,
            y,
            alignment: Alignment::Center,
            color: Color(255, 255, 0),
        };
        text.draw(&mut display);
        assert_eq!(
            frame_of(&display),
            library_text(
                "A long label\nin two lines",
                x,
                y,
                EgAlignment::Center,
                Color(255, 255, 0)
            )
        );
    }
}

#[test]
fn text_is_drawn_over_what_is_there() {
    let mut display = display();
    display.clear(Color(0, 0, 255));
    let text = Text {
        content: String::from("I"),
        x: 120,
        y: 120,
        alignment: Alignment::Center,
        color: Color(255, 255, 255),
    };
    display.draw(&text);
    let glyph = library_text("I", 120, 120, EgAlignment::Center, Color(255, 255, 255));
    let frame = frame_of(&display);
    for (index, &pixel) in frame.iter().enumerate() {
        assert_eq!(pixel, if glyph[index] != 0 { 0xFFFF } else { 0x001F });
    }
}

#[test]
fn empty_text_and_overlong_text_draw_nothing() {
    let mut display = display();
    let mut text = Text {
        content: String::new(),
        x: 120,
        y: 120,
        alignment: Alignment::Center,
        color: Color(255, 255, 255),
    };
    display.draw(&text);
    assert_eq!(lit(&frame_of(&display)), 0);
    text.content = "M".repeat(1025);
    display.draw(&text);
    assert_eq!(lit(&frame_of(&display)), 0);
    text.content = "M".repeat(1024);
    display.draw(&text);
    assert_eq!(
        frame_of(&display),
        library_text(&"M".repeat(1024), 120, 120, EgAlignment::Center, Color(255, 255, 255))
    );
}

#[test]
fn a_line_rasterises_to_the_pixels_of_the_graphics_library_in_their_order() {
    let line = Line { x1: 12, y1: 200, x2: 70, y2: 3, color: 0xBEEF };
    let expected: Vec<(i32, i32, u16)> =
        EgLine::new(Point::new(12, 200), Point::new(70, 3))
            .into_styled(PrimitiveStyle::with_stroke(unpacked(0xBEEF), 1))
            .pixels()
            .map(|EgPixel(position, color)| (position.x, position.y, color.into_storage()))
            .collect();
    let ours: Vec<(i32, i32, u16)> =
        line.rasterise().iter().map(|pixel| (pixel.x, pixel.y, pixel.color)).collect();
    assert_eq!(ours, expected);
    assert_eq!(ours.len(), 198);
    assert_eq!(ours[0], (12, 200, 0xBEEF));
    assert_eq!(ours[197], (70, 3, 0xBEEF));
}

#[test]
fn the_rasterisers_hold_at_the_edge_of_their_range() {
    for &(x1, y1, x2, y2) in &[
        (0u16, 0u16, 4095u16, 4095u16),
        (4095, 0, 0, 4095),
        (0, 0, 4095, 1),
        (0, 0, 1, 4095),
        (4095, 4095, 0, 4094),
        (0, 4095, 4095, 2048),
        (17, 4095, 4095, 0),
    ] {
        let pixels = Line { x1, y1, x2, y2, color: 1 }.rasterise();
        assert_eq!(pixels.len(), 4096);
        assert_eq!((pixels[0].x, pixels[0].y), (x1 as i32, y1 as i32));
    }
    for &(x, y) in &[(0u16, 0u16), (65535, 65535), (120, 120)] {
        assert!(Circle { x, y, diameter: 4095, color: 1 }.rasterise().len() > 8000);
    }
    assert!(FilledCircle { x: 65535, y: 0, diameter: 1500, color: 1 }.rasterise().len() > 1_500_000);
}

#[test]
fn text_outside_the_font_is_drawn_as_the_graphics_library_draws_it() {
    for content in ["Salón", "día\r\nnoche", "\n\n", "\u{1F600}", " "] {
        let mut display = display();
        let text = Text {
            content: String::from(content),
            x: 120,
            y: 100,
            alignment: Alignment::Center,
            color: Color(255, 0, 0),
        };
        display.draw(&text);
        assert_eq!(
            frame_of(&display),
            library_text(content, 120, 100, EgAlignment::Center, Color(255, 0, 0))
        );
    }
}
