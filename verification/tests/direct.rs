use smartknob::hardware::signal::{Level, Signal};
use smartknob::hardware::spi::SpiInterface;
use smartknob::peripherals::display::error::DisplayError;
use smartknob::peripherals::display::graphics::raster::{bresenham, midpoint_circle};
use smartknob::peripherals::display::graphics::{
    Alignment, Circle, Color, Figure, FilledCircle, Line, Pixel, Text,
};
use smartknob::peripherals::display::Display;

fn display() -> Display {
    Display::new(SpiInterface::new(40).unwrap())
}

fn command(byte: u8) -> Vec<Signal> {
    vec![
        Signal::DataCommand(Level::Low),
        Signal::ChipSelect(Level::Low),
        Signal::Write(vec![byte]),
        Signal::Flush,
        Signal::ChipSelect(Level::High),
    ]
}

fn data(bytes: &[u8]) -> Vec<Signal> {
    vec![
        Signal::DataCommand(Level::High),
        Signal::ChipSelect(Level::Low),
        Signal::Write(bytes.to_vec()),
        Signal::Flush,
        Signal::ChipSelect(Level::High),
    ]
}

fn window(x1: u16, y1: u16, x2: u16, y2: u16) -> Vec<Signal> {
    let mut signals = command(0x2A);
    signals.extend(data(&[(x1 >> 8) as u8, x1 as u8, (x2 >> 8) as u8, x2 as u8]));
    signals.extend(command(0x2B));
    signals.extend(data(&[(y1 >> 8) as u8, y1 as u8, (y2 >> 8) as u8, y2 as u8]));
    signals.extend(command(0x2C));
    signals
}

fn pixel(x: u16, y: u16, color: u16) -> Vec<Signal> {
    let mut signals = window(x, y, x, y);
    signals.extend(data(&[(color >> 8) as u8, color as u8]));
    signals
}

#[test]
fn a_pixel_is_its_own_window_and_two_colour_bytes() {
    let mut display = display();
    assert_eq!(display.write_pixel(17, 200, 0xCAFE), Ok(()));
    assert_eq!(display.take_signals(), pixel(17, 200, 0xCAFE));
    assert!(display.buffer().iter().all(|&byte| byte == 0));
}

#[test]
fn a_pixel_off_the_panel_is_refused_with_nothing_queued() {
    let mut display = display();
    assert_eq!(
        display.write_pixel(240, 0, 1),
        Err(DisplayError::OutOfBounds { x1: 240, y1: 0, x2: 240, y2: 240 })
    );
    assert_eq!(
        display.write_pixel(0, 65535, 1),
        Err(DisplayError::OutOfBounds { x1: 0, y1: 65535, x2: 240, y2: 240 })
    );
    assert!(display.take_signals().is_empty());
}

#[test]
fn a_line_opens_with_its_window_and_streams_its_pixels() {
    let mut display = display();
    assert_eq!(display.draw_line(0, 0, 4, 0, 0x8001), Ok(()));
    let mut expected = window(0, 0, 4, 0);
    for x in 0..=4 {
        expected.extend(pixel(x, 0, 0x8001));
    }
    assert_eq!(display.take_signals(), expected);
}

#[test]
fn a_sloped_line_streams_the_rasterised_points_in_order() {
    let mut display = display();
    assert_eq!(display.draw_line(10, 20, 37, 239, 0x0F0F), Ok(()));
    let mut expected = window(10, 20, 37, 239);
    for point in bresenham(10, 20, 37, 239) {
        expected.extend(pixel(point.x as u16, point.y as u16, 0x0F0F));
    }
    assert_eq!(display.take_signals(), expected);
}

#[test]
fn a_line_drawn_backwards_opens_with_the_same_window_and_runs_the_other_way() {
    let mut display = display();
    assert_eq!(display.draw_line(4, 0, 0, 0, 0x8001), Ok(()));
    let mut expected = window(0, 0, 4, 0);
    for x in (0..=4).rev() {
        expected.extend(pixel(x, 0, 0x8001));
    }
    assert_eq!(display.take_signals(), expected);

    assert_eq!(display.draw_line(30, 9, 5, 200, 1), Ok(()));
    let mut expected = window(5, 9, 30, 200);
    for point in bresenham(30, 9, 5, 200) {
        expected.extend(pixel(point.x as u16, point.y as u16, 1));
    }
    assert_eq!(display.take_signals(), expected);
}

#[test]
fn a_single_point_is_a_line() {
    let mut display = display();
    assert_eq!(display.draw_line(7, 8, 7, 8, 0x0102), Ok(()));
    let mut expected = window(7, 8, 7, 8);
    expected.extend(pixel(7, 8, 0x0102));
    assert_eq!(display.take_signals(), expected);
}

#[test]
fn a_line_that_leaves_the_panel_is_refused_like_its_window() {
    let mut display = display();
    assert_eq!(
        display.draw_line(0, 0, 240, 10, 1),
        Err(DisplayError::OutOfBounds { x1: 240, y1: 10, x2: 240, y2: 240 })
    );
    assert_eq!(
        display.draw_line(250, 0, 260, 10, 1),
        Err(DisplayError::OutOfBounds { x1: 250, y1: 0, x2: 240, y2: 240 })
    );
    assert_eq!(
        display.draw_line(300, 20, 10, 5, 1),
        Err(DisplayError::OutOfBounds { x1: 300, y1: 20, x2: 240, y2: 240 })
    );
    assert_eq!(
        display.draw_line(10, 400, 20, 300, 1),
        Err(DisplayError::OutOfBounds { x1: 10, y1: 300, x2: 240, y2: 240 })
    );
    assert!(display.take_signals().is_empty());
}

#[test]
fn a_circle_on_the_panel_streams_all_its_points() {
    let mut display = display();
    assert_eq!(display.draw_circle(50, 50, 10, 0x7BEF), Ok(()));
    let mut expected = Vec::new();
    for point in midpoint_circle(50, 50, 10) {
        expected.extend(pixel(point.x as u16, point.y as u16, 0x7BEF));
    }
    let signals = display.take_signals();
    assert_eq!(signals.len(), 60 * 30);
    assert_eq!(signals, expected);
}

#[test]
fn a_circle_stops_at_its_first_point_off_the_panel() {
    let mut display = display();
    assert_eq!(
        display.draw_circle(5, 5, 10, 0xFFFF),
        Err(DisplayError::OutOfBounds { x1: 6, y1: 65531, x2: 240, y2: 240 })
    );
    let mut expected = pixel(6, 15, 0xFFFF);
    expected.extend(pixel(4, 15, 0xFFFF));
    assert_eq!(display.take_signals(), expected);
}

#[test]
fn a_circle_past_the_right_edge_reports_the_point_as_it_is() {
    let mut display = display();
    assert_eq!(
        display.draw_circle(235, 100, 10, 0xFFFF),
        Err(DisplayError::OutOfBounds { x1: 245, y1: 101, x2: 240, y2: 240 })
    );
    assert_eq!(display.take_signals().len(), 4 * 30);
}

#[test]
fn a_circle_far_off_reports_coordinates_as_sixteen_bits_hold_them() {
    let mut display = display();
    assert_eq!(
        display.draw_circle(65535, 65535, 3, 1),
        Err(DisplayError::OutOfBounds { x1: 0, y1: 2, x2: 240, y2: 240 })
    );
    assert!(display.take_signals().is_empty());
    assert_eq!(
        display.draw_circle(0, 0, 0, 1),
        Ok(())
    );
    assert_eq!(display.take_signals().len(), 4 * 30);
}

#[test]
fn the_background_is_one_frame_sent_between_sleep_and_wake() {
    let mut display = display();
    assert_eq!(display.set_background(0x1F2E), Ok(()));
    let signals = display.take_signals();
    let mut expected = command(0x28);
    expected.extend(command(0x10));
    expected.extend(window(0, 0, 239, 239));
    expected.extend(data(&[0x1F, 0x2E].repeat(240 * 240)));
    expected.extend(command(0x11));
    expected.extend(command(0x29));
    assert_eq!(signals, expected);
    assert_eq!(signals.len(), 10 + 25 + 5 + 10);
    let sent: usize = signals
        .iter()
        .map(|signal| match signal {
            Signal::Write(bytes) => bytes.len(),
            _ => 0,
        })
        .sum();
    assert_eq!(sent, 2 + 11 + 115200 + 2);
    assert!(display.buffer().iter().all(|&byte| byte == 0));
}

#[test]
fn the_background_wakes_a_sleeping_panel() {
    let mut display = display();
    display.sleep().unwrap();
    display.take_signals();
    assert_eq!(display.set_background(0), Ok(()));
    assert!(!display.is_asleep());
    assert_eq!(display.take_signals().len(), 10 + 25 + 5 + 10);
}

#[test]
fn a_sleeping_panel_is_sent_no_pixels() {
    let asleep = Err(DisplayError::InvalidOperation("Display is asleep"));
    let mut display = display();
    display.sleep().unwrap();
    display.take_signals();
    assert_eq!(display.write_pixel(0, 0, 1), asleep);
    assert_eq!(display.write_pixel(240, 0, 1), asleep);
    assert_eq!(display.draw_line(0, 0, 5, 5, 1), asleep);
    assert_eq!(display.draw_line(5, 5, 0, 0, 1), asleep);
    assert_eq!(display.draw_circle(50, 50, 10, 1), asleep);
    assert_eq!(display.draw_circle(0, 0, 10, 1), asleep);
    assert_eq!(display.stream_iter(&[Pixel { x: 0, y: 0, color: 1 }]), asleep);
    assert_eq!(display.stream(&Line { x1: 0, y1: 0, x2: 9, y2: 9, color: 1 }), asleep);
    assert!(display.take_signals().is_empty());
    display.wake().unwrap();
    display.take_signals();
    assert_eq!(display.write_pixel(0, 0, 1), Ok(()));
}

#[test]
fn streamed_pixels_go_out_in_order_and_those_off_the_panel_are_dropped() {
    let mut display = display();
    let pixels = [
        Pixel { x: 3, y: 4, color: 0x1111 },
        Pixel { x: -1, y: 4, color: 0x2222 },
        Pixel { x: 240, y: 0, color: 0x3333 },
        Pixel { x: 239, y: 239, color: 0x4444 },
        Pixel { x: 0, y: 70000, color: 0x5555 },
        Pixel { x: 3, y: 4, color: 0x6666 },
    ];
    assert_eq!(display.stream_iter(&pixels), Ok(()));
    let mut expected = pixel(3, 4, 0x1111);
    expected.extend(pixel(239, 239, 0x4444));
    expected.extend(pixel(3, 4, 0x6666));
    assert_eq!(display.take_signals(), expected);
    assert!(display.buffer().iter().all(|&byte| byte == 0));
}

#[test]
fn a_figure_streams_the_pixels_it_would_draw() {
    let line = Line { x1: 230, y1: 10, x2: 250, y2: 14, color: 0xABCD };
    let disc = FilledCircle { x: 0, y: 0, diameter: 7, color: 0x0F0F };
    let ring = Circle { x: 100, y: 100, diameter: 9, color: 0x00FF };
    let text = Text {
        content: String::from("ok"),
        x: 120,
        y: 120,
        alignment: Alignment::Left,
        color: Color(255, 255, 255),
    };
    let runs = [line.rasterise(), disc.rasterise(), ring.rasterise(), text.rasterise()];
    let mut streamed = display();
    streamed.stream(&line).unwrap();
    streamed.stream(&disc).unwrap();
    streamed.stream(&ring).unwrap();
    streamed.stream(&text).unwrap();
    let mut expected = Vec::new();
    let mut drawn = display();
    for run in &runs {
        assert!(!run.is_empty());
        drawn.draw_iter(run).unwrap();
        for p in run {
            if (0..240).contains(&p.x) && (0..240).contains(&p.y) {
                expected.extend(pixel(p.x as u16, p.y as u16, p.color));
            }
        }
    }
    assert_eq!(streamed.take_signals(), expected);
    let mut figures = display();
    figures.draw(&line);
    figures.draw(&disc);
    figures.draw(&ring);
    figures.draw(&text);
    assert_eq!(figures.buffer(), drawn.buffer());
}

#[test]
fn the_background_keeps_the_settling_pause() {
    let mut display = display();
    display.set_settle_delay(120);
    assert_eq!(display.set_background(0xFFFF), Ok(()));
    let signals = display.take_signals();
    assert_eq!(signals.len(), 11 + 25 + 5 + 11);
    assert_eq!(signals[5], Signal::Delay(120));
    assert_eq!(signals[signals.len() - 6], Signal::Delay(120));
}
